use vstd::prelude::*;

verus! {

broadcast use vstd::string::group_string_axioms;

/// The character of a decimal digit.
pub open spec fn digit_char(d: nat) -> char {
    ((48 + d) as u32) as char
}

/// Decimal rendering of a natural number, most significant digit first.
pub open spec fn decimal(n: nat) -> Seq<char>
    decreases n,
{
    if n < 10 {
        seq![digit_char(n)]
    } else {
        decimal(n / 10).push(digit_char(n % 10))
    }
}

/// Appends one character to a string (`String::push`).
#[verifier::external_body]
pub(crate) fn push_char(s: &mut String, c: char)
    ensures
        final(s)@ == old(s)@.push(c),
{
    s.push(c);
}

/// The characters of a string slice, in order.
pub fn chars_of(s: &str) -> (v: Vec<char>)
    ensures
        v@ == s@,
{
    let mut v: Vec<char> = Vec::new();
    for c in it: s.chars()
        invariant
            v@ == it.seq().take(it.index()),
            it.seq() == s@,
    {
        v.push(c);
    }
    v
}


/// A string holding the characters `v[lo..hi]`.
pub fn string_from_chars(v: &Vec<char>, lo: usize, hi: usize) -> (s: String)
    requires
        lo <= hi <= v.len(),
    ensures
        s@ == v@.subrange(lo as int, hi as int),
{
    let mut s = String::new();
    let mut i = lo;
    while i < hi
        invariant
            lo <= i <= hi <= v.len(),
            s@ == v@.subrange(lo as int, i as int),
        decreases hi - i,
    {
        push_char(&mut s, v[i]);
        i = i + 1;
    }
    s
}

/// Appends the characters of `t` to `s`.
pub fn push_str(s: &mut String, t: &str)
    ensures
        final(s)@ == old(s)@ + t@,
{
    let ghost start = s@;
    for c in it: t.chars()
        invariant
            it.seq() == t@,
            s@ == start + it.seq().take(it.index()),
    {
        push_char(s, c);
    }
}

/// Appends the decimal digits of `n` to `s`.
pub fn push_decimal(s: &mut String, n: u64)
    ensures
        final(s)@ == old(s)@ + decimal(n as nat),
    decreases n,
{
    if n >= 10 {
        push_decimal(s, n / 10);
    }
    let d = (n % 10) as u8;
    push_char(s, (48u8 + d) as char);
}

/// The decimal rendering of `n` (what `n.to_string()` gives).
pub fn decimal_string(n: u64) -> (s: String)
    ensures
        s@ == decimal(n as nat),
{
    let mut s = String::new();
    push_decimal(&mut s, n);
    s
}


/// Unicode `White_Space`, the set that `char::is_whitespace` tests.
pub open spec fn is_ws(c: char) -> bool {
    let u = c as u32;
    (0x9 <= u <= 0xd) || u == 0x20 || u == 0x85 || u == 0xa0 || u == 0x1680
        || (0x2000 <= u <= 0x200a) || u == 0x2028 || u == 0x2029 || u == 0x202f
        || u == 0x205f || u == 0x3000
}

pub fn is_whitespace(c: char) -> (b: bool)
    ensures
        b == is_ws(c),
{
    let u = c as u32;
    (0x9 <= u && u <= 0xd) || u == 0x20 || u == 0x85 || u == 0xa0 || u == 0x1680 || (0x2000 <= u
        && u <= 0x200a) || u == 0x2028 || u == 0x2029 || u == 0x202f || u == 0x205f || u == 0x3000
}

/// The piece gathered so far, as a list of at most one item.
pub open spec fn flush(cur: Seq<char>) -> Seq<Seq<char>> {
    if cur.len() > 0 {
        seq![cur]
    } else {
        seq![]
    }
}

/// Maximal runs of non-whitespace characters of `s[i..]`, after the run `cur`
/// already gathered (what `split_whitespace` yields).
pub open spec fn words_from(s: Seq<char>, i: int, cur: Seq<char>) -> Seq<Seq<char>>
    decreases s.len() - i,
{
    if i >= s.len() || i < 0 {
        flush(cur)
    } else if is_ws(s[i]) {
        flush(cur) + words_from(s, i + 1, seq![])
    } else {
        words_from(s, i + 1, cur.push(s[i]))
    }
}

/// The whitespace-separated words of `s`.
pub open spec fn words(s: Seq<char>) -> Seq<Seq<char>> {
    words_from(s, 0, seq![])
}

/// Drops one trailing carriage return.
pub open spec fn strip_cr(t: Seq<char>) -> Seq<char> {
    if t.len() > 0 && t.last() == '\r' {
        t.drop_last()
    } else {
        t
    }
}

/// Lines of `s[i..]` after the partial line `cur`: split at `\n`, a `\r`
/// before the `\n` dropped, no empty last line after a final `\n`.
pub open spec fn lines_from(s: Seq<char>, i: int, cur: Seq<char>) -> Seq<Seq<char>>
    decreases s.len() - i,
{
    if i >= s.len() || i < 0 {
        flush(cur)
    } else if s[i] == '\n' {
        seq![strip_cr(cur)] + lines_from(s, i + 1, seq![])
    } else {
        lines_from(s, i + 1, cur.push(s[i]))
    }
}

/// The lines of `s` (what `str::lines` yields).
pub open spec fn lines(s: Seq<char>) -> Seq<Seq<char>> {
    lines_from(s, 0, seq![])
}

/// Pieces of `s[i..]` between separators, after the partial piece `cur`.
pub open spec fn split_from(s: Seq<char>, sep: char, i: int, cur: Seq<char>) -> Seq<Seq<char>>
    decreases s.len() - i,
{
    if i >= s.len() || i < 0 {
        seq![cur]
    } else if s[i] == sep {
        seq![cur] + split_from(s, sep, i + 1, seq![])
    } else {
        split_from(s, sep, i + 1, cur.push(s[i]))
    }
}

/// The pieces of `s` between occurrences of `sep` (what `str::split` with a
/// character yields); there is always at least one.
pub open spec fn split_on(s: Seq<char>, sep: char) -> Seq<Seq<char>> {
    split_from(s, sep, 0, seq![])
}

/// A copy of `v[lo..hi]`.
pub fn sub_chars(v: &Vec<char>, lo: usize, hi: usize) -> (r: Vec<char>)
    requires
        lo <= hi <= v.len(),
    ensures
        r@ == v@.subrange(lo as int, hi as int),
{
    let mut r: Vec<char> = Vec::new();
    let mut i = lo;
    while i < hi
        invariant
            lo <= i <= hi <= v.len(),
            r@ == v@.subrange(lo as int, i as int),
        decreases hi - i,
    {
        r.push(v[i]);
        i = i + 1;
    }
    r
}

/// The whitespace-separated words of `s`.
pub fn split_words(s: &Vec<char>) -> (ws: Vec<Vec<char>>)
    ensures
        ws@.len() == words(s@).len(),
        forall|k: int| 0 <= k < ws@.len() ==> #[trigger] ws@[k]@ == words(s@)[k],
{
    let mut ws: Vec<Vec<char>> = Vec::new();
    let mut cur: Vec<char> = Vec::new();
    let ghost mut done: Seq<Seq<char>> = seq![];
    let mut i: usize = 0;
    while i < s.len()
        invariant
            i <= s.len(),
            ws@.len() == done.len(),
            forall|k: int| 0 <= k < ws@.len() ==> #[trigger] ws@[k]@ == done[k],
            done + words_from(s@, i as int, cur@) == words(s@),
        decreases s.len() - i,
    {
        let c = s[i];
        if is_whitespace(c) {
            let ghost old_done = done;
            let ghost old_cur = cur@;
            if cur.len() > 0 {
                proof { done = done.push(cur@); }
                ws.push(cur);
                cur = Vec::new();
            }
            proof {
                assert(done =~= old_done + flush(old_cur));
                assert(old_done + (flush(old_cur) + words_from(s@, i + 1, seq![])) =~= done
                    + words_from(s@, i + 1, seq![]));
                assert(cur@ =~= seq![]);
            }
        } else {
            cur.push(c);
        }
        i = i + 1;
    }
    if cur.len() > 0 {
        proof { done = done.push(cur@); }
        ws.push(cur);
    }
    proof {
        assert(done =~= words(s@));
    }
    ws
}


/// The lines of `s`.
pub fn split_lines(s: &Vec<char>) -> (ls: Vec<Vec<char>>)
    ensures
        ls@.len() == lines(s@).len(),
        forall|k: int| 0 <= k < ls@.len() ==> #[trigger] ls@[k]@ == lines(s@)[k],
{
    let mut ls: Vec<Vec<char>> = Vec::new();
    let mut cur: Vec<char> = Vec::new();
    let ghost mut done: Seq<Seq<char>> = seq![];
    let mut i: usize = 0;
    while i < s.len()
        invariant
            i <= s.len(),
            ls@.len() == done.len(),
            forall|k: int| 0 <= k < ls@.len() ==> #[trigger] ls@[k]@ == done[k],
            done + lines_from(s@, i as int, cur@) == lines(s@),
        decreases s.len() - i,
    {
        let c = s[i];
        if c == '\n' {
            let ghost old_done = done;
            let ghost old_cur = cur@;
            if cur.len() > 0 && cur[cur.len() - 1] == '\r' {
                cur.pop();
            }
            proof {
                assert(cur@ =~= strip_cr(old_cur));
                done = done.push(cur@);
            }
            ls.push(cur);
            cur = Vec::new();
            proof {
                assert(old_done + (seq![strip_cr(old_cur)] + lines_from(s@, i + 1, seq![])) =~= done
                    + lines_from(s@, i + 1, seq![]));
                assert(cur@ =~= seq![]);
            }
        } else {
            cur.push(c);
        }
        i = i + 1;
    }
    if cur.len() > 0 {
        proof { done = done.push(cur@); }
        ls.push(cur);
    }
    proof {
        assert(done =~= lines(s@));
    }
    ls
}

/// The pieces of `s` between occurrences of `sep`.
pub fn split_char(s: &Vec<char>, sep: char) -> (ps: Vec<Vec<char>>)
    ensures
        ps@.len() == split_on(s@, sep).len(),
        forall|k: int| 0 <= k < ps@.len() ==> #[trigger] ps@[k]@ == split_on(s@, sep)[k],
{
    let mut ps: Vec<Vec<char>> = Vec::new();
    let mut cur: Vec<char> = Vec::new();
    let ghost mut done: Seq<Seq<char>> = seq![];
    let mut i: usize = 0;
    while i < s.len()
        invariant
            i <= s.len(),
            ps@.len() == done.len(),
            forall|k: int| 0 <= k < ps@.len() ==> #[trigger] ps@[k]@ == done[k],
            done + split_from(s@, sep, i as int, cur@) == split_on(s@, sep),
        decreases s.len() - i,
    {
        let c = s[i];
        if c == sep {
            let ghost old_done = done;
            let ghost old_cur = cur@;
            proof { done = done.push(cur@); }
            ps.push(cur);
            cur = Vec::new();
            proof {
                assert(old_done + (seq![old_cur] + split_from(s@, sep, i + 1, seq![])) =~= done
                    + split_from(s@, sep, i + 1, seq![]));
                assert(cur@ =~= seq![]);
            }
        } else {
            cur.push(c);
        }
        i = i + 1;
    }
    proof { done = done.push(cur@); }
    ps.push(cur);
    proof {
        assert(done =~= split_on(s@, sep));
    }
    ps
}

/// Whether two character sequences are equal.
pub fn chars_eq(a: &Vec<char>, b: &Vec<char>) -> (r: bool)
    ensures
        r == (a@ == b@),
{
    if a.len() != b.len() {
        return false;
    }
    let mut i: usize = 0;
    while i < a.len()
        invariant
            a.len() == b.len(),
            i <= a.len(),
            a@.take(i as int) == b@.take(i as int),
        decreases a.len() - i,
    {
        if a[i] != b[i] {
            proof {
                assert(a@[i as int] != b@[i as int]);
            }
            return false;
        }
        proof {
            assert(a@.take(i + 1) =~= a@.take(i as int).push(a@[i as int]));
            assert(b@.take(i + 1) =~= b@.take(i as int).push(b@[i as int]));
        }
        i = i + 1;
    }
    proof {
        assert(a@ =~= a@.take(i as int));
        assert(b@ =~= b@.take(i as int));
    }
    true
}

/// Whether the characters of `a` spell the string `b`.
pub fn chars_eq_str(a: &Vec<char>, b: &str) -> (r: bool)
    ensures
        r == (a@ == b@),
{
    let bv = chars_of(b);
    chars_eq(a, &bv)
}

/// `pat` occurs in `s` starting at `i`.
pub open spec fn occurs_at(s: Seq<char>, pat: Seq<char>, i: int) -> bool {
    0 <= i && i + pat.len() <= s.len() && s.subrange(i, i + pat.len()) == pat
}

/// `pat` occurs somewhere in `s` (what `str::contains` tests).
pub open spec fn has_substring(s: Seq<char>, pat: Seq<char>) -> bool {
    exists|i: int| occurs_at(s, pat, i)
}

/// Whether `pat` occurs in `s` at `i`.
fn matches_at(s: &Vec<char>, pat: &Vec<char>, i: usize) -> (r: bool)
    requires
        i + pat.len() <= s.len(),
    ensures
        r == occurs_at(s@, pat@, i as int),
{
    let mut k: usize = 0;
    while k < pat.len()
        invariant
            i + pat.len() <= s.len(),
            k <= pat.len(),
            forall|j: int| 0 <= j < k ==> s@[i + j] == pat@[j],
        decreases pat.len() - k,
    {
        if s[i + k] != pat[k] {
            proof {
                assert(s@.subrange(i as int, i + pat.len())[k as int] != pat@[k as int]);
            }
            return false;
        }
        k = k + 1;
    }
    proof {
        assert(s@.subrange(i as int, i + pat.len()) =~= pat@);
    }
    true
}

/// Whether `s` starts with `pat`.
pub fn matches_prefix(s: &Vec<char>, pat: &Vec<char>) -> (r: bool)
    requires
        pat.len() <= s.len(),
    ensures
        r == occurs_at(s@, pat@, 0),
{
    matches_at(s, pat, 0)
}

/// The first position at which `pat` occurs in `s`, if any (`str::find`,
/// counted in characters).
pub fn find_chars(s: &Vec<char>, pat: &Vec<char>) -> (r: Option<usize>)
    ensures
        r is Some <==> has_substring(s@, pat@),
        r matches Some(i) ==> occurs_at(s@, pat@, i as int) && forall|j: int|
            0 <= j < i ==> !#[trigger] occurs_at(s@, pat@, j),
{
    if pat.len() > s.len() {
        proof {
            assert forall|j: int| !#[trigger] occurs_at(s@, pat@, j) by {}
        }
        return None;
    }
    let last = s.len() - pat.len();
    let mut i: usize = 0;
    loop
        invariant
            pat.len() <= s.len(),
            last == s.len() - pat.len(),
            i <= last,
            forall|j: int| 0 <= j < i ==> !#[trigger] occurs_at(s@, pat@, j),
        ensures
            forall|j: int| 0 <= j <= last ==> !#[trigger] occurs_at(s@, pat@, j),
        decreases last - i,
    {
        if matches_at(s, pat, i) {
            return Some(i);
        }
        if i == last {
            break;
        }
        i = i + 1;
    }
    proof {
        assert forall|j: int| !#[trigger] occurs_at(s@, pat@, j) by {
            if 0 <= j <= last {
            }
        }
    }
    None
}

/// Whether `pat` occurs in `s` (`str::contains`).
pub fn contains_chars(s: &Vec<char>, pat: &Vec<char>) -> (r: bool)
    ensures
        r == has_substring(s@, pat@),
{
    find_chars(s, pat).is_some()
}

/// The last position holding `c`, if any (`str::rfind` with a character,
/// counted in characters).
pub fn rfind_char(s: &Vec<char>, c: char) -> (r: Option<usize>)
    ensures
        r is None ==> forall|j: int| 0 <= j < s@.len() ==> s@[j] != c,
        r matches Some(i) ==> i < s@.len() && s@[i as int] == c && forall|j: int|
            i < j < s@.len() ==> s@[j] != c,
{
    let mut i: usize = s.len();
    while i > 0
        invariant
            i <= s.len(),
            forall|j: int| i <= j < s@.len() ==> s@[j] != c,
        decreases i,
    {
        if s[i - 1] == c {
            return Some(i - 1);
        }
        i = i - 1;
    }
    None
}

/// The first position holding `c`, if any.
pub fn find_char(s: &Vec<char>, c: char) -> (r: Option<usize>)
    ensures
        r is None ==> forall|j: int| 0 <= j < s@.len() ==> s@[j] != c,
        r matches Some(i) ==> i < s@.len() && s@[i as int] == c && forall|j: int|
            0 <= j < i ==> s@[j] != c,
{
    let mut i: usize = 0;
    while i < s.len()
        invariant
            i <= s.len(),
            forall|j: int| 0 <= j < i ==> s@[j] != c,
        decreases s.len() - i,
    {
        if s[i] == c {
            return Some(i);
        }
        i = i + 1;
    }
    None
}


/// The value of `c` as a digit in `radix` (at most 16), if it is one.
pub open spec fn digit_value(c: char, radix: nat) -> Option<nat> {
    let u = c as u32;
    let v: int = if 48 <= u <= 57 {
        u - 48
    } else if 97 <= u <= 102 {
        u - 87
    } else if 65 <= u <= 70 {
        u - 55
    } else {
        99
    };
    if v < radix {
        Some(v as nat)
    } else {
        None
    }
}

/// Every character of `d` is a digit in `radix`.
pub open spec fn all_digits(d: Seq<char>, radix: nat) -> bool {
    forall|i: int| 0 <= i < d.len() ==> #[trigger] digit_value(d[i], radix) is Some
}

/// The number that the digit string `d` denotes in `radix`.
pub open spec fn digits_value(d: Seq<char>, radix: nat) -> nat
    decreases d.len(),
{
    if d.len() == 0 {
        0
    } else {
        digits_value(d.drop_last(), radix) * radix + match digit_value(d.last(), radix) {
            Some(v) => v,
            None => 0,
        }
    }
}

/// What parsing `s` as an unsigned integer with largest value `max` gives:
/// an optional `+`, then at least one digit, and a value in range.
pub open spec fn parse_unsigned(s: Seq<char>, radix: nat, max: nat) -> Option<nat> {
    let d = if s.len() > 0 && s[0] == '+' {
        s.drop_first()
    } else {
        s
    };
    if d.len() > 0 && all_digits(d, radix) && digits_value(d, radix) <= max {
        Some(digits_value(d, radix))
    } else {
        None
    }
}

fn digit_of(c: char, radix: u32) -> (r: Option<u32>)
    requires
        radix <= 16,
    ensures
        r matches Some(v) ==> digit_value(c, radix as nat) == Some(v as nat),
        r is None ==> digit_value(c, radix as nat) is None,
{
    let u = c as u32;
    let v: u32 = if 48 <= u && u <= 57 {
        u - 48
    } else if 97 <= u && u <= 102 {
        u - 87
    } else if 65 <= u && u <= 70 {
        u - 55
    } else {
        99
    };
    if v < radix {
        Some(v)
    } else {
        None
    }
}

/// Parses `s` as an unsigned integer in `radix` whose largest value is `max`
/// (`from_str_radix` / `str::parse` for unsigned types).
pub fn parse_unsigned_chars(s: &Vec<char>, radix: u32, max: u64) -> (r: Option<u64>)
    requires
        2 <= radix <= 16,
    ensures
        r matches Some(v) ==> parse_unsigned(s@, radix as nat, max as nat) == Some(v as nat),
        r is None ==> parse_unsigned(s@, radix as nat, max as nat) is None,
{
    let start: usize = if s.len() > 0 && s[0] == '+' { 1 } else { 0 };
    let ghost d = if s@.len() > 0 && s@[0] == '+' { s@.drop_first() } else { s@ };
    if start == s.len() {
        return None;
    }
    let cap: u128 = max as u128 + 1;
    let mut acc: u128 = 0;
    let mut i: usize = start;
    while i < s.len()
        invariant
            start <= i <= s.len(),
            d =~= s@.subrange(start as int, s@.len() as int),
            d == (if s@.len() > 0 && s@[0] == '+' { s@.drop_first() } else { s@ }),
            2 <= radix <= 16,
            cap == max + 1,
            acc == if digits_value(d.take(i - start), radix as nat) < cap {
                digits_value(d.take(i - start), radix as nat)
            } else {
                cap as nat
            },
            all_digits(d.take(i - start), radix as nat),
        decreases s.len() - i,
    {
        match digit_of(s[i], radix) {
            None => {
                proof {
                    assert(digit_value(d[i - start], radix as nat) is None);
                    assert(!all_digits(d, radix as nat));
                }
                return None;
            },
            Some(v) => {
                let ghost k = i - start;
                proof {
                    assert(d.take(k + 1).drop_last() =~= d.take(k));
                    assert(d.take(k + 1).last() == d[k]);
                    let a = digits_value(d.take(k), radix as nat);
                    assert(digits_value(d.take(k + 1), radix as nat) == a * radix + v);
                    let b = if a < cap { a } else { cap as nat };
                    assert((if b * radix + v < cap { b * radix + v } else { cap as int }) == (if a
                        * radix + v < cap { a * radix + v } else { cap as int })) by (nonlinear_arith)
                        requires
                            b == if a < cap { a } else { cap as nat },
                            radix >= 2,
                            v >= 0,
                            cap >= 1,
                            a >= 0,
                    ;
                    assert forall|j: int| 0 <= j < k + 1 implies #[trigger] digit_value(
                        d.take(k + 1)[j],
                        radix as nat,
                    ) is Some by {
                        if j < k {
                            assert(d.take(k + 1)[j] == d.take(k)[j]);
                        }
                    }
                    assert(acc * radix + v <= cap * 16 + 16) by (nonlinear_arith)
                        requires acc <= cap, radix <= 16, v < 16;
                }
                let next = acc * (radix as u128) + (v as u128);
                acc = if next < cap { next } else { cap };
            },
        }
        i = i + 1;
    }
    proof {
        assert(d.take(i - start) =~= d);
    }
    if acc < cap {
        Some(acc as u64)
    } else {
        None
    }
}


/// The lowercase mapping of `s`, as `str::to_lowercase` computes it (Unicode
/// case mapping; the mapping itself is not spelled out here).
pub uninterp spec fn lowercase(s: Seq<char>) -> Seq<char>;

/// `str::to_lowercase` on the string that `v` spells; the result is the
/// named mapping `lowercase` of the input and nothing more is claimed.
#[verifier::external_body]
pub(crate) fn to_lowercase_chars(v: &Vec<char>) -> (r: Vec<char>)
    ensures
        r@ == lowercase(v@),
{
    let s: String = v.iter().collect();
    s.to_lowercase().chars().collect()
}


/// `String::pop`: drops the last character, if any.
#[verifier::external_body]
pub(crate) fn pop_char(s: &mut String)
    ensures
        final(s)@ == if old(s)@.len() > 0 { old(s)@.drop_last() } else { old(s)@ },
{
    s.pop();
}

/// `prefix`, then the decimal digits of `n`, then `suffix`.
pub fn number_text(prefix: &str, n: u64, suffix: &str) -> (s: String)
    ensures
        s@ == prefix@ + decimal(n as nat) + suffix@,
{
    let mut s = String::new();
    push_str(&mut s, prefix);
    push_decimal(&mut s, n);
    push_str(&mut s, suffix);
    proof {
        assert(s@ =~= prefix@ + decimal(n as nat) + suffix@);
    }
    s
}

/// `a` followed by the characters `b`, then `c`.
pub fn chars_text(a: &str, b: &Vec<char>, c: &str) -> (s: String)
    ensures
        s@ == a@ + b@ + c@,
{
    let mut s = String::new();
    push_str(&mut s, a);
    let mut i: usize = 0;
    while i < b.len()
        invariant
            i <= b.len(),
            s@ == a@ + b@.take(i as int),
        decreases b.len() - i,
    {
        push_char(&mut s, b[i]);
        proof {
            assert(b@.take(i + 1) =~= b@.take(i as int).push(b@[i as int]));
        }
        i = i + 1;
    }
    push_str(&mut s, c);
    proof {
        assert(b@.take(i as int) =~= b@);
        assert(s@ =~= a@ + b@ + c@);
    }
    s
}

/// Words joined with single spaces.
pub open spec fn join_words(ws: Seq<Seq<char>>) -> Seq<char>
    decreases ws.len(),
{
    if ws.len() == 0 {
        seq![]
    } else if ws.len() == 1 {
        ws[0]
    } else {
        join_words(ws.drop_last()) + seq![' '] + ws.last()
    }
}

/// `ws[from..]` joined with single spaces (`join(" ")`).
pub fn join_words_from(ws: &Vec<Vec<char>>, from: usize) -> (s: String)
    requires
        from <= ws.len(),
    ensures
        s@ == join_words(ws@.subrange(from as int, ws@.len() as int).map_values(|w: Vec<char>| w@)),
{
    let ghost views = ws@.map_values(|w: Vec<char>| w@);
    let mut s = String::new();
    let mut k = from;
    while k < ws.len()
        invariant
            from <= k <= ws.len(),
            views == ws@.map_values(|w: Vec<char>| w@),
            s@ == join_words(views.subrange(from as int, k as int)),
        decreases ws.len() - k,
    {
        let ghost before = s@;
        if k > from {
            push_char(&mut s, ' ');
        }
        let w = &ws[k];
        let mut i: usize = 0;
        while i < w.len()
            invariant
                i <= w.len(),
                s@ == (if k > from { before.push(' ') } else { before }) + w@.take(i as int),
            decreases w.len() - i,
        {
            push_char(&mut s, w[i]);
            proof {
                assert(w@.take(i + 1) =~= w@.take(i as int).push(w@[i as int]));
            }
            i = i + 1;
        }
        proof {
            assert(w@.take(i as int) =~= w@);
            let part = views.subrange(from as int, k + 1);
            assert(part.drop_last() =~= views.subrange(from as int, k as int));
            assert(part.last() == w@);
            if k > from {
                assert(s@ =~= join_words(part.drop_last()) + seq![' '] + part.last());
            } else {
                assert(part.len() == 1);
                assert(s@ =~= part[0]);
            }
        }
        k = k + 1;
    }
    proof {
        assert(ws@.subrange(from as int, ws@.len() as int).map_values(|w: Vec<char>| w@) =~= views.subrange(from as int, ws@.len() as int));
    }
    s
}


/// A string holding the characters of `s`.
pub fn text(s: &str) -> (r: String)
    ensures
        r@ == s@,
{
    let mut r = String::new();
    push_str(&mut r, s);
    proof {
        assert(r@ =~= s@);
    }
    r
}

/// `prefix` followed by the decimal digits of `n`.
pub fn prefixed_number(prefix: &str, n: u64) -> (s: String)
    ensures
        s@ == prefix@ + decimal(n as nat),
{
    let mut s = text(prefix);
    push_decimal(&mut s, n);
    s
}

/// `prefix` followed by the characters `b`.
pub fn prefixed_chars(prefix: &str, b: &Vec<char>) -> (s: String)
    ensures
        s@ == prefix@ + b@,
{
    let mut s = text(prefix);
    let mut i: usize = 0;
    while i < b.len()
        invariant
            i <= b.len(),
            s@ == prefix@ + b@.take(i as int),
        decreases b.len() - i,
    {
        push_char(&mut s, b[i]);
        proof {
            assert(b@.take(i + 1) =~= b@.take(i as int).push(b@[i as int]));
        }
        i = i + 1;
    }
    proof {
        assert(b@.take(i as int) =~= b@);
    }
    s
}


/// Position of the last `c` in `s`, or -1.
pub open spec fn last_pos(s: Seq<char>, c: char) -> int
    decreases s.len(),
{
    if s.len() == 0 {
        -1
    } else if s.last() == c {
        s.len() - 1
    } else {
        last_pos(s.drop_last(), c)
    }
}

/// `last_pos` (`str::rfind` with a character, counted in characters).
pub fn last_index_of(s: &Vec<char>, c: char) -> (r: Option<usize>)
    ensures
        r is None ==> last_pos(s@, c) == -1,
        r matches Some(i) ==> last_pos(s@, c) == i && i < s@.len(),
{
    let mut i: usize = s.len();
    proof {
        assert(s@.take(i as int) =~= s@);
    }
    while i > 0
        invariant
            i <= s.len(),
            last_pos(s@, c) == last_pos(s@.take(i as int), c),
        decreases i,
    {
        proof {
            assert(s@.take(i as int).drop_last() =~= s@.take(i - 1));
        }
        if s[i - 1] == c {
            return Some(i - 1);
        }
        i = i - 1;
    }
    None
}

/// Position of the first occurrence of `pat` in `s` at or after `i`, if any.
pub open spec fn first_pos_from(s: Seq<char>, pat: Seq<char>, i: int) -> Option<int>
    decreases s.len() + 1 - i,
{
    if i < 0 || i + pat.len() > s.len() {
        None
    } else if occurs_at(s, pat, i) {
        Some(i)
    } else {
        first_pos_from(s, pat, i + 1)
    }
}

/// A position that `first_pos_from` reports is an occurrence.
pub proof fn lemma_first_pos_occurs(s: Seq<char>, pat: Seq<char>, i: int)
    ensures
        first_pos_from(s, pat, i) matches Some(k) ==> occurs_at(s, pat, k) && i <= k,
    decreases s.len() + 1 - i,
{
    if !(i < 0 || i + pat.len() > s.len()) && !occurs_at(s, pat, i) {
        lemma_first_pos_occurs(s, pat, i + 1);
    }
}

/// Position of the first occurrence of `pat` in `s` (`str::find`, counted
/// in characters).
pub fn first_index_of(s: &Vec<char>, pat: &Vec<char>) -> (r: Option<usize>)
    ensures
        r matches Some(i) ==> first_pos_from(s@, pat@, 0) == Some(i as int) && i + pat@.len() <= s@.len(),
        r is None ==> first_pos_from(s@, pat@, 0) is None,
{
    if pat.len() > s.len() {
        return None;
    }
    let last = s.len() - pat.len();
    let mut i: usize = 0;
    loop
        invariant
            pat.len() <= s.len(),
            last == s.len() - pat.len(),
            i <= last,
            first_pos_from(s@, pat@, 0) == first_pos_from(s@, pat@, i as int),
        decreases last - i,
    {
        if matches_at(s, pat, i) {
            proof {
                lemma_first_pos_occurs(s@, pat@, i as int);
            }
            return Some(i);
        }
        if i == last {
            return None;
        }
        i = i + 1;
    }
}

/// `s` without its leading `c`s (`trim_start_matches` with a character).
pub open spec fn strip_leading(s: Seq<char>, c: char) -> Seq<char>
    decreases s.len(),
{
    if s.len() > 0 && s[0] == c {
        strip_leading(s.drop_first(), c)
    } else {
        s
    }
}

/// `s` without its trailing `c`s (`trim_end_matches` with a character).
pub open spec fn strip_trailing(s: Seq<char>, c: char) -> Seq<char>
    decreases s.len(),
{
    if s.len() > 0 && s.last() == c {
        strip_trailing(s.drop_last(), c)
    } else {
        s
    }
}

/// `strip_leading` then `strip_trailing`.
pub fn strip_around(s: &Vec<char>, open: char, close: char) -> (r: Vec<char>)
    ensures
        r@ == strip_trailing(strip_leading(s@, open), close),
{
    let mut lo: usize = 0;
    proof {
        assert(s@.skip(0) =~= s@);
    }
    while lo < s.len() && s[lo] == open
        invariant
            lo <= s.len(),
            strip_leading(s@, open) == strip_leading(s@.skip(lo as int), open),
        decreases s.len() - lo,
    {
        proof {
            assert(s@.skip(lo as int).drop_first() =~= s@.skip(lo + 1));
        }
        lo = lo + 1;
    }
    let ghost mid = s@.skip(lo as int);
    proof {
        assert(strip_leading(s@, open) == mid);
    }
    let mut hi: usize = s.len();
    while hi > lo && s[hi - 1] == close
        invariant
            lo <= hi <= s.len(),
            mid == s@.skip(lo as int),
            strip_trailing(mid, close) == strip_trailing(s@.subrange(lo as int, hi as int), close),
        decreases hi,
    {
        proof {
            assert(s@.subrange(lo as int, hi as int).drop_last() =~= s@.subrange(lo as int, hi - 1));
        }
        hi = hi - 1;
    }
    proof {
        assert(mid =~= s@.subrange(lo as int, s@.len() as int));
    }
    sub_chars(s, lo, hi)
}

/// Number of bytes that `c` takes in UTF-8.
pub open spec fn utf8_width(c: char) -> nat {
    let u = c as u32;
    if u < 0x80 {
        1
    } else if u < 0x800 {
        2
    } else if u < 0x10000 {
        3
    } else {
        4
    }
}

/// Number of bytes that `s` takes in UTF-8 (`str::len`).
pub open spec fn utf8_len(s: Seq<char>) -> nat
    decreases s.len(),
{
    if s.len() == 0 {
        0
    } else {
        utf8_len(s.drop_last()) + utf8_width(s.last())
    }
}

/// Whether `s` takes exactly `n` bytes in UTF-8.
pub fn has_utf8_len(s: &Vec<char>, n: usize) -> (r: bool)
    ensures
        r == (utf8_len(s@) == n),
{
    let mut total: usize = 0;
    let mut i: usize = 0;
    while i < s.len()
        invariant
            i <= s.len(),
            total == utf8_len(s@.take(i as int)),
            total <= n,
        decreases s.len() - i,
    {
        proof {
            assert(s@.take(i + 1).drop_last() =~= s@.take(i as int));
        }
        let u = s[i] as u32;
        let w: usize = if u < 0x80 { 1 } else if u < 0x800 { 2 } else if u < 0x10000 { 3 } else { 4 };
        if w > n - total {
            proof {
                lemma_utf8_len_prefix(s@, i + 1);
            }
            return false;
        }
        total = total + w;
        i = i + 1;
    }
    proof {
        assert(s@.take(i as int) =~= s@);
    }
    total == n
}

/// A longer prefix never takes fewer bytes.
pub proof fn lemma_utf8_len_prefix(s: Seq<char>, k: int)
    requires
        0 <= k <= s.len(),
    ensures
        utf8_len(s.take(k)) <= utf8_len(s),
    decreases s.len() - k,
{
    if k < s.len() {
        lemma_utf8_len_prefix(s, k + 1);
        assert(s.take(k + 1).drop_last() =~= s.take(k));
    } else {
        assert(s.take(k) =~= s);
    }
}

/// The present items of `s`, in order.
pub open spec fn keep_some<T>(s: Seq<Option<T>>) -> Seq<T>
    decreases s.len(),
{
    if s.len() == 0 {
        seq![]
    } else {
        let rest = keep_some(s.drop_last());
        match s.last() {
            Some(x) => rest.push(x),
            None => rest,
        }
    }
}

/// `s` without its first `n` items (none left when it has fewer).
pub open spec fn after<T>(s: Seq<T>, n: nat) -> Seq<T> {
    if s.len() <= n {
        seq![]
    } else {
        s.skip(n as int)
    }
}


/// `s` without the leading characters that satisfy `p`.
pub open spec fn trim_start_by(s: Seq<char>, p: spec_fn(char) -> bool) -> Seq<char>
    decreases s.len(),
{
    if s.len() > 0 && p(s[0]) {
        trim_start_by(s.drop_first(), p)
    } else {
        s
    }
}

/// `s` without the trailing characters that satisfy `p`.
pub open spec fn trim_end_by(s: Seq<char>, p: spec_fn(char) -> bool) -> Seq<char>
    decreases s.len(),
{
    if s.len() > 0 && p(s.last()) {
        trim_end_by(s.drop_last(), p)
    } else {
        s
    }
}

/// `s` without leading and trailing characters that satisfy `p`
/// (`str::trim_matches`; `str::trim` when `p` is `is_ws`).
pub open spec fn trim_by(s: Seq<char>, p: spec_fn(char) -> bool) -> Seq<char> {
    trim_end_by(trim_start_by(s, p), p)
}

/// The characters that a trim removes: whitespace when `ws` holds, and
/// those listed in `set`.
pub open spec fn trim_class(ws: bool, set: Seq<char>) -> spec_fn(char) -> bool {
    |c: char| (ws && is_ws(c)) || set.contains(c)
}

fn in_class(c: char, ws: bool, set: &Vec<char>) -> (r: bool)
    ensures
        r == (trim_class(ws, set@))(c),
{
    if ws && is_whitespace(c) {
        return true;
    }
    let mut i: usize = 0;
    while i < set.len()
        invariant
            i <= set.len(),
            forall|j: int| 0 <= j < i ==> set@[j] != c,
        decreases set.len() - i,
    {
        if set[i] == c {
            return true;
        }
        i = i + 1;
    }
    false
}

/// `v[lo..hi]` without leading and trailing characters of the class
/// (whitespace when `ws` holds, and the characters of `set`).
pub fn trim_range(v: &Vec<char>, lo: usize, hi: usize, ws: bool, set: &Vec<char>) -> (r: Vec<char>)
    requires
        lo <= hi <= v.len(),
    ensures
        r@ == trim_by(v@.subrange(lo as int, hi as int), trim_class(ws, set@)),
{
    let ghost p = trim_class(ws, set@);
    let mut a = lo;
    while a < hi && in_class(v[a], ws, set)
        invariant
            lo <= a <= hi <= v.len(),
            p == trim_class(ws, set@),
            trim_start_by(v@.subrange(lo as int, hi as int), p) == trim_start_by(v@.subrange(a as int, hi as int), p),
        decreases hi - a,
    {
        proof {
            assert(v@.subrange(a as int, hi as int).drop_first() =~= v@.subrange(a + 1, hi as int));
        }
        a = a + 1;
    }
    let ghost mid = v@.subrange(a as int, hi as int);
    proof {
        assert(trim_start_by(mid, p) == mid);
    }
    let mut b = hi;
    while b > a && in_class(v[b - 1], ws, set)
        invariant
            lo <= a <= b <= hi <= v.len(),
            p == trim_class(ws, set@),
            mid == v@.subrange(a as int, hi as int),
            trim_end_by(mid, p) == trim_end_by(v@.subrange(a as int, b as int), p),
        decreases b,
    {
        proof {
            assert(v@.subrange(a as int, b as int).drop_last() =~= v@.subrange(a as int, b - 1));
        }
        b = b - 1;
    }
    sub_chars(v, a, b)
}

/// `c` is an ASCII digit.
pub open spec fn is_digit(c: char) -> bool {
    '0' <= c && c <= '9'
}

/// ASCII letters lowered; every other character kept.
pub open spec fn ascii_lower(c: char) -> char {
    if 'A' <= c && c <= 'Z' {
        ((c as u32) + 32) as char
    } else {
        c
    }
}

/// Every character of `s` is an ASCII digit.
pub open spec fn digits_only(s: Seq<char>) -> bool {
    forall|i: int| 0 <= i < s.len() ==> #[trigger] is_digit(s[i])
}

/// A decimal mantissa: digits, at most one point, at least one digit.
pub open spec fn is_mantissa(m: Seq<char>) -> bool {
    match first_pos_from(m, seq!['.'], 0) {
        Some(d) => digits_only(m.take(d)) && digits_only(m.skip(d + 1)) && m.len() > 1,
        None => digits_only(m) && m.len() > 0,
    }
}

/// An exponent after the `e`: an optional sign, then at least one digit.
pub open spec fn is_exponent(x: Seq<char>) -> bool {
    let body = if x.len() > 0 && (x[0] == '+' || x[0] == '-') { x.drop_first() } else { x };
    body.len() > 0 && digits_only(body)
}

/// What the float grammar accepts of a lowercased text after its sign:
/// `inf`, `infinity`, `nan`, or a mantissa with an optional exponent.
pub open spec fn is_float_body(b: Seq<char>) -> bool {
    b == "inf"@ || b == "infinity"@ || b == "nan"@ || match first_pos_from(b, seq!['e'], 0) {
        Some(e) => is_mantissa(b.take(e)) && is_exponent(b.skip(e + 1)),
        None => is_mantissa(b),
    }
}

/// `s` is a floating-point literal that `str::parse` turns into a float:
/// an optional sign, then (ignoring ASCII case) `inf`, `infinity`, `nan`, or
/// digits with at most one point and at least one digit, followed by an
/// optional exponent `e`, sign, digits.
pub open spec fn is_float_text(s: Seq<char>) -> bool {
    let t = s.map_values(|c: char| ascii_lower(c));
    let b = if t.len() > 0 && (t[0] == '+' || t[0] == '-') { t.drop_first() } else { t };
    is_float_body(b)
}

/// A one-character sequence.
pub fn one_char(c: char) -> (v: Vec<char>)
    ensures
        v@ == seq![c],
{
    let mut v: Vec<char> = Vec::new();
    v.push(c);
    proof {
        assert(v@ =~= seq![c]);
    }
    v
}

fn all_digits_in(v: &Vec<char>, lo: usize, hi: usize) -> (r: bool)
    requires
        lo <= hi <= v.len(),
    ensures
        r == digits_only(v@.subrange(lo as int, hi as int)),
{
    let mut i = lo;
    while i < hi
        invariant
            lo <= i <= hi <= v.len(),
            forall|j: int| lo <= j < i ==> is_digit(v@[j]),
        decreases hi - i,
    {
        if !('0' <= v[i] && v[i] <= '9') {
            proof {
                assert(!is_digit(v@.subrange(lo as int, hi as int)[i - lo]));
            }
            return false;
        }
        i = i + 1;
    }
    proof {
        assert forall|j: int| 0 <= j < hi - lo implies #[trigger] is_digit(v@.subrange(lo as int, hi as int)[j]) by {
            assert(v@.subrange(lo as int, hi as int)[j] == v@[lo + j]);
        }
    }
    true
}

fn mantissa_ok(v: &Vec<char>) -> (r: bool)
    ensures
        r == is_mantissa(v@),
{
    let dot = one_char('.');
    match first_index_of(v, &dot) {
        Some(d) => {
            proof {
                assert(v@.subrange(0, d as int) =~= v@.take(d as int));
                assert(v@.subrange(d + 1, v@.len() as int) =~= v@.skip(d + 1));
            }
            all_digits_in(v, 0, d) && all_digits_in(v, d + 1, v.len()) && v.len() > 1
        },
        None => {
            proof {
                assert(v@.subrange(0, v@.len() as int) =~= v@);
            }
            all_digits_in(v, 0, v.len()) && v.len() > 0
        },
    }
}

fn exponent_ok(v: &Vec<char>) -> (r: bool)
    ensures
        r == is_exponent(v@),
{
    let start: usize = if v.len() > 0 && (v[0] == '+' || v[0] == '-') { 1 } else { 0 };
    proof {
        if start == 1 {
            assert(v@.subrange(1, v@.len() as int) =~= v@.drop_first());
        } else {
            assert(v@.subrange(0, v@.len() as int) =~= v@);
        }
    }
    v.len() > start && all_digits_in(v, start, v.len())
}

fn float_body_ok(b: &Vec<char>) -> (r: bool)
    ensures
        r == is_float_body(b@),
{
    if chars_eq_str(b, "inf") || chars_eq_str(b, "infinity") || chars_eq_str(b, "nan") {
        return true;
    }
    let e = one_char('e');
    match first_index_of(b, &e) {
        Some(k) => {
            let n = b.len();
            let m = sub_chars(b, 0, k);
            let x = sub_chars(b, k + 1, n);
            proof {
                assert(m@ =~= b@.take(k as int));
                assert(x@ =~= b@.skip(k + 1));
            }
            mantissa_ok(&m) && exponent_ok(&x)
        },
        None => mantissa_ok(b),
    }
}

/// Whether `s` is a floating-point literal (see `is_float_text`).
pub fn float_text_ok(s: &Vec<char>) -> (r: bool)
    ensures
        r == is_float_text(s@),
{
    let mut t: Vec<char> = Vec::new();
    let mut i: usize = 0;
    while i < s.len()
        invariant
            i <= s.len(),
            t@ =~= s@.take(i as int).map_values(|c: char| ascii_lower(c)),
        decreases s.len() - i,
    {
        let c = s[i];
        let l = if 'A' <= c && c <= 'Z' { ((c as u32) + 32) as u8 as char } else { c };
        proof {
            assert(l == ascii_lower(c)) by {
                if 'A' <= c && c <= 'Z' {
                    assert((c as u32) + 32 < 256);
                }
            }
        }
        t.push(l);
        i = i + 1;
    }
    proof {
        assert(s@.take(i as int) =~= s@);
    }
    if t.len() > 0 && (t[0] == '+' || t[0] == '-') {
        let n = t.len();
        let b = sub_chars(&t, 1, n);
        proof {
            assert(b@ =~= t@.drop_first());
        }
        float_body_ok(&b)
    } else {
        float_body_ok(&t)
    }
}

} // verus!
