use vstd::prelude::*;

verus! {

/// `a` sorts strictly before `b` in code-point order, comparing character by
/// character (the order `String`'s `cmp` gives).
pub open spec fn lex_lt(a: Seq<char>, b: Seq<char>) -> bool
    decreases a.len(),
{
    if b.len() == 0 {
        false
    } else if a.len() == 0 {
        true
    } else if a[0] != b[0] {
        (a[0] as int) < (b[0] as int)
    } else {
        lex_lt(a.drop_first(), b.drop_first())
    }
}

pub proof fn lemma_lex_irreflexive(a: Seq<char>)
    ensures
        !lex_lt(a, a),
    decreases a.len(),
{
    if a.len() > 0 {
        lemma_lex_irreflexive(a.drop_first());
    }
}

pub proof fn lemma_lex_total(a: Seq<char>, b: Seq<char>)
    ensures
        a != b ==> lex_lt(a, b) || lex_lt(b, a),
        !(lex_lt(a, b) && lex_lt(b, a)),
    decreases a.len(),
{
    if a.len() > 0 && b.len() > 0 {
        if a[0] == b[0] {
            lemma_lex_total(a.drop_first(), b.drop_first());
            if a != b {
                if a.drop_first() == b.drop_first() {
                    assert(a =~= seq![a[0]] + a.drop_first());
                    assert(b =~= seq![b[0]] + b.drop_first());
                }
            }
        } else {
            assert((a[0] as int) != (b[0] as int));
        }
    } else if a.len() == 0 && b.len() == 0 {
        assert(a =~= b);
    }
}

pub proof fn lemma_lex_transitive(a: Seq<char>, b: Seq<char>, c: Seq<char>)
    requires
        lex_lt(a, b),
        lex_lt(b, c),
    ensures
        lex_lt(a, c),
    decreases a.len(),
{
    if a.len() > 0 && b.len() > 0 && c.len() > 0 {
        if a[0] == b[0] && b[0] == c[0] {
            lemma_lex_transitive(a.drop_first(), b.drop_first(), c.drop_first());
        }
    }
}

/// A key that rows are ordered by: a number, or a text compared as strings are.
pub enum SortKey {
    Num(u64),
    Text(Vec<char>),
}

/// The value of a sort key.
pub enum KeyVal {
    Num(int),
    Text(Seq<char>),
}

impl vstd::view::View for SortKey {
    type V = KeyVal;

    open spec fn view(&self) -> KeyVal {
        match self {
            SortKey::Num(x) => KeyVal::Num(*x as int),
            SortKey::Text(v) => KeyVal::Text(v@),
        }
    }
}

/// The values of a list of keys.
pub open spec fn key_vals(keys: Seq<SortKey>) -> Seq<KeyVal> {
    keys.map_values(|k: SortKey| k@)
}

/// `a` is strictly below `b`; every number is below every text.
pub open spec fn key_lt(a: KeyVal, b: KeyVal) -> bool {
    match (a, b) {
        (KeyVal::Num(x), KeyVal::Num(y)) => x < y,
        (KeyVal::Text(x), KeyVal::Text(y)) => lex_lt(x, y),
        (KeyVal::Num(_), KeyVal::Text(_)) => true,
        (KeyVal::Text(_), KeyVal::Num(_)) => false,
    }
}

pub proof fn lemma_key_order(a: KeyVal, b: KeyVal)
    ensures
        !key_lt(a, a),
        a != b ==> (key_lt(a, b) || key_lt(b, a)),
        !(key_lt(a, b) && key_lt(b, a)),
{
    match (a, b) {
        (KeyVal::Text(x), KeyVal::Text(y)) => {
            lemma_lex_irreflexive(x);
            lemma_lex_total(x, y);
        },
        (KeyVal::Text(x), _) => {
            lemma_lex_irreflexive(x);
        },
        _ => {},
    }
}

pub proof fn lemma_key_transitive(a: KeyVal, b: KeyVal, c: KeyVal)
    ensures
        key_lt(a, b) && key_lt(b, c) ==> key_lt(a, c),
{
    match (a, b, c) {
        (KeyVal::Text(x), KeyVal::Text(y), KeyVal::Text(z)) => {
            if lex_lt(x, y) && lex_lt(y, z) {
                lemma_lex_transitive(x, y, z);
            }
        },
        _ => {},
    }
}

/// Row `i` comes before row `j` when rows are sorted by `keys` (ascending or
/// descending) and rows with equal keys keep their order.
pub open spec fn comes_before(keys: Seq<KeyVal>, ascending: bool, i: int, j: int) -> bool {
    if keys[i] == keys[j] {
        i < j
    } else if ascending {
        key_lt(keys[i], keys[j])
    } else {
        key_lt(keys[j], keys[i])
    }
}

/// `p` lists each of `0..n` exactly once.
pub open spec fn is_permutation(p: Seq<usize>, n: nat) -> bool {
    &&& p.len() == n
    &&& forall|a: int| 0 <= a < p.len() ==> #[trigger] p[a] < n
    &&& forall|a: int, b: int| 0 <= a < b < p.len() ==> p[a] != p[b]
}

/// `p` lists the rows in sorted order.
pub open spec fn is_sorted_order(p: Seq<usize>, keys: Seq<KeyVal>, ascending: bool) -> bool {
    forall|a: int, b: int|
        0 <= a < b < p.len() ==> comes_before(keys, ascending, #[trigger] p[a] as int, #[trigger] p[b] as int)
}

pub proof fn lemma_comes_before(keys: Seq<KeyVal>, ascending: bool, i: int, j: int, k: int)
    ensures
        i != j ==> comes_before(keys, ascending, i, j) || comes_before(keys, ascending, j, i),
        !(comes_before(keys, ascending, i, j) && comes_before(keys, ascending, j, i)),
        comes_before(keys, ascending, i, j) && comes_before(keys, ascending, j, k) ==> comes_before(keys, ascending, i, k),
{
    lemma_key_order(keys[i], keys[j]);
    lemma_key_order(keys[j], keys[k]);
    lemma_key_order(keys[i], keys[k]);
    lemma_key_transitive(keys[i], keys[j], keys[k]);
    lemma_key_transitive(keys[k], keys[j], keys[i]);
    lemma_key_transitive(keys[j], keys[i], keys[k]);
    lemma_key_transitive(keys[i], keys[k], keys[j]);
    lemma_key_transitive(keys[j], keys[k], keys[i]);
    lemma_key_transitive(keys[k], keys[i], keys[j]);
}


/// Whether `a` sorts strictly before `b` (`lex_lt`).
pub fn chars_less(a: &Vec<char>, b: &Vec<char>) -> (r: bool)
    ensures
        r == lex_lt(a@, b@),
{
    proof {
        assert(a@.skip(0) =~= a@);
        assert(b@.skip(0) =~= b@);
    }
    let mut i: usize = 0;
    while i < a.len() && i < b.len()
        invariant
            i <= a.len(),
            i <= b.len(),
            a@.take(i as int) == b@.take(i as int),
            lex_lt(a@, b@) == lex_lt(a@.skip(i as int), b@.skip(i as int)),
        decreases a.len() - i,
    {
        if a[i] != b[i] {
            let r = a[i] < b[i];
            proof {
                assert(a@.skip(i as int)[0] == a@[i as int]);
                assert(b@.skip(i as int)[0] == b@[i as int]);
            }
            return r;
        }
        proof {
            assert(a@.skip(i as int).drop_first() =~= a@.skip(i + 1));
            assert(b@.skip(i as int).drop_first() =~= b@.skip(i + 1));
            assert(a@.take(i + 1) =~= a@.take(i as int).push(a@[i as int]));
            assert(b@.take(i + 1) =~= b@.take(i as int).push(b@[i as int]));
        }
        i = i + 1;
    }
    i < b.len()
}

/// Whether `a` is strictly below `b` (`key_lt`).
pub fn key_less(a: &SortKey, b: &SortKey) -> (r: bool)
    ensures
        r == key_lt(a@, b@),
{
    match (a, b) {
        (SortKey::Num(x), SortKey::Num(y)) => *x < *y,
        (SortKey::Text(x), SortKey::Text(y)) => chars_less(x, y),
        (SortKey::Num(_), SortKey::Text(_)) => true,
        (SortKey::Text(_), SortKey::Num(_)) => false,
    }
}

/// Whether the keys are equal.
pub fn key_equal(a: &SortKey, b: &SortKey) -> (r: bool)
    ensures
        r == (a@ == b@),
{
    match (a, b) {
        (SortKey::Num(x), SortKey::Num(y)) => *x == *y,
        (SortKey::Text(x), SortKey::Text(y)) => crate::text::chars_eq(x, y),
        (SortKey::Num(_), SortKey::Text(_)) => false,
        (SortKey::Text(_), SortKey::Num(_)) => false,
    }
}

fn before(keys: &Vec<SortKey>, ascending: bool, i: usize, j: usize) -> (r: bool)
    requires
        i < keys.len(),
        j < keys.len(),
    ensures
        r == comes_before(key_vals(keys@), ascending, i as int, j as int),
{
    if key_equal(&keys[i], &keys[j]) {
        i < j
    } else if ascending {
        key_less(&keys[i], &keys[j])
    } else {
        key_less(&keys[j], &keys[i])
    }
}

/// The positions of the rows in the order that a stable sort by `keys`
/// (ascending or descending) puts them in.
pub fn sort_order(keys: &Vec<SortKey>, ascending: bool) -> (p: Vec<usize>)
    ensures
        is_permutation(p@, keys@.len()),
        is_sorted_order(p@, key_vals(keys@), ascending),
{
    let mut p: Vec<usize> = Vec::new();
    let n = keys.len();
    let mut i: usize = 0;
    while i < n
        invariant
            n == keys.len(),
            i <= n,
            is_permutation(p@, i as nat),
            is_sorted_order(p@, key_vals(keys@), ascending),
        decreases n - i,
    {
        let mut q: usize = 0;
        while q < p.len() && !before(keys, ascending, i, p[q])
            invariant
                n == keys.len(),
                i < n,
                q <= p.len(),
                is_permutation(p@, i as nat),
                forall|a: int| 0 <= a < q ==> comes_before(key_vals(keys@), ascending, #[trigger] p@[a] as int, i as int),
            decreases p.len() - q,
        {
            proof {
                lemma_comes_before(key_vals(keys@), ascending, i as int, p@[q as int] as int, 0);
            }
            q = q + 1;
        }
        let ghost old_p = p@;
        proof {
            assert forall|a: int| q <= a < old_p.len() implies comes_before(key_vals(keys@), ascending, i as int, #[trigger] old_p[a] as int) by {
                if a > q {
                    assert(comes_before(key_vals(keys@), ascending, old_p[q as int] as int, old_p[a] as int));
                    lemma_comes_before(key_vals(keys@), ascending, i as int, old_p[q as int] as int, old_p[a] as int);
                }
            }
        }
        p.insert(q, i);
        proof {
            assert(p@ =~= old_p.insert(q as int, i));
            assert forall|a: int, b: int| 0 <= a < b < p@.len() implies comes_before(key_vals(keys@), ascending, #[trigger] p@[a] as int, #[trigger] p@[b] as int) by {
                if b < q {
                    assert(p@[a] == old_p[a] && p@[b] == old_p[b]);
                } else if b == q {
                    assert(p@[a] == old_p[a]);
                } else if a < q {
                    assert(p@[a] == old_p[a] && p@[b] == old_p[b - 1]);
                    assert(comes_before(key_vals(keys@), ascending, old_p[a] as int, i as int));
                    lemma_comes_before(key_vals(keys@), ascending, old_p[a] as int, i as int, old_p[b - 1] as int);
                } else if a == q {
                    assert(p@[b] == old_p[b - 1]);
                } else {
                    assert(p@[a] == old_p[a - 1] && p@[b] == old_p[b - 1]);
                }
            }
            assert forall|a: int| 0 <= a < p@.len() implies #[trigger] p@[a] < i + 1 by {
                if a < q {
                    assert(p@[a] == old_p[a]);
                } else if a > q {
                    assert(p@[a] == old_p[a - 1]);
                }
            }
            assert forall|a: int, b: int| 0 <= a < b < p@.len() implies p@[a] != p@[b] by {
                if b < q {
                    assert(p@[a] == old_p[a] && p@[b] == old_p[b]);
                } else if b == q {
                    assert(p@[a] == old_p[a]);
                } else if a < q {
                    assert(p@[a] == old_p[a] && p@[b] == old_p[b - 1]);
                } else if a == q {
                    assert(p@[b] == old_p[b - 1]);
                } else {
                    assert(p@[a] == old_p[a - 1] && p@[b] == old_p[b - 1]);
                }
            }
        }
        i = i + 1;
    }
    p
}


/// `out` holds the rows of `inp` stably sorted by `keys` (one key per row of
/// `inp`): rows in key order, ascending or descending, and rows with equal
/// keys in the order they came in.
pub open spec fn is_stable_sort<T>(out: Seq<T>, inp: Seq<T>, keys: Seq<KeyVal>, ascending: bool) -> bool {
    exists|p: Seq<usize>|
        #![trigger is_permutation(p, inp.len())]
        is_permutation(p, inp.len()) && is_sorted_order(p, keys, ascending) && out.len() == inp.len()
            && forall|i: int| 0 <= i < out.len() ==> out[i] == inp[p[i] as int]
}

} // verus!
