use vstd::prelude::*;
use super::{line_has, trim_set, trim_ws, trim_ws_then};
use crate::text::{
    chars_of, first_index_of, first_pos_from, float_text_ok, has_substring, is_digit,
    is_float_text, lines, one_char, split_lines, string_from_chars, sub_chars, utf8_width,
};

verus! {

/// Reads Apple GPUs through `ioreg` and `powermetrics`.
pub struct AppleBackend;

/// The model named on an `ioreg` line holding `"model"`: after the first
/// quote, the text after the first `= `, trimmed of whitespace, then of
/// quotes and angle brackets, when not empty.
pub open spec fn model_value(line: Seq<char>) -> Option<Seq<char>> {
    if has_substring(line, "\"model\""@) {
        match first_pos_from(line, seq!['"'], 0) {
            Some(start) => {
                let rest = line.skip(start + 1);
                match first_pos_from(rest, "= "@, 0) {
                    Some(eq) => {
                        let v = trim_set(trim_ws(rest.skip(eq + 2)), seq!['"', '<', '>']);
                        if v.len() > 0 {
                            Some(v)
                        } else {
                            None
                        }
                    },
                    None => None,
                }
            },
            None => None,
        }
    } else {
        None
    }
}

/// The first model named on the lines `ls[i..]`.
pub open spec fn first_model(ls: Seq<Seq<char>>, i: int) -> Option<Seq<char>>
    decreases ls.len() - i,
{
    if i < 0 || i >= ls.len() {
        None
    } else {
        match model_value(ls[i]) {
            Some(v) => Some(v),
            None => first_model(ls, i + 1),
        }
    }
}

fn model_value_of(line: &Vec<char>) -> (r: Option<String>)
    ensures
        match (r, model_value(line@)) {
            (Some(s), Some(v)) => s@ == v,
            (None, None) => true,
            _ => false,
        },
{
    if !line_has(line, "\"model\"") {
        return None;
    }
    match first_index_of(line, &one_char('"')) {
        Some(start) => {
            let n = line.len();
            let rest = sub_chars(line, start + 1, n);
            proof {
                assert(rest@ =~= line@.skip(start + 1));
                reveal_strlit("= ");
            }
            match first_index_of(&rest, &chars_of("= ")) {
                Some(eq) => {
                    let mut set: Vec<char> = Vec::new();
                    set.push('"');
                    set.push('<');
                    set.push('>');
                    proof {
                        assert(set@ =~= seq!['"', '<', '>']);
                        assert(rest@.subrange(eq + 2, rest@.len() as int) =~= rest@.skip(eq + 2));
                    }
                    let m = rest.len();
                    let v = trim_ws_then(&rest, eq + 2, m, &set);
                    if v.len() > 0 {
                        proof {
                            assert(v@.subrange(0, v@.len() as int) =~= v@);
                        }
                        Some(string_from_chars(&v, 0, v.len()))
                    } else {
                        None
                    }
                },
                None => None,
            }
        },
        None => None,
    }
}

/// The GPU model named in `ioreg` output: the first line holding `"model"`
/// that names one (see `model_value`).
pub fn extract_gpu_name(ioreg_output: &str) -> (r: Option<String>)
    ensures
        match (r, first_model(lines(ioreg_output@), 0)) {
            (Some(s), Some(v)) => s@ == v,
            (None, None) => true,
            _ => false,
        },
{
    let ls = split_lines(&chars_of(ioreg_output));
    let ghost all = lines(ioreg_output@);
    let mut i: usize = 0;
    while i < ls.len()
        invariant
            i <= ls.len(),
            all == lines(ioreg_output@),
            ls@.len() == all.len(),
            forall|k: int| 0 <= k < ls@.len() ==> #[trigger] ls@[k]@ == all[k],
            first_model(all, 0) == first_model(all, i as int),
        decreases ls.len() - i,
    {
        match model_value_of(&ls[i]) {
            Some(v) => {
                proof {
                    assert(ls@[i as int]@ == all[i as int]);
                    assert(first_model(all, i as int) == model_value(all[i as int]));
                }
                return Some(v);
            },
            None => {
                proof {
                    assert(ls@[i as int]@ == all[i as int]);
                }
            },
        }
        i = i + 1;
    }
    None
}


/// Neither an ASCII digit nor a point.
pub open spec fn outside_number(c: char) -> bool {
    !(is_digit(c) || c == '.')
}

/// The last position of `s` holding a character outside a number, or -1.
pub open spec fn last_outside(s: Seq<char>) -> int
    decreases s.len(),
{
    if s.len() == 0 {
        -1
    } else if outside_number(s.last()) {
        s.len() - 1
    } else {
        last_outside(s.drop_last())
    }
}

/// On a `powermetrics` line that reports GPU activity, the position of its
/// first '%'.
pub open spec fn active_percent_pos(line: Seq<char>) -> Option<int> {
    if has_substring(line, "GPU Active"@) || has_substring(line, "GPU active"@) {
        first_pos_from(line, seq!['%'], 0)
    } else {
        None
    }
}

/// Where the percentage starts in the text before the '%': after the last
/// character outside a number, or at the second character when there is none.
pub open spec fn number_start(before: Seq<char>) -> int {
    let q = last_outside(before);
    if q < 0 {
        1
    } else {
        q + 1
    }
}

/// The text before the '%' cannot be cut where the percentage starts: it is
/// empty, or the character before that point takes more than one byte, so
/// the cut would fall inside it.
pub open spec fn cut_inside(before: Seq<char>) -> bool {
    let q = last_outside(before);
    if q < 0 {
        before.len() == 0
    } else {
        utf8_width(before[q]) > 1
    }
}

/// A GPU activity line whose text before the '%' cannot be cut.
pub open spec fn line_cut_inside(line: Seq<char>) -> bool {
    match active_percent_pos(line) {
        Some(p) => cut_inside(line.take(p)),
        None => false,
    }
}

/// The percentage of a GPU activity line, when it is a float literal.
pub open spec fn active_value(line: Seq<char>) -> Option<Seq<char>> {
    match active_percent_pos(line) {
        Some(p) => {
            let before = line.take(p);
            if cut_inside(before) {
                None
            } else {
                let t = before.skip(number_start(before));
                if is_float_text(t) {
                    Some(t)
                } else {
                    None
                }
            }
        },
        None => None,
    }
}

/// The first percentage reported on the lines `ls[i..]`.
pub open spec fn first_active(ls: Seq<Seq<char>>, i: int) -> Option<Seq<char>>
    decreases ls.len() - i,
{
    if i < 0 || i >= ls.len() {
        None
    } else {
        match active_value(ls[i]) {
            Some(v) => Some(v),
            None => first_active(ls, i + 1),
        }
    }
}

/// Reading the lines `ls[i..]` reaches a line that cannot be cut before any
/// line reports a percentage.
pub open spec fn active_breaks(ls: Seq<Seq<char>>, i: int) -> bool
    decreases ls.len() - i,
{
    if i < 0 || i >= ls.len() {
        false
    } else if active_value(ls[i]) is Some {
        false
    } else {
        line_cut_inside(ls[i]) || active_breaks(ls, i + 1)
    }
}

fn last_outside_index(v: &Vec<char>) -> (r: Option<usize>)
    ensures
        match r {
            Some(q) => q < v@.len() && q == last_outside(v@),
            None => last_outside(v@) == -1,
        },
{
    let mut i: usize = v.len();
    proof {
        assert(v@.take(i as int) =~= v@);
    }
    while i > 0
        invariant
            i <= v.len(),
            last_outside(v@) == last_outside(v@.take(i as int)),
        decreases i,
    {
        let c = v[i - 1];
        proof {
            assert(v@.take(i as int).drop_last() =~= v@.take(i - 1));
            assert(v@.take(i as int).last() == v@[i - 1]);
        }
        if !(('0' <= c && c <= '9') || c == '.') {
            return Some(i - 1);
        }
        i = i - 1;
    }
    proof {
        assert(v@.take(0) =~= Seq::<char>::empty());
    }
    None
}

/// The percentage text after `lo` in `before`, when it is a float literal.
fn number_after(before: &Vec<char>, lo: usize) -> (r: Option<String>)
    requires
        lo <= before@.len(),
    ensures
        match r {
            Some(s) => is_float_text(before@.skip(lo as int)) && s@ == before@.skip(lo as int),
            None => !is_float_text(before@.skip(lo as int)),
        },
{
    let n = before.len();
    let t = sub_chars(before, lo, n);
    proof {
        assert(t@ =~= before@.skip(lo as int));
        assert(t@.subrange(0, t@.len() as int) =~= t@);
    }
    if float_text_ok(&t) {
        Some(string_from_chars(&t, 0, t.len()))
    } else {
        None
    }
}

/// One line: its percentage (see `active_value`), and whether it cannot be cut.
fn active_line_of(line: &Vec<char>) -> (r: (Option<String>, bool))
    ensures
        r.1 == line_cut_inside(line@),
        match (r.0, active_value(line@)) {
            (Some(s), Some(v)) => s@ == v,
            (None, None) => true,
            _ => false,
        },
{
    if !(line_has(line, "GPU Active") || line_has(line, "GPU active")) {
        return (None, false);
    }
    match first_index_of(line, &one_char('%')) {
        None => (None, false),
        Some(p) => {
            let before = sub_chars(line, 0, p);
            proof {
                assert(before@ =~= line@.take(p as int));
            }
            match last_outside_index(&before) {
                None => {
                    if before.len() == 0 {
                        return (None, true);
                    }
                    (number_after(&before, 1), false)
                },
                Some(q) => {
                    if (before[q] as u32) >= 0x80 {
                        return (None, true);
                    }
                    (number_after(&before, q + 1), false)
                },
            }
        },
    }
}

/// Whether `powermetrics` output can be read for the GPU activity: no line
/// that reports activity and cannot be cut comes before the first reading.
pub fn active_output_readable(output: &str) -> (r: bool)
    ensures
        r == !active_breaks(lines(output@), 0),
{
    let ls = split_lines(&chars_of(output));
    let ghost all = lines(output@);
    let mut i: usize = 0;
    while i < ls.len()
        invariant
            i <= ls.len(),
            all == lines(output@),
            ls@.len() == all.len(),
            forall|k: int| 0 <= k < ls@.len() ==> #[trigger] ls@[k]@ == all[k],
            active_breaks(all, 0) == active_breaks(all, i as int),
        decreases ls.len() - i,
    {
        let (v, cut) = active_line_of(&ls[i]);
        proof {
            assert(ls@[i as int]@ == all[i as int]);
        }
        if v.is_some() {
            return true;
        }
        if cut {
            return false;
        }
        i = i + 1;
    }
    true
}

/// The GPU activity percentage that `powermetrics` output reports: the text
/// before the first '%' of the first "GPU Active" (or "GPU active") line
/// that gives a float literal there.
pub fn active_percentage_text(output: &str) -> (r: Option<String>)
    requires
        !active_breaks(lines(output@), 0),
    ensures
        match (r, first_active(lines(output@), 0)) {
            (Some(s), Some(v)) => s@ == v,
            (None, None) => true,
            _ => false,
        },
{
    let ls = split_lines(&chars_of(output));
    let ghost all = lines(output@);
    let mut i: usize = 0;
    while i < ls.len()
        invariant
            i <= ls.len(),
            all == lines(output@),
            ls@.len() == all.len(),
            forall|k: int| 0 <= k < ls@.len() ==> #[trigger] ls@[k]@ == all[k],
            first_active(all, 0) == first_active(all, i as int),
            !active_breaks(all, i as int),
        decreases ls.len() - i,
    {
        let (v, _cut) = active_line_of(&ls[i]);
        proof {
            assert(ls@[i as int]@ == all[i as int]);
        }
        if v.is_some() {
            return v;
        }
        i = i + 1;
    }
    None
}

} // verus!
