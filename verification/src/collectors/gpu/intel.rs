use vstd::prelude::*;
use super::{line_has, trim_set, trim_ws, trim_ws_then};
use crate::text::{
    chars_of, first_index_of, first_pos_from, float_text_ok, has_substring, is_float_text,
    keep_some, lines, one_char, split_lines, string_from_chars, sub_chars, text,
};

verus! {

/// Reads Intel GPU load from `intel_gpu_top -J`.
pub struct IntelBackend;

/// The `"busy"` value of one line of `intel_gpu_top` JSON output: the text
/// after the first colon, trimmed of whitespace, then of commas and spaces,
/// when it is a float literal.
pub open spec fn busy_value(raw: Seq<char>) -> Option<Seq<char>> {
    let line = trim_ws(raw);
    if has_substring(line, "\"busy\""@) {
        match first_pos_from(line, seq![':'], 0) {
            Some(c) => {
                let v = trim_set(trim_ws(line.skip(c + 1)), seq![',', ' ']);
                if is_float_text(v) {
                    Some(v)
                } else {
                    None
                }
            },
            None => None,
        }
    } else {
        None
    }
}

/// All busy values of the output, in order.
pub open spec fn busy_values(output: Seq<char>) -> Seq<Seq<char>> {
    keep_some(lines(output).map_values(|l: Seq<char>| busy_value(l)))
}

/// What `intel_gpu_top` reported: the engines' busy percentages, as texts;
/// the GPU's load is the highest of them.
pub struct IntelSample {
    pub name: String,
    pub busy: Vec<String>,
}

fn busy_value_of(raw: &Vec<char>) -> (r: Option<String>)
    ensures
        match (r, busy_value(raw@)) {
            (Some(s), Some(v)) => s@ == v,
            (None, None) => true,
            _ => false,
        },
{
    let none: Vec<char> = Vec::new();
    proof {
        assert(none@ =~= seq![]);
        assert(raw@.subrange(0, raw@.len() as int) =~= raw@);
    }
    let line = crate::text::trim_range(raw, 0, raw.len(), true, &none);
    if !line_has(&line, "\"busy\"") {
        return None;
    }
    match first_index_of(&line, &one_char(':')) {
        Some(c) => {
            let mut set: Vec<char> = Vec::new();
            set.push(',');
            set.push(' ');
            proof {
                assert(set@ =~= seq![',', ' ']);
                assert(line@.subrange(c + 1, line@.len() as int) =~= line@.skip(c + 1));
            }
            let n = line.len();
            let v = trim_ws_then(&line, c + 1, n, &set);
            if float_text_ok(&v) {
                proof {
                    assert(v@.subrange(0, v@.len() as int) =~= v@);
                }
                Some(string_from_chars(&v, 0, v.len()))
            } else {
                None
            }
        },
        None => None,
    }
}

impl IntelBackend {
    /// The busy values of `intel_gpu_top -J` output; no sample when there is
    /// none, else one GPU named "Intel GPU".
    pub fn parse_output(&self, output: &str) -> (r: Option<IntelSample>)
        ensures
            r is None <==> busy_values(output@).len() == 0,
            r matches Some(s) ==> s.name@ == "Intel GPU"@ && s.busy@.len() == busy_values(output@).len()
                && forall|i: int| 0 <= i < s.busy@.len() ==> #[trigger] s.busy@[i]@ == busy_values(output@)[i],
    {
        let ls = split_lines(&chars_of(output));
        let ghost all = lines(output@);
        let ghost mapped = all.map_values(|l: Seq<char>| busy_value(l));
        let mut busy: Vec<String> = Vec::new();
        let mut i: usize = 0;
        while i < ls.len()
            invariant
                i <= ls.len(),
                ls@.len() == all.len(),
                forall|k: int| 0 <= k < ls@.len() ==> #[trigger] ls@[k]@ == all[k],
                mapped == all.map_values(|l: Seq<char>| busy_value(l)),
                busy@.len() == keep_some(mapped.take(i as int)).len(),
                forall|k: int| 0 <= k < busy@.len() ==> #[trigger] busy@[k]@ == keep_some(mapped.take(i as int))[k],
            decreases ls.len() - i,
        {
            proof {
                assert(mapped.take(i + 1).drop_last() =~= mapped.take(i as int));
                assert(mapped.take(i + 1).last() == busy_value(all[i as int]));
            }
            match busy_value_of(&ls[i]) {
                Some(v) => busy.push(v),
                None => {},
            }
            i = i + 1;
        }
        proof {
            assert(mapped.take(i as int) =~= mapped);
        }
        if busy.len() == 0 {
            None
        } else {
            Some(IntelSample { name: text("Intel GPU"), busy })
        }
    }
}

} // verus!
