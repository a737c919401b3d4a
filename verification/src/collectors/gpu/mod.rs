use vstd::prelude::*;
use crate::text::{
    chars_of, contains_chars, float_text_ok, has_substring, is_float_text, split_char, split_on,
    string_from_chars, trim_by, trim_class, trim_range,
};

pub mod amd;
pub mod apple;
pub mod intel;

verus! {

/// What a GPU tool reported for one GPU: its name and readings, each
/// reading the number text that the tool printed (a float literal).
#[derive(Debug, Clone)]
pub struct GpuReading {
    pub name: String,
    pub utilization: Option<String>,
    pub temperature: Option<String>,
    pub power_usage: Option<String>,
}

pub struct GpuReadingView {
    pub name: Seq<char>,
    pub utilization: Option<Seq<char>>,
    pub temperature: Option<Seq<char>>,
    pub power_usage: Option<Seq<char>>,
}

pub open spec fn opt_text(s: Option<String>) -> Option<Seq<char>> {
    match s {
        Some(t) => Some(t@),
        None => None,
    }
}

impl vstd::view::View for GpuReading {
    type V = GpuReadingView;

    open spec fn view(&self) -> GpuReadingView {
        GpuReadingView {
            name: self.name@,
            utilization: opt_text(self.utilization),
            temperature: opt_text(self.temperature),
            power_usage: opt_text(self.power_usage),
        }
    }
}

/// `s` with surrounding whitespace removed (`str::trim`).
pub open spec fn trim_ws(s: Seq<char>) -> Seq<char> {
    trim_by(s, trim_class(true, seq![]))
}

/// `s` with surrounding characters of `set` removed (`str::trim_matches`).
pub open spec fn trim_set(s: Seq<char>, set: Seq<char>) -> Seq<char> {
    trim_by(s, trim_class(false, set))
}

/// The number text of a `"key": "value",` line: what follows the first colon
/// (up to the next one), trimmed of whitespace, then of quotes, commas and
/// spaces, when it is a float literal.
pub open spec fn number_field(line: Seq<char>) -> Option<Seq<char>> {
    let parts = split_on(line, ':');
    if parts.len() < 2 {
        None
    } else {
        let v = trim_set(trim_ws(parts[1]), seq!['"', ',', ' ']);
        if is_float_text(v) {
            Some(v)
        } else {
            None
        }
    }
}

/// Whether `line` contains the text `pat`.
pub fn line_has(line: &Vec<char>, pat: &str) -> (r: bool)
    ensures
        r == has_substring(line@, pat@),
{
    contains_chars(line, &chars_of(pat))
}

/// `v` trimmed of whitespace, then of the characters of `set`.
pub fn trim_ws_then(v: &Vec<char>, lo: usize, hi: usize, set: &Vec<char>) -> (r: Vec<char>)
    requires
        lo <= hi <= v.len(),
    ensures
        r@ == trim_set(trim_ws(v@.subrange(lo as int, hi as int)), set@),
{
    let none: Vec<char> = Vec::new();
    proof {
        assert(none@ =~= seq![]);
    }
    let t = trim_range(v, lo, hi, true, &none);
    let n = t.len();
    let r = trim_range(&t, 0, n, false, set);
    proof {
        assert(t@.subrange(0, n as int) =~= t@);
    }
    r
}

/// The number text of a `"key": "value",` line (see `number_field`).
pub fn extract_number(line: &Vec<char>) -> (r: Option<String>)
    ensures
        opt_text(r) == number_field(line@),
{
    let parts = split_char(line, ':');
    proof {
        assert(parts@.len() == split_on(line@, ':').len());
    }
    if parts.len() < 2 {
        return None;
    }
    let mut set: Vec<char> = Vec::new();
    set.push('"');
    set.push(',');
    set.push(' ');
    proof {
        assert(set@ =~= seq!['"', ',', ' ']);
        assert(parts@[1]@.subrange(0, parts@[1]@.len() as int) =~= parts@[1]@);
    }
    let n = parts[1].len();
    let v = trim_ws_then(&parts[1], 0, n, &set);
    if float_text_ok(&v) {
        proof {
            assert(v@.subrange(0, v@.len() as int) =~= v@);
        }
        Some(string_from_chars(&v, 0, v.len()))
    } else {
        None
    }
}

} // verus!
