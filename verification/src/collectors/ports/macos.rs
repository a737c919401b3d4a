use vstd::prelude::*;
use crate::text::{
    after, chars_of, first_index_of, first_pos_from, keep_some, last_index_of, last_pos, lines,
    parse_unsigned, parse_unsigned_chars, split_lines, split_words, string_from_chars, strip_around,
    strip_leading, strip_trailing, sub_chars, text, words,
};
use crate::types::{PortInfo, PortRow};

verus! {

/// Scans ports with `lsof`.
pub struct MacosPortScanner;

/// An `address:port` split at the last colon; a port that does not parse is
/// zero, and text without a colon is all address.
pub open spec fn addr_port_or_zero(s: Seq<char>) -> (Seq<char>, u16) {
    let k = last_pos(s, ':');
    if k < 0 {
        (s, 0u16)
    } else {
        (
            s.take(k),
            match parse_unsigned(s.skip(k + 1), 10, u16::MAX as nat) {
                Some(p) => p as u16,
                None => 0u16,
            },
        )
    }
}

/// The port row of a line of `lsof -i -n -P` output, if it has at least nine
/// fields: command, PID, ..., protocol (eighth), `local->remote` (ninth) and
/// an optional `(STATE)`.
pub open spec fn lsof_row(line: Seq<char>) -> Option<PortRow> {
    let parts = words(line);
    if parts.len() < 9 {
        None
    } else {
        let field = parts[8];
        let (local, remote) = match first_pos_from(field, "->"@, 0) {
            Some(k) => (field.take(k), Some(field.skip(k + 2))),
            None => (field, None),
        };
        let (local_addr, local_port) = addr_port_or_zero(local);
        let (remote_addr, remote_port) = match remote {
            Some(r) => addr_port_or_zero(r),
            None => ("*"@, 0u16),
        };
        Some(PortRow {
            protocol: parts[7],
            local_addr,
            local_port,
            remote_addr,
            remote_port,
            state: if parts.len() > 9 {
                strip_trailing(strip_leading(parts[9], '('), ')')
            } else {
                seq![]
            },
            pid: match parse_unsigned(parts[1], 10, u32::MAX as nat) {
                Some(v) => Some(v as u32),
                None => None,
            },
            process_name: parts[0],
        })
    }
}

/// The port rows of a whole `lsof -i -n -P` listing: every line after the
/// header that has enough fields.
pub open spec fn lsof_rows(output: Seq<char>) -> Seq<PortRow> {
    keep_some(after(lines(output), 1).map_values(|l: Seq<char>| lsof_row(l)))
}

fn addr_port_of(s: &Vec<char>) -> (r: (String, u16))
    ensures
        r.0@ == addr_port_or_zero(s@).0,
        r.1 == addr_port_or_zero(s@).1,
{
    match last_index_of(s, ':') {
        Some(k) => {
            let n = s.len();
            let port = match parse_unsigned_chars(&sub_chars(s, k + 1, n), 10, u16::MAX as u64) {
                Some(p) => p as u16,
                None => 0u16,
            };
            (string_from_chars(s, 0, k), port)
        },
        None => {
            proof {
                assert(s@.subrange(0, s@.len() as int) =~= s@);
            }
            (string_from_chars(s, 0, s.len()), 0)
        },
    }
}

/// Splits `address:port` at the last colon (see `addr_port_or_zero`).
pub fn parse_addr_port(s: &str) -> (r: (String, u16))
    ensures
        r.0@ == addr_port_or_zero(s@).0,
        r.1 == addr_port_or_zero(s@).1,
{
    addr_port_of(&chars_of(s))
}

fn lsof_row_of(line: &Vec<char>) -> (r: Option<PortInfo>)
    ensures
        match (r, lsof_row(line@)) {
            (Some(p), Some(row)) => p@ == row,
            (None, None) => true,
            _ => false,
        },
{
    let parts = split_words(line);
    proof {
        assert(parts@.len() == words(line@).len());
    }
    if parts.len() < 9 {
        return None;
    }
    let field = &parts[8];
    let arrow = chars_of("->");
    proof {
        reveal_strlit("->");
    }
    let n = field.len();
    let (local_addr, local_port, remote_addr, remote_port) = match first_index_of(field, &arrow) {
        Some(k) => {
            proof {
                assert(k + 2 <= field@.len());
            }
            let (la, lp) = addr_port_of(&sub_chars(field, 0, k));
            let (ra, rp) = addr_port_of(&sub_chars(field, k + 2, n));
            proof {
                assert(field@.subrange(0, k as int) =~= field@.take(k as int));
                assert(field@.subrange(k + 2, n as int) =~= field@.skip(k + 2));
            }
            (la, lp, ra, rp)
        },
        None => {
            let (la, lp) = addr_port_of(field);
            (la, lp, text("*"), 0u16)
        },
    };
    let state = if parts.len() > 9 {
        let st = strip_around(&parts[9], '(', ')');
        string_from_chars(&st, 0, st.len())
    } else {
        String::new()
    };
    let pid = match parse_unsigned_chars(&parts[1], 10, u32::MAX as u64) {
        Some(v) => Some(v as u32),
        None => None,
    };
    let info = PortInfo {
        protocol: string_from_chars(&parts[7], 0, parts[7].len()),
        local_addr,
        local_port,
        remote_addr,
        remote_port,
        state,
        pid,
        process_name: string_from_chars(&parts[0], 0, parts[0].len()),
    };
    proof {
        assert(parts@[0]@.subrange(0, parts@[0]@.len() as int) =~= parts@[0]@);
        assert(parts@[7]@.subrange(0, parts@[7]@.len() as int) =~= parts@[7]@);
        if parts@.len() > 9 {
            let st = strip_trailing(strip_leading(parts@[9]@, '('), ')');
            assert(st.subrange(0, st.len() as int) =~= st);
        }
        assert(info@ =~= lsof_row(line@)->0);
    }
    Some(info)
}

impl MacosPortScanner {
    /// The port rows of a whole `lsof -i -n -P` listing.
    pub fn parse_listing(&self, output: &str) -> (rows: Vec<PortInfo>)
        ensures
            rows@.len() == lsof_rows(output@).len(),
            forall|i: int| 0 <= i < rows@.len() ==> #[trigger] rows@[i]@ == lsof_rows(output@)[i],
    {
        let ls = split_lines(&chars_of(output));
        let ghost all = lines(output@);
        let ghost mapped = after(all, 1).map_values(|l: Seq<char>| lsof_row(l));
        let mut rows: Vec<PortInfo> = Vec::new();
        if ls.len() <= 1 {
            proof {
                assert(mapped =~= seq![]);
                assert(keep_some(mapped) =~= seq![]);
            }
            return rows;
        }
        let mut i: usize = 1;
        while i < ls.len()
            invariant
                1 <= i <= ls.len(),
                ls@.len() == all.len(),
                all.len() > 1,
                forall|k: int| 0 <= k < ls@.len() ==> #[trigger] ls@[k]@ == all[k],
                mapped == all.skip(1).map_values(|l: Seq<char>| lsof_row(l)),
                rows@.len() == keep_some(mapped.take(i - 1)).len(),
                forall|k: int| 0 <= k < rows@.len() ==> #[trigger] rows@[k]@ == keep_some(mapped.take(i - 1))[k],
            decreases ls.len() - i,
        {
            proof {
                assert(mapped.take(i as int).drop_last() =~= mapped.take(i - 1));
                assert(mapped.take(i as int).last() == lsof_row(all[i as int]));
            }
            match lsof_row_of(&ls[i]) {
                Some(info) => rows.push(info),
                None => {},
            }
            i = i + 1;
        }
        proof {
            assert(mapped.take(i - 1) =~= mapped);
        }
        rows
    }
}

} // verus!
