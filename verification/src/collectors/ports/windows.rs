use vstd::prelude::*;
use crate::text::{
    after, chars_eq_str, chars_of, keep_some, last_index_of, last_pos, lines, parse_unsigned,
    parse_unsigned_chars, split_lines, split_words, string_from_chars, sub_chars, text, words,
};
use crate::types::{PortInfo, PortRow};

verus! {

/// Scans ports with `netstat -ano`.
pub struct WindowsPortScanner;

/// An address and port written `address:port`, split at the last colon; the
/// port must be a valid number.
pub open spec fn address_port(addr: Seq<char>) -> Option<(Seq<char>, u16)> {
    let k = last_pos(addr, ':');
    if k < 0 {
        None
    } else {
        match parse_unsigned(addr.skip(k + 1), 10, u16::MAX as nat) {
            Some(port) => Some((addr.take(k), port as u16)),
            None => None,
        }
    }
}

/// The port row of a line of `netstat -ano` output, if it describes a TCP or
/// UDP socket.
pub open spec fn netstat_row(line: Seq<char>) -> Option<PortRow> {
    let parts = words(line);
    if parts.len() < 4 {
        None
    } else if parts[0] != "TCP"@ && parts[0] != "UDP"@ {
        None
    } else {
        match address_port(parts[1]) {
            None => None,
            Some((local_addr, local_port)) => {
                let tcp = parts[0] == "TCP"@;
                let (remote_addr, remote_port) = if tcp {
                    match address_port(parts[2]) {
                        Some(r) => r,
                        None => (seq![], 0u16),
                    }
                } else {
                    ("*"@, 0u16)
                };
                let state = if tcp { parts[3] } else { seq![] };
                let pid_text = if tcp {
                    if parts.len() > 4 { parts[4] } else { seq![] }
                } else {
                    parts[3]
                };
                Some(PortRow {
                    protocol: parts[0],
                    local_addr,
                    local_port,
                    remote_addr,
                    remote_port,
                    state,
                    pid: match parse_unsigned(pid_text, 10, u32::MAX as nat) {
                        Some(v) => Some(v as u32),
                        None => None,
                    },
                    process_name: seq![],
                })
            },
        }
    }
}

/// The port rows of a whole `netstat -ano` listing: every line after the
/// four header lines that describes a socket.
pub open spec fn netstat_rows(output: Seq<char>) -> Seq<PortRow> {
    keep_some(after(lines(output), 4).map_values(|l: Seq<char>| netstat_row(l)))
}

fn parse_address_chars(addr: &Vec<char>) -> (r: Option<(String, u16)>)
    ensures
        match (r, address_port(addr@)) {
            (Some((a, p)), Some((sa, sp))) => a@ == sa && p == sp,
            (None, None) => true,
            _ => false,
        },
{
    match last_index_of(addr, ':') {
        Some(k) => {
            let n = addr.len();
            let port_text = sub_chars(addr, k + 1, n);
            match parse_unsigned_chars(&port_text, 10, u16::MAX as u64) {
                Some(port) => Some((string_from_chars(addr, 0, k), port as u16)),
                None => None,
            }
        },
        None => None,
    }
}

/// Splits `address:port` at the last colon.
pub fn parse_address(addr: &str) -> (r: Option<(String, u16)>)
    ensures
        match (r, address_port(addr@)) {
            (Some((a, p)), Some((sa, sp))) => a@ == sa && p == sp,
            (None, None) => true,
            _ => false,
        },
{
    parse_address_chars(&chars_of(addr))
}

fn netstat_row_of(line: &Vec<char>) -> (r: Option<PortInfo>)
    ensures
        match (r, netstat_row(line@)) {
            (Some(p), Some(row)) => p@ == row,
            (None, None) => true,
            _ => false,
        },
{
    let parts = split_words(line);
    proof {
        assert(parts@.len() == words(line@).len());
    }
    if parts.len() < 4 {
        return None;
    }
    let tcp = chars_eq_str(&parts[0], "TCP");
    if !tcp && !chars_eq_str(&parts[0], "UDP") {
        return None;
    }
    let (local_addr, local_port) = match parse_address_chars(&parts[1]) {
        Some(a) => a,
        None => return None,
    };
    let (remote_addr, remote_port) = if tcp {
        match parse_address_chars(&parts[2]) {
            Some(r) => r,
            None => (String::new(), 0u16),
        }
    } else {
        (text("*"), 0u16)
    };
    let (state, pid_text) = if tcp {
        let pid_text = if parts.len() > 4 { sub_chars(&parts[4], 0, parts[4].len()) } else { Vec::new() };
        (string_from_chars(&parts[3], 0, parts[3].len()), pid_text)
    } else {
        (String::new(), sub_chars(&parts[3], 0, parts[3].len()))
    };
    let pid = match parse_unsigned_chars(&pid_text, 10, u32::MAX as u64) {
        Some(v) => Some(v as u32),
        None => None,
    };
    let info = PortInfo {
        protocol: string_from_chars(&parts[0], 0, parts[0].len()),
        local_addr,
        local_port,
        remote_addr,
        remote_port,
        state,
        pid,
        process_name: String::new(),
    };
    proof {
        assert(parts@[0]@.subrange(0, parts@[0]@.len() as int) =~= parts@[0]@);
        assert(parts@[3]@.subrange(0, parts@[3]@.len() as int) =~= parts@[3]@);
        if parts@.len() > 4 {
            assert(parts@[4]@.subrange(0, parts@[4]@.len() as int) =~= parts@[4]@);
        }
        assert(info@ =~= netstat_row(line@)->0);
    }
    Some(info)
}

/// The port row of one line of `netstat -ano` output, if it describes a TCP
/// or UDP socket.
pub fn parse_netstat_line(line: &str) -> (r: Option<PortInfo>)
    ensures
        match (r, netstat_row(line@)) {
            (Some(p), Some(row)) => p@ == row,
            (None, None) => true,
            _ => false,
        },
{
    netstat_row_of(&chars_of(line))
}

impl WindowsPortScanner {
    /// The port rows of a whole `netstat -ano` listing.
    pub fn parse_listing(&self, output: &str) -> (rows: Vec<PortInfo>)
        ensures
            rows@.len() == netstat_rows(output@).len(),
            forall|i: int| 0 <= i < rows@.len() ==> #[trigger] rows@[i]@ == netstat_rows(output@)[i],
    {
        let ls = split_lines(&chars_of(output));
        let ghost all = lines(output@);
        let ghost mapped = after(all, 4).map_values(|l: Seq<char>| netstat_row(l));
        let mut rows: Vec<PortInfo> = Vec::new();
        if ls.len() <= 4 {
            proof {
                assert(mapped =~= seq![]);
                assert(keep_some(mapped) =~= seq![]);
            }
            return rows;
        }
        let mut i: usize = 4;
        while i < ls.len()
            invariant
                4 <= i <= ls.len(),
                ls@.len() == all.len(),
                all.len() > 4,
                forall|k: int| 0 <= k < ls@.len() ==> #[trigger] ls@[k]@ == all[k],
                mapped == all.skip(4).map_values(|l: Seq<char>| netstat_row(l)),
                rows@.len() == keep_some(mapped.take(i - 4)).len(),
                forall|k: int| 0 <= k < rows@.len() ==> #[trigger] rows@[k]@ == keep_some(mapped.take(i - 4))[k],
            decreases ls.len() - i,
        {
            proof {
                assert(mapped.take(i - 3).drop_last() =~= mapped.take(i - 4));
                assert(mapped.take(i - 3).last() == netstat_row(all[i as int]));
            }
            match netstat_row_of(&ls[i]) {
                Some(info) => rows.push(info),
                None => {},
            }
            i = i + 1;
        }
        proof {
            assert(mapped.take(i - 4) =~= mapped);
        }
        rows
    }
}

} // verus!
