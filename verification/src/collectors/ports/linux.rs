use vstd::prelude::*;
use crate::text::{
    after, chars_eq_str, chars_of, decimal, has_utf8_len, keep_some, lines, parse_unsigned,
    parse_unsigned_chars, push_decimal, push_char, split_char, split_lines, split_on, split_words,
    text, utf8_len, words,
};
use crate::types::{PortInfo, PortRow};
use crate::text::{occurs_at, parse_unsigned as parse_number};

verus! {

/// Scans ports through the kernel's socket tables under /proc.
pub struct LinuxPortScanner;

/// A 32-bit address written as four decimal bytes, lowest byte first.
pub open spec fn dotted_quad(a: nat) -> Seq<char> {
    decimal(a % 256) + seq!['.'] + decimal((a / 256) % 256) + seq!['.'] + decimal((a / 65536) % 256)
        + seq!['.'] + decimal((a / 16777216) % 256)
}

/// A socket-table address `HEX:HEX` read as address and port: eight hex
/// digits are an IPv4 address (lowest byte first), any other address is
/// shown as "::"; what does not parse counts as zero, and text that is not
/// exactly two colon-separated parts gives "0.0.0.0" and port zero.
pub open spec fn hex_address(hex: Seq<char>) -> (Seq<char>, u16) {
    let parts = split_on(hex, ':');
    if parts.len() != 2 {
        ("0.0.0.0"@, 0u16)
    } else {
        let port: u16 = match parse_unsigned(parts[1], 16, u16::MAX as nat) {
            Some(p) => p as u16,
            None => 0u16,
        };
        let addr = if utf8_len(parts[0]) == 8 {
            dotted_quad(
                match parse_unsigned(parts[0], 16, u32::MAX as nat) {
                    Some(v) => v,
                    None => 0,
                },
            )
        } else {
            "::"@
        };
        (addr, port)
    }
}

/// The name of a TCP state code of the socket tables.
pub open spec fn tcp_state_name(code: Seq<char>) -> Seq<char> {
    if code == "01"@ {
        "ESTABLISHED"@
    } else if code == "02"@ {
        "SYN_SENT"@
    } else if code == "03"@ {
        "SYN_RECV"@
    } else if code == "04"@ {
        "FIN_WAIT1"@
    } else if code == "05"@ {
        "FIN_WAIT2"@
    } else if code == "06"@ {
        "TIME_WAIT"@
    } else if code == "07"@ {
        "CLOSE"@
    } else if code == "08"@ {
        "CLOSE_WAIT"@
    } else if code == "09"@ {
        "LAST_ACK"@
    } else if code == "0A"@ {
        "LISTEN"@
    } else if code == "0B"@ {
        "CLOSING"@
    } else {
        "UNKNOWN"@
    }
}

/// The port row of one line of a socket table, if it has at least four
/// fields; its owner is not known yet.
pub open spec fn proc_net_row(line: Seq<char>, protocol: Seq<char>) -> Option<PortRow> {
    let parts = words(line);
    if parts.len() < 4 {
        None
    } else {
        let (local_addr, local_port) = hex_address(parts[1]);
        let (remote_addr, remote_port) = hex_address(parts[2]);
        Some(PortRow {
            protocol,
            local_addr,
            local_port,
            remote_addr,
            remote_port,
            state: tcp_state_name(parts[3]),
            pid: None,
            process_name: seq![],
        })
    }
}

/// The port rows of a whole socket table: every line after the header.
pub open spec fn proc_net_rows(content: Seq<char>, protocol: Seq<char>) -> Seq<PortRow> {
    keep_some(after(lines(content), 1).map_values(|l: Seq<char>| proc_net_row(l, protocol)))
}

fn hex_address_of(hex: &Vec<char>) -> (r: (String, u16))
    ensures
        r.0@ == hex_address(hex@).0,
        r.1 == hex_address(hex@).1,
{
    let parts = split_char(hex, ':');
    proof {
        assert(parts@.len() == split_on(hex@, ':').len());
    }
    if parts.len() != 2 {
        return (text("0.0.0.0"), 0);
    }
    let port: u16 = match parse_unsigned_chars(&parts[1], 16, u16::MAX as u64) {
        Some(p) => p as u16,
        None => 0,
    };
    let addr = if has_utf8_len(&parts[0], 8) {
        let a: u64 = match parse_unsigned_chars(&parts[0], 16, u32::MAX as u64) {
            Some(v) => v,
            None => 0,
        };
        let mut s = String::new();
        push_decimal(&mut s, a % 256);
        push_char(&mut s, '.');
        push_decimal(&mut s, (a / 256) % 256);
        push_char(&mut s, '.');
        push_decimal(&mut s, (a / 65536) % 256);
        push_char(&mut s, '.');
        push_decimal(&mut s, (a / 16777216) % 256);
        proof {
            assert(s@ =~= dotted_quad(a as nat));
        }
        s
    } else {
        text("::")
    };
    (addr, port)
}

/// Reads a socket-table address `HEX:HEX` (see `hex_address`).
pub fn parse_hex_address(hex: &str) -> (r: (String, u16))
    ensures
        r.0@ == hex_address(hex@).0,
        r.1 == hex_address(hex@).1,
{
    hex_address_of(&chars_of(hex))
}

fn tcp_state_of(code: &Vec<char>) -> (r: String)
    ensures
        r@ == tcp_state_name(code@),
{
    if chars_eq_str(code, "01") {
        text("ESTABLISHED")
    } else if chars_eq_str(code, "02") {
        text("SYN_SENT")
    } else if chars_eq_str(code, "03") {
        text("SYN_RECV")
    } else if chars_eq_str(code, "04") {
        text("FIN_WAIT1")
    } else if chars_eq_str(code, "05") {
        text("FIN_WAIT2")
    } else if chars_eq_str(code, "06") {
        text("TIME_WAIT")
    } else if chars_eq_str(code, "07") {
        text("CLOSE")
    } else if chars_eq_str(code, "08") {
        text("CLOSE_WAIT")
    } else if chars_eq_str(code, "09") {
        text("LAST_ACK")
    } else if chars_eq_str(code, "0A") {
        text("LISTEN")
    } else if chars_eq_str(code, "0B") {
        text("CLOSING")
    } else {
        text("UNKNOWN")
    }
}

/// The name of a TCP state code (see `tcp_state_name`).
pub fn parse_tcp_state(code: &str) -> (r: String)
    ensures
        r@ == tcp_state_name(code@),
{
    tcp_state_of(&chars_of(code))
}

fn proc_net_row_of(line: &Vec<char>, protocol: &str) -> (r: Option<PortInfo>)
    ensures
        match (r, proc_net_row(line@, protocol@)) {
            (Some(p), Some(row)) => p@ == row,
            (None, None) => true,
            _ => false,
        },
{
    let parts = split_words(line);
    proof {
        assert(parts@.len() == words(line@).len());
    }
    if parts.len() < 4 {
        return None;
    }
    let (local_addr, local_port) = hex_address_of(&parts[1]);
    let (remote_addr, remote_port) = hex_address_of(&parts[2]);
    let info = PortInfo {
        protocol: text(protocol),
        local_addr,
        local_port,
        remote_addr,
        remote_port,
        state: tcp_state_of(&parts[3]),
        pid: None,
        process_name: String::new(),
    };
    proof {
        assert(info@ =~= proc_net_row(line@, protocol@)->0);
    }
    Some(info)
}

impl LinuxPortScanner {
    /// The socket tables to read, in order, each with the protocol of its rows.
    pub fn tables(&self) -> (t: Vec<(String, String)>)
        ensures
            t@.len() == 4,
            t@[0].0@ == "/proc/net/tcp"@ && t@[0].1@ == "TCP"@,
            t@[1].0@ == "/proc/net/tcp6"@ && t@[1].1@ == "TCP"@,
            t@[2].0@ == "/proc/net/udp"@ && t@[2].1@ == "UDP"@,
            t@[3].0@ == "/proc/net/udp6"@ && t@[3].1@ == "UDP"@,
    {
        let mut t: Vec<(String, String)> = Vec::new();
        t.push((text("/proc/net/tcp"), text("TCP")));
        t.push((text("/proc/net/tcp6"), text("TCP")));
        t.push((text("/proc/net/udp"), text("UDP")));
        t.push((text("/proc/net/udp6"), text("UDP")));
        t
    }

    /// The port rows of a whole socket table (the contents of one of the
    /// `tables`), all still without an owner.
    pub fn parse_table(&self, content: &str, protocol: &str) -> (rows: Vec<PortInfo>)
        ensures
            rows@.len() == proc_net_rows(content@, protocol@).len(),
            forall|i: int| 0 <= i < rows@.len() ==> #[trigger] rows@[i]@ == proc_net_rows(content@, protocol@)[i],
    {
        let ls = split_lines(&chars_of(content));
        let ghost all = lines(content@);
        let ghost mapped = after(all, 1).map_values(|l: Seq<char>| proc_net_row(l, protocol@));
        let mut rows: Vec<PortInfo> = Vec::new();
        if ls.len() <= 1 {
            proof {
                assert(mapped =~= seq![]);
                assert(keep_some(mapped) =~= seq![]);
            }
            return rows;
        }
        let mut i: usize = 1;
        while i < ls.len()
            invariant
                1 <= i <= ls.len(),
                ls@.len() == all.len(),
                all.len() > 1,
                forall|k: int| 0 <= k < ls@.len() ==> #[trigger] ls@[k]@ == all[k],
                mapped == all.skip(1).map_values(|l: Seq<char>| proc_net_row(l, protocol@)),
                rows@.len() == keep_some(mapped.take(i - 1)).len(),
                forall|k: int| 0 <= k < rows@.len() ==> #[trigger] rows@[k]@ == keep_some(mapped.take(i - 1))[k],
            decreases ls.len() - i,
        {
            proof {
                assert(mapped.take(i as int).drop_last() =~= mapped.take(i - 1));
                assert(mapped.take(i as int).last() == proc_net_row(all[i as int], protocol@));
            }
            match proc_net_row_of(&ls[i], protocol) {
                Some(info) => rows.push(info),
                None => {},
            }
            i = i + 1;
        }
        proof {
            assert(mapped.take(i - 1) =~= mapped);
        }
        rows
    }
}


/// Number of rows before `i` that have no owner.
pub open spec fn unowned_before(rows: Seq<PortInfo>, i: int) -> nat
    decreases i,
{
    if i <= 0 {
        0
    } else if rows[i - 1].pid is None {
        unowned_before(rows, i - 1) + 1
    } else {
        unowned_before(rows, i - 1)
    }
}

/// The rows after handing out sockets' owners: each socket's process, in the
/// order the sockets were found, goes to the first row that has no owner yet;
/// so the k-th row without an owner gets the k-th socket's process, if there
/// is one.
pub open spec fn with_socket_owners(rows: Seq<PortInfo>, owners: Seq<u32>) -> Seq<PortInfo> {
    Seq::new(
        rows.len(),
        |i: int|
            if rows[i].pid is Some {
                rows[i]
            } else {
                let k = unowned_before(rows, i);
                PortInfo { pid: if k < owners.len() { Some(owners[k as int]) } else { None }, ..rows[i] }
            },
    )
}

/// The process that a /proc entry belongs to: entries named by a number.
pub open spec fn entry_pid(name: Seq<char>) -> Option<u32> {
    match parse_number(name, 10, u32::MAX as nat) {
        Some(v) => Some(v as u32),
        None => None,
    }
}

/// A file-descriptor link that names a socket.
pub open spec fn is_socket_target(link: Seq<char>) -> bool {
    occurs_at(link, "socket:["@, 0)
}

impl LinuxPortScanner {
    /// Hands out the owners of the sockets found under /proc (one PID per
    /// socket, in the order found) to the rows without an owner.
    pub fn assign_owners(&self, ports: &mut Vec<PortInfo>, socket_owners: &Vec<u32>)
        ensures
            final(ports)@ == with_socket_owners(old(ports)@, socket_owners@),
    {
        let ghost rows = ports@;
        let mut k: usize = 0;
        let mut i: usize = 0;
        while i < ports.len()
            invariant
                rows.len() == ports@.len(),
                i <= ports.len(),
                k == unowned_before(rows, i as int),
                k <= i,
                forall|j: int| i <= j < rows.len() ==> ports@[j] == rows[j],
                forall|j: int| 0 <= j < i ==> ports@[j] == with_socket_owners(rows, socket_owners@)[j],
            decreases ports.len() - i,
        {
            if ports[i].pid.is_none() {
                if k < socket_owners.len() {
                    ports[i].pid = Some(socket_owners[k]);
                }
                proof {
                    assert(ports@[i as int] == with_socket_owners(rows, socket_owners@)[i as int]);
                }
                k = k + 1;
            }
            proof {
                assert(unowned_before(rows, i + 1) == if rows[i as int].pid is None { unowned_before(rows, i as int) + 1 } else { unowned_before(rows, i as int) });
            }
            i = i + 1;
        }
        proof {
            assert(ports@ =~= with_socket_owners(rows, socket_owners@));
        }
    }

    /// The PID that a /proc entry is named by, if it is a number.
    pub fn entry_pid(&self, name: &str) -> (r: Option<u32>)
        ensures
            r == entry_pid(name@),
    {
        match parse_unsigned_chars(&chars_of(name), 10, u32::MAX as u64) {
            Some(v) => Some(v as u32),
            None => None,
        }
    }

    /// Whether a file-descriptor link names a socket ("socket:[...]").
    pub fn is_socket_link(&self, link: &str) -> (r: bool)
        ensures
            r == is_socket_target(link@),
    {
        let l = chars_of(link);
        let pat = chars_of("socket:[");
        if pat.len() > l.len() {
            return false;
        }
        crate::text::matches_prefix(&l, &pat)
    }
}

} // verus!
