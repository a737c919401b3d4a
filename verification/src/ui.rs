use vstd::prelude::*;
use crate::text::{decimal, number_text, push_char, push_decimal, push_str, text};
use crate::types::{PortSortBy, ProcessSortBy};

verus! {

/// The arrow that marks the sorted column: up when ascending.
pub open spec fn sort_arrow(ascending: bool) -> Seq<char> {
    if ascending {
        seq![' ', '\u{25b2}']
    } else {
        seq![' ', '\u{25bc}']
    }
}

/// A column header, marked with the sort arrow when the table is sorted by it.
pub open spec fn header_text(label: Seq<char>, active: bool, ascending: bool) -> Seq<char> {
    if active {
        label + sort_arrow(ascending)
    } else {
        label
    }
}

/// A column header (see `header_text`).
pub fn sort_header(label: &str, active: bool, ascending: bool) -> (s: String)
    ensures
        s@ == header_text(label@, active, ascending),
{
    let mut s = text(label);
    if active {
        push_char(&mut s, ' ');
        if ascending {
            push_char(&mut s, '\u{25b2}');
        } else {
            push_char(&mut s, '\u{25bc}');
        }
        proof {
            assert(s@ =~= label@ + sort_arrow(ascending));
        }
    }
    s
}

/// The headers of the process table.
pub fn process_headers(by: ProcessSortBy, ascending: bool) -> (h: Vec<String>)
    ensures
        h@.len() == 6,
        h@[0]@ == header_text("PID"@, by == ProcessSortBy::Pid, ascending),
        h@[1]@ == header_text("Name"@, by == ProcessSortBy::Name, ascending),
        h@[2]@ == header_text("CPU%"@, by == ProcessSortBy::Cpu, ascending),
        h@[3]@ == header_text("Memory"@, by == ProcessSortBy::Memory, ascending),
        h@[4]@ == "Status"@,
        h@[5]@ == "Command"@,
{
    let mut h: Vec<String> = Vec::new();
    h.push(sort_header("PID", by == ProcessSortBy::Pid, ascending));
    h.push(sort_header("Name", by == ProcessSortBy::Name, ascending));
    h.push(sort_header("CPU%", by == ProcessSortBy::Cpu, ascending));
    h.push(sort_header("Memory", by == ProcessSortBy::Memory, ascending));
    h.push(text("Status"));
    h.push(text("Command"));
    h
}

/// The headers of the port table.
pub fn port_headers(by: PortSortBy, ascending: bool) -> (h: Vec<String>)
    ensures
        h@.len() == 7,
        h@[0]@ == header_text("Protocol"@, by == PortSortBy::Protocol, ascending),
        h@[1]@ == "Local Address"@,
        h@[2]@ == header_text("Port"@, by == PortSortBy::Port, ascending),
        h@[3]@ == "Remote Address"@,
        h@[4]@ == header_text("State"@, by == PortSortBy::State, ascending),
        h@[5]@ == header_text("PID"@, by == PortSortBy::Pid, ascending),
        h@[6]@ == "Process"@,
{
    let mut h: Vec<String> = Vec::new();
    h.push(sort_header("Protocol", by == PortSortBy::Protocol, ascending));
    h.push(text("Local Address"));
    h.push(sort_header("Port", by == PortSortBy::Port, ascending));
    h.push(text("Remote Address"));
    h.push(sort_header("State", by == PortSortBy::State, ascending));
    h.push(sort_header("PID", by == PortSortBy::Pid, ascending));
    h.push(text("Process"));
    h
}

/// A table title with its row count: " <label> (<count>) ".
pub fn count_title(label: &str, count: u64) -> (s: String)
    ensures
        s@ == seq![' '] + label@ + " ("@ + decimal(count as nat) + ") "@,
{
    let mut s = String::new();
    push_char(&mut s, ' ');
    push_str(&mut s, label);
    push_str(&mut s, " (");
    push_decimal(&mut s, count);
    push_str(&mut s, ") ");
    proof {
        assert(s@ =~= seq![' '] + label@ + " ("@ + decimal(count as nat) + ") "@);
    }
    s
}

/// The filter shown under a table: " [filter: <text>] ", nothing when empty.
pub fn filter_suffix(filter: &str) -> (s: String)
    ensures
        s@ == if filter@.len() == 0 { Seq::<char>::empty() } else { " [filter: "@ + filter@ + "] "@ },
{
    if filter.is_empty() {
        return String::new();
    }
    let mut s = text(" [filter: ");
    push_str(&mut s, filter);
    push_str(&mut s, "] ");
    s
}

/// The PID column of a port row: the number, or "-" when unknown.
pub fn pid_text(pid: Option<u32>) -> (s: String)
    ensures
        s@ == match pid {
            Some(p) => decimal(p as nat),
            None => "-"@,
        },
{
    match pid {
        Some(p) => {
            let mut s = String::new();
            push_decimal(&mut s, p as u64);
            proof {
                assert(s@ =~= decimal(p as nat));
            }
            s
        },
        None => text("-"),
    }
}

/// A screen rectangle: left, top, width, height.
#[derive(Debug, Clone, Copy, PartialEq, Eq, Structural)]
pub struct Area {
    pub x: u16,
    pub y: u16,
    pub width: u16,
    pub height: u16,
}

/// A popup of at most `width` by `height` cells centred on a screen of
/// `screen_w` by `screen_h` cells.
pub fn centered_popup(screen_w: u16, screen_h: u16, width: u16, height: u16) -> (a: Area)
    ensures
        a.width == if width < screen_w { width } else { screen_w },
        a.height == if height < screen_h { height } else { screen_h },
        a.x == (screen_w - a.width) / 2,
        a.y == (screen_h - a.height) / 2,
        a.x + a.width <= screen_w,
        a.y + a.height <= screen_h,
{
    let w = if width < screen_w { width } else { screen_w };
    let h = if height < screen_h { height } else { screen_h };
    Area { x: (screen_w - w) / 2, y: (screen_h - h) / 2, width: w, height: h }
}

/// A bar `height` cells high along the bottom of the screen (cut to the
/// screen's height when `clip` holds).
pub fn bottom_bar(screen_w: u16, screen_h: u16, height: u16, clip: bool) -> (a: Area)
    ensures
        a.x == 0,
        a.width == screen_w,
        a.y == if height <= screen_h { screen_h - height } else { 0 },
        a.height == if clip && height > screen_h { screen_h } else { height },
{
    let y = if height <= screen_h { screen_h - height } else { 0 };
    let h = if clip && height > screen_h { screen_h } else { height };
    Area { x: 0, y, width: screen_w, height: h }
}

/// Height of the command palette: one more line when an error is shown.
pub fn palette_height(has_error: bool) -> (h: u16)
    ensures
        h == if has_error { 4u16 } else { 3u16 },
{
    if has_error { 4 } else { 3 }
}

} // verus!
