use vstd::prelude::*;
use vstd::view::View as _;
use crate::app::{
    kill_order_view, visible_ports, visible_processes, with_status, App, AppModel, InputMode,
    KeyCode, KeyEvent, KeyEventKind, KillOrder, KillOrderModel, View, VIEW_COUNT,
};
use crate::text::{
    chars_eq_str, chars_of, decimal, join_words, join_words_from, lowercase, number_text,
    parse_unsigned, parse_unsigned_chars, pop_char, prefixed_chars, prefixed_number, push_char,
    push_decimal, push_str, split_words, text, to_lowercase_chars, words,
};
use crate::types::PortInfo;
use crate::types::{PortSortBy, ProcessSortBy};

verus! {

// ---------------------------------------------------------------------------
// Table navigation
// ---------------------------------------------------------------------------

/// The selection after moving down one row in a table of `len` rows: the next
/// row, held at the last one; the first row when nothing was selected.
pub open spec fn select_next(sel: Option<usize>, len: nat) -> Option<usize> {
    if len == 0 {
        sel
    } else {
        match sel {
            Some(i) => {
                let n: int = if i == usize::MAX { 0 } else { i + 1 };
                Some((if n < len - 1 { n } else { len - 1 }) as usize)
            },
            None => Some(0),
        }
    }
}

/// The selection after moving up one row: the previous row, held at the
/// first; the first row when nothing was selected.
pub open spec fn select_previous(sel: Option<usize>) -> Option<usize> {
    match sel {
        Some(i) => Some((if i == 0 { 0 } else { i - 1 }) as usize),
        None => Some(0),
    }
}

pub open spec fn table_next_step(m: AppModel) -> AppModel {
    match m.view {
        View::ProcessTable => AppModel {
            process_selected: select_next(m.process_selected, visible_processes(m).len()),
            ..m
        },
        View::PortTable => AppModel {
            port_selected: select_next(m.port_selected, visible_ports(m).len()),
            ..m
        },
        _ => m,
    }
}

pub open spec fn table_previous_step(m: AppModel) -> AppModel {
    match m.view {
        View::ProcessTable => AppModel { process_selected: select_previous(m.process_selected), ..m },
        View::PortTable => AppModel { port_selected: select_previous(m.port_selected), ..m },
        _ => m,
    }
}

pub open spec fn table_first_step(m: AppModel) -> AppModel {
    match m.view {
        View::ProcessTable => AppModel { process_selected: Some(0), ..m },
        View::PortTable => AppModel { port_selected: Some(0), ..m },
        _ => m,
    }
}

pub open spec fn table_last_step(m: AppModel) -> AppModel {
    match m.view {
        View::ProcessTable => if visible_processes(m).len() > 0 {
            AppModel { process_selected: Some((visible_processes(m).len() - 1) as usize), ..m }
        } else {
            m
        },
        View::PortTable => if visible_ports(m).len() > 0 {
            AppModel { port_selected: Some((visible_ports(m).len() - 1) as usize), ..m }
        } else {
            m
        },
        _ => m,
    }
}

/// `n` moves down.
pub open spec fn table_next_n(m: AppModel, n: nat) -> AppModel
    decreases n,
{
    if n == 0 {
        m
    } else {
        table_next_n(table_next_step(m), (n - 1) as nat)
    }
}

/// `n` moves up.
pub open spec fn table_previous_n(m: AppModel, n: nat) -> AppModel
    decreases n,
{
    if n == 0 {
        m
    } else {
        table_previous_n(table_previous_step(m), (n - 1) as nat)
    }
}

/// Rows that one page key moves.
pub const PAGE_ROWS: usize = 20;

impl App {
    fn table_next(&mut self)
        ensures
            final(self)@ == table_next_step(old(self)@),
    {
        match self.view {
            View::ProcessTable => {
                let len = self.filtered_processes().len();
                if len == 0 {
                    return;
                }
                let i = match self.process_selected {
                    Some(i) => {
                        let n = if i == usize::MAX { 0 } else { i + 1 };
                        if n < len - 1 { n } else { len - 1 }
                    },
                    None => 0,
                };
                self.process_selected = Some(i);
                proof { assert(self@ =~= table_next_step(old(self)@)); }
            },
            View::PortTable => {
                let len = self.filtered_ports().len();
                if len == 0 {
                    return;
                }
                let i = match self.port_selected {
                    Some(i) => {
                        let n = if i == usize::MAX { 0 } else { i + 1 };
                        if n < len - 1 { n } else { len - 1 }
                    },
                    None => 0,
                };
                self.port_selected = Some(i);
                proof { assert(self@ =~= table_next_step(old(self)@)); }
            },
            _ => {},
        }
    }

    fn table_previous(&mut self)
        ensures
            final(self)@ == table_previous_step(old(self)@),
    {
        match self.view {
            View::ProcessTable => {
                let i = match self.process_selected {
                    Some(i) => if i == 0 { 0 } else { i - 1 },
                    None => 0,
                };
                self.process_selected = Some(i);
                proof { assert(self@ =~= table_previous_step(old(self)@)); }
            },
            View::PortTable => {
                let i = match self.port_selected {
                    Some(i) => if i == 0 { 0 } else { i - 1 },
                    None => 0,
                };
                self.port_selected = Some(i);
                proof { assert(self@ =~= table_previous_step(old(self)@)); }
            },
            _ => {},
        }
    }

    fn table_first(&mut self)
        ensures
            final(self)@ == table_first_step(old(self)@),
    {
        match self.view {
            View::ProcessTable => {
                self.process_selected = Some(0);
                proof { assert(self@ =~= table_first_step(old(self)@)); }
            },
            View::PortTable => {
                self.port_selected = Some(0);
                proof { assert(self@ =~= table_first_step(old(self)@)); }
            },
            _ => {},
        }
    }

    fn table_last(&mut self)
        ensures
            final(self)@ == table_last_step(old(self)@),
    {
        match self.view {
            View::ProcessTable => {
                let len = self.filtered_processes().len();
                if len > 0 {
                    self.process_selected = Some(len - 1);
                    proof { assert(self@ =~= table_last_step(old(self)@)); }
                }
            },
            View::PortTable => {
                let len = self.filtered_ports().len();
                if len > 0 {
                    self.port_selected = Some(len - 1);
                    proof { assert(self@ =~= table_last_step(old(self)@)); }
                }
            },
            _ => {},
        }
    }

    fn page_down(&mut self)
        ensures
            final(self)@ == table_next_n(old(self)@, PAGE_ROWS as nat),
    {
        let mut k: usize = 0;
        while k < PAGE_ROWS
            invariant
                k <= PAGE_ROWS,
                table_next_n(self@, (PAGE_ROWS - k) as nat) == table_next_n(old(self)@, PAGE_ROWS as nat),
            decreases PAGE_ROWS - k,
        {
            self.table_next();
            k = k + 1;
        }
    }

    fn page_up(&mut self)
        ensures
            final(self)@ == table_previous_n(old(self)@, PAGE_ROWS as nat),
    {
        let mut k: usize = 0;
        while k < PAGE_ROWS
            invariant
                k <= PAGE_ROWS,
                table_previous_n(self@, (PAGE_ROWS - k) as nat) == table_previous_n(old(self)@, PAGE_ROWS as nat),
            decreases PAGE_ROWS - k,
        {
            self.table_previous();
            k = k + 1;
        }
    }
}


// ---------------------------------------------------------------------------
// Sorting, killing, refresh rate
// ---------------------------------------------------------------------------

/// The next process sort column: CPU, memory, PID, name, then CPU again.
pub open spec fn next_process_sort(by: ProcessSortBy) -> ProcessSortBy {
    match by {
        ProcessSortBy::Cpu => ProcessSortBy::Memory,
        ProcessSortBy::Memory => ProcessSortBy::Pid,
        ProcessSortBy::Pid => ProcessSortBy::Name,
        ProcessSortBy::Name => ProcessSortBy::Cpu,
    }
}

/// The next port sort column: port, protocol, PID, state, then port again.
pub open spec fn next_port_sort(by: PortSortBy) -> PortSortBy {
    match by {
        PortSortBy::Port => PortSortBy::Protocol,
        PortSortBy::Protocol => PortSortBy::Pid,
        PortSortBy::Pid => PortSortBy::State,
        PortSortBy::State => PortSortBy::Port,
    }
}

/// How a process sort column is named in messages.
pub open spec fn process_sort_name(by: ProcessSortBy) -> Seq<char> {
    match by {
        ProcessSortBy::Pid => "Pid"@,
        ProcessSortBy::Name => "Name"@,
        ProcessSortBy::Cpu => "Cpu"@,
        ProcessSortBy::Memory => "Memory"@,
    }
}

/// The message that reports the process sort.
pub open spec fn sort_message(by: ProcessSortBy, asc: bool) -> Seq<char> {
    "Sort: "@ + process_sort_name(by) + " ("@ + (if asc { "asc"@ } else { "desc"@ }) + ")"@
}

pub open spec fn cycle_sort_step(m: AppModel, reverse: bool) -> AppModel {
    match m.view {
        View::ProcessTable => {
            let m2 = if reverse {
                AppModel { process_sort_asc: !m.process_sort_asc, ..m }
            } else {
                AppModel { process_sort_by: next_process_sort(m.process_sort_by), ..m }
            };
            with_status(m2, sort_message(m2.process_sort_by, m2.process_sort_asc))
        },
        View::PortTable => if reverse {
            AppModel { port_sort_asc: !m.port_sort_asc, ..m }
        } else {
            AppModel { port_sort_by: next_port_sort(m.port_sort_by), ..m }
        },
        _ => m,
    }
}

/// Asking to kill the selected row: a process row is asked about by PID and
/// name, a port row by its owner's PID and "port:<number>".
pub open spec fn initiate_kill_step(m: AppModel) -> AppModel {
    match m.view {
        View::ProcessTable => match m.process_selected {
            Some(idx) => if idx < visible_processes(m).len() {
                let p = visible_processes(m)[idx as int];
                AppModel {
                    confirm_kill: Some((p.pid, p.name@)),
                    input_mode: InputMode::ConfirmKill,
                    ..m
                }
            } else {
                m
            },
            None => m,
        },
        View::PortTable => match m.port_selected {
            Some(idx) => if idx < visible_ports(m).len() {
                let p = visible_ports(m)[idx as int];
                match p.pid {
                    Some(pid) => AppModel {
                        confirm_kill: Some((pid, "port:"@ + decimal(p.local_port as nat))),
                        input_mode: InputMode::ConfirmKill,
                        ..m
                    },
                    None => with_status(m, "No PID associated with this port"@),
                }
            } else {
                m
            },
            None => m,
        },
        _ => m,
    }
}

/// Slowest refresh that `-` reaches, in milliseconds.
pub const SLOWEST_KEY_RATE_MS: u64 = 10000;

/// Fastest refresh that `+` reaches, in milliseconds (it stops above this).
pub const FASTEST_KEY_RATE_MS: u64 = 250;

/// Change of the refresh period per key press, in milliseconds.
pub const RATE_STEP_MS: u64 = 250;

/// The message that reports a refresh period.
pub open spec fn rate_message(ms: u64) -> Seq<char> {
    "Refresh rate: "@ + decimal(ms as nat) + "ms"@
}

pub open spec fn faster_step(m: AppModel) -> AppModel {
    if m.tick_rate_ms > FASTEST_KEY_RATE_MS {
        let ms = (m.tick_rate_ms - RATE_STEP_MS) as u64;
        with_status(AppModel { tick_rate_ms: ms, ..m }, rate_message(ms))
    } else {
        m
    }
}

pub open spec fn slower_step(m: AppModel) -> AppModel {
    if m.tick_rate_ms < SLOWEST_KEY_RATE_MS {
        let ms = (m.tick_rate_ms + RATE_STEP_MS) as u64;
        with_status(AppModel { tick_rate_ms: ms, ..m }, rate_message(ms))
    } else {
        m
    }
}

impl App {
    fn cycle_sort(&mut self, reverse: bool)
        ensures
            final(self)@ == cycle_sort_step(old(self)@, reverse),
    {
        match self.view {
            View::ProcessTable => {
                if reverse {
                    self.process_sort_asc = !self.process_sort_asc;
                } else {
                    self.process_sort_by = match self.process_sort_by {
                        ProcessSortBy::Cpu => ProcessSortBy::Memory,
                        ProcessSortBy::Memory => ProcessSortBy::Pid,
                        ProcessSortBy::Pid => ProcessSortBy::Name,
                        ProcessSortBy::Name => ProcessSortBy::Cpu,
                    };
                }
                let ghost mid = self@;
                let mut msg = String::new();
                push_str(&mut msg, "Sort: ");
                match self.process_sort_by {
                    ProcessSortBy::Pid => push_str(&mut msg, "Pid"),
                    ProcessSortBy::Name => push_str(&mut msg, "Name"),
                    ProcessSortBy::Cpu => push_str(&mut msg, "Cpu"),
                    ProcessSortBy::Memory => push_str(&mut msg, "Memory"),
                }
                push_str(&mut msg, " (");
                if self.process_sort_asc {
                    push_str(&mut msg, "asc");
                } else {
                    push_str(&mut msg, "desc");
                }
                push_str(&mut msg, ")");
                proof {
                    assert(msg@ =~= sort_message(self.process_sort_by, self.process_sort_asc));
                }
                self.set_status(msg);
                proof {
                    assert(mid =~= (if reverse {
                        AppModel { process_sort_asc: !old(self)@.process_sort_asc, ..old(self)@ }
                    } else {
                        AppModel { process_sort_by: next_process_sort(old(self)@.process_sort_by), ..old(self)@ }
                    }));
                }
            },
            View::PortTable => {
                if reverse {
                    self.port_sort_asc = !self.port_sort_asc;
                } else {
                    self.port_sort_by = match self.port_sort_by {
                        PortSortBy::Port => PortSortBy::Protocol,
                        PortSortBy::Protocol => PortSortBy::Pid,
                        PortSortBy::Pid => PortSortBy::State,
                        PortSortBy::State => PortSortBy::Port,
                    };
                }
                proof { assert(self@ =~= cycle_sort_step(old(self)@, reverse)); }
            },
            _ => {},
        }
    }

    fn initiate_kill(&mut self)
        ensures
            final(self)@ == initiate_kill_step(old(self)@),
    {
        match self.view {
            View::ProcessTable => {
                if let Some(idx) = self.process_selected {
                    let filtered = self.filtered_processes();
                    if idx < filtered.len() {
                        let pid = filtered[idx].pid;
                        let name = filtered[idx].name.clone();
                        self.confirm_kill = Some((pid, name));
                        self.input_mode = InputMode::ConfirmKill;
                        proof { assert(self@ =~= initiate_kill_step(old(self)@)); }
                    }
                }
            },
            View::PortTable => {
                if let Some(idx) = self.port_selected {
                    let filtered = self.filtered_ports();
                    if idx < filtered.len() {
                        match filtered[idx].pid {
                            Some(pid) => {
                                let label = number_text("port:", filtered[idx].local_port as u64, "");
                                self.confirm_kill = Some((pid, label));
                                self.input_mode = InputMode::ConfirmKill;
                                proof {
                                    reveal_strlit("");
                                    assert(label@ =~= "port:"@ + decimal(
                                        visible_ports(old(self)@)[idx as int].local_port as nat,
                                    ));
                                    assert(self@ =~= initiate_kill_step(old(self)@));
                                }
                            },
                            None => {
                                let mut msg = String::new();
                                push_str(&mut msg, "No PID associated with this port");
                                proof { assert(msg@ =~= "No PID associated with this port"@); }
                                self.set_status(msg);
                            },
                        }
                    }
                }
            },
            _ => {},
        }
    }

    fn faster(&mut self)
        ensures
            final(self)@ == faster_step(old(self)@),
    {
        if self.tick_rate_ms > FASTEST_KEY_RATE_MS {
            self.tick_rate_ms = self.tick_rate_ms - RATE_STEP_MS;
            let msg = number_text("Refresh rate: ", self.tick_rate_ms, "ms");
            self.set_status(msg);
        }
    }

    fn slower(&mut self)
        ensures
            final(self)@ == slower_step(old(self)@),
    {
        if self.tick_rate_ms < SLOWEST_KEY_RATE_MS {
            self.tick_rate_ms = self.tick_rate_ms + RATE_STEP_MS;
            let msg = number_text("Refresh rate: ", self.tick_rate_ms, "ms");
            self.set_status(msg);
        }
    }
}


// ---------------------------------------------------------------------------
// Keys in normal mode
// ---------------------------------------------------------------------------

/// The view reached by Tab: the next tab, wrapping to the first.
pub open spec fn next_view(v: View) -> View {
    View::at(((v.ordinal() + 1) as int) % (VIEW_COUNT as int))
}

/// The view reached by Shift+Tab: the previous tab, wrapping to the last.
pub open spec fn previous_view(v: View) -> View {
    View::at(if v.ordinal() == 0 { VIEW_COUNT - 1 } else { v.ordinal() - 1 as int })
}

pub open spec fn normal_key_step(m: AppModel, code: KeyCode) -> AppModel {
    if m.show_help {
        if code == KeyCode::Char('?') || code == KeyCode::Esc {
            AppModel { show_help: false, ..m }
        } else {
            m
        }
    } else {
        match code {
            KeyCode::Char('q') => AppModel { running: false, ..m },
            KeyCode::Esc => if m.view != View::Dashboard {
                AppModel { view: View::Dashboard, filter_input: seq![], ..m }
            } else {
                AppModel { running: false, ..m }
            },
            KeyCode::Char('?') => AppModel { show_help: true, ..m },
            KeyCode::Char(':') => AppModel {
                input_mode: InputMode::CommandPalette,
                command_input: seq![],
                command_error: None,
                ..m
            },
            KeyCode::Char('/') => AppModel { input_mode: InputMode::Filter, filter_input: seq![], ..m },
            KeyCode::Char('1') => AppModel { view: View::Dashboard, ..m },
            KeyCode::Char('2') => AppModel { view: View::CpuDetail, ..m },
            KeyCode::Char('3') => AppModel { view: View::MemoryDetail, ..m },
            KeyCode::Char('4') => AppModel { view: View::DiskDetail, ..m },
            KeyCode::Char('5') => AppModel { view: View::GpuDetail, ..m },
            KeyCode::Char('6') => AppModel { view: View::ProcessTable, ..m },
            KeyCode::Char('7') => AppModel { view: View::PortTable, ..m },
            KeyCode::Tab => AppModel { view: next_view(m.view), filter_input: seq![], ..m },
            KeyCode::BackTab => AppModel { view: previous_view(m.view), filter_input: seq![], ..m },
            KeyCode::Down | KeyCode::Char('j') => table_next_step(m),
            KeyCode::Up | KeyCode::Char('k') => table_previous_step(m),
            KeyCode::Home => table_first_step(m),
            KeyCode::End => table_last_step(m),
            KeyCode::PageDown => table_next_n(m, PAGE_ROWS as nat),
            KeyCode::PageUp => table_previous_n(m, PAGE_ROWS as nat),
            KeyCode::Char('s') => cycle_sort_step(m, false),
            KeyCode::Char('S') => cycle_sort_step(m, true),
            KeyCode::Delete | KeyCode::Char('K') => initiate_kill_step(m),
            KeyCode::Char('+') | KeyCode::Char('=') => faster_step(m),
            KeyCode::Char('-') => slower_step(m),
            _ => m,
        }
    }
}

impl App {
    fn handle_normal(&mut self, code: KeyCode)
        ensures
            final(self)@ == normal_key_step(old(self)@, code),
    {
        if self.show_help {
            match code {
                KeyCode::Char('?') | KeyCode::Esc => self.show_help = false,
                _ => {},
            }
            proof { assert(self@ =~= normal_key_step(old(self)@, code)); }
            return;
        }
        match code {
            KeyCode::Char('q') => self.running = false,
            KeyCode::Esc => {
                if self.view != View::Dashboard {
                    self.view = View::Dashboard;
                    self.filter_input = String::new();
                } else {
                    self.running = false;
                }
            },
            KeyCode::Char('?') => self.show_help = true,
            KeyCode::Char(':') => {
                self.input_mode = InputMode::CommandPalette;
                self.command_input = String::new();
                self.command_error = None;
            },
            KeyCode::Char('/') => {
                self.input_mode = InputMode::Filter;
                self.filter_input = String::new();
            },
            KeyCode::Char('1') => self.view = View::Dashboard,
            KeyCode::Char('2') => self.view = View::CpuDetail,
            KeyCode::Char('3') => self.view = View::MemoryDetail,
            KeyCode::Char('4') => self.view = View::DiskDetail,
            KeyCode::Char('5') => self.view = View::GpuDetail,
            KeyCode::Char('6') => self.view = View::ProcessTable,
            KeyCode::Char('7') => self.view = View::PortTable,
            KeyCode::Tab => {
                let idx = (self.view.index() + 1) % VIEW_COUNT;
                self.view = View::from_index(idx);
                self.filter_input = String::new();
            },
            KeyCode::BackTab => {
                let idx = if self.view.index() == 0 { VIEW_COUNT - 1 } else { self.view.index() - 1 };
                self.view = View::from_index(idx);
                self.filter_input = String::new();
            },
            KeyCode::Down | KeyCode::Char('j') => self.table_next(),
            KeyCode::Up | KeyCode::Char('k') => self.table_previous(),
            KeyCode::Home => self.table_first(),
            KeyCode::End => self.table_last(),
            KeyCode::PageDown => self.page_down(),
            KeyCode::PageUp => self.page_up(),
            KeyCode::Char('s') => self.cycle_sort(false),
            KeyCode::Char('S') => self.cycle_sort(true),
            KeyCode::Delete | KeyCode::Char('K') => self.initiate_kill(),
            KeyCode::Char('+') | KeyCode::Char('=') => self.faster(),
            KeyCode::Char('-') => self.slower(),
            _ => {},
        }
        proof { assert(self@ =~= normal_key_step(old(self)@, code)); }
    }
}

// ---------------------------------------------------------------------------
// Typing a filter
// ---------------------------------------------------------------------------

/// The text after Backspace: the last character removed, if there is one.
pub open spec fn backspace(t: Seq<char>) -> Seq<char> {
    if t.len() > 0 {
        t.drop_last()
    } else {
        t
    }
}

pub open spec fn filter_key_step(m: AppModel, code: KeyCode) -> AppModel {
    match code {
        KeyCode::Esc => AppModel { input_mode: InputMode::Normal, filter_input: seq![], ..m },
        KeyCode::Enter => AppModel { input_mode: InputMode::Normal, ..m },
        KeyCode::Backspace => AppModel { filter_input: backspace(m.filter_input), ..m },
        KeyCode::Char(c) => AppModel { filter_input: m.filter_input.push(c), ..m },
        _ => m,
    }
}

impl App {
    fn handle_filter_input(&mut self, code: KeyCode)
        ensures
            final(self)@ == filter_key_step(old(self)@, code),
    {
        match code {
            KeyCode::Esc => {
                self.input_mode = InputMode::Normal;
                self.filter_input = String::new();
            },
            KeyCode::Enter => {
                self.input_mode = InputMode::Normal;
            },
            KeyCode::Backspace => {
                pop_char(&mut self.filter_input);
            },
            KeyCode::Char(c) => {
                push_char(&mut self.filter_input, c);
            },
            _ => {},
        }
        proof { assert(self@ =~= filter_key_step(old(self)@, code)); }
    }
}

// ---------------------------------------------------------------------------
// Commands
// ---------------------------------------------------------------------------

/// The PID of the first port row with the given local port, if that row
/// has one.
pub open spec fn port_owner(ports: Seq<PortInfo>, port: u16) -> Option<u32>
    decreases ports.len(),
{
    if ports.len() == 0 {
        None
    } else if ports[0].local_port == port {
        ports[0].pid
    } else {
        port_owner(ports.drop_first(), port)
    }
}

/// Killing whatever owns a local port.
pub open spec fn kill_port_step(m: AppModel, port: u16) -> (AppModel, Option<KillOrderModel>) {
    match port_owner(m.ports, port) {
        Some(pid) => (
            m,
            Some(
                KillOrderModel {
                    pid,
                    success_message: "Killed process on port "@ + decimal(port as nat),
                    failure_prefix: "Failed: "@,
                },
            ),
        ),
        None => (with_status(m, "No process found on port "@ + decimal(port as nat)), None),
    }
}

/// The smallest refresh period that a command may set, in milliseconds.
pub const MIN_COMMAND_RATE_MS: u64 = 100;

/// Running a command line typed in the palette: words separated by
/// whitespace, the first naming the command.
pub open spec fn command_step(m: AppModel, cmd: Seq<char>) -> (AppModel, Option<KillOrderModel>) {
    let parts = words(cmd);
    if parts.len() == 0 {
        (m, None)
    } else if parts[0] == "q"@ || parts[0] == "quit"@ {
        (AppModel { running: false, ..m }, None)
    } else if parts[0] == "kill"@ {
        if parts.len() > 1 {
            match parse_unsigned(parts[1], 10, u32::MAX as nat) {
                Some(pid) => (
                    m,
                    Some(
                        KillOrderModel {
                            pid: pid as u32,
                            success_message: "Killed PID "@ + decimal(pid),
                            failure_prefix: "Failed: "@,
                        },
                    ),
                ),
                None => (with_status(m, "Invalid PID"@), None),
            }
        } else {
            (with_status(m, "Usage: kill <pid>"@), None)
        }
    } else if parts[0] == "kill-port"@ {
        if parts.len() > 1 {
            match parse_unsigned(parts[1], 10, u16::MAX as nat) {
                Some(port) => kill_port_step(m, port as u16),
                None => (with_status(m, "Invalid port number"@), None),
            }
        } else {
            (with_status(m, "Usage: kill-port <port>"@), None)
        }
    } else if parts[0] == "rate"@ {
        if parts.len() > 1 {
            match parse_unsigned(parts[1], 10, u64::MAX as nat) {
                Some(ms) => if ms >= MIN_COMMAND_RATE_MS {
                    (with_status(AppModel { tick_rate_ms: ms as u64, ..m }, rate_message(ms as u64)), None)
                } else {
                    (with_status(m, "Minimum rate is 100ms"@), None)
                },
                None => (with_status(m, "Invalid rate value"@), None),
            }
        } else {
            (with_status(m, "Usage: rate <ms>"@), None)
        }
    } else if parts[0] == "filter"@ {
        let f = join_words(parts.skip(1));
        (with_status(AppModel { filter_input: f, ..m }, "Filter: "@ + f), None)
    } else if parts[0] == "sort"@ {
        if parts.len() > 1 {
            let col = parts[1];
            let lc = lowercase(col);
            let done = "Sorting by: "@ + col;
            if lc == "cpu"@ {
                (with_status(AppModel { process_sort_by: ProcessSortBy::Cpu, ..m }, done), None)
            } else if lc == "mem"@ || lc == "memory"@ {
                (with_status(AppModel { process_sort_by: ProcessSortBy::Memory, ..m }, done), None)
            } else if lc == "pid"@ {
                (with_status(AppModel { process_sort_by: ProcessSortBy::Pid, ..m }, done), None)
            } else if lc == "name"@ {
                (with_status(AppModel { process_sort_by: ProcessSortBy::Name, ..m }, done), None)
            } else if lc == "port"@ {
                (with_status(AppModel { port_sort_by: PortSortBy::Port, ..m }, done), None)
            } else if lc == "protocol"@ {
                (with_status(AppModel { port_sort_by: PortSortBy::Protocol, ..m }, done), None)
            } else if lc == "state"@ {
                (with_status(AppModel { port_sort_by: PortSortBy::State, ..m }, done), None)
            } else {
                (with_status(m, "Unknown sort column: "@ + col), None)
            }
        } else {
            (with_status(m, "Usage: sort <column>"@), None)
        }
    } else {
        (with_status(m, "Unknown command: "@ + parts[0]), None)
    }
}

impl App {
    fn kill_by_port(&mut self, port: u16) -> (r: Option<KillOrder>)
        ensures
            (final(self)@, kill_order_view(r)) == kill_port_step(old(self)@, port),
    {
        let mut i: usize = 0;
        let mut owner: Option<u32> = None;
        proof {
            assert(self.ports@.skip(0) =~= self.ports@);
        }
        while i < self.ports.len()
            invariant_except_break
                owner is None,
            invariant
                i <= self.ports.len(),
                port_owner(self.ports@, port) == port_owner(self.ports@.skip(i as int), port),
            ensures
                owner == port_owner(self.ports@, port),
            decreases self.ports.len() - i,
        {
            proof {
                assert(self.ports@.skip(i as int).drop_first() =~= self.ports@.skip(i + 1));
                assert(self.ports@.skip(i as int)[0] == self.ports@[i as int]);
            }
            if self.ports[i].local_port == port {
                owner = self.ports[i].pid;
                break;
            }
            i = i + 1;
        }
        match owner {
            Some(pid) => {
                let order = KillOrder {
                    pid,
                    success_message: prefixed_number("Killed process on port ", port as u64),
                    failure_prefix: text("Failed: "),
                };
                Some(order)
            },
            None => {
                self.set_status(prefixed_number("No process found on port ", port as u64));
                None
            },
        }
    }
}


impl App {
    fn set_status_text(&mut self, msg: &str)
        ensures
            final(self)@ == with_status(old(self)@, msg@),
    {
        self.set_status(text(msg));
    }

    fn execute_command(&mut self, cmd: &str) -> (r: Option<KillOrder>)
        ensures
            (final(self)@, kill_order_view(r)) == command_step(old(self)@, cmd@),
    {
        let parts = split_words(&chars_of(cmd));
        proof {
            assert(parts@.len() == words(cmd@).len());
        }
        if parts.len() == 0 {
            return None;
        }
        let head = &parts[0];
        if chars_eq_str(head, "q") || chars_eq_str(head, "quit") {
            self.running = false;
            proof { assert(self@ =~= command_step(old(self)@, cmd@).0); }
            None
        } else if chars_eq_str(head, "kill") {
            if parts.len() > 1 {
                match parse_unsigned_chars(&parts[1], 10, u32::MAX as u64) {
                    Some(pid) => Some(
                        KillOrder {
                            pid: pid as u32,
                            success_message: prefixed_number("Killed PID ", pid),
                            failure_prefix: text("Failed: "),
                        },
                    ),
                    None => {
                        self.set_status_text("Invalid PID");
                        None
                    },
                }
            } else {
                self.set_status_text("Usage: kill <pid>");
                None
            }
        } else if chars_eq_str(head, "kill-port") {
            if parts.len() > 1 {
                match parse_unsigned_chars(&parts[1], 10, u16::MAX as u64) {
                    Some(port) => self.kill_by_port(port as u16),
                    None => {
                        self.set_status_text("Invalid port number");
                        None
                    },
                }
            } else {
                self.set_status_text("Usage: kill-port <port>");
                None
            }
        } else if chars_eq_str(head, "rate") {
            if parts.len() > 1 {
                match parse_unsigned_chars(&parts[1], 10, u64::MAX) {
                    Some(ms) => {
                        if ms >= MIN_COMMAND_RATE_MS {
                            self.tick_rate_ms = ms;
                            self.set_status(number_text("Refresh rate: ", ms, "ms"));
                        } else {
                            self.set_status_text("Minimum rate is 100ms");
                        }
                        None
                    },
                    None => {
                        self.set_status_text("Invalid rate value");
                        None
                    },
                }
            } else {
                self.set_status_text("Usage: rate <ms>");
                None
            }
        } else if chars_eq_str(head, "filter") {
            let f = join_words_from(&parts, 1);
            let msg = prefixed_chars("Filter: ", &chars_of(f.as_str()));
            self.filter_input = f;
            self.set_status(msg);
            proof {
                let ws = words(cmd@);
                assert(parts@.subrange(1, parts@.len() as int).map_values(|w: Vec<char>| w@) =~= ws.skip(1));
            }
            None
        } else if chars_eq_str(head, "sort") {
            if parts.len() > 1 {
                let col = &parts[1];
                let lc = to_lowercase_chars(col);
                let done = prefixed_chars("Sorting by: ", col);
                if chars_eq_str(&lc, "cpu") {
                    self.process_sort_by = ProcessSortBy::Cpu;
                } else if chars_eq_str(&lc, "mem") || chars_eq_str(&lc, "memory") {
                    self.process_sort_by = ProcessSortBy::Memory;
                } else if chars_eq_str(&lc, "pid") {
                    self.process_sort_by = ProcessSortBy::Pid;
                } else if chars_eq_str(&lc, "name") {
                    self.process_sort_by = ProcessSortBy::Name;
                } else if chars_eq_str(&lc, "port") {
                    self.port_sort_by = PortSortBy::Port;
                } else if chars_eq_str(&lc, "protocol") {
                    self.port_sort_by = PortSortBy::Protocol;
                } else if chars_eq_str(&lc, "state") {
                    self.port_sort_by = PortSortBy::State;
                } else {
                    self.set_status(prefixed_chars("Unknown sort column: ", col));
                    return None;
                }
                self.set_status(done);
                None
            } else {
                self.set_status_text("Usage: sort <column>");
                None
            }
        } else {
            self.set_status(prefixed_chars("Unknown command: ", head));
            None
        }
    }
}

// ---------------------------------------------------------------------------
// Typing a command, confirming a kill, dispatching keys
// ---------------------------------------------------------------------------

pub open spec fn command_key_step(m: AppModel, code: KeyCode) -> (AppModel, Option<KillOrderModel>) {
    match code {
        KeyCode::Esc => (
            AppModel {
                input_mode: InputMode::Normal,
                command_input: seq![],
                command_error: None,
                ..m
            },
            None,
        ),
        KeyCode::Enter => {
            let (m2, order) = command_step(m, m.command_input);
            (AppModel { input_mode: InputMode::Normal, command_input: seq![], ..m2 }, order)
        },
        KeyCode::Backspace => (
            AppModel { command_input: backspace(m.command_input), command_error: None, ..m },
            None,
        ),
        KeyCode::Char(c) => (
            AppModel { command_input: m.command_input.push(c), command_error: None, ..m },
            None,
        ),
        _ => (m, None),
    }
}

pub open spec fn confirm_key_step(m: AppModel, code: KeyCode) -> (AppModel, Option<KillOrderModel>) {
    if code == KeyCode::Char('y') || code == KeyCode::Char('Y') {
        let m2 = AppModel { confirm_kill: None, input_mode: InputMode::Normal, ..m };
        match m.confirm_kill {
            Some((pid, name)) => (
                m2,
                Some(
                    KillOrderModel {
                        pid,
                        success_message: "Killed "@ + name + " (PID "@ + decimal(pid as nat) + ")"@,
                        failure_prefix: "Failed to kill "@ + name + ": "@,
                    },
                ),
            ),
            None => (m2, None),
        }
    } else {
        (AppModel { confirm_kill: None, input_mode: InputMode::Normal, ..m }, None)
    }
}

/// What a key does: only presses count, and their meaning depends on what
/// the user is doing (typing a command or a filter, confirming a kill, or
/// browsing).
pub open spec fn key_step(m: AppModel, key: KeyEvent) -> (AppModel, Option<KillOrderModel>) {
    if key.kind != KeyEventKind::Press {
        (m, None)
    } else {
        match m.input_mode {
            InputMode::ConfirmKill => confirm_key_step(m, key.code),
            InputMode::CommandPalette => command_key_step(m, key.code),
            InputMode::Filter => (filter_key_step(m, key.code), None),
            InputMode::Normal => (normal_key_step(m, key.code), None),
        }
    }
}

/// The state after a kill was attempted: its message on success, its prefix
/// and the error otherwise.
pub open spec fn kill_done_step(m: AppModel, order: KillOrderModel, outcome: Result<(), Seq<char>>) -> AppModel {
    match outcome {
        Ok(()) => with_status(m, order.success_message),
        Err(e) => with_status(m, order.failure_prefix + e),
    }
}

impl App {
    fn handle_command_input(&mut self, code: KeyCode) -> (r: Option<KillOrder>)
        ensures
            (final(self)@, kill_order_view(r)) == command_key_step(old(self)@, code),
    {
        match code {
            KeyCode::Esc => {
                self.input_mode = InputMode::Normal;
                self.command_input = String::new();
                self.command_error = None;
                proof { assert(self@ =~= command_key_step(old(self)@, code).0); }
                None
            },
            KeyCode::Enter => {
                let cmd = text(self.command_input.as_str());
                let order = self.execute_command(cmd.as_str());
                self.input_mode = InputMode::Normal;
                self.command_input = String::new();
                proof {
                    let (m2, o) = command_step(old(self)@, old(self)@.command_input);
                    assert(self@ =~= AppModel { input_mode: InputMode::Normal, command_input: seq![], ..m2 });
                }
                order
            },
            KeyCode::Backspace => {
                pop_char(&mut self.command_input);
                self.command_error = None;
                proof { assert(self@ =~= command_key_step(old(self)@, code).0); }
                None
            },
            KeyCode::Char(c) => {
                push_char(&mut self.command_input, c);
                self.command_error = None;
                proof { assert(self@ =~= command_key_step(old(self)@, code).0); }
                None
            },
            _ => None,
        }
    }

    fn handle_confirm_kill(&mut self, code: KeyCode) -> (r: Option<KillOrder>)
        ensures
            (final(self)@, kill_order_view(r)) == confirm_key_step(old(self)@, code),
    {
        let mut order: Option<KillOrder> = None;
        if code == KeyCode::Char('y') || code == KeyCode::Char('Y') {
            match &self.confirm_kill {
                Some((pid, name)) => {
                    let name_chars = chars_of(name.as_str());
                    let mut success = prefixed_chars("Killed ", &name_chars);
                    push_str(&mut success, " (PID ");
                    push_decimal(&mut success, *pid as u64);
                    push_str(&mut success, ")");
                    let mut failure = prefixed_chars("Failed to kill ", &name_chars);
                    push_str(&mut failure, ": ");
                    proof {
                        assert(success@ =~= "Killed "@ + name@ + " (PID "@ + decimal(*pid as nat) + ")"@);
                        assert(failure@ =~= "Failed to kill "@ + name@ + ": "@);
                    }
                    order = Some(KillOrder { pid: *pid, success_message: success, failure_prefix: failure });
                },
                None => {},
            }
        }
        self.confirm_kill = None;
        self.input_mode = InputMode::Normal;
        proof { assert(self@ =~= confirm_key_step(old(self)@, code).0); }
        order
    }

    /// Reacts to a key. A kill that the key asks for is returned for the
    /// caller to carry out and report back through `finish_kill`.
    pub fn handle_key(&mut self, key: KeyEvent) -> (r: Option<KillOrder>)
        ensures
            (final(self)@, kill_order_view(r)) == key_step(old(self)@, key),
    {
        if key.kind != KeyEventKind::Press {
            return None;
        }
        match self.input_mode {
            InputMode::ConfirmKill => self.handle_confirm_kill(key.code),
            InputMode::CommandPalette => self.handle_command_input(key.code),
            InputMode::Filter => {
                self.handle_filter_input(key.code);
                None
            },
            InputMode::Normal => {
                self.handle_normal(key.code);
                None
            },
        }
    }

    /// Reports how a kill went: `outcome` is the error message of a failed kill.
    pub fn finish_kill(&mut self, order: KillOrder, outcome: Result<(), String>)
        ensures
            final(self)@ == kill_done_step(
                old(self)@,
                order@,
                match outcome {
                    Ok(()) => Ok(()),
                    Err(e) => Err(e@),
                },
            ),
    {
        match outcome {
            Ok(()) => self.set_status(order.success_message),
            Err(e) => {
                let mut msg = order.failure_prefix;
                push_str(&mut msg, e.as_str());
                self.set_status(msg);
            },
        }
    }
}

} // verus!
