use vstd::prelude::*;
use vstd::view::View as _;
use crate::config::Config;
use crate::text::{chars_of, contains_chars, decimal, decimal_string, has_substring, lowercase, to_lowercase_chars};
use crate::types::{PortInfo, PortSortBy, ProcessInfo, ProcessSortBy};
use crate::order::is_stable_sort;
use crate::collectors::ports::{port_keys, sort_port_rows};
use crate::collectors::process::{is_nan_bits, process_keys, sort_processes};

verus! {

/// The screens of the monitor, in tab order.
#[derive(Debug, Clone, Copy, PartialEq, Eq, Structural)]
pub enum View {
    Dashboard,
    CpuDetail,
    MemoryDetail,
    DiskDetail,
    GpuDetail,
    ProcessTable,
    PortTable,
}

/// Number of views, which is also the number of tabs.
pub const VIEW_COUNT: usize = 7;

impl View {
    /// Position of the view in the tab bar.
    pub open spec fn ordinal(self) -> nat {
        match self {
            View::Dashboard => 0,
            View::CpuDetail => 1,
            View::MemoryDetail => 2,
            View::DiskDetail => 3,
            View::GpuDetail => 4,
            View::ProcessTable => 5,
            View::PortTable => 6,
        }
    }

    /// The view at a tab position; positions past the last tab give the dashboard.
    pub open spec fn at(i: int) -> View {
        if i == 1 {
            View::CpuDetail
        } else if i == 2 {
            View::MemoryDetail
        } else if i == 3 {
            View::DiskDetail
        } else if i == 4 {
            View::GpuDetail
        } else if i == 5 {
            View::ProcessTable
        } else if i == 6 {
            View::PortTable
        } else {
            View::Dashboard
        }
    }

    /// Title of the tab at position `i`.
    pub open spec fn title_at(i: int) -> Seq<char> {
        if i == 0 {
            "Dashboard"@
        } else if i == 1 {
            "CPU"@
        } else if i == 2 {
            "Memory"@
        } else if i == 3 {
            "Disk"@
        } else if i == 4 {
            "GPU"@
        } else if i == 5 {
            "Processes"@
        } else {
            "Ports"@
        }
    }

    pub fn index(&self) -> (i: usize)
        ensures
            i == self.ordinal(),
    {
        match self {
            View::Dashboard => 0,
            View::CpuDetail => 1,
            View::MemoryDetail => 2,
            View::DiskDetail => 3,
            View::GpuDetail => 4,
            View::ProcessTable => 5,
            View::PortTable => 6,
        }
    }

    pub fn from_index(i: usize) -> (v: View)
        ensures
            v == View::at(i as int),
    {
        match i {
            0 => View::Dashboard,
            1 => View::CpuDetail,
            2 => View::MemoryDetail,
            3 => View::DiskDetail,
            4 => View::GpuDetail,
            5 => View::ProcessTable,
            6 => View::PortTable,
            _ => View::Dashboard,
        }
    }

    pub fn titles() -> (t: &'static [&'static str])
        ensures
            t@.len() == VIEW_COUNT,
            forall|i: int| 0 <= i < VIEW_COUNT ==> #[trigger] t@[i]@ == View::title_at(i),
    {
        &["Dashboard", "CPU", "Memory", "Disk", "GPU", "Processes", "Ports"]
    }
}

#[derive(Debug, Clone, Copy, PartialEq, Eq, Structural)]
pub enum InputMode {
    Normal,
    CommandPalette,
    Filter,
    ConfirmKill,
}

/// A key, as the terminal reports it.
#[derive(Debug, Clone, Copy, PartialEq, Eq, Structural)]
pub enum KeyCode {
    Backspace,
    Enter,
    Left,
    Right,
    Up,
    Down,
    Home,
    End,
    PageUp,
    PageDown,
    Tab,
    BackTab,
    Delete,
    Insert,
    F(u8),
    Char(char),
    Null,
    Esc,
    /// Any other key (media, modifier and lock keys and the like).
    Other,
}

#[derive(Debug, Clone, Copy, PartialEq, Eq, Structural)]
pub enum KeyEventKind {
    Press,
    Repeat,
    Release,
}

#[derive(Debug, Clone, Copy, PartialEq, Eq, Structural)]
pub struct KeyEvent {
    pub code: KeyCode,
    pub kind: KeyEventKind,
}

/// A process to be killed, with the status lines to show afterwards.
#[derive(Debug, Clone)]
pub struct KillOrder {
    pub pid: u32,
    /// Shown when the kill succeeds.
    pub success_message: String,
    /// Shown, followed by the error, when the kill fails.
    pub failure_prefix: String,
}

pub struct KillOrderModel {
    pub pid: u32,
    pub success_message: Seq<char>,
    pub failure_prefix: Seq<char>,
}

impl vstd::view::View for KillOrder {
    type V = KillOrderModel;

    open spec fn view(&self) -> KillOrderModel {
        KillOrderModel {
            pid: self.pid,
            success_message: self.success_message@,
            failure_prefix: self.failure_prefix@,
        }
    }
}

pub open spec fn kill_order_view(k: Option<KillOrder>) -> Option<KillOrderModel> {
    match k {
        Some(o) => Some(o@),
        None => None,
    }
}

/// The state of the monitor's interface: what is shown, the rows of the
/// process and port tables, and what the user is typing.
pub struct App {
    pub running: bool,
    pub view: View,
    pub input_mode: InputMode,
    // Table rows
    pub processes: Vec<ProcessInfo>,
    pub ports: Vec<PortInfo>,
    // Selected rows
    pub process_selected: Option<usize>,
    pub port_selected: Option<usize>,
    // Sorting
    pub process_sort_by: ProcessSortBy,
    pub process_sort_asc: bool,
    pub port_sort_by: PortSortBy,
    pub port_sort_asc: bool,
    // Command palette
    pub command_input: String,
    pub command_error: Option<String>,
    // Filter
    pub filter_input: String,
    // Kill confirmation
    pub confirm_kill: Option<(u32, String)>,
    // Help
    pub show_help: bool,
    // Refresh period in milliseconds
    pub tick_rate_ms: u64,
    // Status message, and whether it was set since the caller last looked
    pub status_message: Option<String>,
    pub status_fresh: bool,
}

/// The abstract state of an `App`.
#[verifier::ext_equal]
pub struct AppModel {
    pub running: bool,
    pub view: View,
    pub input_mode: InputMode,
    pub processes: Seq<ProcessInfo>,
    pub ports: Seq<PortInfo>,
    pub process_selected: Option<usize>,
    pub port_selected: Option<usize>,
    pub process_sort_by: ProcessSortBy,
    pub process_sort_asc: bool,
    pub port_sort_by: PortSortBy,
    pub port_sort_asc: bool,
    pub command_input: Seq<char>,
    pub command_error: Option<Seq<char>>,
    pub filter_input: Seq<char>,
    pub confirm_kill: Option<(u32, Seq<char>)>,
    pub show_help: bool,
    pub tick_rate_ms: u64,
    pub status_message: Option<Seq<char>>,
    pub status_fresh: bool,
}

pub open spec fn opt_string_view(s: Option<String>) -> Option<Seq<char>> {
    match s {
        Some(t) => Some(t@),
        None => None,
    }
}

impl vstd::view::View for App {
    type V = AppModel;

    open spec fn view(&self) -> AppModel {
        AppModel {
            running: self.running,
            view: self.view,
            input_mode: self.input_mode,
            processes: self.processes@,
            ports: self.ports@,
            process_selected: self.process_selected,
            port_selected: self.port_selected,
            process_sort_by: self.process_sort_by,
            process_sort_asc: self.process_sort_asc,
            port_sort_by: self.port_sort_by,
            port_sort_asc: self.port_sort_asc,
            command_input: self.command_input@,
            command_error: opt_string_view(self.command_error),
            filter_input: self.filter_input@,
            confirm_kill: match self.confirm_kill {
                Some((pid, name)) => Some((pid, name@)),
                None => None,
            },
            show_help: self.show_help,
            tick_rate_ms: self.tick_rate_ms,
            status_message: opt_string_view(self.status_message),
            status_fresh: self.status_fresh,
        }
    }
}

/// The state the monitor starts in.
pub open spec fn initial_model(config: Config) -> AppModel {
    AppModel {
        running: true,
        view: View::Dashboard,
        input_mode: InputMode::Normal,
        processes: seq![],
        ports: seq![],
        process_selected: None,
        port_selected: None,
        process_sort_by: ProcessSortBy::Cpu,
        process_sort_asc: false,
        port_sort_by: PortSortBy::Port,
        port_sort_asc: true,
        command_input: seq![],
        command_error: None,
        filter_input: seq![],
        confirm_kill: None,
        show_help: false,
        tick_rate_ms: config.rate,
        status_message: None,
        status_fresh: false,
    }
}

/// A process row matches a (lowercased) filter through its name, its command
/// line (both lowercased) or its PID.
pub open spec fn process_matches(p: ProcessInfo, filter: Seq<char>) -> bool {
    has_substring(lowercase(p.name@), filter) || has_substring(lowercase(p.command@), filter)
        || has_substring(decimal(p.pid as nat), filter)
}

/// A port row matches a (lowercased) filter through its port number, its
/// process name (lowercased), its local address or its protocol (lowercased).
pub open spec fn port_matches(p: PortInfo, filter: Seq<char>) -> bool {
    has_substring(decimal(p.local_port as nat), filter) || has_substring(lowercase(p.process_name@), filter)
        || has_substring(p.local_addr@, filter) || has_substring(lowercase(p.protocol@), filter)
}

/// The process rows that the filter lets through, in order.
pub open spec fn visible_processes(m: AppModel) -> Seq<ProcessInfo> {
    if m.filter_input.len() == 0 {
        m.processes
    } else {
        m.processes.filter(|p: ProcessInfo| process_matches(p, lowercase(m.filter_input)))
    }
}

/// The port rows that the filter lets through, in order.
pub open spec fn visible_ports(m: AppModel) -> Seq<PortInfo> {
    if m.filter_input.len() == 0 {
        m.ports
    } else {
        m.ports.filter(|p: PortInfo| port_matches(p, lowercase(m.filter_input)))
    }
}

/// The state after showing a status message.
pub open spec fn with_status(m: AppModel, msg: Seq<char>) -> AppModel {
    AppModel { status_message: Some(msg), status_fresh: true, ..m }
}

impl App {
    pub fn new(config: &Config) -> (app: App)
        ensures
            app@ == initial_model(*config),
    {
        let app = App {
            running: true,
            view: View::Dashboard,
            input_mode: InputMode::Normal,
            processes: Vec::new(),
            ports: Vec::new(),
            process_selected: None,
            port_selected: None,
            process_sort_by: ProcessSortBy::default(),
            process_sort_asc: false,
            port_sort_by: PortSortBy::default(),
            port_sort_asc: true,
            command_input: String::new(),
            command_error: None,
            filter_input: String::new(),
            confirm_kill: None,
            show_help: false,
            tick_rate_ms: config.rate,
            status_message: None,
            status_fresh: false,
        };
        proof {
            assert(app@ =~= initial_model(*config));
        }
        app
    }

    fn process_visible(p: &ProcessInfo, filter: &Vec<char>) -> (r: bool)
        ensures
            r == process_matches(*p, filter@),
    {
        contains_chars(&to_lowercase_chars(&chars_of(p.name.as_str())), filter) || contains_chars(
            &to_lowercase_chars(&chars_of(p.command.as_str())),
            filter,
        ) || contains_chars(&chars_of(decimal_string(p.pid as u64).as_str()), filter)
    }

    fn port_visible(p: &PortInfo, filter: &Vec<char>) -> (r: bool)
        ensures
            r == port_matches(*p, filter@),
    {
        contains_chars(&chars_of(decimal_string(p.local_port as u64).as_str()), filter)
            || contains_chars(&to_lowercase_chars(&chars_of(p.process_name.as_str())), filter)
            || contains_chars(&chars_of(p.local_addr.as_str()), filter) || contains_chars(
            &to_lowercase_chars(&chars_of(p.protocol.as_str())),
            filter,
        )
    }

    /// The process rows that the filter lets through, in table order.
    pub fn filtered_processes(&self) -> (r: Vec<&ProcessInfo>)
        ensures
            r@.len() == visible_processes(self@).len(),
            forall|i: int| 0 <= i < r@.len() ==> *r@[i] == visible_processes(self@)[i],
    {
        let mut r: Vec<&ProcessInfo> = Vec::new();
        if self.filter_input.as_str().is_empty() {
            let mut i: usize = 0;
            while i < self.processes.len()
                invariant
                    i <= self.processes.len(),
                    r@.len() == i,
                    forall|j: int| 0 <= j < i ==> *r@[j] == self.processes@[j],
                decreases self.processes.len() - i,
            {
                r.push(&self.processes[i]);
                i = i + 1;
            }
            return r;
        }
        let filter = to_lowercase_chars(&chars_of(self.filter_input.as_str()));
        let ghost pred = |p: ProcessInfo| process_matches(p, lowercase(self.filter_input@));
        let mut i: usize = 0;
        while i < self.processes.len()
            invariant
                i <= self.processes.len(),
                filter@ == lowercase(self.filter_input@),
                pred == (|p: ProcessInfo| process_matches(p, lowercase(self.filter_input@))),
                r@.len() == self.processes@.take(i as int).filter(pred).len(),
                forall|j: int|
                    0 <= j < r@.len() ==> *r@[j] == self.processes@.take(i as int).filter(pred)[j],
            decreases self.processes.len() - i,
        {
            proof {
                reveal(Seq::filter);
                assert(self.processes@.take(i + 1).drop_last() =~= self.processes@.take(i as int));
                assert(self.processes@.take(i + 1).last() == self.processes@[i as int]);
            }
            if Self::process_visible(&self.processes[i], &filter) {
                r.push(&self.processes[i]);
            }
            i = i + 1;
        }
        proof {
            assert(self.processes@.take(i as int) =~= self.processes@);
        }
        r
    }

    /// The port rows that the filter lets through, in table order.
    pub fn filtered_ports(&self) -> (r: Vec<&PortInfo>)
        ensures
            r@.len() == visible_ports(self@).len(),
            forall|i: int| 0 <= i < r@.len() ==> *r@[i] == visible_ports(self@)[i],
    {
        let mut r: Vec<&PortInfo> = Vec::new();
        if self.filter_input.as_str().is_empty() {
            let mut i: usize = 0;
            while i < self.ports.len()
                invariant
                    i <= self.ports.len(),
                    r@.len() == i,
                    forall|j: int| 0 <= j < i ==> *r@[j] == self.ports@[j],
                decreases self.ports.len() - i,
            {
                r.push(&self.ports[i]);
                i = i + 1;
            }
            return r;
        }
        let filter = to_lowercase_chars(&chars_of(self.filter_input.as_str()));
        let ghost pred = |p: PortInfo| port_matches(p, lowercase(self.filter_input@));
        let mut i: usize = 0;
        while i < self.ports.len()
            invariant
                i <= self.ports.len(),
                filter@ == lowercase(self.filter_input@),
                pred == (|p: PortInfo| port_matches(p, lowercase(self.filter_input@))),
                r@.len() == self.ports@.take(i as int).filter(pred).len(),
                forall|j: int|
                    0 <= j < r@.len() ==> *r@[j] == self.ports@.take(i as int).filter(pred)[j],
            decreases self.ports.len() - i,
        {
            proof {
                reveal(Seq::filter);
                assert(self.ports@.take(i + 1).drop_last() =~= self.ports@.take(i as int));
                assert(self.ports@.take(i + 1).last() == self.ports@[i as int]);
            }
            if Self::port_visible(&self.ports[i], &filter) {
                r.push(&self.ports[i]);
            }
            i = i + 1;
        }
        proof {
            assert(self.ports@.take(i as int) =~= self.ports@);
        }
        r
    }

    /// Orders the port rows by the current port sort.
    fn sort_ports(&mut self)
        ensures
            is_stable_sort(final(self).ports@, old(self).ports@, port_keys(old(self).ports@, old(self).port_sort_by), old(self).port_sort_asc),
            final(self)@ == (AppModel { ports: final(self).ports@, ..old(self)@ }),
    {
        let mut ports: Vec<PortInfo> = Vec::new();
        std::mem::swap(&mut ports, &mut self.ports);
        self.ports = sort_port_rows(ports, self.port_sort_by, self.port_sort_asc);
        proof { assert(self@ =~= AppModel { ports: self.ports@, ..old(self)@ }); }
    }

    /// Takes in freshly collected rows: the processes, and the ports when a
    /// scan succeeded; each table is sorted by its current sort.
    pub fn refresh_all(&mut self, processes: Vec<ProcessInfo>, scanned_ports: Option<Vec<PortInfo>>)
        requires
            old(self).process_sort_by == ProcessSortBy::Cpu ==> forall|i: int|
                0 <= i < processes@.len() ==> !is_nan_bits(#[trigger] processes@[i].cpu_usage_bits),
        ensures
            is_stable_sort(final(self).processes@, processes@, process_keys(processes@, old(self).process_sort_by), old(self).process_sort_asc),
            match scanned_ports {
                Some(p) => is_stable_sort(final(self).ports@, p@, port_keys(p@, old(self).port_sort_by), old(self).port_sort_asc),
                None => final(self).ports@ == old(self).ports@,
            },
            final(self)@ == (AppModel { processes: final(self).processes@, ports: final(self).ports@, ..old(self)@ }),
    {
        self.processes = sort_processes(processes, &self.process_sort_by, self.process_sort_asc);
        match scanned_ports {
            Some(ports) => {
                self.ports = ports;
                self.sort_ports();
            },
            None => {},
        }
        proof { assert(self@ =~= AppModel { processes: self.processes@, ports: self.ports@, ..old(self)@ }); }
    }

    /// Shows a status message (the caller keeps the time it was set).
    pub fn set_status(&mut self, msg: String)
        ensures
            final(self)@ == with_status(old(self)@, msg@),
    {
        self.status_message = Some(msg);
        self.status_fresh = true;
        proof {
            assert(self@ =~= with_status(old(self)@, msg@));
        }
    }

    /// The status message while it is less than five seconds old.
    pub fn status_text(&self, seconds_since_set: u64) -> (r: Option<&str>)
        ensures
            r is Some <==> (self.status_message is Some && seconds_since_set < 5),
            r matches Some(t) ==> t@ == self.status_message->0@,
    {
        match &self.status_message {
            Some(msg) => {
                if seconds_since_set < 5 {
                    Some(msg.as_str())
                } else {
                    None
                }
            },
            None => None,
        }
    }

    /// Whether a status message was set since the last call; clears the mark.
    pub fn take_status_fresh(&mut self) -> (r: bool)
        ensures
            r == old(self).status_fresh,
            final(self)@ == (AppModel { status_fresh: false, ..old(self)@ }),
    {
        let r = self.status_fresh;
        self.status_fresh = false;
        proof {
            assert(self@ =~= AppModel { status_fresh: false, ..old(self)@ });
        }
        r
    }
}

/// Every view sits at the tab position it reports, and no position past the
/// last tab is used.
pub proof fn lemma_view_index_round_trip(v: View)
    ensures
        v.ordinal() < VIEW_COUNT,
        View::at(v.ordinal() as int) == v,
{
}

/// Each tab position names a view that reports that position.
pub proof fn lemma_index_view_round_trip(i: int)
    requires
        0 <= i < VIEW_COUNT,
    ensures
        View::at(i).ordinal() == i,
{
}

} // verus!
