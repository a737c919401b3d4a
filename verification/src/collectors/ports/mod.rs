pub mod linux;
pub mod macos;
pub mod windows;

use vstd::prelude::*;
use crate::order::{is_stable_sort, key_vals, sort_order, KeyVal, SortKey};
use crate::text::chars_of;
use crate::types::{PortInfo, PortSortBy};
use self::linux::LinuxPortScanner;
use self::macos::MacosPortScanner;
use self::windows::WindowsPortScanner;

verus! {

/// The operating systems whose ports the monitor can list.
#[derive(Debug, Clone, Copy, PartialEq, Eq, Structural)]
pub enum Platform {
    Linux,
    Macos,
    Windows,
}

/// How ports are listed: each platform has its own source.
pub enum PortScanner {
    Linux(LinuxPortScanner),
    Macos(MacosPortScanner),
    Windows(WindowsPortScanner),
}

/// The scanner for the given platform.
pub fn create_scanner(platform: Platform) -> (s: PortScanner)
    ensures
        match platform {
            Platform::Linux => s is Linux,
            Platform::Macos => s is Macos,
            Platform::Windows => s is Windows,
        },
{
    match platform {
        Platform::Linux => PortScanner::Linux(LinuxPortScanner),
        Platform::Macos => PortScanner::Macos(MacosPortScanner),
        Platform::Windows => PortScanner::Windows(WindowsPortScanner),
    }
}

/// What port rows are compared by for each sort column (a missing PID sorts
/// before every PID).
pub open spec fn port_key(p: PortInfo, by: PortSortBy) -> KeyVal {
    match by {
        PortSortBy::Port => KeyVal::Num(p.local_port as int),
        PortSortBy::Protocol => KeyVal::Text(p.protocol@),
        PortSortBy::Pid => KeyVal::Num(
            match p.pid {
                None => 0,
                Some(pid) => pid + 1,
            },
        ),
        PortSortBy::State => KeyVal::Text(p.state@),
    }
}

pub open spec fn port_keys(ports: Seq<PortInfo>, by: PortSortBy) -> Seq<KeyVal> {
    ports.map_values(|p: PortInfo| port_key(p, by))
}

fn port_sort_key(p: &PortInfo, by: PortSortBy) -> (k: SortKey)
    ensures
        k@ == port_key(*p, by),
{
    match by {
        PortSortBy::Port => SortKey::Num(p.local_port as u64),
        PortSortBy::Protocol => SortKey::Text(chars_of(p.protocol.as_str())),
        PortSortBy::Pid => SortKey::Num(
            match p.pid {
                None => 0,
                Some(pid) => pid as u64 + 1,
            },
        ),
        PortSortBy::State => SortKey::Text(chars_of(p.state.as_str())),
    }
}

/// The port rows stably sorted by the chosen column, ascending or descending.
pub fn sort_port_rows(ports: Vec<PortInfo>, by: PortSortBy, ascending: bool) -> (out: Vec<PortInfo>)
    ensures
        is_stable_sort(out@, ports@, port_keys(ports@, by), ascending),
{
    let mut keys: Vec<SortKey> = Vec::new();
    let mut i: usize = 0;
    while i < ports.len()
        invariant
            i <= ports.len(),
            keys@.len() == i,
            forall|j: int| 0 <= j < i ==> #[trigger] keys@[j]@ == port_key(ports@[j], by),
        decreases ports.len() - i,
    {
        keys.push(port_sort_key(&ports[i], by));
        i = i + 1;
    }
    proof {
        assert(key_vals(keys@) =~= port_keys(ports@, by));
    }
    let order = sort_order(&keys, ascending);
    let mut out: Vec<PortInfo> = Vec::new();
    let mut k: usize = 0;
    while k < order.len()
        invariant
            order@.len() == ports@.len(),
            forall|a: int| 0 <= a < order@.len() ==> #[trigger] order@[a] < ports@.len(),
            k <= order.len(),
            out@.len() == k,
            forall|a: int| 0 <= a < k ==> #[trigger] out@[a] == ports@[order@[a] as int],
        decreases order.len() - k,
    {
        out.push(ports[order[k]].duplicate());
        k = k + 1;
    }
    proof {
        assert(crate::order::is_permutation(order@, ports@.len()));
    }
    out
}

} // verus!
