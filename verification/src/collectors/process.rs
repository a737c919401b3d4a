use vstd::prelude::*;
use crate::order::{is_stable_sort, key_vals, sort_order, KeyVal, SortKey};
use crate::text::{chars_of, decimal, lowercase, number_text, prefixed_number, to_lowercase_chars};
use crate::types::{ProcessInfo, ProcessSortBy};

verus! {

/// The bit pattern is a NaN.
pub open spec fn is_nan_bits(bits: u32) -> bool {
    bits % 0x8000_0000 > 0x7f80_0000
}

/// An order key for an `f32` given by its bit pattern: for values that are not
/// NaN, keys compare as the values do, and both zeros share one key.
pub open spec fn float_order_key(bits: u32) -> int {
    if bits % 0x8000_0000 == 0 {
        0x8000_0000
    } else if bits >= 0x8000_0000 {
        0xffff_ffff - bits
    } else {
        bits + 0x8000_0000
    }
}

/// `float_order_key`.
pub fn float_key(bits: u32) -> (k: u64)
    ensures
        k == float_order_key(bits),
{
    if bits % 0x8000_0000 == 0 {
        0x8000_0000
    } else if bits >= 0x8000_0000 {
        (0xffff_ffffu32 - bits) as u64
    } else {
        bits as u64 + 0x8000_0000
    }
}

/// What processes are compared by for each sort column (names compared
/// lowercased).
pub open spec fn process_key(p: ProcessInfo, by: ProcessSortBy) -> KeyVal {
    match by {
        ProcessSortBy::Pid => KeyVal::Num(p.pid as int),
        ProcessSortBy::Name => KeyVal::Text(lowercase(p.name@)),
        ProcessSortBy::Cpu => KeyVal::Num(float_order_key(p.cpu_usage_bits)),
        ProcessSortBy::Memory => KeyVal::Num(p.memory as int),
    }
}

pub open spec fn process_keys(procs: Seq<ProcessInfo>, by: ProcessSortBy) -> Seq<KeyVal> {
    procs.map_values(|p: ProcessInfo| process_key(p, by))
}

fn process_sort_key(p: &ProcessInfo, by: &ProcessSortBy) -> (k: SortKey)
    ensures
        k@ == process_key(*p, *by),
{
    match by {
        ProcessSortBy::Pid => SortKey::Num(p.pid as u64),
        ProcessSortBy::Name => SortKey::Text(to_lowercase_chars(&chars_of(p.name.as_str()))),
        ProcessSortBy::Cpu => SortKey::Num(float_key(p.cpu_usage_bits)),
        ProcessSortBy::Memory => SortKey::Num(p.memory),
    }
}

/// The process rows stably sorted by the chosen column, ascending or
/// descending (the ordering step of the process table).
pub fn sort_processes(procs: Vec<ProcessInfo>, sort_by: &ProcessSortBy, ascending: bool) -> (out: Vec<ProcessInfo>)
    requires
        *sort_by == ProcessSortBy::Cpu ==> forall|i: int|
            0 <= i < procs@.len() ==> !is_nan_bits(#[trigger] procs@[i].cpu_usage_bits),
    ensures
        is_stable_sort(out@, procs@, process_keys(procs@, *sort_by), ascending),
{
    let mut keys: Vec<SortKey> = Vec::new();
    let mut i: usize = 0;
    while i < procs.len()
        invariant
            i <= procs.len(),
            keys@.len() == i,
            forall|j: int| 0 <= j < i ==> #[trigger] keys@[j]@ == process_key(procs@[j], *sort_by),
        decreases procs.len() - i,
    {
        keys.push(process_sort_key(&procs[i], sort_by));
        i = i + 1;
    }
    proof {
        assert(key_vals(keys@) =~= process_keys(procs@, *sort_by));
    }
    let order = sort_order(&keys, ascending);
    let mut out: Vec<ProcessInfo> = Vec::new();
    let mut k: usize = 0;
    while k < order.len()
        invariant
            order@.len() == procs@.len(),
            forall|a: int| 0 <= a < order@.len() ==> #[trigger] order@[a] < procs@.len(),
            k <= order.len(),
            out@.len() == k,
            forall|a: int| 0 <= a < k ==> #[trigger] out@[a] == procs@[order@[a] as int],
        decreases order.len() - k,
    {
        out.push(procs[order[k]].duplicate());
        k = k + 1;
    }
    proof {
        assert(crate::order::is_permutation(order@, procs@.len()));
    }
    out
}


/// How killing a process ends: the process must exist and accept the signal.
pub open spec fn kill_result(pid: u32, found: bool, signalled: bool) -> Result<(), Seq<char>> {
    if !found {
        Err("Process with PID "@ + decimal(pid as nat) + " not found"@)
    } else if !signalled {
        Err("Failed to kill process with PID "@ + decimal(pid as nat))
    } else {
        Ok(())
    }
}

/// The outcome of killing `pid`, given whether the process was found and
/// whether it accepted the signal (the error is the message to show).
pub fn kill_outcome(pid: u32, found: bool, signalled: bool) -> (r: Result<(), String>)
    ensures
        match (r, kill_result(pid, found, signalled)) {
            (Ok(()), Ok(())) => true,
            (Err(e), Err(s)) => e@ == s,
            _ => false,
        },
{
    if !found {
        Err(number_text("Process with PID ", pid as u64, " not found"))
    } else if !signalled {
        Err(prefixed_number("Failed to kill process with PID ", pid as u64))
    } else {
        Ok(())
    }
}

} // verus!
