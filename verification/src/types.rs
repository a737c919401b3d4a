use vstd::prelude::*;
use std::collections::VecDeque;
use crate::text::{decimal, digit_char, push_char, push_decimal};

verus! {

/// Number of samples a usage history keeps.
pub const HISTORY_CAPACITY: usize = 60;

// ---------------------------------------------------------------------------
// CPU
// ---------------------------------------------------------------------------

/// CPU usage; usages are `f32` percentages kept as their bit patterns.
#[derive(Debug, Clone)]
pub struct CpuMetrics {
    pub global_usage_bits: u32,
    pub per_core_bits: Vec<u32>,
    pub cpu_name: String,
    pub history: VecDeque<u32>,
}

impl Default for CpuMetrics {
    fn default() -> (m: Self)
        ensures
            m.global_usage_bits == 0,
            m.per_core_bits@.len() == 0,
            m.cpu_name@.len() == 0,
            m.history@.len() == 0,
    {
        CpuMetrics {
            global_usage_bits: 0,
            per_core_bits: Vec::new(),
            cpu_name: String::new(),
            history: VecDeque::with_capacity(HISTORY_CAPACITY),
        }
    }
}

/// The history after one more sample: the oldest sample leaves once
/// `HISTORY_CAPACITY` are held.
pub open spec fn history_after(history: Seq<u32>, sample: u32) -> Seq<u32> {
    if history.len() >= HISTORY_CAPACITY {
        history.drop_first().push(sample)
    } else {
        history.push(sample)
    }
}

/// Appends a sample to a rolling history of at most `HISTORY_CAPACITY` samples.
pub fn record_sample(history: &mut VecDeque<u32>, sample: u32)
    ensures
        final(history)@ == history_after(old(history)@, sample),
{
    if history.len() >= HISTORY_CAPACITY {
        history.pop_front();
        proof {
            assert(history@ =~= old(history)@.drop_first());
        }
    }
    history.push_back(sample);
}

impl CpuMetrics {
    /// Takes in a new reading: per-core usages, their average and the CPU
    /// name; the average joins the history.
    pub fn record(&mut self, per_core_bits: Vec<u32>, global_usage_bits: u32, cpu_name: String)
        ensures
            final(self).per_core_bits@ == per_core_bits@,
            final(self).global_usage_bits == global_usage_bits,
            final(self).cpu_name == cpu_name,
            final(self).history@ == history_after(old(self).history@, global_usage_bits),
    {
        record_sample(&mut self.history, global_usage_bits);
        self.global_usage_bits = global_usage_bits;
        self.per_core_bits = per_core_bits;
        self.cpu_name = cpu_name;
    }
}

// ---------------------------------------------------------------------------
// Memory
// ---------------------------------------------------------------------------

/// Memory and swap in bytes; the history holds `f32` usage percentages as bit
/// patterns.
#[derive(Debug, Clone)]
pub struct MemoryMetrics {
    pub total: u64,
    pub used: u64,
    pub swap_total: u64,
    pub swap_used: u64,
    pub history: VecDeque<u32>,
}

impl Default for MemoryMetrics {
    fn default() -> (m: Self)
        ensures
            m.total == 0,
            m.used == 0,
            m.swap_total == 0,
            m.swap_used == 0,
            m.history@.len() == 0,
    {
        MemoryMetrics {
            total: 0,
            used: 0,
            swap_total: 0,
            swap_used: 0,
            history: VecDeque::with_capacity(HISTORY_CAPACITY),
        }
    }
}

impl MemoryMetrics {
    /// Takes in a new reading; the usage percentage joins the history.
    pub fn record(&mut self, total: u64, used: u64, swap_total: u64, swap_used: u64, usage_pct_bits: u32)
        ensures
            final(self).total == total,
            final(self).used == used,
            final(self).swap_total == swap_total,
            final(self).swap_used == swap_used,
            final(self).history@ == history_after(old(self).history@, usage_pct_bits),
    {
        record_sample(&mut self.history, usage_pct_bits);
        self.total = total;
        self.used = used;
        self.swap_total = swap_total;
        self.swap_used = swap_used;
    }
}

// ---------------------------------------------------------------------------
// Disk
// ---------------------------------------------------------------------------

#[derive(Debug, Clone)]
pub struct DiskInfo {
    pub name: String,
    pub mount_point: String,
    pub total: u64,
    pub used: u64,
    pub fs_type: String,
}

impl DiskInfo {
    /// A disk's figures from its total and available space: what is not
    /// available counts as used (nothing when more is available than the
    /// total).
    pub fn from_space(name: String, mount_point: String, total: u64, available: u64, fs_type: String) -> (d: DiskInfo)
        ensures
            d.name == name,
            d.mount_point == mount_point,
            d.total == total,
            d.used == if available <= total { total - available } else { 0 },
            d.fs_type == fs_type,
    {
        let used = if available <= total { total - available } else { 0 };
        DiskInfo { name, mount_point, total, used, fs_type }
    }
}

// ---------------------------------------------------------------------------
// Process
// ---------------------------------------------------------------------------

/// One process; the CPU usage is an `f32` percentage kept as its bit pattern.
#[derive(Debug, Clone)]
pub struct ProcessInfo {
    pub pid: u32,
    pub name: String,
    pub cpu_usage_bits: u32,
    pub memory: u64,
    pub status: String,
    pub command: String,
}

impl ProcessInfo {
    /// A copy of the row.
    pub fn duplicate(&self) -> (r: ProcessInfo)
        ensures
            r == *self,
    {
        ProcessInfo {
            pid: self.pid,
            name: self.name.clone(),
            cpu_usage_bits: self.cpu_usage_bits,
            memory: self.memory,
            status: self.status.clone(),
            command: self.command.clone(),
        }
    }
}

#[derive(Debug, Clone, Copy, PartialEq, Eq, Structural)]
pub enum ProcessSortBy {
    Pid,
    Name,
    Cpu,
    Memory,
}

impl Default for ProcessSortBy {
    fn default() -> (r: Self)
        ensures
            r == ProcessSortBy::Cpu,
    {
        ProcessSortBy::Cpu
    }
}

// ---------------------------------------------------------------------------
// Port / Network
// ---------------------------------------------------------------------------

#[derive(Debug, Clone)]
pub struct PortInfo {
    pub protocol: String,
    pub local_addr: String,
    pub local_port: u16,
    pub remote_addr: String,
    pub remote_port: u16,
    pub state: String,
    pub pid: Option<u32>,
    pub process_name: String,
}

impl PortInfo {
    /// A copy of the row.
    pub fn duplicate(&self) -> (r: PortInfo)
        ensures
            r == *self,
    {
        PortInfo {
            protocol: self.protocol.clone(),
            local_addr: self.local_addr.clone(),
            local_port: self.local_port,
            remote_addr: self.remote_addr.clone(),
            remote_port: self.remote_port,
            state: self.state.clone(),
            pid: self.pid,
            process_name: self.process_name.clone(),
        }
    }
}

/// The abstract value of a port row.
pub struct PortRow {
    pub protocol: Seq<char>,
    pub local_addr: Seq<char>,
    pub local_port: u16,
    pub remote_addr: Seq<char>,
    pub remote_port: u16,
    pub state: Seq<char>,
    pub pid: Option<u32>,
    pub process_name: Seq<char>,
}

impl vstd::view::View for PortInfo {
    type V = PortRow;

    open spec fn view(&self) -> PortRow {
        PortRow {
            protocol: self.protocol@,
            local_addr: self.local_addr@,
            local_port: self.local_port,
            remote_addr: self.remote_addr@,
            remote_port: self.remote_port,
            state: self.state@,
            pid: self.pid,
            process_name: self.process_name@,
        }
    }
}

#[derive(Debug, Clone, Copy, PartialEq, Eq, Structural)]
pub enum PortSortBy {
    Port,
    Protocol,
    Pid,
    State,
}

impl Default for PortSortBy {
    fn default() -> (r: Self)
        ensures
            r == PortSortBy::Port,
    {
        PortSortBy::Port
    }
}

// ---------------------------------------------------------------------------
// Helpers
// ---------------------------------------------------------------------------

/// 2 to the power `e`.
pub open spec fn exp2(e: nat) -> nat
    decreases e,
{
    if e == 0 {
        1
    } else {
        2 * exp2((e - 1) as nat)
    }
}

/// The number of low bits that a count loses when it is widened to a
/// double: the smallest `s` with `n < 2^(53 + s)`.
pub open spec fn excess_bits(n: nat) -> nat
    decreases n,
{
    if n < 0x20_0000_0000_0000 {
        0
    } else {
        1 + excess_bits(n / 2)
    }
}

/// The double nearest to `n` (ties go to the even significand), as an integer.
pub open spec fn nearest_double(n: nat) -> nat {
    let unit = exp2(excess_bits(n));
    let m = n / unit;
    let r = n % unit;
    let m2 = if 2 * r > unit || (2 * r == unit && m % 2 == 1) { m + 1 } else { m };
    m2 * unit
}

/// `x / 2^e` in hundredths, rounded as a double is printed with two
/// decimals: from its exact value, ties to an even last digit.
pub open spec fn hundredths(x: nat, e: nat) -> nat {
    let q = (x * 100) / exp2(e);
    let r = (x * 100) % exp2(e);
    if 2 * r > exp2(e) || (2 * r == exp2(e) && q % 2 == 1) { q + 1 } else { q }
}

/// A count of hundredths written with two decimals, e.g. 123 as "1.23".
pub open spec fn two_decimals(h: nat) -> Seq<char> {
    decimal(h / 100) + seq!['.', digit_char((h / 10) % 10), digit_char(h % 10)]
}

/// A byte count in the largest binary unit (up to TB) that it reaches,
/// with two decimals; under one KB, the plain count and "B".
pub open spec fn format_bytes_spec(bytes: nat) -> Seq<char> {
    if bytes >= exp2(40) {
        two_decimals(hundredths(nearest_double(bytes), 40)) + seq![' ', 'T', 'B']
    } else if bytes >= exp2(30) {
        two_decimals(hundredths(nearest_double(bytes), 30)) + seq![' ', 'G', 'B']
    } else if bytes >= exp2(20) {
        two_decimals(hundredths(nearest_double(bytes), 20)) + seq![' ', 'M', 'B']
    } else if bytes >= exp2(10) {
        two_decimals(hundredths(nearest_double(bytes), 10)) + seq![' ', 'K', 'B']
    } else {
        decimal(bytes) + seq![' ', 'B']
    }
}

proof fn lemma_exp2_values()
    ensures
        exp2(10) == 0x400,
        exp2(20) == 0x10_0000,
        exp2(30) == 0x4000_0000,
        exp2(40) == 0x100_0000_0000,
        exp2(53) == 0x20_0000_0000_0000,
{
    reveal_with_fuel(exp2, 54);
}

/// `nearest_double` computed for a 64-bit count.
fn nearest_double_exec(n: u64) -> (x: u128)
    ensures
        x == nearest_double(n as nat),
        x <= 0x2_0000_0000_0000_0000,
{
    proof { lemma_exp2_values(); }
    let mut t: u64 = n;
    let mut unit: u128 = 1;
    let ghost mut s: nat = 0;
    while t >= 0x20_0000_0000_0000
        invariant
            unit == exp2(s),
            t == n as nat / (unit as nat),
            excess_bits(n as nat) == s + excess_bits(t as nat),
            1 <= unit <= 0x1000,
            exp2(53) == 0x20_0000_0000_0000,
        decreases t,
    {
        proof {
            vstd::arithmetic::div_mod::lemma_div_denominator(n as int, unit as int, 2);
            assert(exp2(s + 1) == 2 * exp2(s));
            assert(unit < 0x800) by {
                // t >= 2^53 and t <= (2^64 - 1) / unit
                assert(t * unit <= n) by {
                    vstd::arithmetic::div_mod::lemma_fundamental_div_mod(n as int, unit as int);
                    vstd::arithmetic::div_mod::lemma_mod_pos_bound(n as int, unit as int);
                }
                assert(0x20_0000_0000_0000 * unit <= t * unit) by (nonlinear_arith)
                    requires t >= 0x20_0000_0000_0000, unit >= 1;
            }
        }
        t = t / 2;
        unit = unit * 2;
        proof { s = s + 1; }
    }
    let n128 = n as u128;
    let m = n128 / unit;
    let r = n128 % unit;
    let m2 = if 2 * r > unit || (2 * r == unit && m % 2 == 1) { m + 1 } else { m };
    proof {
        assert(m == t);
        assert(m2 * unit <= 0x2_0000_0000_0000_0000) by {
            assert(m2 <= 0x20_0000_0000_0000);
            assert(m2 * unit <= 0x20_0000_0000_0000 * unit) by (nonlinear_arith)
                requires m2 <= 0x20_0000_0000_0000, unit >= 1;
            assert(0x20_0000_0000_0000 * unit <= 0x20_0000_0000_0000 * 0x1000) by (nonlinear_arith)
                requires unit <= 0x1000;
        }
    }
    m2 * unit
}


/// Appends `x / unit` with two decimals, where `unit == 2^e`.
fn push_two_decimals(s: &mut String, x: u128, unit: u128, Ghost(e): Ghost<nat>)
    requires
        x <= 0x2_0000_0000_0000_0000,
        unit == exp2(e),
        0x400 <= unit <= 0x100_0000_0000,
    ensures
        final(s)@ == old(s)@ + two_decimals(hundredths(x as nat, e)),
{
    let scaled = x * 100;
    let q = scaled / unit;
    let r = scaled % unit;
    let h = if 2 * r > unit || (2 * r == unit && q % 2 == 1) { q + 1 } else { q };
    proof {
        assert(q <= scaled / 0x400) by {
            vstd::arithmetic::div_mod::lemma_div_is_ordered_by_denominator(scaled as int, 0x400, unit as int);
        }
        assert(h / 100 < 0x1_0000_0000_0000_0000);
    }
    push_decimal(s, (h / 100) as u64);
    push_char(s, '.');
    push_char(s, (48u8 + ((h / 10) % 10) as u8) as char);
    push_char(s, (48u8 + (h % 10) as u8) as char);
    proof {
        assert(final(s)@ =~= old(s)@ + two_decimals(hundredths(x as nat, e)));
    }
}

/// Formats a byte count into a human-readable string (e.g. "1.23 GB").
pub fn format_bytes(bytes: u64) -> (s: String)
    ensures
        s@ == format_bytes_spec(bytes as nat),
{
    proof { lemma_exp2_values(); }
    let mut s = String::new();
    if bytes < 0x400 {
        push_decimal(&mut s, bytes);
        push_char(&mut s, ' ');
        push_char(&mut s, 'B');
        proof { assert(s@ =~= format_bytes_spec(bytes as nat)); }
        return s;
    }
    let x = nearest_double_exec(bytes);
    if bytes >= 0x100_0000_0000 {
        push_two_decimals(&mut s, x, 0x100_0000_0000, Ghost(40));
        push_char(&mut s, ' ');
        push_char(&mut s, 'T');
    } else if bytes >= 0x4000_0000 {
        push_two_decimals(&mut s, x, 0x4000_0000, Ghost(30));
        push_char(&mut s, ' ');
        push_char(&mut s, 'G');
    } else if bytes >= 0x10_0000 {
        push_two_decimals(&mut s, x, 0x10_0000, Ghost(20));
        push_char(&mut s, ' ');
        push_char(&mut s, 'M');
    } else {
        push_two_decimals(&mut s, x, 0x400, Ghost(10));
        push_char(&mut s, ' ');
        push_char(&mut s, 'K');
    }
    push_char(&mut s, 'B');
    proof { assert(s@ =~= format_bytes_spec(bytes as nat)); }
    s
}

} // verus!
