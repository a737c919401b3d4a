use pulsemon::collectors::process::{float_key, kill_outcome, sort_processes};
use pulsemon::types::{ProcessInfo, ProcessSortBy};

fn p(pid: u32, name: &str, cpu: f32, memory: u64) -> ProcessInfo {
    ProcessInfo {
        pid,
        name: name.to_string(),
        cpu_usage_bits: cpu.to_bits(),
        memory,
        status: String::new(),
        command: String::new(),
    }
}

fn pids(v: &[ProcessInfo]) -> Vec<u32> {
    v.iter().map(|x| x.pid).collect()
}

#[test]
fn sort_by_each_column() {
    let rows = vec![p(3, "beta", 5.0, 10), p(1, "Alpha", 0.0, 30), p(2, "alpha", 5.0, 20), p(4, "Zed", 50.0, 10)];
    assert_eq!(pids(&sort_processes(rows.clone(), &ProcessSortBy::Pid, true)), vec![1, 2, 3, 4]);
    assert_eq!(pids(&sort_processes(rows.clone(), &ProcessSortBy::Pid, false)), vec![4, 3, 2, 1]);
    assert_eq!(pids(&sort_processes(rows.clone(), &ProcessSortBy::Name, true)), vec![1, 2, 3, 4]);
    assert_eq!(pids(&sort_processes(rows.clone(), &ProcessSortBy::Cpu, false)), vec![4, 3, 2, 1]);
    assert_eq!(pids(&sort_processes(rows.clone(), &ProcessSortBy::Cpu, true)), vec![1, 3, 2, 4]);
    assert_eq!(pids(&sort_processes(rows.clone(), &ProcessSortBy::Memory, true)), vec![3, 4, 2, 1]);
    assert_eq!(pids(&sort_processes(rows, &ProcessSortBy::Memory, false)), vec![1, 2, 3, 4]);
}

#[test]
fn sort_matches_std_sort() {
    let names = ["b", "A", "a", "ä", "Z", "z", "é", "B"];
    let mut rows = Vec::new();
    for i in 0..40u32 {
        let cpu = ((i * 7919) % 13) as f32 * 0.5 - if i % 5 == 0 { 0.0 } else { 0.25 };
        rows.push(p(i * 31 % 17, names[(i as usize) % names.len()], cpu, ((i * 13) % 5) as u64));
    }
    rows.push(p(99, "neg", -0.0, 1));
    rows.push(p(98, "pos", 0.0, 1));
    for by in [ProcessSortBy::Pid, ProcessSortBy::Name, ProcessSortBy::Cpu, ProcessSortBy::Memory] {
        for asc in [true, false] {
            let mut expected = rows.clone();
            expected.sort_by(|a, b| {
                let ord = match by {
                    ProcessSortBy::Pid => a.pid.cmp(&b.pid),
                    ProcessSortBy::Name => a.name.to_lowercase().cmp(&b.name.to_lowercase()),
                    ProcessSortBy::Cpu => f32::from_bits(a.cpu_usage_bits)
                        .partial_cmp(&f32::from_bits(b.cpu_usage_bits))
                        .unwrap_or(std::cmp::Ordering::Equal),
                    ProcessSortBy::Memory => a.memory.cmp(&b.memory),
                };
                if asc { ord } else { ord.reverse() }
            });
            let got = sort_processes(rows.clone(), &by, asc);
            let key = |v: &[ProcessInfo]| v.iter().map(|x| (x.pid, x.name.clone(), x.cpu_usage_bits, x.memory)).collect::<Vec<_>>();
            assert_eq!(key(&got), key(&expected), "{:?} {}", by, asc);
        }
    }
}

#[test]
fn float_keys_follow_values() {
    let values = [f32::NEG_INFINITY, -1e30, -2.5, -1.0, -1e-40, -0.0, 0.0, 1e-40, 1e-3, 1.0, 2.5, 1e30, f32::INFINITY];
    for a in values {
        for b in values {
            let ka = float_key(a.to_bits());
            let kb = float_key(b.to_bits());
            assert_eq!(ka.cmp(&kb), a.partial_cmp(&b).unwrap(), "{} {}", a, b);
        }
    }
}

#[test]
fn kill_outcomes() {
    assert_eq!(kill_outcome(5, true, true), Ok(()));
    assert_eq!(kill_outcome(5, false, false), Err("Process with PID 5 not found".to_string()));
    assert_eq!(kill_outcome(5, true, false), Err("Failed to kill process with PID 5".to_string()));
}
