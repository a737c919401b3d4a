use pulsemon::types::{
    format_bytes, record_sample, CpuMetrics, DiskInfo, MemoryMetrics, PortSortBy, ProcessSortBy,
    HISTORY_CAPACITY,
};
use std::collections::VecDeque;

#[test]
fn test_format_bytes() {
    assert_eq!(format_bytes(0), "0 B");
    assert_eq!(format_bytes(512), "512 B");
    assert_eq!(format_bytes(1024), "1.00 KB");
    assert_eq!(format_bytes(1_048_576), "1.00 MB");
    assert_eq!(format_bytes(1_073_741_824), "1.00 GB");
    assert_eq!(format_bytes(1_099_511_627_776), "1.00 TB");
}

#[test]
fn test_cpu_metrics_default_history_capacity() {
    let cpu = CpuMetrics::default();
    assert_eq!(cpu.history.capacity(), HISTORY_CAPACITY);
    assert!(cpu.history.is_empty());
}

#[test]
fn test_memory_metrics_default_history_capacity() {
    let mem = MemoryMetrics::default();
    assert_eq!(mem.history.capacity(), HISTORY_CAPACITY);
    assert!(mem.history.is_empty());
}

#[test]
fn test_sort_defaults() {
    assert_eq!(ProcessSortBy::default(), ProcessSortBy::Cpu);
    assert_eq!(PortSortBy::default(), PortSortBy::Port);
}

/// The byte formatting as it reads with floating point.
fn float_format_bytes(bytes: u64) -> String {
    const KB: f64 = 1024.0;
    const MB: f64 = KB * 1024.0;
    const GB: f64 = MB * 1024.0;
    const TB: f64 = GB * 1024.0;
    let value = bytes as f64;
    if value >= TB {
        format!("{:.2} TB", value / TB)
    } else if value >= GB {
        format!("{:.2} GB", value / GB)
    } else if value >= MB {
        format!("{:.2} MB", value / MB)
    } else if value >= KB {
        format!("{:.2} KB", value / KB)
    } else {
        format!("{} B", bytes)
    }
}

#[test]
fn format_bytes_exact_values() {
    assert_eq!(format_bytes(1023), "1023 B");
    assert_eq!(format_bytes(1536), "1.50 KB");
    assert_eq!(format_bytes(1_048_575), "1024.00 KB");
    assert_eq!(format_bytes(5_368_709_120), "5.00 GB");
    assert_eq!(format_bytes(u64::MAX), "16777216.00 TB");
}

#[test]
fn format_bytes_ties_round_to_even() {
    // 3200 / 1024 = 3.125 exactly, 3.375 KB = 3456 bytes
    assert_eq!(format_bytes(3200), float_format_bytes(3200));
    assert_eq!(format_bytes(3456), float_format_bytes(3456));
    assert_eq!(format_bytes(3200), "3.12 KB");
    assert_eq!(format_bytes(3456), "3.38 KB");
}

#[test]
fn format_bytes_matches_floating_point() {
    let mut samples: Vec<u64> = Vec::new();
    for e in 0..64u32 {
        let p = 1u64 << e;
        samples.push(p);
        samples.push(p - 1);
        samples.push(p + 1);
        samples.push(p.wrapping_mul(3) / 2);
        samples.push(p / 3 * 2 + 7);
    }
    for k in 0..2000u64 {
        samples.push(k * 3200);
        samples.push(k * 1_000_003);
        samples.push(k.wrapping_mul(0x9E37_79B9_7F4A_7C15));
        samples.push((1u64 << 53) + k);
        samples.push(u64::MAX - k);
        samples.push((1u64 << 40) * 25 * (2 * k + 1) / 8);
    }
    for b in samples {
        assert_eq!(format_bytes(b), float_format_bytes(b), "bytes = {}", b);
    }
}

#[test]
fn history_keeps_last_samples() {
    let mut h: VecDeque<u32> = VecDeque::new();
    for v in 0..(HISTORY_CAPACITY as u32 + 5) {
        record_sample(&mut h, v);
    }
    assert_eq!(h.len(), HISTORY_CAPACITY);
    assert_eq!(h.front(), Some(&5));
    assert_eq!(h.back(), Some(&(HISTORY_CAPACITY as u32 + 4)));
}

#[test]
fn cpu_metrics_record_sets_reading() {
    let mut cpu = CpuMetrics::default();
    cpu.record(vec![1, 2], 7, String::from("cpu"));
    assert_eq!(cpu.per_core_bits, vec![1, 2]);
    assert_eq!(cpu.global_usage_bits, 7);
    assert_eq!(cpu.cpu_name, "cpu");
    assert_eq!(cpu.history.iter().copied().collect::<Vec<_>>(), vec![7]);
}

#[test]
fn memory_metrics_record_sets_reading() {
    let mut mem = MemoryMetrics::default();
    mem.record(100, 40, 10, 1, 9);
    assert_eq!((mem.total, mem.used, mem.swap_total, mem.swap_used), (100, 40, 10, 1));
    assert_eq!(mem.history.iter().copied().collect::<Vec<_>>(), vec![9]);
}

#[test]
fn disk_used_space() {
    let d = DiskInfo::from_space("sda1".to_string(), "/".to_string(), 1000, 250, "ext4".to_string());
    assert_eq!(d.name, "sda1");
    assert_eq!(d.mount_point, "/");
    assert_eq!(d.total, 1000);
    assert_eq!(d.used, 750);
    assert_eq!(d.fs_type, "ext4");
    let over = DiskInfo::from_space("x".to_string(), "/x".to_string(), 100, 500, "tmpfs".to_string());
    assert_eq!(over.used, 0);
    let full = DiskInfo::from_space("y".to_string(), "/y".to_string(), 100, 0, "xfs".to_string());
    assert_eq!(full.used, 100);
}
