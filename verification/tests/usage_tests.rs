use cephylas::usage::{
    calc_usages, cpu_usage_of, io_usage_of, log_condition, memory_usage_of, net_usage_of,
    ContainerStats, CpuStats, IoStats, MemoryStats, NetStats, Stats,
};

fn empty_stats() -> Stats {
    Stats::default()
}

#[test]
fn cpu_percentage_exact_fixed_point() {
    // (1200 - 1000) / (10500 - 10000) * 2 * 100 = 80.00%
    let prev = CpuStats { total: Some(1000), system: Some(10000), ncpu: Some(2) };
    let cur = CpuStats { total: Some(1200), system: Some(10500), ncpu: Some(2) };
    let u = cpu_usage_of(&cur, &prev);
    assert_eq!(u.percentage, Some(8000));
    assert_eq!(u.total, Some(200));
    assert_eq!(u.system, Some(500));
    assert_eq!(u.ncpu, Some(2));
}

#[test]
fn cpu_percentage_absent_without_inputs() {
    // A missing raw field leaves the derived field absent, never zero.
    let prev = CpuStats { total: Some(1000), system: Some(10000), ncpu: Some(2) };
    let missing_total = CpuStats { total: None, system: Some(10500), ncpu: Some(2) };
    assert_eq!(cpu_usage_of(&missing_total, &prev).percentage, None);
    let missing_ncpu = CpuStats { total: Some(1200), system: Some(10500), ncpu: None };
    assert_eq!(cpu_usage_of(&missing_ncpu, &prev).percentage, None);
    let prev_missing_system = CpuStats { total: Some(1000), system: None, ncpu: Some(2) };
    let cur = CpuStats { total: Some(1200), system: Some(10500), ncpu: Some(2) };
    assert_eq!(cpu_usage_of(&cur, &prev_missing_system).percentage, None);
}

#[test]
fn cpu_percentage_absent_on_zero_system_delta() {
    let prev = CpuStats { total: Some(1000), system: Some(10000), ncpu: Some(2) };
    let cur = CpuStats { total: Some(1200), system: Some(10000), ncpu: Some(2) };
    assert_eq!(cpu_usage_of(&cur, &prev).percentage, None);
}

#[test]
fn memory_percentage_exact() {
    let m = MemoryStats { used: Some(250), available: Some(1000) };
    let u = memory_usage_of(&m);
    // 250 / 1000 = 25.00%
    assert_eq!(u.percentage, Some(2500));
    assert_eq!(u.used, Some(250));
    assert_eq!(u.available, Some(1000));
}

#[test]
fn memory_percentage_absent_on_zero_limit() {
    let m = MemoryStats { used: Some(250), available: Some(0) };
    assert_eq!(memory_usage_of(&m).percentage, None);
    let missing = MemoryStats { used: None, available: Some(1000) };
    assert_eq!(memory_usage_of(&missing).percentage, None);
}

#[test]
fn io_counter_reset_reads_as_zero_rate() {
    // Counter dropped from 500000 to 200 (container restart): the rate
    // is zero, not negative.
    let prev = IoStats { read: Some(500000), write: Some(0) };
    let cur = IoStats { read: Some(200), write: Some(0) };
    let u = io_usage_of(&cur, &prev, 10000);
    assert_eq!(u.readkBps, Some(0));
}

#[test]
fn io_rate_exact() {
    // 20 MB in 10 s = 2000 KB/s.
    let prev = IoStats { read: Some(1_000_000), write: Some(500_000) };
    let cur = IoStats { read: Some(21_000_000), write: Some(500_000) };
    let u = io_usage_of(&cur, &prev, 10000);
    assert_eq!(u.readkBps, Some(2000));
    assert_eq!(u.writekBps, Some(0));
    assert_eq!(u.readkB, Some(21_000));
    assert_eq!(u.writekB, Some(500));
}

#[test]
fn net_counter_reset_reads_as_zero_rate() {
    let prev = NetStats { send: Some(0), recv: Some(800_000) };
    let cur = NetStats { send: Some(0), recv: Some(100) };
    let u = net_usage_of(&cur, &prev, 10000);
    assert_eq!(u.recvkBps, Some(0));
}

#[test]
fn net_rate_exact() {
    // 10 MB in 10000 ms = 1000 bytes per millisecond.
    let prev = NetStats { send: Some(0), recv: Some(0) };
    let cur = NetStats { send: Some(10_000_000), recv: Some(5_000_000) };
    let u = net_usage_of(&cur, &prev, 10000);
    assert_eq!(u.sendkBps, Some(1000));
    assert_eq!(u.recvkBps, Some(500));
}

#[test]
fn calc_usages_skips_unknown_previous_container() {
    let mut cur = empty_stats();
    cur.time = Some("2024-01-01T00:00:10Z".to_string());
    cur.cpu = CpuStats { total: Some(1200), system: Some(10500), ncpu: Some(2) };
    let stats = vec![
        ContainerStats { name: "web".to_string(), stats: cur.clone() },
        ContainerStats { name: "new".to_string(), stats: cur.clone() },
    ];
    let mut prev = empty_stats();
    prev.cpu = CpuStats { total: Some(1000), system: Some(10000), ncpu: Some(2) };
    let prev_stats = vec![ContainerStats { name: "web".to_string(), stats: prev }];
    let usages = calc_usages(10000, &stats, &prev_stats).expect("tick should compute");
    assert_eq!(usages.time, "2024-01-01T00:00:10Z");
    assert_eq!(usages.millis, 10000);
    assert_eq!(usages.usages.len(), 1);
    assert_eq!(usages.usages[0].name, "web");
    assert_eq!(usages.usages[0].usage.cpu.percentage, Some(8000));
}

#[test]
fn calc_usages_requires_timestamp() {
    let mut cur = empty_stats();
    cur.cpu = CpuStats { total: Some(1200), system: Some(10500), ncpu: Some(2) };
    let stats = vec![ContainerStats { name: "web".to_string(), stats: cur }];
    let prev_stats = stats.clone();
    assert!(calc_usages(10000, &stats, &prev_stats).is_none());
    assert!(calc_usages(10000, &Vec::new(), &prev_stats).is_none());
}

#[test]
fn log_condition_gates_on_first_cpu_totals() {
    let mut with_total = empty_stats();
    with_total.cpu.total = Some(5);
    let without_total = empty_stats();
    let a = vec![ContainerStats { name: "a".to_string(), stats: with_total.clone() }];
    let b = vec![ContainerStats { name: "a".to_string(), stats: without_total }];
    assert!(log_condition(&a, &a));
    assert!(!log_condition(&a, &b));
    assert!(!log_condition(&b, &a));
    assert!(!log_condition(&a, &Vec::new()));
}
