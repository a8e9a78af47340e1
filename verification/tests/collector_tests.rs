use cephylas::cache::UsageCache;
use cephylas::collector::{initial_tick_target, millis_to_wait, next_tick_target, process_tick};
use cephylas::usage::{ContainerStats, CpuStats, IoStats, Stats};

fn snapshot(time: &str, cpu_total: u64, cpu_system: u64, ncpu: u8) -> Stats {
    let mut s = Stats::default();
    s.time = Some(time.to_string());
    s.cpu = CpuStats { total: Some(cpu_total), system: Some(cpu_system), ncpu: Some(ncpu) };
    s
}

#[test]
fn schedule_aligns_to_tick_boundaries() {
    let target = initial_tick_target(1_700_000_003_456, 10_000);
    assert_eq!(target % 10_000, 0);
    assert!(target > 1_700_000_003_456);
    assert!(target <= 1_700_000_013_456);
    assert_eq!(next_tick_target(target, 10_000), target + 10_000);
    assert_eq!(millis_to_wait(target, target - 250), 250);
    assert_eq!(millis_to_wait(target, target + 5), 0);
}

#[test]
fn first_tick_registers_but_records_nothing() {
    // The warm-up tick has no previous snapshot set: no rate samples are
    // produced for any container, but the containers become known.
    let mut cache = UsageCache::new();
    let stats = vec![ContainerStats {
        name: "web".to_string(),
        stats: snapshot("2024-01-01T00:00:00Z", 1000, 10000, 2),
    }];
    let r = process_tick(&mut cache, &stats, &Vec::new(), 10000);
    assert!(r.is_none());
    let series = cache.cpu.get("web").expect("warm-up registers the container");
    assert_eq!(series.len(), 0);
}

#[test]
fn second_tick_computes_and_stores_cpu_percentage() {
    // Two snapshots 10 s apart: cpu usage (1200-1000)/(10500-10000)*2*100
    // = 80.00%.
    let mut cache = UsageCache::new();
    let first = vec![ContainerStats {
        name: "web".to_string(),
        stats: snapshot("2024-01-01T00:00:00Z", 1000, 10000, 2),
    }];
    let second = vec![ContainerStats {
        name: "web".to_string(),
        stats: snapshot("2024-01-01T00:00:10Z", 1200, 10500, 2),
    }];
    assert!(process_tick(&mut cache, &first, &Vec::new(), 10000).is_none());
    let r = process_tick(&mut cache, &second, &first, 10000);
    let usages = r.expect("gate passes with both cpu totals present");
    assert_eq!(usages.time, "2024-01-01T00:00:10Z");
    assert_eq!(usages.usages.len(), 1);
    assert_eq!(usages.usages[0].usage.cpu.percentage, Some(8000));
    let series = cache.cpu.get("web").expect("series exists");
    assert_eq!(series.len(), 1);
    assert_eq!(series.get(0).percentage, Some(8000));
    assert_eq!(series.get(0).time, "2024-01-01T00:00:10Z");
}

#[test]
fn io_counter_reset_stores_zero_rate() {
    // The read counter dropping between ticks (container restart) stores
    // a zero rate, never an underflow.
    let mut cache = UsageCache::new();
    let mut s1 = snapshot("2024-01-01T00:00:00Z", 1000, 10000, 2);
    s1.io = IoStats { read: Some(500_000), write: Some(0) };
    let mut s2 = snapshot("2024-01-01T00:00:10Z", 1200, 10500, 2);
    s2.io = IoStats { read: Some(200), write: Some(0) };
    let first = vec![ContainerStats { name: "web".to_string(), stats: s1 }];
    let second = vec![ContainerStats { name: "web".to_string(), stats: s2 }];
    assert!(process_tick(&mut cache, &first, &Vec::new(), 10000).is_none());
    process_tick(&mut cache, &second, &first, 10000).expect("tick records");
    let series = cache.io.get("web").expect("io series exists");
    assert_eq!(series.len(), 1);
    assert_eq!(series.get(0).readkBps, Some(0));
}

#[test]
fn gate_blocks_without_cpu_totals() {
    let mut cache = UsageCache::new();
    let mut s = Stats::default();
    s.time = Some("t".to_string());
    let stats = vec![ContainerStats { name: "web".to_string(), stats: s }];
    let r = process_tick(&mut cache, &stats, &stats, 10000);
    assert!(r.is_none());
}
