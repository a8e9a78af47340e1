use cephylas::cpu_info::{calc_cpu_usage, CpuInfo, CpuInfoError};
use cephylas::disk_info::DiskInfo;
use cephylas::mem_info::{MemInfo, MemInfoError};
use cephylas::net_info::NetInfo;
use cephylas::resource::diff_cpu_results;
use cephylas::watch::{sync_targets, DurationSettings, Settings, TargetSettings};

#[test]
fn cpu_line_parses_with_optional_tail() {
    let full = CpuInfo::parse("cpu 10 20 30 40 5 6 7 8 9 11").unwrap();
    // The counters are taken in line order into the fields user, system,
    // nice, idle.
    assert_eq!(full.user, 10);
    assert_eq!(full.system, 20);
    assert_eq!(full.nice, 30);
    assert_eq!(full.idle, 40);
    assert_eq!(full.iowait, Some(5));
    assert_eq!(full.guest_nice, Some(11));

    let short = CpuInfo::parse("cpu 1 2 3 4").unwrap();
    assert_eq!(short.iowait, None);
    assert_eq!(short.guest_nice, None);
}

#[test]
fn cpu_line_rejects_malformed_input() {
    assert!(matches!(
        CpuInfo::parse("cpux 1 2 3 4"),
        Err(CpuInfoError::EntryNotFound(_))
    ));
    assert!(matches!(CpuInfo::parse(""), Err(CpuInfoError::EntryNotFound(_))));
    assert!(matches!(
        CpuInfo::parse("cpu 1 2 3"),
        Err(CpuInfoError::EntryNotFound(_))
    ));
    assert!(matches!(
        CpuInfo::parse("cpu 1 2 x 4"),
        Err(CpuInfoError::InvalidEntry(_))
    ));
    assert!(matches!(
        CpuInfo::parse("cpu 1 2 3 4 bad"),
        Err(CpuInfoError::InvalidEntry(_))
    ));
}

#[test]
fn cpu_usage_is_user_share_in_hundredths() {
    let c = CpuInfo {
        user: 25,
        nice: 0,
        system: 25,
        idle: 50,
        iowait: None,
        irq: None,
        softirq: None,
        steal: None,
        guest: None,
        guest_nice: None,
    };
    // 25 of 100 total: 25.00%.
    assert_eq!(calc_cpu_usage(&c), 2500);
    let zero = CpuInfo { user: 0, nice: 0, system: 0, idle: 0, ..c };
    assert_eq!(calc_cpu_usage(&zero), 0);
}

#[test]
fn cpu_sub_diffs_fields_pairwise() {
    let a = CpuInfo {
        user: 10,
        nice: 9,
        system: 8,
        idle: 7,
        iowait: Some(6),
        irq: None,
        softirq: Some(5),
        steal: None,
        guest: None,
        guest_nice: None,
    };
    let b = CpuInfo {
        user: 1,
        nice: 2,
        system: 3,
        idle: 4,
        iowait: Some(5),
        irq: Some(1),
        softirq: None,
        steal: None,
        guest: None,
        guest_nice: None,
    };
    let d = a.sub(b);
    assert_eq!(d.user, 9);
    assert_eq!(d.nice, 7);
    assert_eq!(d.system, 5);
    assert_eq!(d.idle, 3);
    assert_eq!(d.iowait, Some(1));
    // An optional counter missing on either side diffs to absent.
    assert_eq!(d.irq, None);
    assert_eq!(d.softirq, None);
}

#[test]
fn meminfo_finds_lines_by_label() {
    let doc = "MemTotal: 16000 kB\nMemFree: 8000 kB\nMemAvailable: 12000 kB\n\
               Buffers: 1 kB\nCached: 2 kB\nSwapCached: 3 kB\nActive: 4 kB\n\
               Inactive: 5 kB\nActive(anon): 6 kB\nInactive(anon): 7 kB\n\
               Active(file): 8 kB\nInactive(file): 9 kB\nUnevictable: 10 kB\n\
               Mlocked: 11 kB\nSwapTotal: 12 kB\nSwapFree: 13 kB\nDirty: 14 kB\n\
               Writeback: 15 kB\n";
    let m = MemInfo::parse(doc).unwrap();
    assert_eq!(m.total, 16000);
    assert_eq!(m.free, 8000);
    assert_eq!(m.available, 12000);
    assert_eq!(m.swap_total, 12);
    assert_eq!(m.writeback, 15);
}

#[test]
fn meminfo_rejects_missing_label() {
    let doc = "MemTotal: 16000 kB\nMemFree: 8000 kB\n";
    assert!(matches!(
        MemInfo::parse(doc),
        Err(MemInfoError::EntryNotFound(_))
    ));
    assert!(matches!(
        MemInfo::parse("MemTotal: abc kB\n"),
        Err(MemInfoError::InvalidEntry(_))
    ));
}

#[test]
fn diskstats_line_parses_after_device_tokens() {
    let line = " 259 0 nvme0n1 100 1 2 3 200 4 5 6 0 7 8 9 10 11 12 13";
    let d = DiskInfo::parse(line).unwrap();
    assert_eq!(d.reads_completed, 100);
    assert_eq!(d.writes_completed, 200);
    assert_eq!(d.milliseconds_spent_flushing, 13);
    assert!(DiskInfo::parse("259 0 nvme0n1 100 1 2").is_err());
}

#[test]
fn net_device_line_parses_both_directions() {
    let line = "eth0: 1000 10 0 0 0 0 0 0 2000 20 0 0 0 0 0 0";
    let n = NetInfo::parse(line).unwrap();
    assert_eq!(n.rx.bytes, 1000);
    assert_eq!(n.rx.packets, 10);
    assert_eq!(n.tx.bytes, 2000);
    assert_eq!(n.tx.packets, 20);
    let d = n.sub(NetInfo::parse("eth0: 400 4 0 0 0 0 0 0 500 5 0 0 0 0 0 0").unwrap());
    assert_eq!(d.rx.bytes, 600);
    assert_eq!(d.tx.bytes, 1500);
}

#[test]
fn diff_results_prefers_values_then_errors() {
    let a = CpuInfo::parse("cpu 10 10 10 10").unwrap();
    let b = CpuInfo::parse("cpu 4 4 4 4").unwrap();
    let d = diff_cpu_results(Ok(a), Ok(b)).unwrap();
    assert_eq!(d.user, 6);
    let e = CpuInfoError::EntryNotFound("cpu".to_string());
    assert!(diff_cpu_results(Err(e.clone()), Ok(b)).is_err());
    assert!(diff_cpu_results(Ok(a), Err(e)).is_err());
}

#[test]
fn watch_targets_fire_one_unit_out() {
    let d = DurationSettings::default();
    let now = 1_700_000_000_123u64;
    let t = sync_targets(now, &d);
    // Daily: next whole second plus the unit and the initial wait.
    assert_eq!(t.daily, now + (10_000 + 1000 - 123));
    assert_eq!(t.weekly, now + 600_000);
    assert_eq!(t.monthly, now + 3_600_000);
    assert_eq!(t.yearly, now + 86_400_000);
}

#[test]
fn settings_carry_durations_and_targets() {
    let s = Settings {
        durations: DurationSettings::default(),
        targets: TargetSettings { disk_name: "sda".to_string(), net_name: "eth0".to_string() },
    };
    assert_eq!(s.durations.daily.unit_duration_millis, 10_000);
    assert_eq!(s.targets.net_name, "eth0");
    assert_eq!(s.targets.disk_name, "sda");
}
