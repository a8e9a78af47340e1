use vstd::prelude::*;

verus! {

use crate::text::name_bytes;
use vstd::string::StringSliceAdditionalSpecFns;

// ---------------------------------------------------------------------------
// Raw cumulative-counter snapshots, one per container per tick.
//
// Every field is optional: the runtime may omit any counter from a given
// snapshot, and a missing input must surface as a missing output, never as
// a fabricated zero.
// ---------------------------------------------------------------------------

#[derive(Debug, Clone, Copy, PartialEq)]
pub struct CpuStats {
    /// Total CPU time consumed, milliseconds.
    pub total: Option<u64>,
    /// Host system CPU time, milliseconds.
    pub system: Option<u64>,
    /// Number of online CPUs.
    pub ncpu: Option<u8>,
}

#[derive(Debug, Clone, Copy, PartialEq)]
pub struct MemoryStats {
    /// Used bytes with the page cache already subtracted (clamped at zero).
    pub used: Option<u64>,
    /// Memory limit, bytes.
    pub available: Option<u64>,
}

#[derive(Debug, Clone, Copy, PartialEq)]
pub struct IoStats {
    /// Cumulative bytes read.
    pub read: Option<u64>,
    /// Cumulative bytes written.
    pub write: Option<u64>,
}

#[derive(Debug, Clone, Copy, PartialEq)]
pub struct NetStats {
    /// Cumulative bytes sent.
    pub send: Option<u64>,
    /// Cumulative bytes received.
    pub recv: Option<u64>,
}

/// One raw snapshot: all counters the runtime reported for one container
/// at one instant, plus the runtime's own wall-clock timestamp string.
#[derive(Debug, Clone, PartialEq)]
pub struct Stats {
    pub time: Option<String>,
    pub cpu: CpuStats,
    pub memory: MemoryStats,
    pub io: IoStats,
    pub net: NetStats,
}

impl Default for Stats {
    /// A snapshot with every counter absent.
    fn default() -> (r: Self)
        ensures
            r.time is None,
            r.cpu.total is None,
            r.cpu.system is None,
            r.cpu.ncpu is None,
            r.memory.used is None,
            r.memory.available is None,
            r.io.read is None,
            r.io.write is None,
            r.net.send is None,
            r.net.recv is None,
    {
        Stats {
            time: None,
            cpu: CpuStats { total: None, system: None, ncpu: None },
            memory: MemoryStats { used: None, available: None },
            io: IoStats { read: None, write: None },
            net: NetStats { recv: None, send: None },
        }
    }
}

/// A raw snapshot paired with the container it belongs to.
#[derive(Debug, Clone, PartialEq)]
pub struct ContainerStats {
    pub name: String,
    pub stats: Stats,
}

// ---------------------------------------------------------------------------
// Derived per-tick rate samples.
//
// Percentages are held in fixed point, hundredths of a percent, so that
// `8000` denotes `80.00%`.  This keeps the whole pipeline in exact integer
// arithmetic.
// ---------------------------------------------------------------------------

/// Scale factor of the fixed-point percentages: hundredths of a percent.
pub const PERCENT_SCALE: u64 = 10000;

#[derive(Debug, Clone, Copy, PartialEq)]
pub struct CpuUsage {
    /// CPU load in hundredths of a percent; may exceed 100% under
    /// multi-core accounting.
    pub percentage: Option<u64>,
    /// CPU time spent this tick, milliseconds.
    pub total: Option<u64>,
    /// System CPU time elapsed this tick, milliseconds.
    pub system: Option<u64>,
    pub ncpu: Option<u8>,
}

#[derive(Debug, Clone, Copy, PartialEq)]
pub struct MemoryUsage {
    /// Used fraction of the limit, hundredths of a percent.
    pub percentage: Option<u64>,
    pub used: Option<u64>,
    pub available: Option<u64>,
}

#[derive(Debug, Clone, Copy, PartialEq)]
#[allow(non_snake_case)]
pub struct IoUsage {
    pub readkB: Option<u64>,
    pub writekB: Option<u64>,
    pub readkBps: Option<u32>,
    pub writekBps: Option<u32>,
}

#[derive(Debug, Clone, Copy, PartialEq)]
#[allow(non_snake_case)]
pub struct NetUsage {
    pub recvkB: Option<u64>,
    pub sendkB: Option<u64>,
    pub recvkBps: Option<u32>,
    pub sendkBps: Option<u32>,
}

/// All rate samples derived for one container for one tick.
#[derive(Debug, Clone, PartialEq)]
pub struct Usage {
    pub cpu: CpuUsage,
    pub memory: MemoryUsage,
    pub io: IoUsage,
    pub net: NetUsage,
}

// ---------------------------------------------------------------------------
// The arithmetic of the delta pipeline, as spec functions.
// ---------------------------------------------------------------------------

/// Counter difference clamped at zero: a decrease (counter reset) yields 0.
pub open spec fn sat_sub(a: u64, b: u64) -> u64 {
    if a >= b {
        (a - b) as u64
    } else {
        0
    }
}

pub open spec fn clamp_u64(v: int) -> u64 {
    if v > u64::MAX {
        u64::MAX as u64
    } else {
        v as u64
    }
}

pub open spec fn clamp_u32(v: int) -> u32 {
    if v > u32::MAX {
        u32::MAX as u32
    } else {
        v as u32
    }
}

/// The clamped difference of two optional counters; absent unless both
/// readings are present.
pub open spec fn spec_opt_delta(cur: Option<u64>, prev: Option<u64>) -> Option<u64> {
    if cur is Some && prev is Some {
        Some(sat_sub(cur.unwrap(), prev.unwrap()))
    } else {
        None
    }
}

/// CPU load over one tick, hundredths of a percent: present exactly when
/// both counter deltas and the CPU count are available and the system
/// delta is positive (never a division by zero).
pub open spec fn spec_cpu_percentage(cur: CpuStats, prev: CpuStats) -> Option<u64> {
    let delta = spec_opt_delta(cur.total, prev.total);
    let sys_delta = spec_opt_delta(cur.system, prev.system);
    if delta is Some && sys_delta is Some && cur.ncpu is Some && sys_delta.unwrap() > 0 {
        Some(
            clamp_u64(
                delta.unwrap() * cur.ncpu.unwrap() * PERCENT_SCALE / sys_delta.unwrap() as int,
            ),
        )
    } else {
        None
    }
}

pub open spec fn spec_cpu_usage(cur: CpuStats, prev: CpuStats) -> CpuUsage {
    CpuUsage {
        percentage: spec_cpu_percentage(cur, prev),
        total: spec_opt_delta(cur.total, prev.total),
        system: spec_opt_delta(cur.system, prev.system),
        ncpu: cur.ncpu,
    }
}

/// Memory used as a fraction of the limit, hundredths of a percent:
/// present exactly when both values are available and the limit is
/// positive.
pub open spec fn spec_memory_percentage(cur: MemoryStats) -> Option<u64> {
    if cur.used is Some && cur.available is Some && cur.available.unwrap() > 0 {
        Some(clamp_u64(cur.used.unwrap() * PERCENT_SCALE / cur.available.unwrap() as int))
    } else {
        None
    }
}

pub open spec fn spec_memory_usage(cur: MemoryStats) -> MemoryUsage {
    MemoryUsage {
        percentage: spec_memory_percentage(cur),
        used: cur.used,
        available: cur.available,
    }
}

/// Throughput of a cumulative byte counter over a tick of `millis`
/// milliseconds, in KB/s: the clamped delta, scaled to KB, divided by the
/// elapsed whole seconds.
pub open spec fn spec_kbps(cur: Option<u64>, prev: Option<u64>, millis: u16) -> Option<u32> {
    if cur is Some && prev is Some {
        Some(clamp_u32(sat_sub(cur.unwrap(), prev.unwrap()) as int / 1000 / (millis as int / 1000)))
    } else {
        None
    }
}

/// Throughput of a cumulative byte counter in bytes per millisecond,
/// the approximation of KB/s used for network counters.
pub open spec fn spec_bpms(cur: Option<u64>, prev: Option<u64>, millis: u16) -> Option<u32> {
    if cur is Some && prev is Some {
        Some(clamp_u32(sat_sub(cur.unwrap(), prev.unwrap()) as int / millis as int))
    } else {
        None
    }
}

/// A cumulative byte counter scaled to KB.
pub open spec fn spec_kb(v: Option<u64>) -> Option<u64> {
    if v is Some {
        Some((v.unwrap() / 1000) as u64)
    } else {
        None
    }
}

pub open spec fn spec_io_usage(cur: IoStats, prev: IoStats, millis: u16) -> IoUsage {
    IoUsage {
        readkB: spec_kb(cur.read),
        writekB: spec_kb(cur.write),
        readkBps: spec_kbps(cur.read, prev.read, millis),
        writekBps: spec_kbps(cur.write, prev.write, millis),
    }
}

pub open spec fn spec_net_usage(cur: NetStats, prev: NetStats, millis: u16) -> NetUsage {
    NetUsage {
        recvkB: spec_kb(cur.recv),
        sendkB: spec_kb(cur.send),
        recvkBps: spec_bpms(cur.recv, prev.recv, millis),
        sendkBps: spec_bpms(cur.send, prev.send, millis),
    }
}

pub open spec fn spec_usage(cur: Stats, prev: Stats, millis: u16) -> Usage {
    Usage {
        cpu: spec_cpu_usage(cur.cpu, prev.cpu),
        memory: spec_memory_usage(cur.memory),
        io: spec_io_usage(cur.io, prev.io, millis),
        net: spec_net_usage(cur.net, prev.net, millis),
    }
}

// ---------------------------------------------------------------------------
// Executable pipeline.
// ---------------------------------------------------------------------------

/// Clamped counter difference over two optional readings.
fn opt_delta(cur: &Option<u64>, prev: &Option<u64>) -> (r: Option<u64>)
    ensures
        r == spec_opt_delta(*cur, *prev),
{
    match (cur, prev) {
        (Some(a), Some(b)) => Some(
            if *a >= *b {
                *a - *b
            } else {
                0
            },
        ),
        _ => None,
    }
}

/// Derives the CPU sample for one tick.
pub fn cpu_usage_of(cur: &CpuStats, prev: &CpuStats) -> (r: CpuUsage)
    ensures
        r == spec_cpu_usage(*cur, *prev),
{
    let delta = opt_delta(&cur.total, &prev.total);
    let sys_delta = opt_delta(&cur.system, &prev.system);
    let percentage: Option<u64> = match (delta, sys_delta, cur.ncpu) {
        (Some(d), Some(s), Some(n)) => {
            if s > 0 {
                proof {
                    assert((d as u128) * (n as u128) * (PERCENT_SCALE as u128) <= u128::MAX) by {
                        assert((d as u128) * (n as u128) <= (u64::MAX as u128) * 255) by (nonlinear_arith)
                            requires
                                d <= u64::MAX,
                                n <= 255,
                        ;
                        assert(((u64::MAX as u128) * 255) * (PERCENT_SCALE as u128) < u128::MAX) by (nonlinear_arith);
                        assert((d as u128) * (n as u128) * (PERCENT_SCALE as u128) <= ((u64::MAX as u128) * 255) * (PERCENT_SCALE as u128)) by (nonlinear_arith)
                            requires
                                (d as u128) * (n as u128) <= (u64::MAX as u128) * 255,
                        ;
                    }
                }
                let wide: u128 = (d as u128) * (n as u128) * (PERCENT_SCALE as u128) / (s as u128);
                if wide > u64::MAX as u128 {
                    Some(u64::MAX)
                } else {
                    Some(wide as u64)
                }
            } else {
                None
            }
        },
        _ => None,
    };
    CpuUsage { percentage, total: delta, system: sys_delta, ncpu: cur.ncpu }
}

/// Derives the memory sample for one tick; only the current snapshot is
/// needed.
pub fn memory_usage_of(cur: &MemoryStats) -> (r: MemoryUsage)
    ensures
        r == spec_memory_usage(*cur),
{
    let percentage: Option<u64> = match (cur.used, cur.available) {
        (Some(u), Some(a)) => {
            if a > 0 {
                proof {
                    assert((u as u128) * (PERCENT_SCALE as u128) <= (u64::MAX as u128) * (
                    PERCENT_SCALE as u128)) by (nonlinear_arith)
                        requires
                            u <= u64::MAX,
                    ;
                    assert((u64::MAX as u128) * (PERCENT_SCALE as u128) < u128::MAX) by (nonlinear_arith);
                }
                let wide: u128 = (u as u128) * (PERCENT_SCALE as u128) / (a as u128);
                if wide > u64::MAX as u128 {
                    Some(u64::MAX)
                } else {
                    Some(wide as u64)
                }
            } else {
                None
            }
        },
        _ => None,
    };
    MemoryUsage { percentage, used: cur.used, available: cur.available }
}

/// KB/s over the tick for one counter pair.
fn kbps_of(cur: &Option<u64>, prev: &Option<u64>, millis: u16) -> (r: Option<u32>)
    requires
        millis >= 1000,
    ensures
        r == spec_kbps(*cur, *prev, millis),
{
    match (cur, prev) {
        (Some(a), Some(b)) => {
            let delta = if *a >= *b {
                *a - *b
            } else {
                0
            };
            let v = delta / 1000 / ((millis as u64) / 1000);
            if v > u32::MAX as u64 {
                Some(u32::MAX)
            } else {
                Some(v as u32)
            }
        },
        _ => None,
    }
}

/// Bytes per millisecond over the tick for one counter pair.
fn bpms_of(cur: &Option<u64>, prev: &Option<u64>, millis: u16) -> (r: Option<u32>)
    requires
        millis >= 1000,
    ensures
        r == spec_bpms(*cur, *prev, millis),
{
    match (cur, prev) {
        (Some(a), Some(b)) => {
            let delta = if *a >= *b {
                *a - *b
            } else {
                0
            };
            let v = delta / (millis as u64);
            if v > u32::MAX as u64 {
                Some(u32::MAX)
            } else {
                Some(v as u32)
            }
        },
        _ => None,
    }
}

fn kb_of(v: &Option<u64>) -> (r: Option<u64>)
    ensures
        r == spec_kb(*v),
{
    match v {
        Some(x) => Some(*x / 1000),
        None => None,
    }
}

/// Derives the block-I/O sample for one tick.
pub fn io_usage_of(cur: &IoStats, prev: &IoStats, millis: u16) -> (r: IoUsage)
    requires
        millis >= 1000,
    ensures
        r == spec_io_usage(*cur, *prev, millis),
        // Counter-reset safety: a decreasing counter gives a zero rate,
        // never a negative or underflowed one.
        (cur.read is Some && prev.read is Some && cur.read.unwrap() < prev.read.unwrap())
            ==> r.readkBps == Some(0u32),
        (cur.write is Some && prev.write is Some && cur.write.unwrap() < prev.write.unwrap())
            ==> r.writekBps == Some(0u32),
{
    IoUsage {
        readkB: kb_of(&cur.read),
        writekB: kb_of(&cur.write),
        readkBps: kbps_of(&cur.read, &prev.read, millis),
        writekBps: kbps_of(&cur.write, &prev.write, millis),
    }
}

/// Derives the network sample for one tick.
pub fn net_usage_of(cur: &NetStats, prev: &NetStats, millis: u16) -> (r: NetUsage)
    requires
        millis >= 1000,
    ensures
        r == spec_net_usage(*cur, *prev, millis),
        // Counter-reset safety, as for I/O.
        (cur.recv is Some && prev.recv is Some && cur.recv.unwrap() < prev.recv.unwrap())
            ==> r.recvkBps == Some(0u32),
        (cur.send is Some && prev.send is Some && cur.send.unwrap() < prev.send.unwrap())
            ==> r.sendkBps == Some(0u32),
{
    NetUsage {
        recvkB: kb_of(&cur.recv),
        sendkB: kb_of(&cur.send),
        recvkBps: bpms_of(&cur.recv, &prev.recv, millis),
        sendkBps: bpms_of(&cur.send, &prev.send, millis),
    }
}

/// Derives all four metric samples for one container for one tick.
pub fn usage_of(cur: &Stats, prev: &Stats, millis: u16) -> (r: Usage)
    requires
        millis >= 1000,
    ensures
        r == spec_usage(*cur, *prev, millis),
{
    Usage {
        cpu: cpu_usage_of(&cur.cpu, &prev.cpu),
        memory: memory_usage_of(&cur.memory),
        io: io_usage_of(&cur.io, &prev.io, millis),
        net: net_usage_of(&cur.net, &prev.net, millis),
    }
}


// ---------------------------------------------------------------------------
// Whole-tick computation over all containers.
// ---------------------------------------------------------------------------

/// The rate samples of one container for one tick.
#[derive(Debug, Clone, PartialEq)]
pub struct ContainerUsage {
    pub name: String,
    pub usage: Usage,
}

/// Everything one tick derives: the snapshot timestamp, the tick length in
/// milliseconds, and one `Usage` per container that could be computed.
#[derive(Debug, Clone, PartialEq)]
pub struct Usages {
    pub time: String,
    pub millis: u16,
    pub usages: Vec<ContainerUsage>,
}

/// The first snapshot recorded under the name `k`, if any.
pub open spec fn spec_find_stats(list: Seq<ContainerStats>, k: Seq<u8>) -> Option<Stats>
    decreases list.len(),
{
    if list.len() == 0 {
        None
    } else if name_bytes(list[0].name) == k {
        Some(list[0].stats)
    } else {
        spec_find_stats(list.drop_first(), k)
    }
}

proof fn lemma_find_stats_skip(list: Seq<ContainerStats>, k: Seq<u8>, i: int)
    requires
        0 <= i <= list.len(),
        forall|j: int| 0 <= j < i ==> name_bytes(list[j].name) != k,
    ensures
        spec_find_stats(list, k) == spec_find_stats(list.skip(i), k),
    decreases i,
{
    if i > 0 {
        assert(list.len() > 0);
        assert(name_bytes(list[0].name) != k);
        assert forall|j: int| 0 <= j < i - 1 implies name_bytes(
            list.drop_first()[j].name,
        ) != k by {
            assert(list.drop_first()[j] == list[j + 1]);
        }
        lemma_find_stats_skip(list.drop_first(), k, i - 1);
        assert(list.drop_first().skip(i - 1) =~= list.skip(i));
    } else {
        assert(list.skip(0) =~= list);
    }
}

/// Looks a container's snapshot up by name in a snapshot set.
pub fn find_stats<'a>(list: &'a Vec<ContainerStats>, name: &str) -> (r: Option<&'a Stats>)
    ensures
        match r {
            Some(st) => spec_find_stats(list@, name.spec_bytes()) == Some(*st),
            None => spec_find_stats(list@, name.spec_bytes()) is None,
        },
{
    let ghost k = name.spec_bytes();
    let n = list.len();
    let mut i: usize = 0;
    loop
        invariant
            0 <= i <= n,
            n == list@.len(),
            k == name.spec_bytes(),
            forall|j: int| 0 <= j < i ==> name_bytes(list@[j].name) != k,
        decreases n - i,
    {
        proof {
            lemma_find_stats_skip(list@, k, i as int);
        }
        if i == n {
            proof {
                assert(list@.skip(i as int).len() == 0);
            }
            return None;
        }
        match crate::text::compare_names(list[i].name.as_str(), name) {
            crate::text::NameOrder::Same => {
                proof {
                    assert(list@.skip(i as int)[0] == list@[i as int]);
                    assert(name_bytes(list@[i as int].name) == k);
                }
                return Some(&list[i].stats);
            },
            _ => {
                proof {
                    assert(list@.skip(i as int)[0] == list@[i as int]);
                }
                i = i + 1;
            },
        }
    }
}

/// The samples one tick derives, container by container in snapshot
/// order: a container missing from the previous tick's snapshot set is
/// omitted for this tick (recoverable per-container failure), all others
/// get exactly the usage the delta arithmetic defines.
pub open spec fn spec_calc_entries(
    stats: Seq<ContainerStats>,
    prev: Seq<ContainerStats>,
    millis: u16,
) -> Seq<ContainerUsage>
    decreases stats.len(),
{
    if stats.len() == 0 {
        Seq::empty()
    } else {
        let rest = spec_calc_entries(stats.drop_last(), prev, millis);
        let c = stats.last();
        match spec_find_stats(prev, name_bytes(c.name)) {
            Some(p) => rest.push(
                ContainerUsage { name: c.name, usage: spec_usage(c.stats, p, millis) },
            ),
            None => rest,
        }
    }
}

/// Derives one `Usage` per container from the current and previous
/// snapshot sets.  Yields `None` exactly when no timestamp is available
/// (no container in the current set, or the first snapshot carries no
/// timestamp); otherwise every container with a previous snapshot gets
/// its sample and every container without one is skipped.
pub fn calc_usages(
    millis: u16,
    stats: &Vec<ContainerStats>,
    prev_stats: &Vec<ContainerStats>,
) -> (r: Option<Usages>)
    requires
        millis >= 1000,
    ensures
        r is Some <==> (stats@.len() > 0 && stats@[0].stats.time is Some),
        r is Some ==> {
            let u = r.unwrap();
            &&& u.time == stats@[0].stats.time.unwrap()
            &&& u.millis == millis
            &&& u.usages@ == spec_calc_entries(stats@, prev_stats@, millis)
        },
{
    if stats.len() == 0 {
        return None;
    }
    let time: String = match &stats[0].stats.time {
        Some(t) => t.clone(),
        None => {
            return None;
        },
    };
    let n = stats.len();
    let mut out: Vec<ContainerUsage> = Vec::new();
    let mut i: usize = 0;
    while i < n
        invariant
            0 <= i <= n,
            n == stats@.len(),
            millis >= 1000,
            out@ == spec_calc_entries(stats@.take(i as int), prev_stats@, millis),
        decreases n - i,
    {
        let c = &stats[i];
        proof {
            assert(stats@.take(i + 1).drop_last() =~= stats@.take(i as int));
            assert(stats@.take(i + 1).last() == stats@[i as int]);
        }
        match find_stats(prev_stats, c.name.as_str()) {
            Some(p) => {
                let u = usage_of(&c.stats, p, millis);
                out.push(ContainerUsage { name: c.name.clone(), usage: u });
            },
            None => {},
        }
        i = i + 1;
    }
    proof {
        assert(stats@.take(n as int) =~= stats@);
    }
    Some(Usages { time, millis, usages: out })
}

/// The warm-up gate for a tick: both the current and the previous
/// snapshot sets have a first container whose CPU total is present.
pub fn log_condition(stats: &Vec<ContainerStats>, prev_stats: &Vec<ContainerStats>) -> (r: bool)
    ensures
        r == (stats@.len() > 0 && prev_stats@.len() > 0 && stats@[0].stats.cpu.total is Some
            && prev_stats@[0].stats.cpu.total is Some),
{
    if stats.len() == 0 || prev_stats.len() == 0 {
        return false;
    }
    let a = &stats[0].stats.cpu.total;
    let b = &prev_stats[0].stats.cpu.total;
    a.is_some() && b.is_some()
}

// ---------------------------------------------------------------------------
// The pipeline's safety laws.
// ---------------------------------------------------------------------------

/// A decrease in any monotonic counter never produces a negative or
/// underflowed rate: the clamped delta is zero, so the derived rate is
/// exactly zero.
pub proof fn lemma_counter_reset_rate_is_zero(cur: u64, prev: u64, millis: u16)
    requires
        cur < prev,
        millis >= 1000,
    ensures
        spec_kbps(Some(cur), Some(prev), millis) == Some(0u32),
        spec_bpms(Some(cur), Some(prev), millis) == Some(0u32),
{
    assert(sat_sub(cur, prev) == 0);
}

/// A missing raw field always yields an absent derived field, never zero:
/// the CPU percentage is present exactly when all of its inputs are, the
/// memory percentage exactly when both of its inputs are, and a throughput
/// exactly when both counter readings are.
pub proof fn lemma_missing_input_absent_output(
    cur: Stats,
    prev: Stats,
    millis: u16,
)
    ensures
        (cur.cpu.total is None || prev.cpu.total is None || cur.cpu.system is None
            || prev.cpu.system is None || cur.cpu.ncpu is None) ==> spec_usage(
            cur,
            prev,
            millis,
        ).cpu.percentage is None,
        (cur.memory.used is None || cur.memory.available is None) ==> spec_usage(
            cur,
            prev,
            millis,
        ).memory.percentage is None,
        (cur.io.read is None || prev.io.read is None) ==> spec_usage(
            cur,
            prev,
            millis,
        ).io.readkBps is None,
        (cur.io.write is None || prev.io.write is None) ==> spec_usage(
            cur,
            prev,
            millis,
        ).io.writekBps is None,
        (cur.net.recv is None || prev.net.recv is None) ==> spec_usage(
            cur,
            prev,
            millis,
        ).net.recvkBps is None,
        (cur.net.send is None || prev.net.send is None) ==> spec_usage(
            cur,
            prev,
            millis,
        ).net.sendkBps is None,
{
}

} // verus!
