use vstd::prelude::*;

verus! {

use crate::cache::{UsageCache, entries_contain, spec_cpu_series_after, spec_memory_series_after, spec_io_series_after, spec_net_series_after};
use crate::text::name_bytes;
use crate::usage::{calc_usages, log_condition, spec_calc_entries, ContainerStats, Usages};
use vstd::arithmetic::div_mod::{lemma_fundamental_div_mod, lemma_mod_bound};

// ---------------------------------------------------------------------------
// The collector: the store's single writer.
//
// The surrounding loop (sleeping, talking to the runtime, file logging)
// lives outside this crate; everything the loop decides and computes per
// tick is here.
// ---------------------------------------------------------------------------

/// When the first tick fires: the next multiple of the tick length after
/// `now` (both in milliseconds since the epoch).  Re-deriving the target
/// from the wall clock each time keeps the schedule aligned instead of
/// accumulating drift.
pub fn initial_tick_target(now: u64, tick: u64) -> (r: u64)
    requires
        tick > 0,
        now + tick <= u64::MAX,
    ensures
        r == now + (tick - now % tick),
        r % tick == 0,
        now < r <= now + tick,
{
    proof {
        lemma_mod_bound(now as int, tick as int);
        lemma_fundamental_div_mod(now as int, tick as int);
        let q = now as int / tick as int;
        assert((now + (tick - now % tick)) == (q + 1) * (tick as int)) by (nonlinear_arith)
            requires
                now as int == (tick as int) * q + (now as int) % (tick as int),
        ;
        assert(((q + 1) * (tick as int)) % (tick as int) == 0) by (nonlinear_arith)
            requires
                tick > 0,
        ;
    }
    now + (tick - now % tick)
}

/// How long to sleep until the target instant; zero when the target has
/// already passed.
pub fn millis_to_wait(target: u64, now: u64) -> (r: u64)
    ensures
        r == if target >= now {
            target - now
        } else {
            0
        },
{
    if target >= now {
        target - now
    } else {
        0
    }
}

/// The following tick's target, one nominal interval later.
pub fn next_tick_target(timing: u64, tick: u64) -> (r: u64)
    requires
        timing + tick <= u64::MAX,
    ensures
        r == timing + tick,
{
    timing + tick
}

/// Some snapshot among `stats` belongs to container `k`.
pub open spec fn stats_contain(stats: Seq<ContainerStats>, k: Seq<u8>) -> bool {
    exists|i: int| 0 <= i < stats.len() && name_bytes((#[trigger] stats[i]).name) == k
}

proof fn lemma_stats_take_step(stats: Seq<ContainerStats>, i: int, k0: Seq<u8>)
    requires
        0 <= i < stats.len(),
        k0 == name_bytes(stats[i].name),
    ensures
        forall|k: Seq<u8>|
            #[trigger] stats_contain(stats.take(i + 1), k) == (stats_contain(stats.take(i), k) || k
                == k0),
{
    assert forall|k: Seq<u8>| #[trigger]
        stats_contain(stats.take(i + 1), k) == (stats_contain(stats.take(i), k) || k == k0) by {
        if stats_contain(stats.take(i + 1), k) {
            let w = choose|w: int|
                0 <= w < stats.take(i + 1).len() && name_bytes(
                    (#[trigger] stats.take(i + 1)[w]).name,
                ) == k;
            if w < i {
                assert(stats.take(i)[w] == stats.take(i + 1)[w]);
                assert(stats_contain(stats.take(i), k));
            } else {
                assert(stats.take(i + 1)[w] == stats[i]);
            }
        }
        if stats_contain(stats.take(i), k) {
            let w = choose|w: int|
                0 <= w < stats.take(i).len() && name_bytes((#[trigger] stats.take(i)[w]).name)
                    == k;
            assert(stats.take(i + 1)[w] == stats.take(i)[w]);
            assert(stats_contain(stats.take(i + 1), k));
        }
        if k == k0 {
            assert(stats.take(i + 1)[i] == stats[i]);
            assert(stats_contain(stats.take(i + 1), k));
        }
    }
}

/// One collection tick, after the raw snapshots have been fetched.
///
/// Every container of the current snapshot set becomes known to all four
/// metric kinds (so the query service answers an empty series, not "not
/// found", for containers seen only during warm-up).  If the warm-up gate
/// passes — both snapshot sets are nonempty with a CPU total in front —
/// and a timestamp is available, the tick's samples are derived and
/// appended to the cache, and the tick's results are returned for the
/// daily log; otherwise nothing is recorded.
pub fn process_tick(
    cache: &mut UsageCache,
    stats: &Vec<ContainerStats>,
    prev_stats: &Vec<ContainerStats>,
    millis: u16,
) -> (r: Option<Usages>)
    requires
        old(cache).wf(),
        millis >= 1000,
    ensures
        final(cache).wf(),
        // When the tick produces samples, and what they are.
        r is Some <==> (stats@.len() > 0 && prev_stats@.len() > 0
            && stats@[0].stats.cpu.total is Some && prev_stats@[0].stats.cpu.total is Some
            && stats@[0].stats.time is Some),
        r is Some ==> {
            let u = r.unwrap();
            &&& u.time == stats@[0].stats.time.unwrap()
            &&& u.millis == millis
            &&& u.usages@ == spec_calc_entries(stats@, prev_stats@, millis)
        },
        // Which containers the cache knows afterwards (each metric kind
        // alike).
        forall|k: Seq<u8>|
            #![trigger final(cache).cpu.contains_name(k)]
            final(cache).cpu.contains_name(k) == (old(cache).cpu.contains_name(k) || stats_contain(
                stats@,
                k,
            ) || (r is Some && entries_contain(r.unwrap().usages@, k))),
        forall|k: Seq<u8>|
            #![trigger final(cache).memory.contains_name(k)]
            final(cache).memory.contains_name(k) == (old(cache).memory.contains_name(k)
                || stats_contain(stats@, k) || (r is Some && entries_contain(
                r.unwrap().usages@,
                k,
            ))),
        forall|k: Seq<u8>|
            #![trigger final(cache).io.contains_name(k)]
            final(cache).io.contains_name(k) == (old(cache).io.contains_name(k) || stats_contain(
                stats@,
                k,
            ) || (r is Some && entries_contain(r.unwrap().usages@, k))),
        forall|k: Seq<u8>|
            #![trigger final(cache).net.contains_name(k)]
            final(cache).net.contains_name(k) == (old(cache).net.contains_name(k) || stats_contain(
                stats@,
                k,
            ) || (r is Some && entries_contain(r.unwrap().usages@, k))),
        // What each known container's history is afterwards.
        r is Some ==> forall|k: Seq<u8>|
            #![trigger final(cache).cpu.series_of(k)]
            final(cache).cpu.contains_name(k) ==> final(cache).cpu.series_of(k)
                == spec_cpu_series_after(
                r.unwrap().usages@,
                r.unwrap().time,
                k,
                if old(cache).cpu.contains_name(k) {
                    old(cache).cpu.series_of(k)
                } else {
                    Seq::empty()
                },
            ),
        r is Some ==> forall|k: Seq<u8>|
            #![trigger final(cache).memory.series_of(k)]
            final(cache).memory.contains_name(k) ==> final(cache).memory.series_of(k)
                == spec_memory_series_after(
                r.unwrap().usages@,
                r.unwrap().time,
                k,
                if old(cache).memory.contains_name(k) {
                    old(cache).memory.series_of(k)
                } else {
                    Seq::empty()
                },
            ),
        r is Some ==> forall|k: Seq<u8>|
            #![trigger final(cache).io.series_of(k)]
            final(cache).io.contains_name(k) ==> final(cache).io.series_of(k)
                == spec_io_series_after(
                r.unwrap().usages@,
                r.unwrap().time,
                k,
                if old(cache).io.contains_name(k) {
                    old(cache).io.series_of(k)
                } else {
                    Seq::empty()
                },
            ),
        r is Some ==> forall|k: Seq<u8>|
            #![trigger final(cache).net.series_of(k)]
            final(cache).net.contains_name(k) ==> final(cache).net.series_of(k)
                == spec_net_series_after(
                r.unwrap().usages@,
                r.unwrap().time,
                k,
                if old(cache).net.contains_name(k) {
                    old(cache).net.series_of(k)
                } else {
                    Seq::empty()
                },
            ),
        // A silent tick never alters an existing history, in any of the
        // four metric kinds.
        r is None ==> forall|k: Seq<u8>|
            #![trigger final(cache).cpu.series_of(k)]
            final(cache).cpu.contains_name(k) ==> final(cache).cpu.series_of(k) == if old(
                cache,
            ).cpu.contains_name(k) {
                old(cache).cpu.series_of(k)
            } else {
                Seq::empty()
            },
        r is None ==> forall|k: Seq<u8>|
            #![trigger final(cache).memory.series_of(k)]
            final(cache).memory.contains_name(k) ==> final(cache).memory.series_of(k) == if old(
                cache,
            ).memory.contains_name(k) {
                old(cache).memory.series_of(k)
            } else {
                Seq::empty()
            },
        r is None ==> forall|k: Seq<u8>|
            #![trigger final(cache).io.series_of(k)]
            final(cache).io.contains_name(k) ==> final(cache).io.series_of(k) == if old(
                cache,
            ).io.contains_name(k) {
                old(cache).io.series_of(k)
            } else {
                Seq::empty()
            },
        r is None ==> forall|k: Seq<u8>|
            #![trigger final(cache).net.series_of(k)]
            final(cache).net.contains_name(k) ==> final(cache).net.series_of(k) == if old(
                cache,
            ).net.contains_name(k) {
                old(cache).net.series_of(k)
            } else {
                Seq::empty()
            },
{
    let n = stats.len();
    let mut i: usize = 0;
    while i < n
        invariant
            0 <= i <= n,
            n == stats@.len(),
            cache.wf(),
            forall|k: Seq<u8>|
                #![trigger cache.cpu.contains_name(k)]
                cache.cpu.contains_name(k) == (old(cache).cpu.contains_name(k) || stats_contain(
                    stats@.take(i as int),
                    k,
                )),
            forall|k: Seq<u8>|
                #![trigger cache.memory.contains_name(k)]
                cache.memory.contains_name(k) == (old(cache).memory.contains_name(k)
                    || stats_contain(stats@.take(i as int), k)),
            forall|k: Seq<u8>|
                #![trigger cache.io.contains_name(k)]
                cache.io.contains_name(k) == (old(cache).io.contains_name(k) || stats_contain(
                    stats@.take(i as int),
                    k,
                )),
            forall|k: Seq<u8>|
                #![trigger cache.net.contains_name(k)]
                cache.net.contains_name(k) == (old(cache).net.contains_name(k) || stats_contain(
                    stats@.take(i as int),
                    k,
                )),
            forall|k: Seq<u8>|
                #![trigger cache.cpu.series_of(k)]
                cache.cpu.contains_name(k) ==> cache.cpu.series_of(k) == if old(
                    cache,
                ).cpu.contains_name(k) {
                    old(cache).cpu.series_of(k)
                } else {
                    Seq::empty()
                },
            forall|k: Seq<u8>|
                #![trigger cache.memory.series_of(k)]
                cache.memory.contains_name(k) ==> cache.memory.series_of(k) == if old(
                    cache,
                ).memory.contains_name(k) {
                    old(cache).memory.series_of(k)
                } else {
                    Seq::empty()
                },
            forall|k: Seq<u8>|
                #![trigger cache.io.series_of(k)]
                cache.io.contains_name(k) ==> cache.io.series_of(k) == if old(
                    cache,
                ).io.contains_name(k) {
                    old(cache).io.series_of(k)
                } else {
                    Seq::empty()
                },
            forall|k: Seq<u8>|
                #![trigger cache.net.series_of(k)]
                cache.net.contains_name(k) ==> cache.net.series_of(k) == if old(
                    cache,
                ).net.contains_name(k) {
                    old(cache).net.series_of(k)
                } else {
                    Seq::empty()
                },
        decreases n - i,
    {
        let ghost k0 = name_bytes(stats@[i as int].name);
        cache.register_container(stats[i].name.as_str());
        proof {
            lemma_stats_take_step(stats@, i as int, k0);
        }
        i = i + 1;
    }
    proof {
        assert(stats@.take(n as int) =~= stats@);
    }
    if !log_condition(stats, prev_stats) {
        return None;
    }
    match calc_usages(millis, stats, prev_stats) {
        Some(usages) => {
            cache.add_and_rotate(&usages);
            Some(usages)
        },
        None => None,
    }
}

} // verus!
