use vstd::prelude::*;

verus! {

use crate::store::{UsageCacheMap, ring_push};
use crate::text::name_bytes;
use crate::usage::{ContainerUsage, Usages};
use vstd::string::StringSliceAdditionalSpecFns;

// ---------------------------------------------------------------------------
// The shared per-metric-kind sample cache.
//
// One timestamped sample type per metric kind; each kind keeps its own
// container-to-history map, and a container known to one kind need not be
// known to the others.
// ---------------------------------------------------------------------------

#[derive(Debug, Clone, PartialEq)]
pub struct TimedCpuUsage {
    pub time: String,
    /// CPU load, hundredths of a percent.
    pub percentage: Option<u64>,
}

#[derive(Debug, Clone, PartialEq)]
pub struct TimedMemoryUsage {
    pub time: String,
    /// Used fraction of the limit, hundredths of a percent.
    pub percentage: Option<u64>,
}

#[derive(Debug, Clone, PartialEq)]
#[allow(non_snake_case)]
pub struct TimedIoUsage {
    pub time: String,
    pub readkBps: Option<u32>,
    pub writekBps: Option<u32>,
}

#[derive(Debug, Clone, PartialEq)]
#[allow(non_snake_case)]
pub struct TimedNetUsage {
    pub time: String,
    pub recvkBps: Option<u32>,
    pub sendkBps: Option<u32>,
}

/// The samples a tick's result contributes to each metric kind's history.
pub open spec fn spec_cpu_sample(time: String, e: ContainerUsage) -> TimedCpuUsage {
    TimedCpuUsage { time, percentage: e.usage.cpu.percentage }
}

pub open spec fn spec_memory_sample(time: String, e: ContainerUsage) -> TimedMemoryUsage {
    TimedMemoryUsage { time, percentage: e.usage.memory.percentage }
}

pub open spec fn spec_io_sample(time: String, e: ContainerUsage) -> TimedIoUsage {
    TimedIoUsage { time, readkBps: e.usage.io.readkBps, writekBps: e.usage.io.writekBps }
}

pub open spec fn spec_net_sample(time: String, e: ContainerUsage) -> TimedNetUsage {
    TimedNetUsage { time, recvkBps: e.usage.net.recvkBps, sendkBps: e.usage.net.sendkBps }
}

/// The history of container `k` after the tick's entries have been
/// applied in order on top of `init`: every entry for `k` contributes one
/// ring-buffer push of its sample.
pub open spec fn spec_cpu_series_after(
    entries: Seq<ContainerUsage>,
    time: String,
    k: Seq<u8>,
    init: Seq<TimedCpuUsage>,
) -> Seq<TimedCpuUsage>
    decreases entries.len(),
{
    if entries.len() == 0 {
        init
    } else {
        let prefix = spec_cpu_series_after(entries.drop_last(), time, k, init);
        if name_bytes(entries.last().name) == k {
            ring_push(prefix, spec_cpu_sample(time, entries.last()))
        } else {
            prefix
        }
    }
}

pub open spec fn spec_memory_series_after(
    entries: Seq<ContainerUsage>,
    time: String,
    k: Seq<u8>,
    init: Seq<TimedMemoryUsage>,
) -> Seq<TimedMemoryUsage>
    decreases entries.len(),
{
    if entries.len() == 0 {
        init
    } else {
        let prefix = spec_memory_series_after(entries.drop_last(), time, k, init);
        if name_bytes(entries.last().name) == k {
            ring_push(prefix, spec_memory_sample(time, entries.last()))
        } else {
            prefix
        }
    }
}

pub open spec fn spec_io_series_after(
    entries: Seq<ContainerUsage>,
    time: String,
    k: Seq<u8>,
    init: Seq<TimedIoUsage>,
) -> Seq<TimedIoUsage>
    decreases entries.len(),
{
    if entries.len() == 0 {
        init
    } else {
        let prefix = spec_io_series_after(entries.drop_last(), time, k, init);
        if name_bytes(entries.last().name) == k {
            ring_push(prefix, spec_io_sample(time, entries.last()))
        } else {
            prefix
        }
    }
}

pub open spec fn spec_net_series_after(
    entries: Seq<ContainerUsage>,
    time: String,
    k: Seq<u8>,
    init: Seq<TimedNetUsage>,
) -> Seq<TimedNetUsage>
    decreases entries.len(),
{
    if entries.len() == 0 {
        init
    } else {
        let prefix = spec_net_series_after(entries.drop_last(), time, k, init);
        if name_bytes(entries.last().name) == k {
            ring_push(prefix, spec_net_sample(time, entries.last()))
        } else {
            prefix
        }
    }
}

/// Some entry among `entries` belongs to container `k`.
pub open spec fn entries_contain(entries: Seq<ContainerUsage>, k: Seq<u8>) -> bool {
    exists|i: int| 0 <= i < entries.len() && name_bytes((#[trigger] entries[i]).name) == k
}

/// All four per-metric maps.
pub struct UsageCache {
    pub cpu: UsageCacheMap<TimedCpuUsage>,
    pub memory: UsageCacheMap<TimedMemoryUsage>,
    pub io: UsageCacheMap<TimedIoUsage>,
    pub net: UsageCacheMap<TimedNetUsage>,
}

impl UsageCache {
    pub open spec fn wf(&self) -> bool {
        self.cpu.wf() && self.memory.wf() && self.io.wf() && self.net.wf()
    }

    pub fn new() -> (r: Self)
        ensures
            r.wf(),
            r.cpu.names() =~= Seq::<Seq<u8>>::empty(),
            r.memory.names() =~= Seq::<Seq<u8>>::empty(),
            r.io.names() =~= Seq::<Seq<u8>>::empty(),
            r.net.names() =~= Seq::<Seq<u8>>::empty(),
    {
        UsageCache {
            cpu: UsageCacheMap::new(),
            memory: UsageCacheMap::new(),
            io: UsageCacheMap::new(),
            net: UsageCacheMap::new(),
        }
    }

    /// Makes a container known to all four metric kinds without recording
    /// any sample, so a query for it answers with an empty series rather
    /// than "not found".
    pub fn register_container(&mut self, name: &str)
        requires
            old(self).wf(),
        ensures
            final(self).wf(),
            final(self).cpu.contains_name(name.spec_bytes()),
            final(self).memory.contains_name(name.spec_bytes()),
            final(self).io.contains_name(name.spec_bytes()),
            final(self).net.contains_name(name.spec_bytes()),
            final(self).cpu.series_of(name.spec_bytes()) == if old(self).cpu.contains_name(
                name.spec_bytes(),
            ) {
                old(self).cpu.series_of(name.spec_bytes())
            } else {
                Seq::<TimedCpuUsage>::empty()
            },
            final(self).memory.series_of(name.spec_bytes()) == if old(self).memory.contains_name(
                name.spec_bytes(),
            ) {
                old(self).memory.series_of(name.spec_bytes())
            } else {
                Seq::<TimedMemoryUsage>::empty()
            },
            final(self).io.series_of(name.spec_bytes()) == if old(self).io.contains_name(
                name.spec_bytes(),
            ) {
                old(self).io.series_of(name.spec_bytes())
            } else {
                Seq::<TimedIoUsage>::empty()
            },
            final(self).net.series_of(name.spec_bytes()) == if old(self).net.contains_name(
                name.spec_bytes(),
            ) {
                old(self).net.series_of(name.spec_bytes())
            } else {
                Seq::<TimedNetUsage>::empty()
            },
            forall|k2: Seq<u8>|
                k2 != name.spec_bytes() ==> (final(self).cpu.contains_name(k2) == old(self).cpu.contains_name(k2) && final(self).memory.contains_name(k2) == old(self).memory.contains_name(k2) && final(self).io.contains_name(k2) == old(self).io.contains_name(k2) && final(self).net.contains_name(k2) == old(self).net.contains_name(k2)),
            forall|k2: Seq<u8>|
                k2 != name.spec_bytes() && old(self).cpu.contains_name(k2) ==> final(self).cpu.series_of(k2) == old(self).cpu.series_of(k2),
            forall|k2: Seq<u8>|
                k2 != name.spec_bytes() && old(self).memory.contains_name(k2) ==> final(self).memory.series_of(k2) == old(self).memory.series_of(k2),
            forall|k2: Seq<u8>|
                k2 != name.spec_bytes() && old(self).io.contains_name(k2) ==> final(self).io.series_of(k2) == old(self).io.series_of(k2),
            forall|k2: Seq<u8>|
                k2 != name.spec_bytes() && old(self).net.contains_name(k2) ==> final(self).net.series_of(k2) == old(self).net.series_of(k2),
    {
        let owned: String = name.to_owned();
        proof {
            assert(name_bytes(owned) == name.spec_bytes());
        }
        self.cpu.register(owned.clone());
        self.memory.register(owned.clone());
        self.io.register(owned.clone());
        self.net.register(owned);
    }

    /// Applies one tick's results: for every container the tick produced a
    /// sample set for, appends one timestamped sample per metric kind to
    /// that container's history (evicting the oldest sample where a
    /// history is full), creating histories for new containers.  No other
    /// container's history changes.
    pub fn add_and_rotate(&mut self, usages: &Usages)
        requires
            old(self).wf(),
        ensures
            final(self).wf(),
            forall|k: Seq<u8>|
                #![trigger final(self).cpu.contains_name(k)]
                final(self).cpu.contains_name(k) == (old(self).cpu.contains_name(k)
                    || entries_contain(usages.usages@, k)),
            forall|k: Seq<u8>|
                #![trigger final(self).memory.contains_name(k)]
                final(self).memory.contains_name(k) == (old(self).memory.contains_name(k)
                    || entries_contain(usages.usages@, k)),
            forall|k: Seq<u8>|
                #![trigger final(self).io.contains_name(k)]
                final(self).io.contains_name(k) == (old(self).io.contains_name(k)
                    || entries_contain(usages.usages@, k)),
            forall|k: Seq<u8>|
                #![trigger final(self).net.contains_name(k)]
                final(self).net.contains_name(k) == (old(self).net.contains_name(k)
                    || entries_contain(usages.usages@, k)),
            forall|k: Seq<u8>|
                #![trigger final(self).cpu.series_of(k)]
                final(self).cpu.contains_name(k) ==> final(self).cpu.series_of(k)
                    == spec_cpu_series_after(
                    usages.usages@,
                    usages.time,
                    k,
                    if old(self).cpu.contains_name(k) {
                        old(self).cpu.series_of(k)
                    } else {
                        Seq::empty()
                    },
                ),
            forall|k: Seq<u8>|
                #![trigger final(self).memory.series_of(k)]
                final(self).memory.contains_name(k) ==> final(self).memory.series_of(k)
                    == spec_memory_series_after(
                    usages.usages@,
                    usages.time,
                    k,
                    if old(self).memory.contains_name(k) {
                        old(self).memory.series_of(k)
                    } else {
                        Seq::empty()
                    },
                ),
            forall|k: Seq<u8>|
                #![trigger final(self).io.series_of(k)]
                final(self).io.contains_name(k) ==> final(self).io.series_of(k)
                    == spec_io_series_after(
                    usages.usages@,
                    usages.time,
                    k,
                    if old(self).io.contains_name(k) {
                        old(self).io.series_of(k)
                    } else {
                        Seq::empty()
                    },
                ),
            forall|k: Seq<u8>|
                #![trigger final(self).net.series_of(k)]
                final(self).net.contains_name(k) ==> final(self).net.series_of(k)
                    == spec_net_series_after(
                    usages.usages@,
                    usages.time,
                    k,
                    if old(self).net.contains_name(k) {
                        old(self).net.series_of(k)
                    } else {
                        Seq::empty()
                    },
                ),
    {
        let ghost entries = usages.usages@;
        let ghost time = usages.time;
        let n = usages.usages.len();
        let mut i: usize = 0;
        while i < n
            invariant
                0 <= i <= n,
                n == entries.len(),
                entries == usages.usages@,
                time == usages.time,
                self.wf(),
                forall|k: Seq<u8>|
                    #![trigger self.cpu.contains_name(k)]
                    self.cpu.contains_name(k) == (old(self).cpu.contains_name(k)
                        || entries_contain(entries.take(i as int), k)),
                forall|k: Seq<u8>|
                    #![trigger self.memory.contains_name(k)]
                    self.memory.contains_name(k) == (old(self).memory.contains_name(k)
                        || entries_contain(entries.take(i as int), k)),
                forall|k: Seq<u8>|
                    #![trigger self.io.contains_name(k)]
                    self.io.contains_name(k) == (old(self).io.contains_name(k)
                        || entries_contain(entries.take(i as int), k)),
                forall|k: Seq<u8>|
                    #![trigger self.net.contains_name(k)]
                    self.net.contains_name(k) == (old(self).net.contains_name(k)
                        || entries_contain(entries.take(i as int), k)),
                forall|k: Seq<u8>|
                    #![trigger self.cpu.series_of(k)]
                    self.cpu.contains_name(k) ==> self.cpu.series_of(k) == spec_cpu_series_after(
                        entries.take(i as int),
                        time,
                        k,
                        if old(self).cpu.contains_name(k) {
                            old(self).cpu.series_of(k)
                        } else {
                            Seq::empty()
                        },
                    ),
                forall|k: Seq<u8>|
                    #![trigger self.memory.series_of(k)]
                    self.memory.contains_name(k) ==> self.memory.series_of(k)
                        == spec_memory_series_after(
                        entries.take(i as int),
                        time,
                        k,
                        if old(self).memory.contains_name(k) {
                            old(self).memory.series_of(k)
                        } else {
                            Seq::empty()
                        },
                    ),
                forall|k: Seq<u8>|
                    #![trigger self.io.series_of(k)]
                    self.io.contains_name(k) ==> self.io.series_of(k) == spec_io_series_after(
                        entries.take(i as int),
                        time,
                        k,
                        if old(self).io.contains_name(k) {
                            old(self).io.series_of(k)
                        } else {
                            Seq::empty()
                        },
                    ),
                forall|k: Seq<u8>|
                    #![trigger self.net.series_of(k)]
                    self.net.contains_name(k) ==> self.net.series_of(k) == spec_net_series_after(
                        entries.take(i as int),
                        time,
                        k,
                        if old(self).net.contains_name(k) {
                            old(self).net.series_of(k)
                        } else {
                            Seq::empty()
                        },
                    ),
            decreases n - i,
        {
            proof {
                assert(entries.take(i + 1).drop_last() =~= entries.take(i as int));
                assert(entries.take(i + 1).last() == entries[i as int]);
            }
            let e = &usages.usages[i];
            let ghost k0 = name_bytes(e.name);
            let ghost pre = *self;
            let cpu_sample = TimedCpuUsage {
                time: usages.time.clone(),
                percentage: e.usage.cpu.percentage,
            };
            let memory_sample = TimedMemoryUsage {
                time: usages.time.clone(),
                percentage: e.usage.memory.percentage,
            };
            let io_sample = TimedIoUsage {
                time: usages.time.clone(),
                readkBps: e.usage.io.readkBps,
                writekBps: e.usage.io.writekBps,
            };
            let net_sample = TimedNetUsage {
                time: usages.time.clone(),
                recvkBps: e.usage.net.recvkBps,
                sendkBps: e.usage.net.sendkBps,
            };
            self.cpu.insert(e.name.clone(), cpu_sample);
            self.memory.insert(e.name.clone(), memory_sample);
            self.io.insert(e.name.clone(), io_sample);
            self.net.insert(e.name.clone(), net_sample);
            proof {
                lemma_take_step_contains(entries, i as int, k0);
                if !pre.cpu.contains_name(k0) {
                    lemma_cpu_fold_absent(
                        entries.take(i as int),
                        time,
                        k0,
                        Seq::empty(),
                    );
                }
                if !pre.memory.contains_name(k0) {
                    lemma_memory_fold_absent(
                        entries.take(i as int),
                        time,
                        k0,
                        Seq::empty(),
                    );
                }
                if !pre.io.contains_name(k0) {
                    lemma_io_fold_absent(
                        entries.take(i as int),
                        time,
                        k0,
                        Seq::empty(),
                    );
                }
                if !pre.net.contains_name(k0) {
                    lemma_net_fold_absent(
                        entries.take(i as int),
                        time,
                        k0,
                        Seq::empty(),
                    );
                }
            }
            i = i + 1;
        }
        proof {
            assert(entries.take(n as int) =~= entries);
        }
    }
}


/// A container with no entry in the tick keeps exactly its prior history.
proof fn lemma_cpu_fold_absent(
    entries: Seq<ContainerUsage>,
    time: String,
    k: Seq<u8>,
    init: Seq<TimedCpuUsage>,
)
    requires
        !entries_contain(entries, k),
    ensures
        spec_cpu_series_after(entries, time, k, init) == init,
    decreases entries.len(),
{
    if entries.len() > 0 {
        assert(entries[entries.len() - 1] == entries.last());
        assert(name_bytes(entries.last().name) != k);
        assert(!entries_contain(entries.drop_last(), k)) by {
            if entries_contain(entries.drop_last(), k) {
                let w = choose|w: int|
                    0 <= w < entries.drop_last().len() && name_bytes(
                        (#[trigger] entries.drop_last()[w]).name,
                    ) == k;
                assert(entries[w] == entries.drop_last()[w]);
            }
        }
        lemma_cpu_fold_absent(entries.drop_last(), time, k, init);
    }
}

proof fn lemma_memory_fold_absent(
    entries: Seq<ContainerUsage>,
    time: String,
    k: Seq<u8>,
    init: Seq<TimedMemoryUsage>,
)
    requires
        !entries_contain(entries, k),
    ensures
        spec_memory_series_after(entries, time, k, init) == init,
    decreases entries.len(),
{
    if entries.len() > 0 {
        assert(entries[entries.len() - 1] == entries.last());
        assert(name_bytes(entries.last().name) != k);
        assert(!entries_contain(entries.drop_last(), k)) by {
            if entries_contain(entries.drop_last(), k) {
                let w = choose|w: int|
                    0 <= w < entries.drop_last().len() && name_bytes(
                        (#[trigger] entries.drop_last()[w]).name,
                    ) == k;
                assert(entries[w] == entries.drop_last()[w]);
            }
        }
        lemma_memory_fold_absent(entries.drop_last(), time, k, init);
    }
}

proof fn lemma_io_fold_absent(
    entries: Seq<ContainerUsage>,
    time: String,
    k: Seq<u8>,
    init: Seq<TimedIoUsage>,
)
    requires
        !entries_contain(entries, k),
    ensures
        spec_io_series_after(entries, time, k, init) == init,
    decreases entries.len(),
{
    if entries.len() > 0 {
        assert(entries[entries.len() - 1] == entries.last());
        assert(name_bytes(entries.last().name) != k);
        assert(!entries_contain(entries.drop_last(), k)) by {
            if entries_contain(entries.drop_last(), k) {
                let w = choose|w: int|
                    0 <= w < entries.drop_last().len() && name_bytes(
                        (#[trigger] entries.drop_last()[w]).name,
                    ) == k;
                assert(entries[w] == entries.drop_last()[w]);
            }
        }
        lemma_io_fold_absent(entries.drop_last(), time, k, init);
    }
}

proof fn lemma_net_fold_absent(
    entries: Seq<ContainerUsage>,
    time: String,
    k: Seq<u8>,
    init: Seq<TimedNetUsage>,
)
    requires
        !entries_contain(entries, k),
    ensures
        spec_net_series_after(entries, time, k, init) == init,
    decreases entries.len(),
{
    if entries.len() > 0 {
        assert(entries[entries.len() - 1] == entries.last());
        assert(name_bytes(entries.last().name) != k);
        assert(!entries_contain(entries.drop_last(), k)) by {
            if entries_contain(entries.drop_last(), k) {
                let w = choose|w: int|
                    0 <= w < entries.drop_last().len() && name_bytes(
                        (#[trigger] entries.drop_last()[w]).name,
                    ) == k;
                assert(entries[w] == entries.drop_last()[w]);
            }
        }
        lemma_net_fold_absent(entries.drop_last(), time, k, init);
    }
}

/// Extending the processed prefix by one entry makes exactly that entry's
/// container newly covered.
proof fn lemma_take_step_contains(entries: Seq<ContainerUsage>, i: int, k0: Seq<u8>)
    requires
        0 <= i < entries.len(),
        k0 == name_bytes(entries[i].name),
    ensures
        forall|k: Seq<u8>|
            #[trigger] entries_contain(entries.take(i + 1), k) == (entries_contain(
                entries.take(i),
                k,
            ) || k == k0),
{
    assert forall|k: Seq<u8>| #[trigger]
        entries_contain(entries.take(i + 1), k) == (entries_contain(entries.take(i), k) || k
            == k0) by {
        if entries_contain(entries.take(i + 1), k) {
            let w = choose|w: int|
                0 <= w < entries.take(i + 1).len() && name_bytes(
                    (#[trigger] entries.take(i + 1)[w]).name,
                ) == k;
            if w < i {
                assert(entries.take(i)[w] == entries.take(i + 1)[w]);
                assert(entries_contain(entries.take(i), k));
            } else {
                assert(entries.take(i + 1)[w] == entries[i]);
                assert(k == k0);
            }
        }
        if entries_contain(entries.take(i), k) {
            let w = choose|w: int|
                0 <= w < entries.take(i).len() && name_bytes(
                    (#[trigger] entries.take(i)[w]).name,
                ) == k;
            assert(entries.take(i + 1)[w] == entries.take(i)[w]);
            assert(entries_contain(entries.take(i + 1), k));
        }
        if k == k0 {
            assert(entries.take(i + 1)[i] == entries[i]);
            assert(entries_contain(entries.take(i + 1), k));
        }
    }
}

} // verus!
