use vstd::prelude::*;
use std::collections::VecDeque;

verus! {

use crate::MAX_LOG_LENGTH;
use crate::text::{bytes_lt, compare_names, name_bytes, NameOrder};
use crate::text::{lemma_bytes_lt_irreflexive, lemma_bytes_lt_asymmetric, lemma_bytes_lt_transitive};
use vstd::string::StringSliceAdditionalSpecFns;

/// Bounded per-container metric history: a FIFO ring buffer that holds at
/// most `MAX_LOG_LENGTH` samples.  Once full, every insertion evicts the
/// oldest sample first, so the buffer always holds the most recent samples
/// in chronological order (oldest first).
pub struct LogVec<T> {
    v: VecDeque<T>,
}

impl<T> View for LogVec<T> {
    type V = Seq<T>;

    closed spec fn view(&self) -> Seq<T> {
        self.v@
    }
}

/// One eviction-then-append step of the ring buffer, as a mathematical
/// function on the abstract sample sequence.
pub open spec fn ring_push<T>(s: Seq<T>, d: T) -> Seq<T> {
    if s.len() < MAX_LOG_LENGTH {
        s.push(d)
    } else {
        s.drop_first().push(d)
    }
}

/// The abstract contents of a ring buffer after inserting `items` in order
/// into an empty buffer.
pub open spec fn ring_contents<T>(items: Seq<T>) -> Seq<T>
    decreases items.len(),
{
    if items.len() == 0 {
        Seq::empty()
    } else {
        ring_push(ring_contents(items.drop_last()), items.last())
    }
}

impl<T> LogVec<T> {
    /// The buffer never holds more than its fixed capacity; established by
    /// `new` and preserved by `push`.
    pub open spec fn bounded(&self) -> bool {
        self@.len() <= MAX_LOG_LENGTH
    }

    /// An empty history with the full capacity already reserved.
    pub fn new() -> (r: Self)
        ensures
            r@ == Seq::<T>::empty(),
            r.bounded(),
    {
        LogVec { v: VecDeque::with_capacity(MAX_LOG_LENGTH) }
    }

    pub fn len(&self) -> (n: usize)
        ensures
            n == self@.len(),
    {
        self.v.len()
    }

    /// Appends `d`; if the buffer is at capacity the oldest sample is
    /// dropped first, so the buffer never grows past `MAX_LOG_LENGTH`.
    pub fn push(&mut self, d: T)
        requires
            old(self).bounded(),
        ensures
            final(self)@ == ring_push(old(self)@, d),
            final(self).bounded(),
    {
        if self.v.len() >= MAX_LOG_LENGTH {
            self.v.pop_front();
        }
        self.v.push_back(d);
    }

    pub fn get(&self, i: usize) -> (r: &T)
        requires
            i < self@.len(),
        ensures
            *r == self@[i as int],
    {
        &self.v[i]
    }
}

/// One container's history inside a per-metric map.
struct MapEntry<T> {
    name: String,
    series: LogVec<T>,
}

/// Per-metric-kind store: maps a container name to its bounded history.
/// Entries are kept sorted by the byte-wise order of their names, so the
/// listing of known containers is deterministic and sorted.
pub struct UsageCacheMap<T> {
    entries: Vec<MapEntry<T>>,
}

impl<T> UsageCacheMap<T> {
    /// The known container names (as their UTF-8 bytes), in store order.
    pub closed spec fn names(&self) -> Seq<Seq<u8>> {
        Seq::new(self.entries@.len(), |i: int| name_bytes(self.entries@[i].name))
    }

    /// The character views of the known container names, in store order.
    pub closed spec fn names_chars(&self) -> Seq<Seq<char>> {
        Seq::new(self.entries@.len(), |i: int| self.entries@[i].name@)
    }

    /// The history stored at position `i`.
    pub closed spec fn series_at(&self, i: int) -> Seq<T> {
        self.entries@[i].series@
    }

    pub open spec fn contains_name(&self, k: Seq<u8>) -> bool {
        self.names().contains(k)
    }

    pub open spec fn index_of(&self, k: Seq<u8>) -> int {
        choose|i: int| 0 <= i < self.names().len() && self.names()[i] == k
    }

    /// The history of the container named `k`; meaningful when
    /// `contains_name(k)` holds.
    pub open spec fn series_of(&self, k: Seq<u8>) -> Seq<T> {
        self.series_at(self.index_of(k))
    }

    /// Names strictly sorted (hence unique), every history bounded.
    pub closed spec fn wf(&self) -> bool {
        &&& forall|i: int, j: int|
            0 <= i < j < self.names().len() ==> bytes_lt(self.names()[i], self.names()[j])
        &&& forall|i: int|
            0 <= i < self.entries@.len() ==> (#[trigger] self.entries@[i].series).bounded()
    }

    /// In a well-formed store each name occurs at exactly one position.
    proof fn lemma_index_of_unique(&self, k: Seq<u8>, i: int)
        requires
            self.wf(),
            0 <= i < self.names().len(),
            self.names()[i] == k,
        ensures
            self.index_of(k) == i,
    {
        let j = self.index_of(k);
        assert(0 <= j < self.names().len() && self.names()[j] == k);
        if i < j {
            assert(bytes_lt(self.names()[i], self.names()[j]));
            lemma_bytes_lt_irreflexive(k);
        }
        if j < i {
            assert(bytes_lt(self.names()[j], self.names()[i]));
            lemma_bytes_lt_irreflexive(k);
        }
    }

    pub fn new() -> (r: Self)
        ensures
            r.wf(),
            r.names() =~= Seq::<Seq<u8>>::empty(),
    {
        let r = UsageCacheMap { entries: Vec::new() };
        proof {
            assert(r.names() =~= Seq::<Seq<u8>>::empty());
        }
        r
    }

    /// Looks a container up by name.  Unknown names yield `None`, never a
    /// silently fabricated empty history.
    pub fn get(&self, container_name: &str) -> (r: Option<&LogVec<T>>)
        requires
            self.wf(),
        ensures
            r is Some <==> self.contains_name(container_name.spec_bytes()),
            r is Some ==> r.unwrap()@ == self.series_of(container_name.spec_bytes()),
    {
        self.get_bytes(container_name.as_bytes())
    }

    /// Looks a container up by the UTF-8 bytes of its name.
    pub fn get_bytes(&self, container_name: &[u8]) -> (r: Option<&LogVec<T>>)
        requires
            self.wf(),
        ensures
            r is Some <==> self.contains_name(container_name@),
            r is Some ==> r.unwrap()@ == self.series_of(container_name@),
            r is Some ==> r.unwrap()@.len() <= MAX_LOG_LENGTH,
    {
        let ghost k = container_name@;
        let n = self.entries.len();
        let mut i: usize = 0;
        loop
            invariant
                0 <= i <= n,
                n == self.entries@.len(),
                self.wf(),
                k == container_name@,
                forall|j: int| 0 <= j < i ==> self.names()[j] != k,
            decreases n - i,
        {
            if i == n {
                proof {
                    if self.contains_name(k) {
                        let w = choose|w: int|
                            0 <= w < self.names().len() && self.names()[w] == k;
                        assert(self.names()[w] != k);
                    }
                }
                return None;
            }
            match crate::text::compare_bytes(self.entries[i].name.as_str().as_bytes(), container_name) {
                NameOrder::Same => {
                    proof {
                        assert(self.names()[i as int] == k);
                        self.lemma_index_of_unique(k, i as int);
                    }
                    return Some(&self.entries[i].series);
                },
                _ => {
                    i = i + 1;
                },
            }
        }
    }

    /// All known container names, sorted ascending by their bytes (and
    /// therefore listed deterministically, with no name twice).
    pub fn container_names(&self) -> (r: Vec<&String>)
        requires
            self.wf(),
        ensures
            r@.len() == self.names().len(),
            r@.len() == self.names_chars().len(),
            forall|i: int| 0 <= i < r@.len() ==> name_bytes(*r@[i]) == self.names()[i],
            forall|i: int| 0 <= i < r@.len() ==> (#[trigger] r@[i])@ == self.names_chars()[i],
            forall|i: int, j: int|
                0 <= i < j < r@.len() ==> bytes_lt(name_bytes(*r@[i]), name_bytes(*r@[j])),
    {
        let n = self.entries.len();
        let mut r: Vec<&String> = Vec::new();
        let mut i: usize = 0;
        while i < n
            invariant
                0 <= i <= n,
                n == self.entries@.len(),
                self.wf(),
                r@.len() == i,
                forall|j: int| 0 <= j < i ==> name_bytes(*r@[j]) == self.names()[j],
                forall|j: int| 0 <= j < i ==> (#[trigger] r@[j])@ == self.names_chars()[j],
            decreases n - i,
        {
            r.push(&self.entries[i].name);
            i = i + 1;
        }
        proof {
            assert forall|a: int, b: int| 0 <= a < b < r@.len() implies bytes_lt(
                name_bytes(*r@[a]),
                name_bytes(*r@[b]),
            ) by {
                assert(name_bytes(*r@[a]) == self.names()[a]);
                assert(name_bytes(*r@[b]) == self.names()[b]);
            }
        }
        r
    }

    /// Appends `usage` to the history of `container_name`, creating the
    /// history first if the container is new; the histories of all other
    /// containers are untouched.
    pub fn insert(&mut self, container_name: String, usage: T)
        requires
            old(self).wf(),
        ensures
            final(self).wf(),
            final(self).contains_name(name_bytes(container_name)),
            final(self).series_of(name_bytes(container_name)) == ring_push(
                if old(self).contains_name(name_bytes(container_name)) {
                    old(self).series_of(name_bytes(container_name))
                } else {
                    Seq::empty()
                },
                usage,
            ),
            forall|k2: Seq<u8>|
                k2 != name_bytes(container_name) ==> (final(self).contains_name(k2) == old(self).contains_name(k2)),
            forall|k2: Seq<u8>|
                k2 != name_bytes(container_name) && old(self).contains_name(k2) ==> final(self).series_of(k2) == old(self).series_of(k2),
    {
        let ghost k = name_bytes(container_name);
        let n = self.entries.len();
        let mut i: usize = 0;
        loop
            invariant
                0 <= i <= n,
                n == self.entries@.len(),
                self == old(self),
                self.wf(),
                k == name_bytes(container_name),
                forall|j: int| 0 <= j < i ==> bytes_lt(self.names()[j], k),
            decreases n - i,
        {
            if i == n {
                let mut series = LogVec::new();
                series.push(usage);
                self.insert_new_at(i, container_name, series);
                return;
            }
            let o = compare_names(self.entries[i].name.as_str(), container_name.as_str());
            match o {
                NameOrder::Before => {
                    i = i + 1;
                },
                NameOrder::Same => {
                    proof {
                        assert(self.names()[i as int] == k);
                        self.lemma_index_of_unique(k, i as int);
                    }
                    self.entries[i].series.push(usage);
                    proof {
                        assert(final(self).names() =~= old(self).names());
                        final(self).lemma_index_of_unique(k, i as int);
                        assert forall|k2: Seq<u8>|
                            k2 != k && old(self).contains_name(k2) implies final(self).series_of(k2) == old(self).series_of(k2) by {
                            let w = choose|w: int|
                                0 <= w < old(self).names().len() && old(self).names()[w] == k2;
                            old(self).lemma_index_of_unique(k2, w);
                            final(self).lemma_index_of_unique(k2, w);
                        }
                    }
                    return;
                },
                NameOrder::After => {
                    let mut series = LogVec::new();
                    series.push(usage);
                    self.insert_new_at(i, container_name, series);
                    return;
                },
            }
        }
    }

    /// Makes the container known without recording a sample: creates an
    /// empty history if the name is new, and leaves everything else as it
    /// was.  A registered container answers queries with an empty series
    /// rather than "not found".
    pub fn register(&mut self, container_name: String)
        requires
            old(self).wf(),
        ensures
            final(self).wf(),
            final(self).contains_name(name_bytes(container_name)),
            final(self).series_of(name_bytes(container_name)) == if old(self).contains_name(
                name_bytes(container_name),
            ) {
                old(self).series_of(name_bytes(container_name))
            } else {
                Seq::<T>::empty()
            },
            forall|k2: Seq<u8>|
                k2 != name_bytes(container_name) ==> (final(self).contains_name(k2) == old(self).contains_name(k2)),
            forall|k2: Seq<u8>|
                k2 != name_bytes(container_name) && old(self).contains_name(k2) ==> final(self).series_of(k2) == old(self).series_of(k2),
    {
        let ghost k = name_bytes(container_name);
        let n = self.entries.len();
        let mut i: usize = 0;
        loop
            invariant
                0 <= i <= n,
                n == self.entries@.len(),
                self == old(self),
                self.wf(),
                k == name_bytes(container_name),
                forall|j: int| 0 <= j < i ==> bytes_lt(self.names()[j], k),
            decreases n - i,
        {
            if i == n {
                self.insert_new_at(i, container_name, LogVec::new());
                return;
            }
            let o = compare_names(self.entries[i].name.as_str(), container_name.as_str());
            match o {
                NameOrder::Before => {
                    i = i + 1;
                },
                NameOrder::Same => {
                    proof {
                        assert(self.names()[i as int] == k);
                        self.lemma_index_of_unique(k, i as int);
                    }
                    return;
                },
                NameOrder::After => {
                    self.insert_new_at(i, container_name, LogVec::new());
                    return;
                },
            }
        }
    }

    /// Inserts a brand-new container at position `i`, which the caller has
    /// found to be the name's sorted position.
    fn insert_new_at(&mut self, i: usize, container_name: String, series: LogVec<T>)
        requires
            old(self).wf(),
            series.bounded(),
            i <= old(self).entries@.len(),
            forall|j: int| 0 <= j < i ==> bytes_lt(old(self).names()[j], name_bytes(container_name)),
            i < old(self).entries@.len() ==> bytes_lt(
                name_bytes(container_name),
                old(self).names()[i as int],
            ),
        ensures
            final(self).wf(),
            final(self).contains_name(name_bytes(container_name)),
            final(self).series_of(name_bytes(container_name)) == series@,
            !old(self).contains_name(name_bytes(container_name)),
            forall|k2: Seq<u8>|
                k2 != name_bytes(container_name) ==> (final(self).contains_name(k2) == old(self).contains_name(k2)),
            forall|k2: Seq<u8>|
                k2 != name_bytes(container_name) && old(self).contains_name(k2) ==> final(self).series_of(k2) == old(self).series_of(k2),
    {
        let ghost k = name_bytes(container_name);
        let ghost oldnames = old(self).names();
        proof {
            // The name cannot already be present: it is strictly greater
            // than everything before `i` and strictly smaller than
            // everything from `i` on.
            assert forall|j: int| 0 <= j < oldnames.len() implies oldnames[j] != k by {
                if j < i {
                    lemma_bytes_lt_asymmetric(oldnames[j], k);
                } else {
                    if i < oldnames.len() {
                        if j > i {
                            lemma_bytes_lt_transitive(k, oldnames[i as int], oldnames[j]);
                        }
                        lemma_bytes_lt_asymmetric(k, oldnames[j]);
                    }
                }
            }
            if old(self).contains_name(k) {
                let w = choose|w: int| 0 <= w < oldnames.len() && oldnames[w] == k;
                assert(oldnames[w] != k);
            }
        }
        self.entries.insert(i, MapEntry { name: container_name, series });
        proof {
            let names = self.names();
            assert(names.len() == oldnames.len() + 1);
            assert(names[i as int] == k);
            assert forall|j: int| 0 <= j < i implies names[j] == oldnames[j] by {
                assert(self.entries@[j] == old(self).entries@[j]);
            }
            assert forall|j: int| i < j < names.len() implies names[j] == oldnames[j - 1] by {
                assert(self.entries@[j] == old(self).entries@[j - 1]);
            }
            assert forall|b: int| i < b < names.len() implies bytes_lt(k, names[b]) by {
                if b - 1 > i {
                    lemma_bytes_lt_transitive(k, oldnames[i as int], oldnames[b - 1]);
                }
            }
            assert forall|a: int, b: int| 0 <= a < b < names.len() implies bytes_lt(
                names[a],
                names[b],
            ) by {
                if a < i && b > i {
                    lemma_bytes_lt_transitive(oldnames[a], k, names[b]);
                }
            }
            self.lemma_index_of_unique(k, i as int);
            assert forall|k2: Seq<u8>|
                k2 != k implies (self.contains_name(k2) == old(self).contains_name(k2)) by {
                if self.contains_name(k2) {
                    let w = choose|w: int| 0 <= w < names.len() && names[w] == k2;
                    if w < i {
                        assert(oldnames[w] == k2);
                    } else {
                        assert(w != i);
                        assert(oldnames[w - 1] == k2);
                    }
                }
                if old(self).contains_name(k2) {
                    let w = choose|w: int| 0 <= w < oldnames.len() && oldnames[w] == k2;
                    if w < i {
                        assert(names[w] == k2);
                    } else {
                        assert(names[w + 1] == k2);
                    }
                }
            }
            assert forall|k2: Seq<u8>|
                k2 != k && old(self).contains_name(k2) implies self.series_of(k2) == old(self).series_of(k2) by {
                let w = choose|w: int| 0 <= w < oldnames.len() && oldnames[w] == k2;
                old(self).lemma_index_of_unique(k2, w);
                if w < i {
                    self.lemma_index_of_unique(k2, w);
                    assert(self.entries@[w] == old(self).entries@[w]);
                } else {
                    self.lemma_index_of_unique(k2, w + 1);
                    assert(self.entries@[w + 1] == old(self).entries@[w]);
                }
            }
        }
    }
}

/// Every history is bounded by the capacity: after any sequence of inserts
/// into an empty buffer, the buffer holds exactly the last
/// `min(N, MAX_LOG_LENGTH)` inserted samples, in insertion order.
pub proof fn lemma_ring_contents_bounded<T>(items: Seq<T>)
    ensures
        ring_contents(items).len() == if items.len() <= MAX_LOG_LENGTH {
            items.len()
        } else {
            MAX_LOG_LENGTH as nat
        },
        ring_contents(items) =~= if items.len() <= MAX_LOG_LENGTH {
            items
        } else {
            items.skip(items.len() - MAX_LOG_LENGTH)
        },
    decreases items.len(),
{
    if items.len() == 0 {
    } else {
        lemma_ring_contents_bounded(items.drop_last());
        if items.len() <= MAX_LOG_LENGTH {
            assert(ring_contents(items) =~= items);
        } else {
            assert(ring_contents(items) =~= items.skip(items.len() - MAX_LOG_LENGTH));
        }
    }
}

} // verus!
