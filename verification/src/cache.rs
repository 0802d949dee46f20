//! The snapshot cache: at most one entry per station query, never
//! evicted. A repeat lookup refreshes only the entry's arrivals; the
//! grouping and geometry stay frozen at creation time.

use vstd::prelude::*;

use crate::model::Arrival;
use crate::order::str_eq;
use crate::snapshot::StopTimetable;

verus! {

/// Process-lifetime cache of assembled snapshots, keyed by the exact
/// station-name string as submitted.
pub struct StopCache {
    entries: Vec<(String, StopTimetable)>,
}

impl StopCache {
    /// The cached station names, in insertion order.
    pub closed spec fn keys(self) -> Seq<Seq<char>> {
        self.entries@.map_values(|e: (String, StopTimetable)| e.0@)
    }

    /// Well-formed: no station name is cached twice.
    pub open spec fn wf(self) -> bool {
        forall|i: int, j: int|
            0 <= i < j < self.keys().len() ==> self.keys()[i] != self.keys()[j]
    }

    /// Whether a snapshot is cached under `name`.
    pub open spec fn spec_contains(self, name: Seq<char>) -> bool {
        self.keys().contains(name)
    }

    /// The position of `name` among the entries.
    pub open spec fn index_of(self, name: Seq<char>) -> int {
        choose|i: int| 0 <= i < self.keys().len() && self.keys()[i] == name
    }

    /// The snapshot cached under `name`.
    pub closed spec fn entry(self, name: Seq<char>) -> StopTimetable {
        self.entries@[self.index_of(name)].1
    }

    /// In a well-formed cache the position of a key is the one place
    /// where it occurs.
    proof fn lemma_key_at(self, name: Seq<char>, i: int)
        requires
            self.wf(),
            0 <= i < self.keys().len(),
            self.keys()[i] == name,
        ensures
            self.index_of(name) == i,
            self.spec_contains(name),
            self.entry(name) == self.entries@[i].1,
    {
        let j = self.index_of(name);
        assert(0 <= j < self.keys().len() && self.keys()[j] == name);
    }

    /// An empty cache.
    pub fn new() -> (r: StopCache)
        ensures
            r.wf(),
            r.keys().len() == 0,
    {
        StopCache { entries: Vec::new() }
    }

    /// Whether a snapshot is cached under `name`.
    pub fn contains(&self, name: &str) -> (r: bool)
        ensures
            r == self.spec_contains(name@),
    {
        let mut i: usize = 0;
        while i < self.entries.len()
            invariant
                i <= self.entries.len(),
                forall|j: int| 0 <= j < i ==> self.keys()[j] != name@,
            decreases self.entries.len() - i,
        {
            if str_eq(self.entries[i].0.as_str(), name) {
                proof {
                    assert(self.keys()[i as int] == name@);
                }
                return true;
            }
            i = i + 1;
        }
        proof {
            if self.spec_contains(name@) {
                let j = choose|j: int|
                    0 <= j < self.keys().len() && self.keys()[j] == name@;
                assert(self.keys()[j] != name@);
            }
        }
        false
    }

    /// The snapshot cached under `name`, if any.
    pub fn lookup(&self, name: &str) -> (r: Option<&StopTimetable>)
        requires
            self.wf(),
        ensures
            r matches Some(snap) ==> self.spec_contains(name@) && *snap == self.entry(name@),
            r is None ==> !self.spec_contains(name@),
    {
        let mut i: usize = 0;
        while i < self.entries.len()
            invariant
                self.wf(),
                i <= self.entries.len(),
                forall|j: int| 0 <= j < i ==> self.keys()[j] != name@,
            decreases self.entries.len() - i,
        {
            if str_eq(self.entries[i].0.as_str(), name) {
                proof {
                    self.lemma_key_at(name@, i as int);
                }
                return Some(&self.entries[i].1);
            }
            i = i + 1;
        }
        proof {
            if self.spec_contains(name@) {
                let j = choose|j: int|
                    0 <= j < self.keys().len() && self.keys()[j] == name@;
                assert(self.keys()[j] != name@);
            }
        }
        None
    }

    /// Caches a snapshot under a station name not cached before. Every
    /// other entry stays as it was.
    pub fn insert(&mut self, name: String, snap: StopTimetable)
        requires
            old(self).wf(),
            !old(self).spec_contains(name@),
        ensures
            final(self).wf(),
            final(self).keys() == old(self).keys().push(name@),
            final(self).spec_contains(name@),
            final(self).entry(name@) == snap,
            forall|k: Seq<char>|
                old(self).spec_contains(k) ==> #[trigger] final(self).spec_contains(k)
                    && final(self).entry(k) == old(self).entry(k),
    {
        let ghost old_self = *self;
        let ghost nv = name@;
        self.entries.push((name, snap));
        proof {
            assert(self.keys() =~= old_self.keys().push(nv));
            assert forall|i: int, j: int|
                0 <= i < j < self.keys().len() implies self.keys()[i] != self.keys()[j] by {
                if j == self.keys().len() - 1 {
                    assert(self.keys()[i] == old_self.keys()[i]);
                    if self.keys()[i] == nv {
                        assert(old_self.keys().contains(nv));
                    }
                }
            }
            self.lemma_key_at(nv, self.keys().len() - 1);
            assert forall|k: Seq<char>|
                old_self.spec_contains(k) implies #[trigger] self.spec_contains(k) && self.entry(
                k,
            ) == old_self.entry(k) by {
                let i = choose|i: int|
                    0 <= i < old_self.keys().len() && old_self.keys()[i] == k;
                old_self.lemma_key_at(k, i);
                assert(self.keys()[i] == k);
                self.lemma_key_at(k, i);
            }
        }
    }

    /// Replaces only the arrivals of the snapshot cached under `name`.
    /// The cached stop, grouping, live maps and geometry — and every
    /// other entry — stay exactly as they were.
    pub fn refresh_arrivals(&mut self, name: &str, arrivals: Vec<Arrival>)
        requires
            old(self).wf(),
            old(self).spec_contains(name@),
        ensures
            final(self).wf(),
            final(self).keys() == old(self).keys(),
            final(self).entry(name@).arrivals == arrivals,
            final(self).entry(name@).stop_point == old(self).entry(name@).stop_point,
            final(self).entry(name@).unique_lines == old(self).entry(name@).unique_lines,
            final(self).entry(name@).unique_platforms == old(self).entry(name@).unique_platforms,
            final(self).entry(name@).live_maps == old(self).entry(name@).live_maps,
            final(self).entry(name@).station_nodes == old(self).entry(name@).station_nodes,
            forall|k: Seq<char>|
                #[trigger] final(self).spec_contains(k) == old(self).spec_contains(k),
            forall|k: Seq<char>|
                old(self).spec_contains(k) && k != name@ ==> #[trigger] final(self).entry(k)
                    == old(self).entry(k),
    {
        let ghost old_self = *self;
        let mut i: usize = 0;
        let n = self.entries.len();
        while i < n
            invariant
                *self == old_self,
                old_self == *old(self),
                old_self.wf(),
                old_self.spec_contains(name@),
                n == self.entries.len(),
                i <= n,
                forall|j: int| 0 <= j < i ==> self.keys()[j] != name@,
            decreases n - i,
        {
            if str_eq(self.entries[i].0.as_str(), name) {
                proof {
                    old_self.lemma_key_at(name@, i as int);
                }
                let mut e = self.entries.remove(i);
                e.1.arrivals = arrivals;
                self.entries.insert(i, e);
                proof {
                    assert(self.entries@ =~= old_self.entries@.update(i as int, e));
                    assert(self.keys() =~= old_self.keys());
                    assert(self.wf());
                    self.lemma_key_at(name@, i as int);
                    assert forall|k: Seq<char>| #[trigger] self.spec_contains(k)
                        == old_self.spec_contains(k) by {}
                    assert forall|k: Seq<char>|
                        old_self.spec_contains(k) && k != name@ implies #[trigger] self.entry(k)
                        == old_self.entry(k) by {
                        let m = choose|m: int|
                            0 <= m < old_self.keys().len() && old_self.keys()[m] == k;
                        old_self.lemma_key_at(k, m);
                        self.lemma_key_at(k, m);
                        assert(m != i);
                    }
                }
                return ;
            }
            i = i + 1;
        }
        proof {
            let j = choose|j: int|
                0 <= j < old_self.keys().len() && old_self.keys()[j] == name@;
            assert(self.keys()[j] != name@);
        }
    }
}

} // verus!
