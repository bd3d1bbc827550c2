//! The log store: entries kept in order of index.
//!
//! The model of a log is a map from index to entry in which every entry
//! stands under its own index. Reads and truncations are stated over that
//! map; nothing depends on how the entries are laid out in memory.

use crate::types::{Entry, EntryPayload, EntryView, MembershipConfig, MembershipView, PayloadView};
use std::collections::BTreeMap;
use vstd::prelude::*;
use vstd::std_specs::btree::{axiom_increasing_seq_meaning, spec_btree_map_iter};
use vstd::std_specs::cmp::OrdSpec;
use vstd::std_specs::iter::IteratorSpec;

verus! {

broadcast use {vstd::std_specs::btree::group_btree_axioms, vstd::laws_cmp::group_laws_cmp};

/// Every entry of `log` stands under its own index.
pub open spec fn log_wf(log: Map<u64, EntryView>) -> bool {
    forall|k: u64| #[trigger] log.contains_key(k) ==> log[k].index == k
}

/// Whether `k` lies in the span that starts at `start` and ends before
/// `stop`, or never where `stop` is `None`.
pub open spec fn in_span(k: u64, start: u64, stop: Option<u64>) -> bool {
    start <= k && match stop {
        Some(stop) => k < stop,
        None => true,
    }
}

/// `out` is the part of `log` with index in `[start, stop)`, in order of index.
pub open spec fn is_range(out: Seq<EntryView>, log: Map<u64, EntryView>, start: u64, stop: u64) -> bool {
    &&& forall|i: int| 0 <= i < out.len() ==> start <= (#[trigger] out[i]).index < stop
    &&& forall|i: int| 0 <= i < out.len() ==> log.contains_key((#[trigger] out[i]).index) && log[out[i].index] == out[i]
    &&& forall|i: int, j: int| 0 <= i < j < out.len() ==> (#[trigger] out[i]).index < (#[trigger] out[j]).index
    &&& forall|k: u64| start <= k < stop && #[trigger] log.contains_key(k) ==> out.contains(log[k])
}

/// `log` without the entries whose index lies in the span.
pub open spec fn without_span(log: Map<u64, EntryView>, start: u64, stop: Option<u64>) -> Map<u64, EntryView> {
    Map::new(|k: u64| log.contains_key(k) && !in_span(k, start, stop), |k: u64| log[k])
}

/// `log` after each of `entries` was written under its index, in turn.
pub open spec fn with_entries(log: Map<u64, EntryView>, entries: Seq<EntryView>) -> Map<u64, EntryView>
    decreases entries.len(),
{
    if entries.len() == 0 {
        log
    } else {
        with_entries(log, entries.drop_last()).insert(entries.last().index, entries.last())
    }
}

/// Whether the entry names the cluster's members.
pub open spec fn carries_membership(e: EntryView) -> bool {
    e.payload is ConfigChange || e.payload is SnapshotPointer
}

/// The members that a configuration change or a snapshot pointer names.
pub open spec fn membership_of(e: EntryView) -> MembershipView {
    match e.payload {
        PayloadView::ConfigChange(cfg) => cfg,
        PayloadView::SnapshotPointer { id, membership } => membership,
        _ => arbitrary(),
    }
}

/// `k` is the greatest index of `log` whose entry names the members.
pub open spec fn is_latest_membership(log: Map<u64, EntryView>, k: u64) -> bool {
    &&& log.contains_key(k)
    &&& carries_membership(log[k])
    &&& forall|j: u64| k < j && #[trigger] log.contains_key(j) ==> !carries_membership(log[j])
}

/// The members named by the last configuration change or snapshot pointer in
/// `log`, if it holds one.
pub open spec fn latest_membership(log: Map<u64, EntryView>) -> Option<MembershipView> {
    if exists|k: u64| is_latest_membership(log, k) {
        Some(membership_of(log[choose|k: u64| is_latest_membership(log, k)]))
    } else {
        None
    }
}

/// `k` is the greatest index of `log`, no greater than `bound`, whose entry
/// is a configuration change.
pub open spec fn is_latest_config_change(log: Map<u64, EntryView>, bound: u64, k: u64) -> bool {
    &&& log.contains_key(k)
    &&& k <= bound
    &&& log[k].payload is ConfigChange
    &&& forall|j: u64| k < j <= bound && #[trigger] log.contains_key(j) ==> !(log[j].payload is ConfigChange)
}

/// The members named by the last configuration change at or before `bound`,
/// if `log` holds one.
pub open spec fn latest_config_change(log: Map<u64, EntryView>, bound: u64) -> Option<MembershipView> {
    if exists|k: u64| is_latest_config_change(log, bound, k) {
        Some(membership_of(log[choose|k: u64| is_latest_config_change(log, bound, k)]))
    } else {
        None
    }
}

/// `k` is the greatest index of `log`.
pub open spec fn is_last_index(log: Map<u64, EntryView>, k: u64) -> bool {
    &&& log.contains_key(k)
    &&& forall|j: u64| #[trigger] log.contains_key(j) ==> j <= k
}

/// The index and term of the last entry of `log`, or zeros for an empty log.
pub open spec fn last_index_and_term(log: Map<u64, EntryView>) -> (u64, u64) {
    if exists|k: u64| is_last_index(log, k) {
        let k = choose|k: u64| is_last_index(log, k);
        (log[k].index, log[k].term)
    } else {
        (0, 0)
    }
}

/// What a row of entries says.
pub open spec fn entry_views(entries: Seq<Entry>) -> Seq<EntryView> {
    entries.map_values(|e: Entry| e@)
}

/// What the stored entries say.
pub open spec fn entries_view(m: Map<u64, Entry>) -> Map<u64, EntryView> {
    Map::new(|k: u64| m.contains_key(k), |k: u64| m[k]@)
}

/// The entries of a node's log, each stored under its own index.
pub struct LogStore {
    entries: BTreeMap<u64, Entry>,
}

impl View for LogStore {
    type V = Map<u64, EntryView>;

    closed spec fn view(&self) -> Map<u64, EntryView> {
        entries_view(self.entries@)
    }
}

impl LogStore {
    /// Every entry is stored under its own index.
    #[verifier::type_invariant]
    pub closed spec fn inv(&self) -> bool {
        forall|k: u64| #[trigger] self.entries@.contains_key(k) ==> self.entries@[k].index == k
    }

    /// A store that keeps its invariant has a well-formed view.
    pub proof fn lemma_view_wf(&self)
        requires
            self.inv(),
        ensures
            log_wf(self@),
    {
    }

    /// An empty log.
    pub fn new() -> (log: Self)
        ensures
            log@ == Map::<u64, EntryView>::empty(),
    {
        LogStore { entries: BTreeMap::new() }
    }

    /// The stored entries in order of index.
    fn ordered_entries(&self) -> (out: Vec<&Entry>)
        ensures
            forall|i: int, j: int| 0 <= i < j < out.len() ==> out[i].index < out[j].index,
            forall|i: int|
                0 <= i < out.len() ==> self.entries@.contains_key(#[trigger] out[i].index)
                    && self.entries@[out[i].index] == *out[i],
            forall|k: u64|
                self.entries@.contains_key(k) ==> exists|i: int|
                    0 <= i < out.len() && #[trigger] out[i].index == k,
    {
        proof {
            use_type_invariant(self);
        }
        let mut out: Vec<&Entry> = Vec::new();
        let ghost pairs = spec_btree_map_iter(&self.entries).remaining();
        let ghost keys = pairs.map_values(|kv: (&u64, &Entry)| *kv.0);
        for kv in it: self.entries.iter()
            invariant
                out.len() == it.index(),
                it.seq() == pairs,
                forall|i: int| 0 <= i < out.len() ==> *out[i] == *it.seq()[i].1,
        {
            out.push(kv.1);
        }
        proof {
            axiom_increasing_seq_meaning(keys);
            assert forall|i: int| 0 <= i < out.len() implies self.entries@.contains_key(
                #[trigger] out[i].index,
            ) && self.entries@[out[i].index] == *out[i] by {
                assert(self.entries@.contains_key(*pairs[i].0));
            }
            assert forall|i: int, j: int| 0 <= i < j < out.len() implies out[i].index
                < out[j].index by {
                assert(self.entries@.contains_key(*pairs[i].0));
                assert(self.entries@.contains_key(*pairs[j].0));
                assert(keys[i].cmp_spec(&keys[j]) is Less);
            }
            assert forall|k: u64| self.entries@.contains_key(k) implies exists|i: int|
                0 <= i < out.len() && #[trigger] out[i].index == k by {
                let i = choose|i: int| 0 <= i < pairs.len() && pairs[i] == (&k, &self.entries@[k]);
                assert(out[i].index == k);
            }
        }
        out
    }

    /// The number of entries.
    pub fn len(&self) -> (n: usize)
        ensures
            n == self@.dom().len(),
    {
        assert(self@.dom() =~= self.entries@.dom());
        self.entries.len()
    }

    /// The entry stored at `index`, if there is one.
    pub fn get(&self, index: u64) -> (found: Option<&Entry>)
        ensures
            match found {
                Some(e) => self@.contains_key(index) && self@[index] == e@,
                None => !self@.contains_key(index),
            },
    {
        self.entries.get(&index)
    }

    /// The term of the entry stored at `index`, if there is one.
    pub fn term_at(&self, index: u64) -> (term: Option<u64>)
        ensures
            term == if self@.contains_key(index) {
                Some(self@[index].term)
            } else {
                None
            },
    {
        match self.get(index) {
            Some(e) => Some(e.term),
            None => None,
        }
    }

    /// Writes `entry` under its index, in place of what stood there.
    pub fn insert(&mut self, entry: &Entry)
        ensures
            final(self)@ == old(self)@.insert(entry.index, entry@),
    {
        proof {
            use_type_invariant(&*self);
        }
        let e = entry.clone();
        let mut entries: BTreeMap<u64, Entry> = BTreeMap::new();
        core::mem::swap(&mut self.entries, &mut entries);
        entries.insert(entry.index, e);
        core::mem::swap(&mut self.entries, &mut entries);
    }

    /// Removes every entry.
    pub fn clear(&mut self)
        ensures
            final(self)@ == Map::<u64, EntryView>::empty(),
    {
        let mut entries: BTreeMap<u64, Entry> = BTreeMap::new();
        core::mem::swap(&mut self.entries, &mut entries);
    }

    /// The entries with index in `[start, stop)`, in order of index; none
    /// where `start > stop`.
    pub fn range(&self, start: u64, stop: u64) -> (out: Vec<Entry>)
        ensures
            is_range(entry_views(out@), self@, start, stop),
    {
        proof {
            use_type_invariant(self);
        }
        let all = self.ordered_entries();
        let mut out: Vec<Entry> = Vec::new();
        let mut n: usize = 0;
        while n < all.len()
            invariant
                n <= all.len(),
                self.inv(),
                forall|i: int, j: int| 0 <= i < j < all.len() ==> all[i].index < all[j].index,
                forall|i: int|
                    0 <= i < all.len() ==> self.entries@.contains_key(#[trigger] all[i].index)
                        && self.entries@[all[i].index] == *all[i],
                forall|i: int| 0 <= i < out.len() ==> start <= (#[trigger] out[i]).index < stop,
                forall|i: int|
                    0 <= i < out.len() ==> self@.contains_key((#[trigger] out[i]).index)
                        && self@[out[i].index] == out[i]@,
                forall|i: int, j: int|
                    0 <= i < j < out.len() ==> (#[trigger] out[i]).index < (#[trigger] out[j]).index,
                forall|i: int| 0 <= i < out.len() && n < all.len() ==> (#[trigger] out[i]).index < all[n as int].index,
                forall|m: int|
                    #![trigger all[m]]
                    0 <= m < n && start <= all[m].index < stop ==> exists|i: int|
                        0 <= i < out.len() && #[trigger] out[i]@ == all[m]@,
            decreases all.len() - n,
        {
            let e = all[n];
            if start <= e.index && e.index < stop {
                let ghost before = out@;
                out.push(e.clone());
                assert forall|m: int|
                    #![trigger all[m]]
                    0 <= m < n + 1 && start <= all[m].index < stop implies exists|i: int|
                    0 <= i < out.len() && #[trigger] out[i]@ == all[m]@ by {
                    if m < n {
                        let i = choose|i: int| 0 <= i < before.len() && #[trigger] before[i]@ == all[m]@;
                        assert(out[i]@ == all[m]@);
                    } else {
                        assert(out[out.len() - 1]@ == all[m]@);
                    }
                }
            }
            n = n + 1;
        }
        proof {
            let views = entry_views(out@);
            assert forall|k: u64| start <= k < stop && #[trigger] self@.contains_key(k) implies views.contains(
                self@[k],
            ) by {
                let m = choose|m: int| 0 <= m < all.len() && #[trigger] all[m].index == k;
                let i = choose|i: int| 0 <= i < out.len() && #[trigger] out[i]@ == all[m]@;
                assert(views[i] == self@[k]);
            }
        }
        out
    }

    /// The stored indices that lie in the span.
    fn keys_in_span(&self, start: u64, stop: Option<u64>) -> (keys: Vec<u64>)
        ensures
            forall|k: u64|
                keys@.contains(k) <==> self.entries@.contains_key(k) && in_span(k, start, stop),
    {
        let all = self.ordered_entries();
        let mut keys: Vec<u64> = Vec::new();
        let mut n: usize = 0;
        while n < all.len()
            invariant
                n <= all.len(),
                forall|i: int| 0 <= i < all.len() ==> self.entries@.contains_key(#[trigger] all[i].index),
                forall|k: u64|
                    keys@.contains(k) <==> in_span(k, start, stop) && exists|m: int|
                        0 <= m < n && #[trigger] all[m].index == k,
            decreases all.len() - n,
        {
            let k: u64 = all[n].index;
            let inside = start <= k && match stop {
                Some(stop) => k < stop,
                None => true,
            };
            if inside {
                let ghost before = keys@;
                keys.push(k);
                assert forall|x: u64| keys@.contains(x) <==> in_span(x, start, stop) && exists|m: int|
                    0 <= m < n + 1 && #[trigger] all[m].index == x by {
                    if keys@.contains(x) {
                        let i = choose|i: int| 0 <= i < keys.len() && keys[i] == x;
                        if i < before.len() {
                            assert(before.contains(x));
                        } else {
                            assert(all[n as int].index == x);
                        }
                    }
                    if in_span(x, start, stop) && exists|m: int| 0 <= m < n + 1 && #[trigger] all[m].index == x {
                        let m = choose|m: int| 0 <= m < n + 1 && #[trigger] all[m].index == x;
                        if m < n {
                            let i = choose|i: int| 0 <= i < before.len() && before[i] == x;
                            assert(keys[i] == x);
                        } else {
                            assert(keys[keys.len() - 1] == x);
                        }
                    }
                }
            }
            n = n + 1;
        }
        keys
    }

    /// Removes the entries whose index is at least `start` and, where `stop`
    /// is given, below `stop`.
    pub fn remove_span(&mut self, start: u64, stop: Option<u64>)
        ensures
            final(self)@ == without_span(old(self)@, start, stop),
    {
        proof {
            use_type_invariant(&*self);
        }
        let doomed = self.keys_in_span(start, stop);
        let ghost before = self.entries@;
        let mut entries: BTreeMap<u64, Entry> = BTreeMap::new();
        core::mem::swap(&mut self.entries, &mut entries);
        let mut n: usize = 0;
        while n < doomed.len()
            invariant
                n <= doomed.len(),
                forall|k: u64|
                    #[trigger] entries@.contains_key(k) <==> before.contains_key(k) && !doomed@.subrange(
                        0,
                        n as int,
                    ).contains(k),
                forall|k: u64| #[trigger] entries@.contains_key(k) ==> entries@[k] == before[k],
            decreases doomed.len() - n,
        {
            let k: u64 = doomed[n];
            entries.remove(&k);
            n = n + 1;
            proof {
                let now = doomed@.subrange(0, n as int);
                assert forall|x: u64| #[trigger] entries@.contains_key(x) <==> before.contains_key(x)
                    && !now.contains(x) by {
                    assert(now[now.len() - 1] == k);
                }
            }
        }
        core::mem::swap(&mut self.entries, &mut entries);
        proof {
            assert(doomed@.subrange(0, doomed.len() as int) =~= doomed@);
        }
    }

    /// The index and term of the last entry, or zeros for an empty log.
    pub fn last_index_and_term(&self) -> (last: (u64, u64))
        ensures
            last == last_index_and_term(self@),
    {
        proof {
            use_type_invariant(self);
        }
        let all = self.ordered_entries();
        if all.len() == 0 {
            (0, 0)
        } else {
            let e = all[all.len() - 1];
            proof {
                let top = e.index;
                assert(is_last_index(self@, top));
            }
            (e.index, e.term)
        }
    }

    /// The members named by the last configuration change or snapshot
    /// pointer in the log, if it holds one.
    pub fn latest_membership(&self) -> (found: Option<MembershipConfig>)
        ensures
            match found {
                Some(cfg) => latest_membership(self@) == Some(cfg@),
                None => latest_membership(self@) is None,
            },
    {
        proof {
            use_type_invariant(self);
        }
        let all = self.ordered_entries();
        let mut n: usize = all.len();
        while n > 0
            invariant
                n <= all.len(),
                self.inv(),
                forall|i: int, j: int| 0 <= i < j < all.len() ==> all[i].index < all[j].index,
                forall|i: int|
                    0 <= i < all.len() ==> self.entries@.contains_key(#[trigger] all[i].index)
                        && self.entries@[all[i].index] == *all[i],
                forall|k: u64|
                    self.entries@.contains_key(k) ==> exists|i: int|
                        0 <= i < all.len() && #[trigger] all[i].index == k,
                forall|i: int| n <= i < all.len() ==> !carries_membership((#[trigger] all[i])@),
            decreases n,
        {
            n = n - 1;
            let e = all[n];
            let hit = match &e.payload {
                EntryPayload::ConfigChange(cfg) => Some(cfg.clone()),
                EntryPayload::SnapshotPointer { id, membership } => Some(membership.clone()),
                _ => None,
            };
            if let Some(cfg) = hit {
                proof {
                    let top = e.index;
                    assert(is_latest_membership(self@, top));
                }
                return Some(cfg);
            }
        }
        None
    }

    /// The members named by the last configuration change at or before
    /// `bound`, if the log holds one.
    pub fn latest_config_change(&self, bound: u64) -> (found: Option<MembershipConfig>)
        ensures
            match found {
                Some(cfg) => latest_config_change(self@, bound) == Some(cfg@),
                None => latest_config_change(self@, bound) is None,
            },
    {
        proof {
            use_type_invariant(self);
        }
        let all = self.ordered_entries();
        let mut n: usize = all.len();
        while n > 0
            invariant
                n <= all.len(),
                self.inv(),
                forall|i: int, j: int| 0 <= i < j < all.len() ==> all[i].index < all[j].index,
                forall|i: int|
                    0 <= i < all.len() ==> self.entries@.contains_key(#[trigger] all[i].index)
                        && self.entries@[all[i].index] == *all[i],
                forall|k: u64|
                    self.entries@.contains_key(k) ==> exists|i: int|
                        0 <= i < all.len() && #[trigger] all[i].index == k,
                forall|i: int|
                    n <= i < all.len() ==> (#[trigger] all[i]).index > bound || !(all[i]@.payload is ConfigChange),
            decreases n,
        {
            n = n - 1;
            let e = all[n];
            if e.index <= bound {
                if let EntryPayload::ConfigChange(cfg) = &e.payload {
                    proof {
                        let top = e.index;
                        assert(is_latest_config_change(self@, bound, top));
                    }
                    return Some(cfg.clone());
                }
            }
        }
        None
    }
}

} // verus!
