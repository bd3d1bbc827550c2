//! The store: log, hard state, state machine and current snapshot in one
//! object, with the operations that a consensus engine asks of its storage.

use crate::error::{MetaError, MetaErrorView};
use crate::log::{
    entry_views, is_range, last_index_and_term, latest_config_change, latest_membership, log_wf,
    with_entries, without_span, LogStore,
};
use crate::state_machine::{MemStoreStateMachine, StateMachineView};
use crate::types::{
    ClientRequest, ClientRequestView, ClientResponse, Entry, EntryView, HardState, InitialState,
    InitialStateView, MemStoreSnapshot, MembershipConfig, MembershipView, SnapshotView,
};
use vstd::prelude::*;

verus! {

/// The entries of `log` that outlive the installation of a snapshot: those
/// with an index above `delete_through`, or none where it is `None`.
pub open spec fn kept_after(log: Map<u64, EntryView>, delete_through: Option<u64>) -> Map<u64, EntryView> {
    Map::new(
        |k: u64|
            log.contains_key(k) && match delete_through {
                Some(through) => k > through,
                None => false,
            },
        |k: u64| log[k],
    )
}

/// What requests handed over in a batch say.
pub open spec fn batch_view(entries: Seq<(&u64, &ClientRequest)>) -> Seq<(u64, ClientRequestView)> {
    entries.map_values(|p: (&u64, &ClientRequest)| (*p.0, p.1@))
}

/// What a store holds.
#[verifier::ext_equal]
pub struct MemStoreView {
    /// The id of the node that the store belongs to.
    pub id: u64,
    /// The log, by index.
    pub log: Map<u64, EntryView>,
    /// The state machine.
    pub sm: StateMachineView,
    /// The saved hard state, if any was saved.
    pub hs: Option<HardState>,
    /// The current snapshot, if one was taken or installed.
    pub current_snapshot: Option<SnapshotView>,
}

impl MemStoreView {
    /// The store of a node that has never run.
    pub open spec fn new(id: u64) -> MemStoreView {
        MemStoreView {
            id,
            log: Map::empty(),
            sm: StateMachineView::empty(),
            hs: None,
            current_snapshot: None,
        }
    }

    /// The cluster's members as the log has them: those of the last
    /// configuration change or snapshot pointer, or the node alone.
    pub open spec fn membership(self) -> MembershipView {
        match latest_membership(self.log) {
            Some(cfg) => cfg,
            None => MembershipView::initial(self.id),
        }
    }

    /// What a restarted node is told: where its log ends, how far it was
    /// applied, and the hard state and membership on record.
    pub open spec fn restart_state(self, hs: HardState) -> InitialStateView {
        InitialStateView {
            last_log_index: last_index_and_term(self.log).0,
            last_log_term: last_index_and_term(self.log).1,
            last_applied_log: self.sm.last_applied_log,
            hard_state: hs,
            membership: self.membership(),
        }
    }

    /// The members that a snapshot through `bound` covers: those of the last
    /// configuration change at or before `bound`, or the node alone.
    pub open spec fn membership_through(self, bound: u64) -> MembershipView {
        match latest_config_change(self.log, bound) {
            Some(cfg) => cfg,
            None => MembershipView::initial(self.id),
        }
    }

    /// Whether the log holds the entry that the state machine was applied through.
    pub open spec fn can_compact(self) -> bool {
        self.log.contains_key(self.sm.last_applied_log)
    }

    /// The snapshot that compaction cuts when the state machine serializes to `data`.
    pub open spec fn compaction_snapshot(self, data: Seq<u8>) -> SnapshotView {
        SnapshotView {
            index: self.sm.last_applied_log,
            term: self.log[self.sm.last_applied_log].term,
            membership: self.membership_through(self.sm.last_applied_log),
            data,
        }
    }

    /// The store after compaction: the log keeps what lies above the last
    /// applied index, a snapshot pointer stands at that index, and the
    /// snapshot is on record.
    pub open spec fn compacted(self, data: Seq<u8>) -> MemStoreView {
        let last = self.sm.last_applied_log;
        let snapshot = self.compaction_snapshot(data);
        MemStoreView {
            log: without_span(self.log, 0, Some(last)).insert(
                last,
                EntryView::snapshot_pointer(last, snapshot.term, Seq::empty(), snapshot.membership),
            ),
            current_snapshot: Some(snapshot),
            ..self
        }
    }

    /// The store after a snapshot received from a peer was installed.
    pub open spec fn installed(
        self,
        index: u64,
        term: u64,
        delete_through: Option<u64>,
        id: Seq<char>,
        snapshot: SnapshotView,
        sm: StateMachineView,
    ) -> MemStoreView {
        MemStoreView {
            log: kept_after(self.log, delete_through).insert(
                index,
                EntryView::snapshot_pointer(index, term, id, self.membership_through(index)),
            ),
            sm,
            current_snapshot: Some(snapshot),
            ..self
        }
    }
}

/// The storage of one consensus node.
pub struct MemStore {
    id: u64,
    log: LogStore,
    sm: MemStoreStateMachine,
    hs: Option<HardState>,
    current_snapshot: Option<MemStoreSnapshot>,
}

/// What an optional snapshot says.
pub open spec fn opt_snapshot_view(o: Option<MemStoreSnapshot>) -> Option<SnapshotView> {
    match o {
        Some(s) => Some(s@),
        None => None,
    }
}

impl View for MemStore {
    type V = MemStoreView;

    closed spec fn view(&self) -> MemStoreView {
        MemStoreView {
            id: self.id,
            log: self.log@,
            sm: self.sm@,
            hs: self.hs,
            current_snapshot: opt_snapshot_view(self.current_snapshot),
        }
    }
}

impl MemStore {
    /// The store of a node that has never run.
    pub fn new(id: u64) -> (store: Self)
        ensures
            store@ == MemStoreView::new(id),
    {
        MemStore {
            id,
            log: LogStore::new(),
            sm: MemStoreStateMachine::default(),
            hs: None,
            current_snapshot: None,
        }
    }

    /// A store that starts from the given state.
    pub fn new_with_state(
        id: u64,
        log: LogStore,
        sm: MemStoreStateMachine,
        hs: Option<HardState>,
        current_snapshot: Option<MemStoreSnapshot>,
    ) -> (store: Self)
        ensures
            store@ == (MemStoreView {
                id,
                log: log@,
                sm: sm@,
                hs,
                current_snapshot: opt_snapshot_view(current_snapshot),
            }),
    {
        MemStore { id, log, sm, hs, current_snapshot }
    }

    /// The id of the node that the store belongs to.
    pub fn id(&self) -> (id: u64)
        ensures
            id == self@.id,
    {
        self.id
    }

    /// The log.
    pub fn get_log(&self) -> (log: &LogStore)
        ensures
            log@ == self@.log,
            log_wf(self@.log),
    {
        proof {
            use_type_invariant(&self.log);
            self.log.lemma_view_wf();
        }
        &self.log
    }

    /// The state machine.
    pub fn get_state_machine(&self) -> (sm: &MemStoreStateMachine)
        ensures
            sm@ == self@.sm,
    {
        &self.sm
    }

    /// The saved hard state.
    pub fn read_hard_state(&self) -> (hs: &Option<HardState>)
        ensures
            *hs == self@.hs,
    {
        &self.hs
    }

    /// The cluster's members as the log has them.
    pub fn get_membership_config(&self) -> (cfg: MembershipConfig)
        ensures
            cfg@ == self@.membership(),
    {
        match self.log.latest_membership() {
            Some(cfg) => cfg,
            None => MembershipConfig::new_initial(self.id),
        }
    }

    /// What the node knows of itself as it starts.
    ///
    /// Where no hard state was ever saved the node is new: it gets the
    /// initial state, and the hard state of that is saved. Otherwise the
    /// state is read off the log, the state machine and the saved hard state.
    pub fn get_initial_state(&mut self) -> (st: InitialState)
        ensures
            match old(self)@.hs {
                Some(hs) => {
                    &&& st@ == old(self)@.restart_state(hs)
                    &&& final(self)@ == old(self)@
                },
                None => {
                    &&& st@ == InitialStateView::initial(old(self)@.id)
                    &&& final(self)@ == (MemStoreView { hs: Some(st@.hard_state), ..old(self)@ })
                },
            },
    {
        let membership = self.get_membership_config();
        match self.hs {
            Some(hs) => {
                let last = self.log.last_index_and_term();
                InitialState {
                    last_log_index: last.0,
                    last_log_term: last.1,
                    last_applied_log: self.sm.last_applied_log,
                    hard_state: hs,
                    membership,
                }
            },
            None => {
                let st = InitialState::new_initial(self.id);
                self.hs = Some(st.hard_state);
                st
            },
        }
    }

    /// Saves `hs` over whatever hard state was there.
    pub fn save_hard_state(&mut self, hs: &HardState)
        ensures
            final(self)@ == (MemStoreView { hs: Some(*hs), ..old(self)@ }),
    {
        self.hs = Some(*hs);
    }

    /// The entries with index in `[start, stop)`, in order of index; none
    /// where `start > stop`.
    pub fn get_log_entries(&self, start: u64, stop: u64) -> (out: Vec<Entry>)
        ensures
            is_range(entry_views(out@), self@.log, start, stop),
            start >= stop ==> out@.len() == 0,
    {
        if start > stop {
            return Vec::new();
        }
        let out = self.log.range(start, stop);
        proof {
            if start >= stop && out@.len() > 0 {
                assert(start <= entry_views(out@)[0].index < stop);
            }
        }
        out
    }

    /// Deletes the entries with index in `[start, stop)`, or every entry from
    /// `start` on where `stop` is `None`; nothing where `start > stop`.
    pub fn delete_logs_from(&mut self, start: u64, stop: Option<u64>)
        ensures
            final(self)@ == (MemStoreView { log: without_span(old(self)@.log, start, stop), ..old(self)@ }),
    {
        if let Some(stop) = stop {
            if start > stop {
                return ;
            }
        }
        self.log.remove_span(start, stop);
    }

    /// Writes `entry` to the log under its index.
    pub fn append_entry_to_log(&mut self, entry: &Entry)
        ensures
            final(self)@ == (MemStoreView {
                log: old(self)@.log.insert(entry.index, entry@),
                ..old(self)@
            }),
    {
        self.log.insert(entry);
    }

    /// Writes each of `entries` to the log under its index, in turn.
    pub fn replicate_to_log(&mut self, entries: &[Entry])
        ensures
            final(self)@ == (MemStoreView {
                log: with_entries(old(self)@.log, entry_views(entries@)),
                ..old(self)@
            }),
    {
        let ghost all = entry_views(entries@);
        let mut n: usize = 0;
        while n < entries.len()
            invariant
                n <= entries.len(),
                all == entry_views(entries@),
                self@ == (MemStoreView {
                    log: with_entries(old(self)@.log, all.subrange(0, n as int)),
                    ..old(self)@
                }),
            decreases entries.len() - n,
        {
            self.log.insert(&entries[n]);
            proof {
                let next = all.subrange(0, n + 1);
                assert(next.drop_last() =~= all.subrange(0, n as int));
            }
            n = n + 1;
        }
        assert(all.subrange(0, n as int) =~= all);
    }

    /// Applies the entry at `index`, which carries `data`, to the state
    /// machine and answers it.
    pub fn apply_entry_to_state_machine(&mut self, index: &u64, data: &ClientRequest) -> (resp: ClientResponse)
        ensures
            final(self)@ == (MemStoreView { sm: old(self)@.sm.apply(*index, data@), ..old(self)@ }),
            resp@ == old(self)@.sm.response(data@),
    {
        self.sm.apply(*index, data)
    }

    /// Applies each of `entries` to the state machine, in turn; no answers
    /// are given.
    pub fn replicate_to_state_machine(&mut self, entries: &[(&u64, &ClientRequest)])
        ensures
            final(self)@ == (MemStoreView {
                sm: old(self)@.sm.apply_all(batch_view(entries@)),
                ..old(self)@
            }),
    {
        let ghost all = batch_view(entries@);
        let mut n: usize = 0;
        while n < entries.len()
            invariant
                n <= entries.len(),
                all == batch_view(entries@),
                self@ == (MemStoreView {
                    sm: old(self)@.sm.apply_all(all.subrange(0, n as int)),
                    ..old(self)@
                }),
            decreases entries.len() - n,
        {
            let pair = &entries[n];
            let _ = self.sm.apply(*pair.0, pair.1);
            proof {
                let next = all.subrange(0, n + 1);
                assert(next.drop_last() =~= all.subrange(0, n as int));
            }
            n = n + 1;
        }
        assert(all.subrange(0, n as int) =~= all);
    }

    /// Cuts a snapshot at the last applied index and drops the log below it.
    ///
    /// `data` is the state machine in serialized form. Where the log holds no
    /// entry at the last applied index the store is left as it was and the
    /// call fails; the node must not go on as if nothing had happened.
    pub fn do_log_compaction(&mut self, data: Vec<u8>) -> (res: Result<MemStoreSnapshot, MetaError>)
        ensures
            match res {
                Ok(snapshot) => {
                    &&& old(self)@.can_compact()
                    &&& snapshot@ == old(self)@.compaction_snapshot(data@)
                    &&& final(self)@ == old(self)@.compacted(data@)
                },
                Err(e) => {
                    &&& !old(self)@.can_compact()
                    &&& e@ == MetaErrorView::InconsistentLog
                    &&& final(self)@ == old(self)@
                },
            },
    {
        let last_applied_log: u64 = self.sm.last_applied_log;
        let membership = match self.log.latest_config_change(last_applied_log) {
            Some(cfg) => cfg,
            None => MembershipConfig::new_initial(self.id),
        };
        let term: u64 = match self.log.term_at(last_applied_log) {
            Some(term) => term,
            None => {
                return Err(MetaError::InconsistentLog);
            },
        };
        self.log.remove_span(0, Some(last_applied_log));
        let pointer = Entry::new_snapshot_pointer(
            last_applied_log,
            term,
            String::new(),
            membership.clone(),
        );
        self.log.insert(&pointer);
        let snapshot = MemStoreSnapshot { index: last_applied_log, term, membership, data };
        self.current_snapshot = Some(snapshot.clone());
        Ok(snapshot)
    }

    /// A fresh, empty snapshot to be filled by the consensus engine: its id
    /// and its bytes. The id means nothing to this store.
    pub fn create_snapshot(&self) -> (handle: (String, Vec<u8>))
        ensures
            handle.0@.len() == 0,
            handle.1@.len() == 0,
    {
        (String::new(), Vec::new())
    }

    /// Installs a snapshot received from a peer.
    ///
    /// `new_snapshot` is the snapshot as decoded from the bytes received and
    /// `new_sm` the state machine decoded from its data. The log keeps the
    /// entries above `delete_through`, or none where that is `None`, and gets
    /// a snapshot pointer at `index`.
    pub fn finalize_snapshot_installation(
        &mut self,
        index: u64,
        term: u64,
        delete_through: Option<u64>,
        id: String,
        new_snapshot: MemStoreSnapshot,
        new_sm: MemStoreStateMachine,
    )
        ensures
            final(self)@ == old(self)@.installed(index, term, delete_through, id@, new_snapshot@, new_sm@),
    {
        let membership = match self.log.latest_config_change(index) {
            Some(cfg) => cfg,
            None => MembershipConfig::new_initial(self.id),
        };
        match delete_through {
            Some(through) => {
                if through < u64::MAX {
                    self.log.remove_span(0, Some(through + 1));
                } else {
                    self.log.clear();
                }
            },
            None => {
                self.log.clear();
            },
        }
        let pointer = Entry::new_snapshot_pointer(index, term, id, membership);
        self.log.insert(&pointer);
        self.sm = new_sm;
        self.current_snapshot = Some(new_snapshot);
    }

    /// The current snapshot, if there is one.
    pub fn get_current_snapshot(&self) -> (found: Option<MemStoreSnapshot>)
        ensures
            opt_snapshot_view(found) == self@.current_snapshot,
    {
        match &self.current_snapshot {
            Some(snapshot) => Some(snapshot.clone()),
            None => None,
        }
    }
}

} // verus!
