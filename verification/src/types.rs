//! The records that travel through the store, each with its mathematical view.

use std::collections::HashSet;
use vstd::prelude::*;
use vstd::std_specs::hash::spec_hash_keys_iter;
use vstd::std_specs::iter::IteratorSpec;

verus! {

/// The text of an optional string.
pub open spec fn opt_text(o: Option<String>) -> Option<Seq<char>> {
    match o {
        Some(s) => Some(s@),
        None => None,
    }
}

/// Copies an optional string.
pub(crate) fn clone_opt_string(o: &Option<String>) -> (res: Option<String>)
    ensures
        opt_text(res) == opt_text(*o),
{
    match o {
        Some(s) => Some(s.clone()),
        None => None,
    }
}

/// A write submitted by a client: set the status recorded under `client`.
///
/// `serial` is the caller's counter for this client; a request that repeats
/// the serial last seen for its client is a replay and changes nothing.
#[derive(Debug, PartialEq, Eq)]
pub struct ClientRequest {
    /// The id of the client that sent the request.
    pub client: String,
    /// The serial number of this request.
    pub serial: u64,
    /// The status to record for the client.
    pub status: String,
}

/// What a [`ClientRequest`] says.
pub struct ClientRequestView {
    pub client: Seq<char>,
    pub serial: u64,
    pub status: Seq<char>,
}

impl View for ClientRequest {
    type V = ClientRequestView;

    open spec fn view(&self) -> ClientRequestView {
        ClientRequestView { client: self.client@, serial: self.serial, status: self.status@ }
    }
}

impl Clone for ClientRequest {
    fn clone(&self) -> (res: Self)
        ensures
            res@ == self@,
    {
        ClientRequest {
            client: self.client.clone(),
            serial: self.serial,
            status: self.status.clone(),
        }
    }
}

/// The answer to an applied [`ClientRequest`].
#[derive(Debug, PartialEq, Eq)]
pub struct ClientResponse {
    /// The status that the write replaced, if there was one.
    pub prev: Option<String>,
    /// The status recorded by the write.
    pub result: Option<String>,
}

/// What a [`ClientResponse`] says.
pub struct ClientResponseView {
    pub prev: Option<Seq<char>>,
    pub result: Option<Seq<char>>,
}

impl View for ClientResponse {
    type V = ClientResponseView;

    open spec fn view(&self) -> ClientResponseView {
        ClientResponseView { prev: opt_text(self.prev), result: opt_text(self.result) }
    }
}

impl Clone for ClientResponse {
    fn clone(&self) -> (res: Self)
        ensures
            res@ == self@,
    {
        ClientResponse {
            prev: clone_opt_string(&self.prev),
            result: clone_opt_string(&self.result),
        }
    }
}

/// The term and vote that a node must not forget.
#[derive(Clone, Copy, Debug, PartialEq, Eq, Structural)]
pub struct HardState {
    /// The last term this node has seen.
    pub current_term: u64,
    /// The node voted for in `current_term`.
    pub voted_for: Option<u64>,
}

/// The voting members of the cluster, and during a reconfiguration the set
/// that takes over once joint consensus ends.
#[derive(Debug, PartialEq, Eq)]
pub struct MembershipConfig {
    /// All members of the cluster.
    pub members: HashSet<u64>,
    /// The members after joint consensus; present only during a reconfiguration.
    pub members_after_consensus: Option<HashSet<u64>>,
}

/// What a [`MembershipConfig`] says.
pub struct MembershipView {
    pub members: Set<u64>,
    pub members_after_consensus: Option<Set<u64>>,
}

impl MembershipView {
    /// The configuration of a cluster that consists of `id` alone.
    pub open spec fn initial(id: u64) -> MembershipView {
        MembershipView { members: set![id], members_after_consensus: None }
    }

    /// Whether `x` is in either member set.
    pub open spec fn contains(self, x: u64) -> bool {
        self.members.contains(x) || match self.members_after_consensus {
            Some(after) => after.contains(x),
            None => false,
        }
    }
}

/// The ids held by an optional set.
pub open spec fn opt_ids(o: Option<HashSet<u64>>) -> Option<Set<u64>> {
    match o {
        Some(s) => Some(s@),
        None => None,
    }
}

impl View for MembershipConfig {
    type V = MembershipView;

    open spec fn view(&self) -> MembershipView {
        MembershipView {
            members: self.members@,
            members_after_consensus: opt_ids(self.members_after_consensus),
        }
    }
}

/// Copies a set of ids.
fn clone_id_set(ids: &HashSet<u64>) -> (res: HashSet<u64>)
    ensures
        res@ == ids@,
{
    broadcast use vstd::std_specs::hash::group_hash_axioms;

    let mut res: HashSet<u64> = HashSet::new();
    let ghost all = spec_hash_keys_iter(ids).remaining();
    for k in it: ids.iter()
        invariant
            it.seq() == all,
            forall|x: u64|
                res@.contains(x) <==> exists|j: int| 0 <= j < it.index() && *(#[trigger] all[j]) == x,
    {
        res.insert(*k);
    }
    proof {
        let keys = all.unref();
        assert forall|x: u64| res@.contains(x) <==> ids@.contains(x) by {
            if res@.contains(x) {
                let j = choose|j: int| 0 <= j < all.len() && *(#[trigger] all[j]) == x;
                assert(keys[j] == x);
            }
        }
    }
    res
}

/// `MembershipConfig::new_initial` of async_raft: `members` holds `id` and
/// nothing else, and no joint consensus is under way.
#[verifier::external_body]
fn initial_membership(id: u64) -> (cfg: MembershipConfig)
    ensures
        cfg@ == MembershipView::initial(id),
{
    let cfg = async_raft::raft::MembershipConfig::new_initial(id);
    MembershipConfig {
        members: cfg.members,
        members_after_consensus: cfg.members_after_consensus,
    }
}

impl Clone for MembershipConfig {
    fn clone(&self) -> (res: Self)
        ensures
            res@ == self@,
    {
        let after = match &self.members_after_consensus {
            Some(ids) => Some(clone_id_set(ids)),
            None => None,
        };
        MembershipConfig { members: clone_id_set(&self.members), members_after_consensus: after }
    }
}

impl MembershipConfig {
    /// The configuration of a brand-new cluster whose only member is `id`.
    pub fn new_initial(id: u64) -> (cfg: Self)
        ensures
            cfg@ == MembershipView::initial(id),
    {
        initial_membership(id)
    }

    /// Whether `x` is a member; during joint consensus both sets count.
    pub fn contains(&self, x: &u64) -> (found: bool)
        ensures
            found == self@.contains(*x),
    {
        broadcast use vstd::std_specs::hash::group_hash_axioms;

        if self.members.contains(x) {
            true
        } else {
            match &self.members_after_consensus {
                Some(after) => after.contains(x),
                None => false,
            }
        }
    }
}

/// What a log entry carries.
#[derive(Debug, PartialEq, Eq)]
pub enum EntryPayload {
    /// Nothing; a new leader commits one of these.
    Blank,
    /// A client write.
    Normal(ClientRequest),
    /// A change of the cluster's membership.
    ConfigChange(MembershipConfig),
    /// A stand-in for every entry up to and including this index, which a
    /// snapshot now covers.
    SnapshotPointer { id: String, membership: MembershipConfig },
}

/// What an [`EntryPayload`] says.
pub enum PayloadView {
    Blank,
    Normal(ClientRequestView),
    ConfigChange(MembershipView),
    SnapshotPointer { id: Seq<char>, membership: MembershipView },
}

impl View for EntryPayload {
    type V = PayloadView;

    open spec fn view(&self) -> PayloadView {
        match self {
            EntryPayload::Blank => PayloadView::Blank,
            EntryPayload::Normal(req) => PayloadView::Normal(req@),
            EntryPayload::ConfigChange(cfg) => PayloadView::ConfigChange(cfg@),
            EntryPayload::SnapshotPointer { id, membership } => PayloadView::SnapshotPointer {
                id: id@,
                membership: membership@,
            },
        }
    }
}

impl Clone for EntryPayload {
    fn clone(&self) -> (res: Self)
        ensures
            res@ == self@,
    {
        match self {
            EntryPayload::Blank => EntryPayload::Blank,
            EntryPayload::Normal(req) => EntryPayload::Normal(req.clone()),
            EntryPayload::ConfigChange(cfg) => EntryPayload::ConfigChange(cfg.clone()),
            EntryPayload::SnapshotPointer { id, membership } => EntryPayload::SnapshotPointer {
                id: id.clone(),
                membership: membership.clone(),
            },
        }
    }
}

/// One entry of the replicated log.
#[derive(Debug, PartialEq, Eq)]
pub struct Entry {
    /// The term in which the entry was created.
    pub term: u64,
    /// The entry's place in the log.
    pub index: u64,
    /// What the entry carries.
    pub payload: EntryPayload,
}

/// What an [`Entry`] says.
pub struct EntryView {
    pub term: u64,
    pub index: u64,
    pub payload: PayloadView,
}

impl EntryView {
    /// The entry that stands at `index` for a snapshot taken in `term`.
    pub open spec fn snapshot_pointer(
        index: u64,
        term: u64,
        id: Seq<char>,
        membership: MembershipView,
    ) -> EntryView {
        EntryView { term, index, payload: PayloadView::SnapshotPointer { id, membership } }
    }
}

impl View for Entry {
    type V = EntryView;

    open spec fn view(&self) -> EntryView {
        EntryView { term: self.term, index: self.index, payload: self.payload@ }
    }
}

impl Clone for Entry {
    fn clone(&self) -> (res: Self)
        ensures
            res@ == self@,
    {
        Entry { term: self.term, index: self.index, payload: self.payload.clone() }
    }
}

impl Entry {
    /// The entry that replaces the log up to `index` once a snapshot covers it.
    pub fn new_snapshot_pointer(index: u64, term: u64, id: String, membership: MembershipConfig) -> (entry: Self)
        ensures
            entry@ == EntryView::snapshot_pointer(index, term, id@, membership@),
    {
        Entry { term, index, payload: EntryPayload::SnapshotPointer { id, membership } }
    }
}

/// What a node knows of itself when it starts.
#[derive(Debug, PartialEq, Eq)]
pub struct InitialState {
    /// The index of the last entry in the log.
    pub last_log_index: u64,
    /// The term of the last entry in the log.
    pub last_log_term: u64,
    /// The index of the last entry applied to the state machine.
    pub last_applied_log: u64,
    /// The saved hard state.
    pub hard_state: HardState,
    /// The latest membership found in the log, or the initial one.
    pub membership: MembershipConfig,
}

/// What an [`InitialState`] says.
pub struct InitialStateView {
    pub last_log_index: u64,
    pub last_log_term: u64,
    pub last_applied_log: u64,
    pub hard_state: HardState,
    pub membership: MembershipView,
}

impl InitialStateView {
    /// The state of a node that has never run: nothing logged, nothing
    /// applied, term zero, no vote, and a cluster of `id` alone.
    pub open spec fn initial(id: u64) -> InitialStateView {
        InitialStateView {
            last_log_index: 0,
            last_log_term: 0,
            last_applied_log: 0,
            hard_state: HardState { current_term: 0, voted_for: None },
            membership: MembershipView::initial(id),
        }
    }
}

impl View for InitialState {
    type V = InitialStateView;

    open spec fn view(&self) -> InitialStateView {
        InitialStateView {
            last_log_index: self.last_log_index,
            last_log_term: self.last_log_term,
            last_applied_log: self.last_applied_log,
            hard_state: self.hard_state,
            membership: self.membership@,
        }
    }
}

/// `InitialState::new_initial` of async_raft: all counters zero, term zero,
/// no vote, and the membership that `MembershipConfig::new_initial` gives.
#[verifier::external_body]
fn pristine_state(id: u64) -> (st: InitialState)
    ensures
        st@ == InitialStateView::initial(id),
{
    let st = async_raft::storage::InitialState::new_initial(id);
    let hs = st.hard_state;
    let cfg = st.membership;
    InitialState {
        last_log_index: st.last_log_index,
        last_log_term: st.last_log_term,
        last_applied_log: st.last_applied_log,
        hard_state: HardState { current_term: hs.current_term, voted_for: hs.voted_for },
        membership: MembershipConfig {
            members: cfg.members,
            members_after_consensus: cfg.members_after_consensus,
        },
    }
}

impl InitialState {
    /// The state of a node that has never run.
    pub fn new_initial(id: u64) -> (st: Self)
        ensures
            st@ == InitialStateView::initial(id),
    {
        pristine_state(id)
    }
}

/// The state machine as of one log index, in serialized form.
#[derive(Debug, PartialEq, Eq)]
pub struct MemStoreSnapshot {
    /// The last index that the snapshot covers.
    pub index: u64,
    /// The term of the entry at `index`.
    pub term: u64,
    /// The latest membership that the snapshot covers.
    pub membership: MembershipConfig,
    /// The serialized state machine.
    pub data: Vec<u8>,
}

/// What a [`MemStoreSnapshot`] says.
pub struct SnapshotView {
    pub index: u64,
    pub term: u64,
    pub membership: MembershipView,
    pub data: Seq<u8>,
}

impl View for MemStoreSnapshot {
    type V = SnapshotView;

    open spec fn view(&self) -> SnapshotView {
        SnapshotView {
            index: self.index,
            term: self.term,
            membership: self.membership@,
            data: self.data@,
        }
    }
}

impl Clone for MemStoreSnapshot {
    fn clone(&self) -> (res: Self)
        ensures
            res@ == self@,
    {
        MemStoreSnapshot {
            index: self.index,
            term: self.term,
            membership: self.membership.clone(),
            data: self.data.clone(),
        }
    }
}

} // verus!
