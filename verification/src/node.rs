//! The node around the store: what it decides when it boots, when the
//! consensus engine reports a change, and when a caller reads or writes the
//! directory. The caller owns the engine and carries the decisions out.

use crate::directory::node_key_text;
use crate::error::{MetaError, MetaErrorView};
use crate::store::MemStore;
use crate::types::{
    ClientRequest, ClientRequestView, ClientResponse, MembershipConfig, MembershipView,
};
use std::collections::HashSet;
use vstd::prelude::*;

verus! {

/// The serial that every write made through [`MetaNode::local_set_request`]
/// carries. It never changes, so a second write under a key that was written
/// this way counts as a replay of the first and leaves the first value in place.
pub const LOCAL_SET_SERIAL: u64 = 0;

/// The role of a node in the consensus protocol.
#[derive(Clone, Copy, Debug, PartialEq, Eq, Structural)]
pub enum State {
    NonVoter,
    Follower,
    Candidate,
    Leader,
    Shutdown,
}

/// What the consensus engine reports of a node.
#[derive(Debug, PartialEq, Eq)]
pub struct RaftMetrics {
    /// The id of the node.
    pub id: u64,
    /// The role of the node.
    pub state: State,
    /// The current term of the node.
    pub current_term: u64,
    /// The index of the last entry appended to the node's log.
    pub last_log_index: u64,
    /// The index of the last entry applied to the node's state machine.
    pub last_applied: u64,
    /// The leader of the cluster, as far as the node knows.
    pub current_leader: Option<u64>,
    /// The members of the cluster.
    pub membership_config: MembershipConfig,
}

/// What a [`RaftMetrics`] says.
pub struct RaftMetricsView {
    pub id: u64,
    pub state: State,
    pub current_term: u64,
    pub last_log_index: u64,
    pub last_applied: u64,
    pub current_leader: Option<u64>,
    pub membership_config: MembershipView,
}

impl View for RaftMetrics {
    type V = RaftMetricsView;

    open spec fn view(&self) -> RaftMetricsView {
        RaftMetricsView {
            id: self.id,
            state: self.state,
            current_term: self.current_term,
            last_log_index: self.last_log_index,
            last_applied: self.last_applied,
            current_leader: self.current_leader,
            membership_config: self.membership_config@,
        }
    }
}

/// Where a node stands in its life. `ShuttingDown` is final.
#[derive(Clone, Copy, Debug, PartialEq, Eq, Structural)]
pub enum NodeState {
    Booting,
    Running,
    ShuttingDown,
}

/// What the metrics channel of the consensus engine delivers.
pub enum MetricsEvent {
    /// The metrics changed; these are the new ones.
    Changed(RaftMetrics),
    /// The channel closed: the engine is gone.
    Closed,
}

/// What the watcher of the metrics channel does next.
#[derive(Clone, Copy, Debug, PartialEq, Eq, Structural)]
pub enum MonitorAction {
    /// Add the nodes that [`MemStore::list_added_non_voters`] names as
    /// non-voters, then wait for the next event.
    Reconcile,
    /// Stop watching.
    Stop,
}

/// What booting a cluster takes: the members to initialize the consensus
/// engine with, then the write that puts this node into the directory.
#[derive(Debug, PartialEq, Eq)]
pub struct BootPlan {
    pub members: HashSet<u64>,
    pub write: ClientRequest,
}

/// What the watcher does on `event` when the node is in `state`.
pub open spec fn monitor_action(state: NodeState, event: MetricsEvent) -> MonitorAction {
    if state == NodeState::ShuttingDown {
        MonitorAction::Stop
    } else {
        match event {
            MetricsEvent::Changed(_) => MonitorAction::Reconcile,
            MetricsEvent::Closed => MonitorAction::Stop,
        }
    }
}

/// What the node holds after `event`.
pub open spec fn monitor_next(node: MetaNodeView, event: MetricsEvent) -> MetaNodeView {
    if node.state == NodeState::ShuttingDown {
        node
    } else {
        match event {
            MetricsEvent::Changed(metrics) => MetaNodeView { metrics: metrics@, ..node },
            MetricsEvent::Closed => MetaNodeView { state: NodeState::ShuttingDown, ..node },
        }
    }
}

/// The part of a node that decides: the last metrics it has seen and where
/// it stands in its life.
pub struct MetaNode {
    metrics: RaftMetrics,
    state: NodeState,
}

/// What a [`MetaNode`] holds.
pub struct MetaNodeView {
    /// The metrics last reported by the consensus engine.
    pub metrics: RaftMetricsView,
    /// Where the node stands in its life.
    pub state: NodeState,
}

impl View for MetaNode {
    type V = MetaNodeView;

    closed spec fn view(&self) -> MetaNodeView {
        MetaNodeView { metrics: self.metrics@, state: self.state }
    }
}

impl MetaNode {
    /// A node that has not booted yet; `metrics` is what the consensus
    /// engine reports at its start.
    pub fn new(metrics: RaftMetrics) -> (node: Self)
        ensures
            node@ == (MetaNodeView { metrics: metrics@, state: NodeState::Booting }),
    {
        MetaNode { metrics, state: NodeState::Booting }
    }

    /// Where the node stands in its life.
    pub fn state(&self) -> (state: NodeState)
        ensures
            state == self@.state,
    {
        self.state
    }

    /// The metrics last reported by the consensus engine.
    pub fn metrics(&self) -> (metrics: &RaftMetrics)
        ensures
            metrics@ == self@.metrics,
    {
        &self.metrics
    }

    /// What it takes to boot a brand-new cluster of this node alone: the plan
    /// names the node as the only member and writes its address `addr` into
    /// the directory.
    pub fn boot(&self, sto: &MemStore, addr: String) -> (plan: BootPlan)
        ensures
            plan.members@ == set![sto@.id],
            plan.write@ == (ClientRequestView {
                client: node_key_text(sto@.id),
                serial: LOCAL_SET_SERIAL,
                status: addr@,
            }),
    {
        broadcast use vstd::std_specs::hash::group_hash_axioms;

        let node_id: u64 = sto.id();
        let mut members: HashSet<u64> = HashSet::new();
        members.insert(node_id);
        let write = Self::local_set_request(sto.node_key(node_id), addr);
        BootPlan { members, write }
    }

    /// Records that the boot plan was carried out: a node that was booting
    /// is running from now on. In any other state nothing changes.
    pub fn booted(&mut self)
        ensures
            final(self)@ == (MetaNodeView {
                state: if old(self)@.state == NodeState::Booting {
                    NodeState::Running
                } else {
                    old(self)@.state
                },
                ..old(self)@
            }),
    {
        match self.state {
            NodeState::Booting => {
                self.state = NodeState::Running;
            },
            _ => {},
        }
    }

    /// Takes one event of the metrics channel.
    ///
    /// New metrics replace the old ones and call for a reconciliation of the
    /// non-voters. When the channel closes the node shuts down for good:
    /// from then on nothing changes and every event is answered with `Stop`.
    pub fn monitor_step(&mut self, event: MetricsEvent) -> (action: MonitorAction)
        ensures
            action == monitor_action(old(self)@.state, event),
            final(self)@ == monitor_next(old(self)@, event),
    {
        match self.state {
            NodeState::ShuttingDown => MonitorAction::Stop,
            _ => match event {
                MetricsEvent::Changed(metrics) => {
                    self.metrics = metrics;
                    MonitorAction::Reconcile
                },
                MetricsEvent::Closed => {
                    self.state = NodeState::ShuttingDown;
                    MonitorAction::Stop
                },
            },
        }
    }

    /// Reads the status under `key` from this node's own state machine.
    /// The answer may be stale: no other node is asked.
    pub fn get(sto: &MemStore, key: &String) -> (res: Result<String, MetaError>)
        ensures
            match res {
                Ok(value) => sto@.sm.status_of(key@) == Some(value@),
                Err(e) => sto@.sm.status_of(key@) is None && e@ == (MetaErrorView::KeyNotFound {
                    key: key@,
                }),
            },
    {
        match sto.get_state_machine().status(key) {
            Some(value) => Ok(value.clone()),
            None => Err(MetaError::KeyNotFound { key: key.clone() }),
        }
    }

    /// The write that sets `key` to `value`, to be handed to the consensus engine.
    pub fn local_set_request(key: String, value: String) -> (req: ClientRequest)
        ensures
            req@ == (ClientRequestView { client: key@, serial: LOCAL_SET_SERIAL, status: value@ }),
    {
        ClientRequest { client: key, serial: LOCAL_SET_SERIAL, status: value }
    }

    /// What a write made through the consensus engine comes to: the value
    /// now on record, or one failure for whatever the engine objected to.
    pub fn local_set_result(write_rst: Result<ClientResponse, String>) -> (res: Result<String, MetaError>)
        requires
            write_rst matches Ok(resp) ==> resp.result is Some,
        ensures
            match write_rst {
                Ok(resp) => res matches Ok(value) && Some(value@) == resp@.result,
                Err(reason) => res matches Err(e) && e@ == (MetaErrorView::WriteRejected {
                    reason: reason@,
                }),
            },
    {
        match write_rst {
            Ok(resp) => Ok(resp.result.unwrap()),
            Err(reason) => Err(MetaError::WriteRejected { reason }),
        }
    }
}

} // verus!
