//! The state machine: the key/value directory that committed writes build.
//!
//! A write sets the status recorded under its client. Each client's last
//! serial is remembered with the result it produced, so a write that arrives
//! again with the same serial changes nothing and is answered from memory.

use crate::text_map::TextMap;
use crate::types::{clone_opt_string, opt_text, ClientRequest, ClientRequestView, ClientResponse, ClientResponseView};
use vstd::prelude::*;

verus! {

/// What a state machine holds.
#[verifier::ext_equal]
pub struct StateMachineView {
    /// The index of the last entry applied.
    pub last_applied_log: u64,
    /// For each client, the serial of its last write and the result recorded for it.
    pub client_serial_responses: Map<Seq<char>, (u64, Option<Seq<char>>)>,
    /// For each client, its current status.
    pub client_status: Map<Seq<char>, Seq<char>>,
}

impl StateMachineView {
    /// A state machine to which nothing was applied.
    pub open spec fn empty() -> StateMachineView {
        StateMachineView {
            last_applied_log: 0,
            client_serial_responses: Map::empty(),
            client_status: Map::empty(),
        }
    }

    /// Whether `req` repeats the serial last recorded for its client.
    pub open spec fn is_replay(self, req: ClientRequestView) -> bool {
        self.client_serial_responses.contains_key(req.client)
            && self.client_serial_responses[req.client].0 == req.serial
    }

    /// The status recorded under `key`, if there is one.
    pub open spec fn status_of(self, key: Seq<char>) -> Option<Seq<char>> {
        if self.client_status.contains_key(key) {
            Some(self.client_status[key])
        } else {
            None
        }
    }

    /// The state after the entry at `index`, which carries `req`, was applied.
    pub open spec fn apply(self, index: u64, req: ClientRequestView) -> StateMachineView {
        if self.is_replay(req) {
            StateMachineView { last_applied_log: index, ..self }
        } else {
            StateMachineView {
                last_applied_log: index,
                client_serial_responses: self.client_serial_responses.insert(
                    req.client,
                    (req.serial, Some(req.status)),
                ),
                client_status: self.client_status.insert(req.client, req.status),
            }
        }
    }

    /// The answer given when `req` is applied in this state.
    pub open spec fn response(self, req: ClientRequestView) -> ClientResponseView {
        if self.is_replay(req) {
            ClientResponseView { prev: None, result: self.client_serial_responses[req.client].1 }
        } else {
            ClientResponseView { prev: self.status_of(req.client), result: Some(req.status) }
        }
    }

    /// The state after each of `entries` was applied, in turn.
    pub open spec fn apply_all(self, entries: Seq<(u64, ClientRequestView)>) -> StateMachineView
        decreases entries.len(),
    {
        if entries.len() == 0 {
            self
        } else {
            self.apply_all(entries.drop_last()).apply(entries.last().0, entries.last().1)
        }
    }
}

/// What a recorded serial and result say.
pub open spec fn serial_view(p: (u64, Option<String>)) -> (u64, Option<Seq<char>>) {
    (p.0, opt_text(p.1))
}

/// The state machine of the store.
pub struct MemStoreStateMachine {
    /// The index of the last entry applied.
    pub last_applied_log: u64,
    /// For each client, the serial of its last write and the result recorded for it.
    pub client_serial_responses: TextMap<(u64, Option<String>)>,
    /// For each client, its current status.
    pub client_status: TextMap<String>,
}

impl View for MemStoreStateMachine {
    type V = StateMachineView;

    open spec fn view(&self) -> StateMachineView {
        StateMachineView {
            last_applied_log: self.last_applied_log,
            client_serial_responses: self.client_serial_responses@.map_values(
                |p: (u64, Option<String>)| serial_view(p),
            ),
            client_status: self.client_status@.map_values(|s: String| s@),
        }
    }
}

impl Default for MemStoreStateMachine {
    fn default() -> (sm: Self)
        ensures
            sm@ == StateMachineView::empty(),
    {
        let sm = MemStoreStateMachine {
            last_applied_log: 0,
            client_serial_responses: TextMap::new(),
            client_status: TextMap::new(),
        };
        sm
    }
}

impl MemStoreStateMachine {
    /// The status recorded under `key`, if there is one.
    pub fn status(&self, key: &String) -> (found: Option<&String>)
        ensures
            match found {
                Some(s) => self@.status_of(key@) == Some(s@),
                None => self@.status_of(key@) is None,
            },
    {
        self.client_status.get(key)
    }

    /// Applies the entry at `index`, which carries `req`, and answers it.
    ///
    /// A request that repeats the serial last recorded for its client only
    /// moves `last_applied_log`; the answer then carries the recorded result
    /// and no previous status.
    pub fn apply(&mut self, index: u64, req: &ClientRequest) -> (resp: ClientResponse)
        ensures
            final(self)@ == old(self)@.apply(index, req@),
            resp@ == old(self)@.response(req@),
    {
        self.last_applied_log = index;
        if let Some(recorded) = self.client_serial_responses.get(&req.client) {
            if recorded.0 == req.serial {
                return ClientResponse { prev: None, result: clone_opt_string(&recorded.1) };
            }
        }
        let previous = self.client_status.insert(req.client.clone(), req.status.clone());
        self.client_serial_responses.insert(req.client.clone(), (req.serial, Some(req.status.clone())));
        ClientResponse { prev: previous, result: Some(req.status.clone()) }
    }
}

} // verus!
