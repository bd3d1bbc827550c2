//! The node directory: the addresses of the cluster's nodes, kept in the
//! state machine under keys of the form `node/<id>` like any other status.

use crate::decimal::{
    decimal_string, decimal_text, lemma_decimal_text_is_injective,
    lemma_decimal_text_is_not_empty, lemma_decimal_text_reads_back, parse_decimal,
};
use crate::error::{MetaError, MetaErrorView};
use crate::store::{MemStore, MemStoreView};
use std::collections::HashSet;
use vstd::prelude::*;
use vstd::string::{StrSliceExecFns, StringExecFns};

verus! {

/// The key under which the address of node `node_id` is kept.
pub open spec fn node_key_text(node_id: u64) -> Seq<char> {
    "node/"@ + decimal_text(node_id as nat)
}

impl MemStoreView {
    /// The address on record for node `node_id`, if there is one.
    pub open spec fn node_addr(self, node_id: u64) -> Option<Seq<char>> {
        self.sm.status_of(node_key_text(node_id))
    }

    /// Whether node `node_id` is in the directory without being a member.
    pub open spec fn is_added_non_voter(self, node_id: u64) -> bool {
        &&& self.node_addr(node_id) is Some
        &&& !self.membership().contains(node_id)
    }

    /// The nodes that are in the directory without being members.
    pub open spec fn added_non_voters(self) -> Set<u64> {
        Set::new(|node_id: u64| self.is_added_non_voter(node_id))
    }
}

/// Different nodes have different keys.
pub proof fn lemma_node_keys_differ(a: u64, b: u64)
    requires
        node_key_text(a) == node_key_text(b),
    ensures
        a == b,
{
    lemma_node_key_parts(a);
    lemma_node_key_parts(b);
    lemma_decimal_text_is_injective(a as nat, b as nat);
}

/// A node key is the prefix `node/` followed by the id in decimal.
pub proof fn lemma_node_key_parts(node_id: u64)
    ensures
        node_key_text(node_id).len() >= 6,
        node_key_text(node_id).subrange(5, node_key_text(node_id).len() as int) == decimal_text(
            node_id as nat,
        ),
{
    reveal_strlit("node/");
    lemma_decimal_text_is_not_empty(node_id as nat);
    let key = node_key_text(node_id);
}

impl MemStore {
    /// The key under which the address of node `node_id` is kept.
    pub fn node_key(&self, node_id: u64) -> (key: String)
        ensures
            key@ == node_key_text(node_id),
    {
        let mut key = String::from_str("node/");
        key.append(decimal_string(node_id).as_str());
        key
    }

    /// The address on record for node `node_id`.
    pub fn get_node_addr(&self, node_id: u64) -> (res: Result<String, MetaError>)
        ensures
            match res {
                Ok(addr) => self@.node_addr(node_id) == Some(addr@),
                Err(e) => self@.node_addr(node_id) is None && e@ == (MetaErrorView::NodeNotFound {
                    key: node_key_text(node_id),
                }),
            },
    {
        let key = self.node_key(node_id);
        match self.get_state_machine().status(&key) {
            Some(addr) => Ok(addr.clone()),
            None => Err(MetaError::NodeNotFound { key }),
        }
    }

    /// The node whose address is kept under `key`, if `key` is a node key.
    pub fn node_id_of_key(&self, key: &String) -> (found: Option<u64>)
        ensures
            match found {
                Some(node_id) => key@ == node_key_text(node_id),
                None => forall|node_id: u64| key@ != node_key_text(node_id),
            },
    {
        let len = key.as_str().unicode_len();
        if len <= 5 {
            assert forall|node_id: u64| key@ != node_key_text(node_id) by {
                lemma_node_key_parts(node_id);
            }
            return None;
        }
        let digits = key.as_str().substring_char(5, len);
        let candidate = parse_decimal(digits);
        proof {
            assert forall|node_id: u64| key@ == node_key_text(node_id) implies candidate == Some(
                node_id,
            ) by {
                lemma_node_key_parts(node_id);
                lemma_decimal_text_reads_back(node_id as nat);
                lemma_decimal_text_is_not_empty(node_id as nat);
            }
        }
        match candidate {
            Some(node_id) => {
                if self.node_key(node_id) == *key {
                    Some(node_id)
                } else {
                    None
                }
            },
            None => None,
        }
    }

    /// The nodes that have an address in the directory and are not members
    /// of the cluster as the log has it.
    pub fn list_added_non_voters(&self) -> (ids: HashSet<u64>)
        ensures
            ids@ == self@.added_non_voters(),
    {
        broadcast use vstd::std_specs::hash::group_hash_axioms;

        let mut ids: HashSet<u64> = HashSet::new();
        let members = self.get_membership_config();
        let directory = &self.get_state_machine().client_status;
        proof {
            use_type_invariant(directory);
            directory.lemma_pairs();
        }
        let count = directory.len();
        let mut i: usize = 0;
        while i < count
            invariant
                i <= count,
                count == directory.pairs().len(),
                members@ == self@.membership(),
                forall|j: u64|
                    ids@.contains(j) <==> !self@.membership().contains(j) && exists|p: int|
                        0 <= p < i && (#[trigger] directory.pairs()[p]).0@ == node_key_text(j),
            decreases count - i,
        {
            let pair = directory.pair_at(i);
            let found = self.node_id_of_key(pair.0);
            match found {
                Some(node_id) => {
                    if !members.contains(&node_id) {
                        ids.insert(node_id);
                    }
                },
                None => {},
            }
            proof {
                assert forall|j: u64|
                    ids@.contains(j) <==> !self@.membership().contains(j) && exists|p: int|
                        0 <= p < i + 1 && (#[trigger] directory.pairs()[p]).0@ == node_key_text(
                            j,
                        ) by {
                    if !self@.membership().contains(j) && exists|p: int|
                        0 <= p < i + 1 && (#[trigger] directory.pairs()[p]).0@ == node_key_text(j) {
                        let p = choose|p: int|
                            0 <= p < i + 1 && (#[trigger] directory.pairs()[p]).0@ == node_key_text(j);
                        if p == i {
                            lemma_node_keys_differ(found->0, j);
                        }
                    }
                }
            }
            i = i + 1;
        }
        ids
    }
}

} // verus!
