//! The transport's side of an RPC to a peer: where to send it, and the
//! envelope it travels in. Sending is left to the caller.

use crate::directory::node_key_text;
use crate::error::{MetaError, MetaErrorView};
use crate::store::MemStore;
use vstd::prelude::*;
use vstd::string::StringExecFns;

verus! {

/// The envelope of a consensus message: the serialized message and nothing else.
#[derive(Debug, PartialEq, Eq)]
pub struct RaftMes {
    pub data: Vec<u8>,
}

/// The address to connect to for a peer that listens at `addr`.
pub open spec fn endpoint_text(addr: Seq<char>) -> Seq<char> {
    "http://"@ + addr
}

/// The transport of one node; it finds its peers in the node's own store.
pub struct Network<'a> {
    sto: &'a MemStore,
}

impl<'a> Network<'a> {
    /// A transport that resolves peers in `m`.
    pub fn new(m: &'a MemStore) -> (net: Self)
        ensures
            net.store() == m,
    {
        Network { sto: m }
    }

    /// The store in which peers are resolved.
    pub closed spec fn store(&self) -> &MemStore {
        self.sto
    }

    /// The address to connect to for a peer that listens at `addr`.
    pub fn endpoint(addr: &String) -> (uri: String)
        ensures
            uri@ == endpoint_text(addr@),
    {
        let mut uri = String::from_str("http://");
        uri.append(addr.as_str());
        uri
    }

    /// Where to send a message for node `target`, and the envelope that
    /// holds `data`. Fails where the directory has no address for `target`,
    /// as it does until that node's own entry has reached this node.
    pub fn route(&self, target: u64, data: Vec<u8>) -> (res: Result<(String, RaftMes), MetaError>)
        ensures
            match res {
                Ok((uri, mes)) => {
                    &&& self.store()@.node_addr(target) matches Some(addr)
                    &&& uri@ == endpoint_text(addr)
                    &&& mes.data@ == data@
                },
                Err(e) => {
                    &&& self.store()@.node_addr(target) is None
                    &&& e@ == (MetaErrorView::NodeNotFound { key: node_key_text(target) })
                },
            },
    {
        match self.sto.get_node_addr(target) {
            Ok(addr) => Ok((Self::endpoint(&addr), RaftMes { data })),
            Err(e) => Err(e),
        }
    }
}

} // verus!
