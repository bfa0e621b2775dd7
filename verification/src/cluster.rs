//! An immutable snapshot of cluster topology.
//!
//! A snapshot maps each node's stable 128-bit identity to its record.
//! Topology refresh replaces the whole snapshot; nothing mutates one in
//! place, so policies resolve identities against the snapshot they are
//! handed at call time.

use std::collections::HashMap;
use vstd::prelude::*;

verus! {

broadcast use vstd::std_specs::hash::group_hash_axioms;

/// One addressable node of the cluster. `is_up` records the verdict of
/// the default policy's liveness predicate for the snapshot this record
/// belongs to.
#[derive(Clone, Copy, Debug, PartialEq, Eq, Structural)]
pub struct Node {
    pub host_id: u128,
    pub is_up: bool,
}

impl Node {
    /// The delegated liveness verdict for this node in its snapshot.
    pub fn is_alive(&self) -> (r: bool)
        ensures
            r == self.is_up,
    {
        self.is_up
    }
}

/// An immutable topology snapshot: node identity to node record.
#[derive(Debug)]
pub struct ClusterData {
    pub known_peers: HashMap<u128, Node>,
}

impl ClusterData {
    /// An empty snapshot.
    pub fn new() -> (c: ClusterData)
        ensures
            c.known_peers@ == Map::<u128, Node>::empty(),
    {
        ClusterData { known_peers: HashMap::new() }
    }

    /// Records one node under its identity while the snapshot is built.
    pub fn add_node(&mut self, node: Node)
        ensures
            final(self).known_peers@ == old(self).known_peers@.insert(node.host_id, node),
    {
        self.known_peers.insert(node.host_id, node);
    }

    /// Resolves a node identity against this snapshot.
    pub fn get_node<'a>(&'a self, id: u128) -> (r: Option<&'a Node>)
        ensures
            match r {
                Some(n) => self.known_peers@.contains_key(id) && *n == self.known_peers@[id],
                None => !self.known_peers@.contains_key(id),
            },
    {
        self.known_peers.get(&id)
    }
}

} // verus!
