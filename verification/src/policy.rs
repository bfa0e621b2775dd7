//! The routing-policy capability: pick a coordinator, produce a
//! fallback plan, and report a diagnostic name.
//!
//! Policies are stateless per call: `pick` and `fallback` are functions
//! of the request info and the snapshot alone, so one policy instance
//! can serve many concurrent requests.

use vstd::prelude::*;
use vstd::string::StringExecFns;

use crate::batch::Consistency;
use crate::cluster::{ClusterData, Node};

verus! {

/// What the routing layer may read about one request.
#[derive(Clone, Copy, Debug)]
pub struct RoutingInfo {
    pub consistency: Consistency,
    pub token: Option<i64>,
}

/// An ordered plan of backup candidates. It is computed fresh from the
/// snapshot passed at call time, consumed at most once, and safe to
/// abandon after any number of candidates.
pub struct FallbackPlan {
    pub nodes: Vec<Node>,
    pub pos: usize,
}

impl FallbackPlan {
    pub open spec fn wf(&self) -> bool {
        self.pos <= self.nodes@.len()
    }

    /// The candidates not yet consumed, in preference order.
    pub open spec fn remaining(&self) -> Seq<Node> {
        self.nodes@.skip(self.pos as int)
    }

    /// A fresh plan over the given candidates.
    pub fn from_nodes(nodes: Vec<Node>) -> (p: FallbackPlan)
        ensures
            p.wf(),
            p.remaining() == nodes@,
    {
        let p = FallbackPlan { nodes, pos: 0 };
        proof {
            assert(p.remaining() =~= p.nodes@);
        }
        p
    }

    /// Consumes and returns the next candidate, if one is left.
    pub fn next_node(&mut self) -> (r: Option<Node>)
        requires
            old(self).wf(),
        ensures
            final(self).wf(),
            match r {
                Some(n) => old(self).remaining().len() > 0 && n == old(self).remaining()[0]
                    && final(self).remaining() == old(self).remaining().drop_first(),
                None => old(self).remaining().len() == 0 && *final(self) == *old(self),
            },
    {
        if self.pos < self.nodes.len() {
            let n = self.nodes[self.pos];
            self.pos = self.pos + 1;
            proof {
                assert(self.remaining() =~= old(self).remaining().drop_first());
            }
            Some(n)
        } else {
            None
        }
    }
}

/// A policy that selects, per request, the node to send it to, with an
/// ordered backup plan when the preferred destination is unreachable.
pub trait LoadBalancingPolicy: Sized {
    /// The node this policy picks, as a function of request and snapshot.
    spec fn spec_pick(&self, query: &RoutingInfo, cluster: &ClusterData) -> Option<Node>;

    /// The backup candidates this policy produces, in preference order.
    spec fn spec_plan(&self, query: &RoutingInfo, cluster: &ClusterData) -> Seq<Node>;

    /// The diagnostic name of this policy chain.
    spec fn spec_name(&self) -> Seq<char>;

    /// The best single candidate for this request given the current
    /// topology and liveness; absence is a normal outcome, not an error.
    fn pick<'a>(&self, query: &RoutingInfo, cluster: &'a ClusterData) -> (r: Option<
        &'a Node,
    >)
        ensures
            match r {
                Some(n) => self.spec_pick(query, cluster) == Some(*n),
                None => self.spec_pick(query, cluster) is None,
            },
    ;

    /// The remaining candidates in preference order, computed fresh
    /// from the given snapshot; safe to consume partially and abandon.
    fn fallback(&self, query: &RoutingInfo, cluster: &ClusterData) -> (plan: FallbackPlan)
        ensures
            plan.wf(),
            plan.remaining() == self.spec_plan(query, cluster),
    ;

    /// A human-readable identity, sufficient to reconstruct which
    /// composed policy chain produced a routing decision.
    fn name(&self) -> (r: String)
        ensures
            r@ == self.spec_name(),
    ;
}

/// The first id of the list that the snapshot knows and reports alive.
pub open spec fn pick_from(ids: Seq<u128>, peers: Map<u128, Node>) -> Option<Node>
    decreases ids.len(),
{
    if ids.len() == 0 {
        None
    } else if peers.contains_key(ids[0]) && peers[ids[0]].is_up {
        Some(peers[ids[0]])
    } else {
        pick_from(ids.drop_first(), peers)
    }
}

/// Every id of the list that the snapshot knows and reports alive, in
/// list order.
pub open spec fn plan_from(ids: Seq<u128>, peers: Map<u128, Node>) -> Seq<Node>
    decreases ids.len(),
{
    if ids.len() == 0 {
        Seq::empty()
    } else {
        let rest = plan_from(ids.drop_first(), peers);
        if peers.contains_key(ids[0]) && peers[ids[0]].is_up {
            seq![peers[ids[0]]] + rest
        } else {
            rest
        }
    }
}

/// A concrete base policy: it tries a fixed preference list of node
/// identities and routes to the first one the snapshot reports alive;
/// its plan is every live listed node in order. It holds only immutable
/// configuration, so it is safe to share across concurrent requests.
pub struct FixedOrderPolicy {
    pub preference: Vec<u128>,
}

impl FixedOrderPolicy {
    pub fn new(preference: Vec<u128>) -> (p: FixedOrderPolicy)
        ensures
            p.preference == preference,
    {
        FixedOrderPolicy { preference }
    }
}

impl LoadBalancingPolicy for FixedOrderPolicy {
    open spec fn spec_pick(&self, query: &RoutingInfo, cluster: &ClusterData) -> Option<Node> {
        pick_from(self.preference@, cluster.known_peers@)
    }

    open spec fn spec_plan(&self, query: &RoutingInfo, cluster: &ClusterData) -> Seq<Node> {
        plan_from(self.preference@, cluster.known_peers@)
    }

    open spec fn spec_name(&self) -> Seq<char> {
        "Fixed order load balancing policy"@
    }

    fn pick<'a>(&self, query: &RoutingInfo, cluster: &'a ClusterData) -> (r: Option<
        &'a Node,
    >) {
        let ghost ids = self.preference@;
        let ghost peers = cluster.known_peers@;
        let mut i: usize = 0;
        proof {
            assert(ids.skip(0) =~= ids);
        }
        while i < self.preference.len()
            invariant
                i <= ids.len(),
                ids == self.preference@,
                peers == cluster.known_peers@,
                pick_from(ids, peers) == pick_from(ids.skip(i as int), peers),
            decreases ids.len() - i,
        {
            proof {
                assert(ids.skip(i as int)[0] == ids[i as int]);
                assert(ids.skip(i as int).drop_first() =~= ids.skip(i as int + 1));
            }
            let id = self.preference[i];
            match cluster.get_node(id) {
                Some(node) => {
                    if node.is_alive() {
                        return Some(node);
                    }
                },
                None => {},
            }
            i = i + 1;
        }
        proof {
            assert(ids.skip(ids.len() as int) =~= Seq::<u128>::empty());
        }
        None
    }

    fn fallback(&self, query: &RoutingInfo, cluster: &ClusterData) -> (plan: FallbackPlan) {
        let ghost ids = self.preference@;
        let ghost peers = cluster.known_peers@;
        let mut nodes: Vec<Node> = Vec::new();
        let mut i: usize = 0;
        proof {
            assert(ids.skip(0) =~= ids);
            assert(Seq::<Node>::empty() + plan_from(ids, peers) =~= plan_from(ids, peers));
        }
        while i < self.preference.len()
            invariant
                i <= ids.len(),
                ids == self.preference@,
                peers == cluster.known_peers@,
                plan_from(ids, peers) == nodes@ + plan_from(ids.skip(i as int), peers),
            decreases ids.len() - i,
        {
            proof {
                assert(ids.skip(i as int)[0] == ids[i as int]);
                assert(ids.skip(i as int).drop_first() =~= ids.skip(i as int + 1));
            }
            let id = self.preference[i];
            match cluster.get_node(id) {
                Some(node) => {
                    if node.is_alive() {
                        nodes.push(*node);
                        proof {
                            assert(nodes@ + plan_from(ids.skip(i as int + 1), peers)
                                =~= nodes@.drop_last() + (seq![peers[ids[i as int]]] + plan_from(
                                ids.skip(i as int + 1),
                                peers,
                            )));
                        }
                    }
                },
                None => {},
            }
            i = i + 1;
        }
        proof {
            assert(ids.skip(ids.len() as int) =~= Seq::<u128>::empty());
            assert(nodes@ + Seq::<Node>::empty() =~= nodes@);
        }
        FallbackPlan::from_nodes(nodes)
    }

    fn name(&self) -> (r: String) {
        String::from_str("Fixed order load balancing policy")
    }
}

} // verus!
