//! A decorator policy that pins routing to one known node.
//!
//! It is used for shard-aware batching: every statement of a batch that
//! shares a partition goes straight to the owning node. The decorator
//! stores the target's durable identity, never a direct node reference,
//! and resolves it against the snapshot at pick time; when the target
//! is absent or not reported alive it delegates entirely to the wrapped
//! policy, and its fallback plan is always the wrapped policy's plan,
//! unchanged.

use std::sync::Arc;
use vstd::prelude::*;
use vstd::string::StringExecFns;

use crate::cluster::{ClusterData, Node};
use crate::policy::{FallbackPlan, LoadBalancingPolicy, RoutingInfo};

verus! {

/// One lowercase hexadecimal digit.
pub open spec fn hex_digit(d: u8) -> char
    recommends
        d < 16,
{
    if d < 10 {
        (48 + d) as char
    } else {
        (87 + d) as char
    }
}

/// The low `n` hexadecimal digits of `v`, most significant first.
pub open spec fn hex_chars(v: u128, n: nat) -> Seq<char>
    decreases n,
{
    if n == 0 {
        Seq::empty()
    } else {
        hex_chars(v / 16, (n - 1) as nat) + seq![hex_digit((v % 16) as u8)]
    }
}

/// The hyphenated lowercase form of a 128-bit node identity, grouped
/// 8-4-4-4-12 hex digits, most significant first.
pub open spec fn uuid_hyphenated(id: u128) -> Seq<char> {
    hex_chars(id >> 96, 8) + seq!['-'] + hex_chars((id >> 80) & 0xffff, 4) + seq!['-'] + hex_chars(
        (id >> 64) & 0xffff,
        4,
    ) + seq!['-'] + hex_chars((id >> 48) & 0xffff, 4) + seq!['-'] + hex_chars(
        id & 0xffffffffffff,
        12,
    )
}

/// Relies on uuid::Uuid::from_u128 (big-endian bits) and its Display
/// form: the hyphenated lowercase hexadecimal rendering of the id.
#[verifier::external_body]
fn uuid_string(id: u128) -> (r: String)
    ensures
        r@ == uuid_hyphenated(id),
{
    uuid::Uuid::from_u128(id).to_string()
}

/// Routes every request to one node, as long as the snapshot knows it
/// and reports it alive, and otherwise behaves exactly like the wrapped
/// policy. Holds only immutable configuration: the target identity and
/// a shared handle to the wrapped policy.
pub struct EnforceTargetNodePolicy<P: LoadBalancingPolicy> {
    pub target_node: u128,
    pub fallback: Arc<P>,
}

impl<P: LoadBalancingPolicy> EnforceTargetNodePolicy<P> {
    /// Pins to the given node's identity, not to the node reference:
    /// the identity survives topology refresh and is resolved against
    /// the current snapshot on every pick.
    pub fn new(target_node: &Node, fallback: Arc<P>) -> (p: Self)
        ensures
            p.target_node == target_node.host_id,
            p.fallback == fallback,
    {
        EnforceTargetNodePolicy { target_node: target_node.host_id, fallback }
    }
}

impl<P: LoadBalancingPolicy> LoadBalancingPolicy for EnforceTargetNodePolicy<P> {
    open spec fn spec_pick(&self, query: &RoutingInfo, cluster: &ClusterData) -> Option<Node> {
        if cluster.known_peers@.contains_key(self.target_node)
            && cluster.known_peers@[self.target_node].is_up {
            Some(cluster.known_peers@[self.target_node])
        } else {
            (*self.fallback).spec_pick(query, cluster)
        }
    }

    open spec fn spec_plan(&self, query: &RoutingInfo, cluster: &ClusterData) -> Seq<Node> {
        (*self.fallback).spec_plan(query, cluster)
    }

    open spec fn spec_name(&self) -> Seq<char> {
        "Enforce target node Load balancing policy - Node: "@ + uuid_hyphenated(self.target_node)
            + " - fallback: "@ + (*self.fallback).spec_name()
    }

    fn pick<'a>(&self, query: &RoutingInfo, cluster: &'a ClusterData) -> (r: Option<
        &'a Node,
    >) {
        match cluster.get_node(self.target_node) {
            Some(node) => {
                if node.is_alive() {
                    return Some(node);
                }
            },
            None => {},
        }
        self.fallback.pick(query, cluster)
    }

    fn fallback(&self, query: &RoutingInfo, cluster: &ClusterData) -> (plan: FallbackPlan) {
        self.fallback.fallback(query, cluster)
    }

    fn name(&self) -> (r: String) {
        let mut s = String::from_str("Enforce target node Load balancing policy - Node: ");
        let id_text = uuid_string(self.target_node);
        s.append(id_text.as_str());
        s.append(" - fallback: ");
        let inner = self.fallback.name();
        s.append(inner.as_str());
        proof {
            assert(s@ =~= self.spec_name());
        }
        s
    }
}

/// The decorator picks the target node whenever the snapshot knows it
/// and reports it alive; otherwise it picks exactly what the wrapped
/// policy picks for the same request and snapshot.
pub proof fn lemma_pick_enforces_target<P: LoadBalancingPolicy>(
    p: &EnforceTargetNodePolicy<P>,
    query: &RoutingInfo,
    cluster: &ClusterData,
)
    ensures
        cluster.known_peers@.contains_key(p.target_node)
            && cluster.known_peers@[p.target_node].is_up ==> p.spec_pick(query, cluster) == Some(
            cluster.known_peers@[p.target_node],
        ),
        !(cluster.known_peers@.contains_key(p.target_node)
            && cluster.known_peers@[p.target_node].is_up) ==> p.spec_pick(query, cluster)
            == (*p.fallback).spec_pick(query, cluster),
{
}

/// The decorator's fallback plan is observably identical to the wrapped
/// policy's plan, for every request and snapshot: the enforced node is
/// special only for the primary pick.
pub proof fn lemma_fallback_is_delegated<P: LoadBalancingPolicy>(
    p: &EnforceTargetNodePolicy<P>,
    query: &RoutingInfo,
    cluster: &ClusterData,
)
    ensures
        p.spec_plan(query, cluster) == (*p.fallback).spec_plan(query, cluster),
{
}

/// The decorator's diagnostic name contains the wrapped policy's name,
/// so composed chains stay traceable in logs.
pub proof fn lemma_name_contains_fallback_name<P: LoadBalancingPolicy>(
    p: &EnforceTargetNodePolicy<P>,
)
    ensures
        exists|k: int|
            0 <= k && k + (*p.fallback).spec_name().len() <= p.spec_name().len()
                && #[trigger] p.spec_name().subrange(k, k + (*p.fallback).spec_name().len() as int)
                == (*p.fallback).spec_name(),
{
    let w = (*p.fallback).spec_name();
    let full = p.spec_name();
    let k = full.len() - w.len();
    assert(full.subrange(k as int, k as int + w.len() as int) =~= w);
}

} // verus!
