use std::sync::Arc;

use batch_routing::batch::Consistency;
use batch_routing::cluster::{ClusterData, Node};
use batch_routing::enforce_node::EnforceTargetNodePolicy;
use batch_routing::policy::{FixedOrderPolicy, LoadBalancingPolicy, RoutingInfo};

fn query() -> RoutingInfo {
    RoutingInfo { consistency: Consistency::One, token: None }
}

fn cluster_of(nodes: &[Node]) -> ClusterData {
    let mut cluster = ClusterData::new();
    for node in nodes {
        cluster.add_node(*node);
    }
    cluster
}

fn drain(policy: &impl LoadBalancingPolicy, cluster: &ClusterData) -> Vec<Node> {
    let mut plan = policy.fallback(&query(), cluster);
    let mut out: Vec<Node> = Vec::new();
    while let Some(node) = plan.next_node() {
        out.push(node);
    }
    out
}

#[test]
fn pick_prefers_target_when_alive() {
    let target = Node { host_id: 7, is_up: true };
    let other = Node { host_id: 9, is_up: true };
    let cluster = cluster_of(&[target, other]);
    let base = Arc::new(FixedOrderPolicy::new(vec![9]));
    let policy = EnforceTargetNodePolicy::new(&target, base);
    assert_eq!(policy.pick(&query(), &cluster), Some(&target));
}

#[test]
fn scenario_b_pick_delegates_when_target_not_alive() {
    let target = Node { host_id: 7, is_up: false };
    let other = Node { host_id: 9, is_up: true };
    let cluster = cluster_of(&[target, other]);
    let base = Arc::new(FixedOrderPolicy::new(vec![9, 7]));
    let policy = EnforceTargetNodePolicy::new(&target, base.clone());

    let independent = base.pick(&query(), &cluster);
    assert_eq!(independent, Some(&other));
    assert_eq!(policy.pick(&query(), &cluster), independent);
}

#[test]
fn pick_delegates_when_target_absent() {
    let target = Node { host_id: 7, is_up: true };
    let other = Node { host_id: 9, is_up: true };
    let cluster = cluster_of(&[other]);
    let base = Arc::new(FixedOrderPolicy::new(vec![9]));
    let policy = EnforceTargetNodePolicy::new(&target, base.clone());
    assert_eq!(policy.pick(&query(), &cluster), base.pick(&query(), &cluster));
    assert_eq!(policy.pick(&query(), &cluster), Some(&other));
}

#[test]
fn pick_absence_is_a_normal_outcome() {
    let target = Node { host_id: 7, is_up: false };
    let cluster = cluster_of(&[target]);
    let base = Arc::new(FixedOrderPolicy::new(vec![7]));
    let policy = EnforceTargetNodePolicy::new(&target, base);
    assert_eq!(policy.pick(&query(), &cluster), None);
}

#[test]
fn fallback_plan_is_the_wrapped_policys_plan() {
    let a = Node { host_id: 1, is_up: true };
    let b = Node { host_id: 2, is_up: false };
    let c = Node { host_id: 3, is_up: true };
    let cluster = cluster_of(&[a, b, c]);
    let base = Arc::new(FixedOrderPolicy::new(vec![3, 2, 1, 4]));
    let policy = EnforceTargetNodePolicy::new(&b, base.clone());

    let from_decorator = drain(&policy, &cluster);
    let from_base = drain(&*base, &cluster);
    assert_eq!(from_decorator, from_base);
    assert_eq!(from_base, vec![c, a]);
}

#[test]
fn fallback_plan_can_be_abandoned() {
    let a = Node { host_id: 1, is_up: true };
    let b = Node { host_id: 2, is_up: true };
    let cluster = cluster_of(&[a, b]);
    let base = FixedOrderPolicy::new(vec![1, 2]);
    let mut plan = base.fallback(&query(), &cluster);
    assert_eq!(plan.next_node(), Some(a));
    // Abandon the rest; a fresh call recomputes the full plan.
    let mut fresh = base.fallback(&query(), &cluster);
    assert_eq!(fresh.next_node(), Some(a));
    assert_eq!(fresh.next_node(), Some(b));
    assert_eq!(fresh.next_node(), None);
}

#[test]
fn name_contains_the_wrapped_policy_name() {
    let target = Node { host_id: 7, is_up: true };
    let base = Arc::new(FixedOrderPolicy::new(vec![]));
    let wrapped_name = base.name();
    let policy = EnforceTargetNodePolicy::new(&target, base);
    assert!(policy.name().contains(&wrapped_name));
}

#[test]
fn name_embeds_the_hyphenated_node_id() {
    let target = Node { host_id: 0x12345678_9abc_def0_1122_334455667788, is_up: true };
    let base = Arc::new(FixedOrderPolicy::new(vec![]));
    let policy = EnforceTargetNodePolicy::new(&target, base);
    assert_eq!(
        policy.name(),
        "Enforce target node Load balancing policy - Node: \
         12345678-9abc-def0-1122-334455667788 - fallback: \
         Fixed order load balancing policy"
    );
}

#[test]
fn later_record_for_the_same_identity_wins() {
    let stale = Node { host_id: 5, is_up: false };
    let fresh = Node { host_id: 5, is_up: true };
    let cluster = cluster_of(&[stale, fresh]);
    assert_eq!(cluster.get_node(5), Some(&fresh));
}

#[test]
fn snapshot_lookup_resolves_identity() {
    let a = Node { host_id: 5, is_up: true };
    let cluster = cluster_of(&[a]);
    assert_eq!(cluster.get_node(5), Some(&a));
    assert_eq!(cluster.get_node(6), None);
}
