use placement_center::config::{
    bootstrap_plan, calc_init_node, default_grpc_port, default_node_id, placement_center_conf,
    ConfigSlot, Log, Node, PlacementCenterConfig,
};
use std::collections::BTreeMap;

fn node(id: u64, addr: &str) -> Node {
    Node { node_id: id, rpc_addr: addr.to_string() }
}

fn three_nodes() -> BTreeMap<u64, Node> {
    let mut nodes = BTreeMap::new();
    nodes.insert(3, node(3, "127.0.0.1:3228"));
    nodes.insert(1, node(1, "127.0.0.1:1228"));
    nodes.insert(2, node(2, "127.0.0.1:2228"));
    nodes
}

#[test]
fn log_print() {
    let log = Log { log_config: "config/log4rs.yaml".to_string(), log_path: "./logs".to_string() };
    assert_eq!(log.log_path, "./logs");
}

#[test]
fn defaults() {
    assert_eq!(default_node_id(), 1);
    assert_eq!(default_grpc_port(), 9982);
}

#[test]
fn init_node_is_lowest_id() {
    assert_eq!(calc_init_node(&three_nodes()), 1);
    let mut one = BTreeMap::new();
    one.insert(7, node(7, "a"));
    assert_eq!(calc_init_node(&one), 7);
}

#[test]
fn bootstrap_node_initializes_and_adds_learners() {
    let plan = bootstrap_plan(1, &three_nodes(), false);
    assert_eq!(plan.initialize, Some(node(1, "127.0.0.1:1228")));
    let ids: Vec<u64> = plan.learners.iter().map(|(id, _)| *id).collect();
    assert_eq!(ids, vec![2, 3]);
    assert_eq!(plan.learners[1].1, node(3, "127.0.0.1:3228"));
}

#[test]
fn other_nodes_do_nothing_at_start() {
    let plan = bootstrap_plan(2, &three_nodes(), false);
    assert_eq!(plan.initialize, None);
    assert!(plan.learners.is_empty());
}

#[test]
fn configuration_is_set_once() {
    let mut slot = ConfigSlot::new();
    let first = PlacementCenterConfig { node_id: 1, grpc_port: 1228, ..Default::default() };
    let second = PlacementCenterConfig { node_id: 2, grpc_port: 2228, ..Default::default() };
    assert_eq!(slot.init_placement_center_conf(first).grpc_port, 1228);
    assert_eq!(slot.init_placement_center_conf(second).node_id, 1);
    assert_eq!(placement_center_conf(&slot).grpc_port, 1228);
}

#[test]
fn initialized_bootstrap_node_only_adds_learners() {
    let plan = bootstrap_plan(1, &three_nodes(), true);
    assert_eq!(plan.initialize, None);
    let ids: Vec<u64> = plan.learners.iter().map(|(id, _)| *id).collect();
    assert_eq!(ids, vec![2, 3]);
}
