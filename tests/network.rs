use placement_center::config::Node;
use placement_center::error::RobustMQError;
use placement_center::network::{pool_key, service_module, to_error, Network, RPCError};
use placement_center::retry::PlacementCenterService;

#[test]
fn pool_keys_name_service_and_address() {
    let addr = "127.0.0.1:1228".to_string();
    assert_eq!(pool_key(PlacementCenterService::Kv, &addr), "PlacementCenter_KvServices_127.0.0.1:1228");
    assert_eq!(
        pool_key(PlacementCenterService::OpenRaft, &addr),
        "PlacementCenter_OpenRaftServices_127.0.0.1:1228"
    );
    assert_eq!(service_module(PlacementCenterService::Kv), "KvServices");
}

#[test]
fn transport_failures_are_unreachable() {
    let e = RobustMQError::NoAvailableGrpcConnection("OpenRaftServices".to_string(), "refused".to_string());
    assert_eq!(to_error(e.clone()), RPCError::Unreachable(e));
}

#[test]
fn client_uses_the_node_address() {
    let net = Network::new();
    let c = net.new_client(2, &Node { node_id: 2, rpc_addr: "10.0.0.2:1228".to_string() });
    assert_eq!(c.addr, "10.0.0.2:1228");
    assert_eq!(c.target, 2);
}
