use wg_mesh::dns::node_repository::peer_from_answers;
use wg_mesh::error::{Routing, Wireguard};
use wg_mesh::model::Peer;
use wg_mesh::routing::routing_service::{check_insertion, plan_routes, RouteFailure, RouteRequest};
use wg_mesh::wireguard::peer::device_peer_of;
use wg_mesh::wireguard::wireguard_device::{
    after_open_attempt, interface_pubkey, replace_peers_update, OpenStep, WireguardImpl,
};

const KEY: &str = "DD5yKRfzExcV5+kDnTroDgCU15latdMjiQ59j1hEuk8=";

fn peer(key: &str, addrs: Vec<[u8; 4]>) -> Peer {
    peer_from_answers("n.site.example", false, key.to_string(), Ok(addrs)).unwrap()
}

#[test]
fn existing_route_is_success() {
    let exists = RouteFailure { code: Some(-17), error: rtnetlink::Error::RequestFailed };
    assert!(check_insertion(Err(exists)).is_ok());
    assert!(check_insertion(Ok(())).is_ok());
}

#[test]
fn other_route_failure_is_fatal() {
    let denied = RouteFailure { code: Some(-1), error: rtnetlink::Error::RequestFailed };
    assert!(matches!(check_insertion(Err(denied)), Err(Routing::NetlinkError(_))));
    let no_code = RouteFailure { code: None, error: rtnetlink::Error::RequestFailed };
    assert!(matches!(check_insertion(Err(no_code)), Err(Routing::NetlinkError(_))));
}

#[test]
fn second_insertion_pass_does_not_fail() {
    let first = check_insertion(Ok(()));
    let second = check_insertion(Err(RouteFailure {
        code: Some(-17),
        error: rtnetlink::Error::RequestFailed,
    }));
    assert!(first.is_ok() && second.is_ok());
}

#[test]
fn routes_go_through_the_interface() {
    let peers = vec![peer("k1", vec![[10, 0, 0, 5], [203, 0, 113, 9]]), peer("k2", vec![[10, 0, 0, 6]])];
    let routes = plan_routes("wg0", Ok(Some(7)), &peers).unwrap();
    let expected = vec![
        RouteRequest { input_interface: 7, output_interface: 7, destination: [10, 0, 0, 5], prefix_len: 32 },
        RouteRequest { input_interface: 7, output_interface: 7, destination: [203, 0, 113, 9], prefix_len: 32 },
        RouteRequest { input_interface: 7, output_interface: 7, destination: [10, 0, 0, 6], prefix_len: 32 },
    ];
    assert_eq!(routes, expected);
}

#[test]
fn missing_interface_is_named() {
    match plan_routes("wg9", Ok(None), &Vec::new()) {
        Err(Routing::NoSuchInterface(n)) => assert_eq!(n, "wg9"),
        other => panic!("unexpected {:?}", other),
    }
    assert!(matches!(
        plan_routes("wg0", Err(rtnetlink::Error::RequestFailed), &Vec::new()),
        Err(Routing::NetlinkError(_))
    ));
}

#[test]
fn malformed_destination_never_becomes_a_route() {
    let mut p = peer("k1", vec![[10, 0, 0, 5]]);
    p.allowed_ips.push("10.0.0.300/32".to_string());
    p.allowed_ips.push("nonsense".to_string());
    match plan_routes("wg0", Ok(Some(3)), &vec![p]) {
        Err(Routing::InvalidDestination(d)) => assert_eq!(d, "10.0.0.300/32"),
        other => panic!("unexpected {:?}", other),
    }
}

#[test]
fn device_peer_has_key_ips_and_keepalive() {
    let d = device_peer_of(&peer(KEY, vec![[10, 0, 0, 5], [10, 0, 0, 6]])).unwrap();
    assert_eq!(d.allowed_ips.len(), 2);
    assert_eq!(d.persistent_keepalive_interval, 25);
    assert_eq!(d.endpoint, ("n.site.example".to_string(), 51820));
    assert_eq!(d.public_key[0], 0x0c);
}

#[test]
fn bad_key_is_invalid_public_key() {
    match device_peer_of(&peer("not a key", vec![[10, 0, 0, 5]])) {
        Err(Wireguard::InvalidPublicKey(_, k)) => assert_eq!(k, "not a key"),
        other => panic!("unexpected {:?}", other),
    }
}

#[test]
fn bad_allowed_ip_is_invalid_ip_address() {
    let mut p = peer(KEY, vec![[10, 0, 0, 5]]);
    p.allowed_ips.push("10.0.0/32".to_string());
    match device_peer_of(&p) {
        Err(Wireguard::InvalidIpAddress(a)) => assert_eq!(a, "10.0.0/32"),
        other => panic!("unexpected {:?}", other),
    }
}

#[test]
fn update_replaces_all_peers() {
    let peers = vec![peer(KEY, vec![[10, 0, 0, 5]]), peer(KEY, vec![])];
    let first = replace_peers_update(&peers).unwrap();
    let second = replace_peers_update(&peers).unwrap();
    assert!(first.replace_peers && second.replace_peers);
    assert_eq!(first.peers.len(), 2);
    assert_eq!(first.peers[0].public_key, second.peers[0].public_key);
    assert_eq!(first.peers[0].allowed_ips, second.peers[0].allowed_ips);
    assert!(replace_peers_update(&Vec::new()).unwrap().peers.is_empty());
}

#[test]
fn update_fails_on_first_bad_peer() {
    let peers = vec![peer(KEY, vec![]), peer("bad", vec![]), peer("worse", vec![])];
    match replace_peers_update(&peers) {
        Err(Wireguard::InvalidPublicKey(_, k)) => assert_eq!(k, "bad"),
        other => panic!("unexpected {:?}", other),
    }
}

#[test]
fn identity_is_base64_of_device_key() {
    let mut bytes = [0u8; 32];
    bytes[0] = 0x0c;
    bytes[1] = 0x3e;
    let key = interface_pubkey(Ok(Some(bytes))).unwrap();
    assert_eq!(key.len(), 44);
    assert!(key.starts_with("DD4A"));
    assert!(matches!(interface_pubkey(Ok(None)), Err(Wireguard::NoPubkey)));
    let gone = std::io::Error::new(std::io::ErrorKind::NotFound, "no device");
    assert!(matches!(interface_pubkey(Err(gone)), Err(Wireguard::NoSuchDevice(_))));
}

#[test]
fn interface_names() {
    assert!(WireguardImpl::new("wg0").is_ok());
    assert!(WireguardImpl::new("abcdefghijklmno").is_ok());
    for bad in ["", "abcdefghijklmnop", "wg/0", "wg 0"] {
        match WireguardImpl::new(bad) {
            Err(Wireguard::InvalidInterfaceName(n)) => assert_eq!(n, bad),
            Ok(_) => panic!("accepted {:?}", bad),
            Err(e) => panic!("unexpected {:?}", e),
        }
    }
}

#[test]
fn opening_retries_then_gives_up() {
    assert!(matches!(after_open_attempt(1, WireguardImpl::new("")), OpenStep::Retry));
    assert!(matches!(after_open_attempt(12, WireguardImpl::new("")), OpenStep::Retry));
    assert!(matches!(
        after_open_attempt(13, WireguardImpl::new("")),
        OpenStep::Finished(Err(Wireguard::InvalidInterfaceName(_)))
    ));
    assert!(matches!(after_open_attempt(1, WireguardImpl::new("wg0")), OpenStep::Finished(Ok(_))));
}
