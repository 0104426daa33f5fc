use wg_mesh::dns::node_repository::{
    collect_peers, host_route_text, host_routes_text, is_private_ipv4, mesh_members,
    peer_from_answers, public_ipv4_flag, pubkey_from_txt, site_of, wireguard_record_name,
    DnsFailure,
};
use wg_mesh::dns::resolver::from_resolv_conf;
use wg_mesh::error::NodeRepository;
use wg_mesh::model::Peer;

fn no_answer() -> DnsFailure {
    DnsFailure { no_answer: true, error: rsdns::Error::NoAnswer }
}

fn timeout() -> DnsFailure {
    DnsFailure { no_answer: false, error: rsdns::Error::Timeout }
}

#[test]
fn allowed_ips_follow_answer_order() {
    let peer = peer_from_answers(
        "n1.site.example",
        false,
        "key".to_string(),
        Ok(vec![[10, 0, 0, 5], [203, 0, 113, 9]]),
    )
    .unwrap();
    assert_eq!(peer.allowed_ips, vec!["10.0.0.5/32".to_string(), "203.0.113.9/32".to_string()]);
    assert_eq!(peer.endpoint, ("n1.site.example".to_string(), 51820));
    assert_eq!(peer.site, ".site.example");
    assert_eq!(peer.public_key, "key");
    assert!(!peer.has_public_ipv4_address);
}

#[test]
fn host_route_formats_every_width() {
    assert_eq!(host_route_text([0, 9, 10, 255]), "0.9.10.255/32");
    assert_eq!(host_route_text([192, 168, 100, 1]), "192.168.100.1/32");
    assert!(host_routes_text(&Vec::new()).is_empty());
}

#[test]
fn private_ranges() {
    assert!(is_private_ipv4([10, 0, 0, 1]));
    assert!(is_private_ipv4([172, 16, 0, 1]));
    assert!(is_private_ipv4([172, 31, 255, 255]));
    assert!(!is_private_ipv4([172, 32, 0, 1]));
    assert!(!is_private_ipv4([172, 15, 0, 1]));
    assert!(is_private_ipv4([192, 168, 1, 1]));
    assert!(!is_private_ipv4([192, 169, 1, 1]));
    assert!(!is_private_ipv4([8, 8, 8, 8]));
}

#[test]
fn missing_own_a_record_means_no_public_address() {
    assert!(matches!(public_ipv4_flag(Err(no_answer())), Ok(false)));
}

#[test]
fn own_a_records_decide_public_flag() {
    assert!(matches!(public_ipv4_flag(Ok(vec![[10, 0, 0, 1], [203, 0, 113, 1]])), Ok(true)));
    assert!(matches!(public_ipv4_flag(Ok(vec![[10, 0, 0, 1], [192, 168, 0, 1]])), Ok(false)));
    assert!(matches!(public_ipv4_flag(Ok(Vec::new())), Ok(false)));
}

#[test]
fn other_dns_failure_of_own_a_query_is_reported() {
    assert!(matches!(
        public_ipv4_flag(Err(timeout())),
        Err(NodeRepository::Rsdns(rsdns::Error::Timeout))
    ));
}

#[test]
fn missing_pubkey_record_names_the_query() {
    match pubkey_from_txt("_wireguard.n1.example", Err(no_answer())) {
        Err(NodeRepository::MissingPubkeyRecord(n)) => assert_eq!(n, "_wireguard.n1.example"),
        other => panic!("unexpected {:?}", other),
    }
    match pubkey_from_txt("_wireguard.n1.example", Ok(Vec::new())) {
        Err(NodeRepository::MissingPubkeyRecord(n)) => assert_eq!(n, "_wireguard.n1.example"),
        other => panic!("unexpected {:?}", other),
    }
}

#[test]
fn pubkey_is_first_txt_record() {
    let key = pubkey_from_txt("q", Ok(vec![b"first".to_vec(), b"second".to_vec()])).unwrap();
    assert_eq!(key, "first");
}

#[test]
fn non_utf8_pubkey_record_is_fatal() {
    match pubkey_from_txt("q", Ok(vec![vec![0xff, 0xfe]])) {
        Err(NodeRepository::MalformedTxtRecord(n)) => assert_eq!(n, "q"),
        other => panic!("unexpected {:?}", other),
    }
}

#[test]
fn non_utf8_member_record_is_fatal() {
    let records = vec![b"a.s1".to_vec(), vec![0xc3, 0x28]];
    match mesh_members("mesh", Ok(records)) {
        Err(NodeRepository::MalformedTxtRecord(n)) => assert_eq!(n, "mesh"),
        other => panic!("unexpected {:?}", other),
    }
}

#[test]
fn failed_member_query_is_reported() {
    assert!(matches!(
        mesh_members("mesh", Err(no_answer())),
        Err(NodeRepository::Rsdns(rsdns::Error::NoAnswer))
    ));
}

#[test]
fn site_starts_at_first_dot() {
    assert_eq!(site_of("a.site1.example"), ".site1.example");
    assert_eq!(site_of("localhost"), "");
    assert_eq!(site_of(".x"), ".x");
    assert_eq!(site_of(""), "");
}

#[test]
fn wireguard_name_prefixes_address() {
    assert_eq!(wireguard_record_name("a.site1.example"), "_wireguard.a.site1.example");
}

#[test]
fn failed_allowed_ip_query_is_reported() {
    assert!(matches!(
        peer_from_answers("n", true, "k".to_string(), Err(timeout())),
        Err(NodeRepository::Rsdns(rsdns::Error::Timeout))
    ));
}

fn ok_peer(key: &str) -> Result<Peer, NodeRepository> {
    peer_from_answers("n.s", false, key.to_string(), Ok(Vec::new()))
}

#[test]
fn collecting_is_all_or_nothing() {
    let all = collect_peers(vec![ok_peer("a"), ok_peer("b")]).unwrap();
    assert_eq!(all.len(), 2);
    assert_eq!(all[1].public_key, "b");
    let failed = collect_peers(vec![
        ok_peer("a"),
        Err(NodeRepository::MissingPubkeyRecord("first".to_string())),
        Err(NodeRepository::MissingPubkeyRecord("second".to_string())),
    ]);
    match failed {
        Err(NodeRepository::MissingPubkeyRecord(n)) => assert_eq!(n, "first"),
        other => panic!("unexpected {:?}", other),
    }
    assert!(collect_peers(Vec::new()).unwrap().is_empty());
}

#[test]
fn first_nameserver_on_dns_port() {
    let ns = from_resolv_conf(&b"nameserver 192.0.2.53\nnameserver 8.8.8.8\n".to_vec()).unwrap();
    assert_eq!(ns.address, vec![192, 0, 2, 53]);
    assert_eq!(ns.port, 53);
}

#[test]
fn no_nameserver_is_invalid() {
    assert!(matches!(
        from_resolv_conf(&b"search example.com\n".to_vec()),
        Err(NodeRepository::InvalidNameserver(_))
    ));
}
