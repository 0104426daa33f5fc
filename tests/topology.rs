use wg_mesh::dns::node_repository::{mesh_members, peer_from_answers};
use wg_mesh::error::Mesh;
use wg_mesh::mesh::filter_peers::filter_peers;
use wg_mesh::model::Peer;

fn member(addr: &str, key: &str, public: bool) -> Peer {
    let address: [u8; 4] = if public { [203, 0, 113, 7] } else { [10, 1, 2, 3] };
    peer_from_answers(addr, public, key.to_string(), Ok(vec![address])).unwrap()
}

fn keys(peers: &[Peer]) -> Vec<String> {
    let mut k: Vec<String> = peers.iter().map(|p| p.public_key.clone()).collect();
    k.sort();
    k
}

#[test]
fn three_member_mesh_selects_other_site_only() {
    let records = vec![
        b"a.site1.example".to_vec(),
        b"b.site1.example".to_vec(),
        b"c.site2.example".to_vec(),
    ];
    let members = mesh_members("_wg-mesh.example.com", Ok(records)).unwrap();
    assert_eq!(members, vec!["a.site1.example", "b.site1.example", "c.site2.example"]);
    let peers = vec![
        member(&members[0], "key-a", false),
        member(&members[1], "key-b", false),
        member(&members[2], "key-c", true),
    ];
    let selected = filter_peers("key-a", peers).unwrap();
    assert_eq!(keys(&selected), vec!["key-c".to_string()]);
}

#[test]
fn both_public_sides_get_no_link() {
    let peers = vec![member("a.site1.example", "key-a", true), member("c.site2.example", "key-c", true)];
    let selected = filter_peers("key-a", peers).unwrap();
    assert!(selected.is_empty());
}

#[test]
fn one_public_side_gets_a_link() {
    let peers = vec![member("a.site1.example", "key-a", true), member("c.site2.example", "key-c", false)];
    let selected = filter_peers("key-a", peers).unwrap();
    assert_eq!(keys(&selected), vec!["key-c".to_string()]);
}

#[test]
fn selection_never_holds_self_same_site_or_double_public() {
    let peers = vec![
        member("a.s1", "k1", true),
        member("b.s1", "k2", false),
        member("c.s2", "k3", true),
        member("d.s3", "k4", false),
        member("e.s4", "k1", false),
        member("f.s5", "k5", false),
    ];
    let selected = filter_peers("k1", peers).unwrap();
    for p in &selected {
        assert_ne!(p.public_key, "k1");
        assert_ne!(p.site, ".s1");
        assert!(!p.has_public_ipv4_address);
    }
    assert_eq!(keys(&selected), vec!["k4".to_string(), "k5".to_string()]);
}

#[test]
fn selection_keeps_input_order() {
    let peers = vec![
        member("a.s1", "k1", false),
        member("z.s9", "k9", false),
        member("b.s2", "k2", false),
    ];
    let selected = filter_peers("k1", peers).unwrap();
    let order: Vec<&str> = selected.iter().map(|p| p.public_key.as_str()).collect();
    assert_eq!(order, vec!["k9", "k2"]);
}

#[test]
fn non_member_is_rejected() {
    let peers = vec![member("a.s1", "k1", false), member("b.s2", "k2", false)];
    match filter_peers("stranger", peers) {
        Err(Mesh::PeerNotPartOfMesh(k)) => assert_eq!(k, "stranger"),
        Ok(_) => panic!("a non-member got a selection"),
    }
}

#[test]
fn empty_mesh_rejects_everyone() {
    assert!(matches!(filter_peers("k1", Vec::new()), Err(Mesh::PeerNotPartOfMesh(_))));
}

#[test]
fn lone_member_selects_nobody() {
    let selected = filter_peers("k1", vec![member("a.s1", "k1", false)]).unwrap();
    assert!(selected.is_empty());
}
