//! Peer seed parsing: well-formed entries become peers, malformed entries
//! are skipped.

use base_node_core::peers::{assign_peers, parse_peer_seed};

#[test]
fn well_formed_seed_becomes_a_peer() {
    let seed = b"0aff::/ip4/127.0.0.1/tcp/9000".to_vec();
    let peer = parse_peer_seed(&seed).unwrap();
    assert_eq!(peer.public_key, vec![0x0a, 0xff]);
    assert_eq!(peer.address, b"/ip4/127.0.0.1/tcp/9000".to_vec());
    assert_eq!(peer.flags, 0);
    assert_eq!(peer.features, 0);
}

#[test]
fn node_id_is_derived_from_the_key() {
    let a = parse_peer_seed(&b"0aff::addr-one".to_vec()).unwrap();
    let b = parse_peer_seed(&b"0aff::addr-two".to_vec()).unwrap();
    let c = parse_peer_seed(&b"0b00::addr-one".to_vec()).unwrap();
    assert_eq!(a.node_id, b.node_id);
    assert_ne!(a.node_id, c.node_id);
}

#[test]
fn malformed_seeds_are_skipped() {
    let seeds = vec![
        b"0aff::/ip4/1.2.3.4/tcp/1".to_vec(), // fine
        b"no-separator".to_vec(),
        b"0af::/odd/hex/length".to_vec(),
        b"zzzz::/not/hex".to_vec(),
        b"::/empty/key".to_vec(),
        b"0aff::".to_vec(), // empty address
        b"0b00::/ip4/5.6.7.8/tcp/2".to_vec(), // fine
    ];
    let peers = assign_peers(&seeds);
    assert_eq!(peers.len(), 2);
    assert_eq!(peers[0].public_key, vec![0x0a, 0xff]);
    assert_eq!(peers[1].public_key, vec![0x0b, 0x00]);
}
