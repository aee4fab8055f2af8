//! The identity record: rendering, parsing, and their round trip.

use base_node_core::identity::{parse_identity, render_identity, NodeIdentity};

fn sample() -> NodeIdentity {
    NodeIdentity {
        private_key: b"0a1b".to_vec(),
        public_key: b"2c3d".to_vec(),
        node_id: b"4e5f".to_vec(),
        features: 262144,
        public_address: b"/ip4/127.0.0.1/tcp/9000".to_vec(),
    }
}

#[test]
fn render_is_the_labeled_line_record() {
    let text = render_identity(&sample());
    let expected = b"private_key=0a1b\npublic_key=2c3d\nnode_id=4e5f\nfeatures=262144\n\
public_address=/ip4/127.0.0.1/tcp/9000\n";
    assert_eq!(text, expected.to_vec());
}

#[test]
fn parse_render_round_trip() {
    let id = sample();
    let parsed = parse_identity(&render_identity(&id)).unwrap();
    assert_eq!(parsed, id);
}

#[test]
fn zero_features_round_trip() {
    let mut id = sample();
    id.features = 0;
    assert_eq!(parse_identity(&render_identity(&id)).unwrap(), id);
    id.features = u64::MAX;
    assert_eq!(parse_identity(&render_identity(&id)).unwrap(), id);
}

#[test]
fn malformed_records_are_rejected() {
    // missing a line
    assert!(parse_identity(&b"private_key=0a1b\npublic_key=2c3d\n".to_vec()).is_none());
    // wrong label
    assert!(parse_identity(
        &b"secret_key=0a1b\npublic_key=2c3d\nnode_id=4e5f\nfeatures=1\npublic_address=a\n".to_vec()
    )
    .is_none());
    // non-canonical decimal: leading zero
    assert!(parse_identity(
        &b"private_key=0a\npublic_key=2c\nnode_id=4e\nfeatures=01\npublic_address=a\n".to_vec()
    )
    .is_none());
    // features out of range
    assert!(parse_identity(
        &b"private_key=0a\npublic_key=2c\nnode_id=4e\nfeatures=18446744073709551616\n\
public_address=a\n"
            .to_vec()
    )
    .is_none());
    // trailing bytes after the last line
    assert!(parse_identity(
        &b"private_key=0a\npublic_key=2c\nnode_id=4e\nfeatures=1\npublic_address=a\nx".to_vec()
    )
    .is_none());
}
