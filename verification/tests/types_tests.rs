use citrea_p2p::types::{
    bytes32_equal, generate_peer_id, BitcoinTxid, EcdsaSignature, MerkleRoot, PeerId, StateRoot,
};

#[test]
fn peer_id_keeps_its_bytes() {
    let mut bytes = [0u8; 32];
    bytes[0] = 7;
    bytes[31] = 9;
    let id = PeerId::new(bytes);
    assert_eq!(id.as_bytes(), &bytes);
    assert_eq!(id.0, bytes);
}

#[test]
fn peer_ids_compare_by_bytes() {
    let a = PeerId::new([1u8; 32]);
    let b = PeerId::new([1u8; 32]);
    let mut other = [1u8; 32];
    other[17] = 2;
    let c = PeerId::new(other);
    assert!(a == b);
    assert!(a != c);
}

#[test]
fn bytes32_equal_finds_a_single_difference() {
    let a = [5u8; 32];
    let mut b = [5u8; 32];
    assert!(bytes32_equal(&a, &b));
    b[31] = 6;
    assert!(!bytes32_equal(&a, &b));
    b[31] = 5;
    b[0] = 0;
    assert!(!bytes32_equal(&a, &b));
}

#[test]
fn random_peer_id_never_has_byte_255() {
    for _ in 0..20 {
        let id = PeerId::random();
        assert!(id.as_bytes().iter().all(|b| *b < 255));
    }
}

#[test]
fn generated_peer_ids_differ() {
    let a = generate_peer_id();
    let b = generate_peer_id();
    assert!(a != b);
}

#[test]
fn hash_types_keep_their_bytes() {
    let txid = BitcoinTxid::new([3u8; 32]);
    assert_eq!(txid.as_bytes(), &[3u8; 32]);
    let root = StateRoot::new([4u8; 32]);
    assert_eq!(root.as_bytes(), &[4u8; 32]);
    let merkle = MerkleRoot::new([5u8; 32]);
    assert_eq!(merkle.as_bytes(), &[5u8; 32]);
    assert!(StateRoot::new([4u8; 32]) == root);
    assert!(StateRoot::new([0u8; 32]) != root);
    assert!(MerkleRoot::new([5u8; 32]) == merkle);
    assert!(BitcoinTxid::new([3u8; 32]) == txid);
}

#[test]
fn ecdsa_signature_keeps_its_parts() {
    let sig = EcdsaSignature::new([1u8; 32], [2u8; 32], 1);
    assert_eq!(sig.r, [1u8; 32]);
    assert_eq!(sig.s, [2u8; 32]);
    assert_eq!(sig.v, 1);
}
