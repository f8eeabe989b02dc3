use citrea_p2p::error::P2PError;
use citrea_p2p::messages::blocks::{
    BlockAnnouncementMessage, BlockRangeRequestMessage, BlockRequestMessage, L2BlockHeader,
    L2BlockMessage,
};
use citrea_p2p::messages::envelope::{CitreaMessage, Custom, MessageEnvelope, PROTOCOL_VERSION};
use citrea_p2p::messages::proofs::{
    BatchProofMessage, LightClientProofMessage, SequencerCommitmentMessage,
};
use citrea_p2p::messages::transactions::{EVMTransactionMessage, EVMTransactionType};
use citrea_p2p::messages::{
    create_message, create_message_for_chain, SignedMessage, VerifiableMessage, DEFAULT_CHAIN_ID,
};
use citrea_p2p::types::{BitcoinTxid, EcdsaSignature, MerkleRoot, PeerId, StateRoot};

fn block(number: u64, timestamp: u64, parent: [u8; 32]) -> L2BlockMessage {
    L2BlockMessage::new(
        L2BlockHeader::new(number, timestamp, parent, StateRoot::new([7u8; 32])),
        MerkleRoot::new([8u8; 32]),
    )
}

fn verification_text(r: Result<(), P2PError>) -> String {
    match r {
        Err(P2PError::Verification(text)) => text,
        other => panic!("expected a verification error, got {:?}", other),
    }
}

#[test]
fn block_constructors_keep_fields() {
    let b = block(5, 100, [1u8; 32]);
    assert_eq!(b.header.block_number, 5);
    assert_eq!(b.header.timestamp, 100);
    assert_eq!(b.header.parent_hash, [1u8; 32]);
    assert!(b.header.state_root == StateRoot::new([7u8; 32]));
    assert!(b.transactions_merkle_root == MerkleRoot::new([8u8; 32]));
    let r = BlockRangeRequestMessage::new(1, 50, 50, true, 9);
    assert_eq!((r.start_block, r.end_block, r.max_blocks, r.include_transactions, r.request_id), (1, 50, 50, true, 9));
}

#[test]
fn valid_blocks_verify() {
    assert!(block(5, 100, [1u8; 32]).verify().is_ok());
    assert!(block(0, 100, [0u8; 32]).verify().is_ok());
}

#[test]
fn block_with_zero_timestamp_is_refused() {
    assert_eq!(verification_text(block(5, 0, [0u8; 32]).verify()), "Block timestamp cannot be zero");
    assert_eq!(verification_text(block(0, 0, [1u8; 32]).verify()), "Block timestamp cannot be zero");
}

#[test]
fn genesis_block_needs_zero_parent() {
    let mut parent = [0u8; 32];
    parent[31] = 1;
    assert_eq!(
        verification_text(block(0, 10, parent).verify()),
        "Invalid parent hash for genesis block"
    );
}

#[test]
fn signatures_need_recovery_id_zero_or_one() {
    let txid = BitcoinTxid::new([1u8; 32]);
    let root = MerkleRoot::new([2u8; 32]);
    let ok = SequencerCommitmentMessage::new(1, 10, root, txid, Some(EcdsaSignature::new([0; 32], [0; 32], 1)));
    assert!(ok.verify_signature().is_ok());
    let none = SequencerCommitmentMessage::new(1, 10, root, txid, None);
    assert!(none.verify_signature().is_ok());
    let bad = SequencerCommitmentMessage::new(1, 10, root, txid, Some(EcdsaSignature::new([0; 32], [0; 32], 2)));
    assert_eq!(verification_text(bad.verify_signature()), "Invalid signature recovery ID");
    let proof_ok = BatchProofMessage::new(txid, vec![1, 2], Some(EcdsaSignature::new([0; 32], [0; 32], 0)));
    assert!(proof_ok.verify_signature().is_ok());
    let proof_bad = BatchProofMessage::new(txid, vec![1, 2], Some(EcdsaSignature::new([0; 32], [0; 32], 27)));
    assert_eq!(verification_text(proof_bad.verify_signature()), "Invalid signature recovery ID");
    assert_eq!(ok.index, 1);
    assert_eq!(ok.l2_end, 10);
    assert_eq!(proof_ok.groth16_proof, vec![1, 2]);
}

#[test]
fn light_client_proof_must_not_be_empty() {
    let root = StateRoot::new([3u8; 32]);
    assert!(LightClientProofMessage::new(vec![1], root).verify().is_ok());
    assert_eq!(
        verification_text(LightClientProofMessage::new(vec![], root).verify()),
        "Empty ZK proof"
    );
}

#[test]
fn transaction_type_from_first_byte() {
    assert_eq!(EVMTransactionType::from_first_byte(&[]), EVMTransactionType::Legacy);
    assert_eq!(EVMTransactionType::from_first_byte(&[1, 5]), EVMTransactionType::AccessList);
    assert_eq!(EVMTransactionType::from_first_byte(&[2]), EVMTransactionType::FeeMarket);
    assert_eq!(EVMTransactionType::from_first_byte(&[0xf8]), EVMTransactionType::Legacy);
    assert_eq!(EVMTransactionType::Legacy.type_byte(), None);
    assert_eq!(EVMTransactionType::AccessList.type_byte(), Some(1));
    assert_eq!(EVMTransactionType::FeeMarket.type_byte(), Some(2));
}

#[test]
fn type_byte_reads_back_as_the_same_type() {
    for t in [EVMTransactionType::AccessList, EVMTransactionType::FeeMarket] {
        let b = t.type_byte().unwrap();
        assert_eq!(EVMTransactionType::from_first_byte(&[b, 0xaa]), t);
    }
}

#[test]
fn new_transaction_reads_its_type() {
    let tx = EVMTransactionMessage::new(vec![2, 0xab]);
    assert_eq!(tx.tx_type, EVMTransactionType::FeeMarket);
    assert_eq!(tx.payload, vec![2, 0xab]);
    assert!(tx.from.is_none() && tx.to.is_none() && tx.gas_info.is_none() && tx.nonce.is_none());
    assert_eq!(tx.size(), 2);
}

#[test]
fn transaction_format_check() {
    assert!(EVMTransactionMessage::new(vec![0xc0]).verify_format());
    assert!(EVMTransactionMessage::new(vec![0xf7, 1]).verify_format());
    assert!(!EVMTransactionMessage::new(vec![0xf8]).verify_format());
    assert!(!EVMTransactionMessage::new(vec![0xbf]).verify_format());
    assert!(EVMTransactionMessage::new(vec![1]).verify_format());
    assert!(EVMTransactionMessage::new(vec![2]).verify_format());
    assert!(!EVMTransactionMessage::new(vec![]).verify_format());
    let mismatched = EVMTransactionMessage::builder(vec![0xc1]).with_type(EVMTransactionType::FeeMarket).build();
    assert!(!mismatched.verify_format());
}

#[test]
fn hex_prefix_of_payloads() {
    assert_eq!(EVMTransactionMessage::new(vec![]).hex_prefix(), "empty");
    assert_eq!(EVMTransactionMessage::new(vec![0x01, 0xab]).hex_prefix(), "0x01ab...");
    assert_eq!(
        EVMTransactionMessage::new((0u8..12).collect()).hex_prefix(),
        "0x0001020304050607..."
    );
    assert_eq!(
        EVMTransactionMessage::new(vec![0xff; 8]).hex_prefix(),
        "0xffffffffffffffff..."
    );
}

#[test]
fn hex_prefix_length_is_two_digits_per_byte() {
    for n in 1..12usize {
        let p = EVMTransactionMessage::new(vec![0x5a; n]).hex_prefix();
        assert_eq!(p.len(), 5 + 2 * n.min(8));
    }
}

#[test]
fn builder_sets_metadata() {
    let tx = EVMTransactionMessage::builder(vec![2, 3])
        .with_from([1u8; 20])
        .with_to([2u8; 20])
        .with_priority_fee(5)
        .with_gas(21000, 100)
        .with_nonce(7)
        .build();
    assert_eq!(tx.tx_type, EVMTransactionType::FeeMarket);
    assert_eq!(tx.from, Some([1u8; 20]));
    assert_eq!(tx.to, Some([2u8; 20]));
    assert_eq!(tx.nonce, Some(7));
    let gas = tx.gas_info.unwrap();
    assert_eq!(gas.gas_limit, 21000);
    assert_eq!(gas.max_fee_per_gas, 100);
    assert_eq!(gas.max_priority_fee_per_gas, Some(5));
}

#[test]
fn builder_without_gas_has_no_gas_info() {
    let tx = EVMTransactionMessage::builder(vec![0xc0]).with_priority_fee(5).build();
    assert!(tx.gas_info.is_none());
    let plain = EVMTransactionMessage::builder(vec![1, 2]).build();
    let made = EVMTransactionMessage::new(vec![1, 2]);
    assert_eq!(plain.payload, made.payload);
    assert_eq!(plain.tx_type, made.tx_type);
    assert!(plain.from.is_none() && plain.to.is_none() && plain.gas_info.is_none() && plain.nonce.is_none());
}

#[test]
fn priority_fee_after_gas_updates_gas_info() {
    let tx = EVMTransactionMessage::builder(vec![2]).with_gas(1, 2).with_priority_fee(3).build();
    assert_eq!(tx.gas_info.unwrap().max_priority_fee_per_gas, Some(3));
    let tx = EVMTransactionMessage::builder(vec![2]).with_gas(1, 2).build();
    assert_eq!(tx.gas_info.unwrap().max_priority_fee_per_gas, None);
}

#[test]
fn message_types_and_accessors() {
    let b = CitreaMessage::L2Block(block(1, 1, [0u8; 32]));
    assert_eq!(b.message_type(), "L2Block");
    assert!(b.as_l2_block().is_some());
    assert!(b.as_block_request().is_none());
    let a = CitreaMessage::BlockAnnouncement(BlockAnnouncementMessage { block_number: 3, block_hash: [0; 32] });
    assert_eq!(a.message_type(), "BlockAnnouncement");
    assert_eq!(a.as_block_announcement().unwrap().block_number, 3);
    let r = CitreaMessage::BlockRequest(BlockRequestMessage { block_number: 4 });
    assert_eq!(r.message_type(), "BlockRequest");
    assert_eq!(r.as_block_request().unwrap().block_number, 4);
    let c = CitreaMessage::Custom(Custom::new("x".to_string(), vec![1]));
    assert_eq!(c.message_type(), "Custom");
    assert!(c.as_evm_transaction().is_none());
    let e = CitreaMessage::EVMTransaction(EVMTransactionMessage::new(vec![1]));
    assert_eq!(e.message_type(), "EVMTransaction");
    assert!(e.as_evm_transaction().is_some());
    let l = CitreaMessage::LightClientProof(LightClientProofMessage::new(vec![1], StateRoot::new([0; 32])));
    assert_eq!(l.message_type(), "LightClientProof");
    assert!(l.as_light_client_proof().is_some());
    let p = CitreaMessage::BatchProof(BatchProofMessage::new(BitcoinTxid::new([0; 32]), vec![], None));
    assert_eq!(p.message_type(), "BatchProof");
    assert!(p.as_batch_proof().is_some());
    assert!(p.as_sequencer_commitment().is_none());
}

#[test]
fn message_verification_by_kind() {
    assert!(CitreaMessage::L2Block(block(1, 1, [0u8; 32])).verify().is_ok());
    assert!(CitreaMessage::L2Block(block(1, 0, [0u8; 32])).verify().is_err());
    assert_eq!(
        verification_text(CitreaMessage::EVMTransaction(EVMTransactionMessage::new(vec![0x10])).verify()),
        "Invalid EVM transaction format"
    );
    assert!(CitreaMessage::EVMTransaction(EVMTransactionMessage::new(vec![0xc5])).verify().is_ok());
    assert!(CitreaMessage::Custom(Custom::new("a".to_string(), vec![])).verify().is_ok());
    assert!(CitreaMessage::BlockRequest(BlockRequestMessage { block_number: 0 }).verify().is_ok());
    assert!(CitreaMessage::LightClientProof(LightClientProofMessage::new(vec![], StateRoot::new([0; 32])))
        .verify()
        .is_err());
}

#[test]
fn envelopes_for_default_and_other_chains() {
    let sender = Some(PeerId::new([1u8; 32]));
    let env = create_message(CitreaMessage::BlockRequest(BlockRequestMessage { block_number: 1 }), sender);
    assert_eq!(env.version, PROTOCOL_VERSION);
    assert_eq!(env.chain_id, DEFAULT_CHAIN_ID);
    assert_eq!(DEFAULT_CHAIN_ID, 2424);
    assert!(env.sender == sender);
    assert!(env.is_for_chain(2424));
    assert!(!env.is_for_chain(1));
    assert!(env.is_compatible());
    assert!(env.timestamp > 0);
    let other = create_message_for_chain(CitreaMessage::BlockRequest(BlockRequestMessage { block_number: 1 }), 7, None);
    assert_eq!(other.chain_id, 7);
    assert!(other.sender.is_none());
    assert!(other.is_for_chain(7));
}

#[test]
fn decoded_envelope_with_other_version_is_refused() {
    let mut env = MessageEnvelope::new(CitreaMessage::BlockRequest(BlockRequestMessage { block_number: 1 }), 2424, None);
    assert!(env.is_compatible());
    env.version = 2;
    assert!(!env.is_compatible());
    assert!(matches!(env.accept_decoded(), Err(P2PError::InvalidProtocolVersion(2))));
    let ok = MessageEnvelope::new(CitreaMessage::BlockRequest(BlockRequestMessage { block_number: 5 }), 2424, None);
    let accepted = ok.accept_decoded().unwrap();
    assert_eq!(accepted.payload.as_block_request().unwrap().block_number, 5);
}

#[test]
fn envelope_new_at_is_stamped_with_the_given_time() {
    let env = MessageEnvelope::new_at(CitreaMessage::BlockRequest(BlockRequestMessage { block_number: 2 }), 7, None, 1234);
    assert_eq!(env.timestamp, 1234);
    assert_eq!(env.version, PROTOCOL_VERSION);
    assert_eq!(env.chain_id, 7);
    assert!(env.is_compatible() && env.is_for_chain(7));
}

#[test]
fn gas_without_priority_fee_has_none_and_last_gas_wins() {
    let tx = EVMTransactionMessage::builder(vec![2]).with_gas(1, 2).with_gas(3, 4).build();
    let gas = tx.gas_info.unwrap();
    assert_eq!((gas.gas_limit, gas.max_fee_per_gas, gas.max_priority_fee_per_gas), (3, 4, None));
}
