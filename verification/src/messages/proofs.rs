//! Proof messages: sequencer commitments, batch proofs and light client proofs.
use vstd::prelude::*;

use super::{SignedMessage, VerifiableMessage};
use crate::error::{unit_result_view, P2PError, P2PErrorView};
use crate::types::{BitcoinTxid, EcdsaSignature, MerkleRoot, StateRoot};

verus! {

/// The outcome of checking an optional signature: a present signature must
/// have a recovery id of 0 or 1; a missing one is accepted.
pub open spec fn signature_verdict(signature: Option<EcdsaSignature>) -> Result<(), P2PErrorView> {
    match signature {
        Some(sig) => if sig.v > 1 {
            Err(P2PErrorView::Verification("Invalid signature recovery ID"@))
        } else {
            Ok(())
        },
        None => Ok(()),
    }
}

fn check_signature(signature: &Option<EcdsaSignature>) -> (res: Result<(), P2PError>)
    ensures
        unit_result_view(res) == signature_verdict(*signature),
{
    if let Some(sig) = signature {
        if sig.v > 1 {
            return Err(P2PError::Verification(String::from_str("Invalid signature recovery ID")));
        }
    }
    Ok(())
}

/// Message containing sequencer commitment data.
///
/// Sequencer commitments represent batches of L2 blocks that are committed
/// to L1 (Bitcoin) for security.
#[derive(Debug, Clone, Copy)]
pub struct SequencerCommitmentMessage {
    /// Sequential index of this commitment
    pub index: u64,
    /// The ending L2 block number included in this commitment
    pub l2_end: u64,
    /// Merkle root of the committed state
    pub merkle_root: MerkleRoot,
    /// Bitcoin transaction ID where this was committed
    pub bitcoin_txid: BitcoinTxid,
    /// Signature of the sequencer (if available)
    pub signature: Option<EcdsaSignature>,
}

impl SequencerCommitmentMessage {
    /// Create a new sequencer commitment message
    pub fn new(
        index: u64,
        l2_end: u64,
        merkle_root: MerkleRoot,
        bitcoin_txid: BitcoinTxid,
        signature: Option<EcdsaSignature>,
    ) -> (res: Self)
        ensures
            res == (SequencerCommitmentMessage { index, l2_end, merkle_root, bitcoin_txid, signature }),
    {
        SequencerCommitmentMessage { index, l2_end, merkle_root, bitcoin_txid, signature }
    }
}

impl SignedMessage for SequencerCommitmentMessage {
    fn verify_signature(&self) -> (res: Result<(), P2PError>)
        ensures
            unit_result_view(res) == signature_verdict(self.signature),
    {
        check_signature(&self.signature)
    }
}

/// Message containing batch proof data.
///
/// Batch proofs provide cryptographic evidence that the sequencer's
/// commitments are valid.
#[derive(Debug)]
pub struct BatchProofMessage {
    /// Bitcoin transaction ID this proof corresponds to
    pub bitcoin_txid: BitcoinTxid,
    /// The zk-SNARK proof data
    pub groth16_proof: Vec<u8>,
    /// Signature of the proof producer (if available)
    pub signature: Option<EcdsaSignature>,
}

impl BatchProofMessage {
    /// Create a new batch proof message
    pub fn new(bitcoin_txid: BitcoinTxid, groth16_proof: Vec<u8>, signature: Option<EcdsaSignature>) -> (res:
        Self)
        ensures
            res == (BatchProofMessage { bitcoin_txid, groth16_proof, signature }),
    {
        BatchProofMessage { bitcoin_txid, groth16_proof, signature }
    }
}

impl SignedMessage for BatchProofMessage {
    fn verify_signature(&self) -> (res: Result<(), P2PError>)
        ensures
            unit_result_view(res) == signature_verdict(self.signature),
    {
        check_signature(&self.signature)
    }
}

/// Message containing light client proof data.
///
/// Light client proofs allow lightweight verification of the network
/// state without requiring full state storage or computation.
#[derive(Debug)]
pub struct LightClientProofMessage {
    /// The ZK proof data for light client verification
    pub zk_proof: Vec<u8>,
    /// The state root being proven
    pub state_root: StateRoot,
}

impl LightClientProofMessage {
    /// Create a new light client proof message
    pub fn new(zk_proof: Vec<u8>, state_root: StateRoot) -> (res: Self)
        ensures
            res == (LightClientProofMessage { zk_proof, state_root }),
    {
        LightClientProofMessage { zk_proof, state_root }
    }
}

/// The outcome of checking a light client proof: the proof must not be empty.
pub open spec fn light_client_verdict(zk_proof: Seq<u8>) -> Result<(), P2PErrorView> {
    if zk_proof.len() == 0 {
        Err(P2PErrorView::Verification("Empty ZK proof"@))
    } else {
        Ok(())
    }
}

impl VerifiableMessage for LightClientProofMessage {
    fn verify(&self) -> (res: Result<(), P2PError>)
        ensures
            unit_result_view(res) == light_client_verdict(self.zk_proof@),
    {
        if self.zk_proof.len() == 0 {
            return Err(P2PError::Verification(String::from_str("Empty ZK proof")));
        }
        Ok(())
    }
}

} // verus!
