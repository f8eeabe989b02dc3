//! Identifier and hash types shared by every part of the P2P system.
use vstd::prelude::*;
use vstd::std_specs::cmp::PartialEqSpecImpl;

use crate::clock::clock_subsec_nanos;
use crate::random::random_bytes32;

verus! {

broadcast use vstd::array::group_array_axioms;

/// Byte-wise equality of two 32-byte arrays.
pub fn bytes32_equal(a: &[u8; 32], b: &[u8; 32]) -> (res: bool)
    ensures
        res == (*a == *b),
{
    let mut i: usize = 0;
    while i < 32
        invariant
            0 <= i <= 32,
            forall|j: int| 0 <= j < i ==> a[j] == b[j],
        decreases 32 - i,
    {
        if a[i] != b[i] {
            return false;
        }
        i = i + 1;
    }
    assert(*a =~= *b);
    true
}

/// A unique identifier for a peer in the network
#[derive(Debug, Clone, Copy, Eq, Hash)]
pub struct PeerId(pub [u8; 32]);

impl PartialEq for PeerId {
    fn eq(&self, other: &Self) -> (res: bool) {
        bytes32_equal(&self.0, &other.0)
    }
}

impl PartialEqSpecImpl for PeerId {
    open spec fn obeys_eq_spec() -> bool {
        true
    }

    open spec fn eq_spec(&self, other: &PeerId) -> bool {
        self.0 == other.0
    }
}

impl PeerId {
    /// Create a new peer ID from bytes
    pub fn new(id: [u8; 32]) -> (res: Self)
        ensures
            res.0 == id,
    {
        PeerId(id)
    }

    /// Generate a pseudo-random peer ID from the clock (useful for testing).
    ///
    /// Every byte is the sub-second nanosecond reading of the clock taken at
    /// that moment, reduced modulo 255, so no byte is ever 255.
    pub fn random() -> (res: Self)
        ensures
            forall|i: int| 0 <= i < 32 ==> res.0[i] < 255,
    {
        let mut id = [0u8; 32];
        let mut i: usize = 0;
        while i < 32
            invariant
                0 <= i <= 32,
                forall|j: int| 0 <= j < 32 ==> id[j] < 255,
            decreases 32 - i,
        {
            let nanos = clock_subsec_nanos();
            let byte: u8 = (nanos % 255) as u8;
            id[i] = byte;
            i = i + 1;
        }
        PeerId(id)
    }

    /// Get the underlying bytes
    pub fn as_bytes(&self) -> (res: &[u8; 32])
        ensures
            *res == self.0,
    {
        &self.0
    }
}

/// A Bitcoin transaction ID
#[derive(Debug, Clone, Copy, Eq, Hash)]
pub struct BitcoinTxid(pub [u8; 32]);

impl PartialEq for BitcoinTxid {
    fn eq(&self, other: &Self) -> (res: bool) {
        bytes32_equal(&self.0, &other.0)
    }
}

impl PartialEqSpecImpl for BitcoinTxid {
    open spec fn obeys_eq_spec() -> bool {
        true
    }

    open spec fn eq_spec(&self, other: &BitcoinTxid) -> bool {
        self.0 == other.0
    }
}

impl BitcoinTxid {
    /// Create a new txid
    pub fn new(id: [u8; 32]) -> (res: Self)
        ensures
            res.0 == id,
    {
        BitcoinTxid(id)
    }

    /// Get the underlying bytes
    pub fn as_bytes(&self) -> (res: &[u8; 32])
        ensures
            *res == self.0,
    {
        &self.0
    }
}

/// A state root hash
#[derive(Debug, Clone, Copy, Eq, Hash)]
pub struct StateRoot(pub [u8; 32]);

impl PartialEq for StateRoot {
    fn eq(&self, other: &Self) -> (res: bool) {
        bytes32_equal(&self.0, &other.0)
    }
}

impl PartialEqSpecImpl for StateRoot {
    open spec fn obeys_eq_spec() -> bool {
        true
    }

    open spec fn eq_spec(&self, other: &StateRoot) -> bool {
        self.0 == other.0
    }
}

impl StateRoot {
    /// Create a new state root
    pub fn new(value: [u8; 32]) -> (res: Self)
        ensures
            res.0 == value,
    {
        StateRoot(value)
    }

    /// Get the underlying bytes
    pub fn as_bytes(&self) -> (res: &[u8; 32])
        ensures
            *res == self.0,
    {
        &self.0
    }
}

/// A Merkle root hash
#[derive(Debug, Clone, Copy, Eq, Hash)]
pub struct MerkleRoot(pub [u8; 32]);

impl PartialEq for MerkleRoot {
    fn eq(&self, other: &Self) -> (res: bool) {
        bytes32_equal(&self.0, &other.0)
    }
}

impl PartialEqSpecImpl for MerkleRoot {
    open spec fn obeys_eq_spec() -> bool {
        true
    }

    open spec fn eq_spec(&self, other: &MerkleRoot) -> bool {
        self.0 == other.0
    }
}

impl MerkleRoot {
    /// Create a new merkle root
    pub fn new(value: [u8; 32]) -> (res: Self)
        ensures
            res.0 == value,
    {
        MerkleRoot(value)
    }

    /// Get the underlying bytes
    pub fn as_bytes(&self) -> (res: &[u8; 32])
        ensures
            *res == self.0,
    {
        &self.0
    }
}

/// An ECDSA signature using secp256k1
#[derive(Debug, Clone, Copy)]
pub struct EcdsaSignature {
    pub r: [u8; 32],
    pub s: [u8; 32],
    pub v: u8,
}

impl EcdsaSignature {
    /// Create a new signature
    pub fn new(r: [u8; 32], s: [u8; 32], v: u8) -> (res: Self)
        ensures
            res.r == r,
            res.s == s,
            res.v == v,
    {
        EcdsaSignature { r, s, v }
    }
}

/// Generate a random peer ID from the thread-local random number generator.
pub fn generate_peer_id() -> (res: PeerId) {
    PeerId::new(random_bytes32())
}

} // verus!
