//! EVM transaction messages and their builder.
use vstd::prelude::*;

use crate::text::{hex_digit, push_char, spec_hex};

verus! {

/// Types of EVM transactions
#[derive(Debug, Clone, Copy, PartialEq, Eq, Structural)]
pub enum EVMTransactionType {
    /// Legacy transaction (pre-EIP-2718)
    Legacy,
    /// EIP-2930 transaction with access list
    AccessList,
    /// EIP-1559 transaction with fee market
    FeeMarket,
}

/// The transaction type that a payload starting with these bytes has: 0x01
/// is EIP-2930, 0x02 is EIP-1559, anything else (or nothing) is legacy.
pub open spec fn tx_type_of(data: Seq<u8>) -> EVMTransactionType {
    if data.len() == 0 {
        EVMTransactionType::Legacy
    } else if data[0] == 1 {
        EVMTransactionType::AccessList
    } else if data[0] == 2 {
        EVMTransactionType::FeeMarket
    } else {
        EVMTransactionType::Legacy
    }
}

/// The type byte of a transaction type; legacy transactions have none.
pub open spec fn spec_type_byte(t: EVMTransactionType) -> Option<u8> {
    match t {
        EVMTransactionType::Legacy => None,
        EVMTransactionType::AccessList => Some(1),
        EVMTransactionType::FeeMarket => Some(2),
    }
}

impl EVMTransactionType {
    /// Get the transaction type identifier byte
    pub fn type_byte(&self) -> (res: Option<u8>)
        ensures
            res == spec_type_byte(*self),
    {
        match self {
            EVMTransactionType::Legacy => None,
            EVMTransactionType::AccessList => Some(1),
            EVMTransactionType::FeeMarket => Some(2),
        }
    }

    /// Get transaction type from the first byte
    pub fn from_first_byte(data: &[u8]) -> (res: Self)
        ensures
            res == tx_type_of(data@),
    {
        if data.len() == 0 {
            return EVMTransactionType::Legacy;
        }
        match data[0] {
            1u8 => EVMTransactionType::AccessList,
            2u8 => EVMTransactionType::FeeMarket,
            _ => EVMTransactionType::Legacy,
        }
    }
}

/// Gas pricing information for a transaction
#[derive(Debug, Clone, Copy)]
pub struct GasPricing {
    /// Gas limit for the transaction
    pub gas_limit: u64,
    /// Gas price (legacy and EIP-2930) or max fee per gas (EIP-1559)
    pub max_fee_per_gas: u64,
    /// Max priority fee per gas (EIP-1559 only)
    pub max_priority_fee_per_gas: Option<u64>,
}

/// Message containing EVM transaction data.
///
/// This message type is used to propagate Ethereum Virtual Machine (EVM)
/// transactions through the Citrea network before they're included in a block.
#[derive(Debug)]
pub struct EVMTransactionMessage {
    /// The raw transaction payload (RLP encoded EVM transaction)
    pub payload: Vec<u8>,
    /// Transaction type
    pub tx_type: EVMTransactionType,
    /// From address (if extracted)
    pub from: Option<[u8; 20]>,
    /// To address (if extracted, None for contract creation)
    pub to: Option<[u8; 20]>,
    /// Gas pricing information
    pub gas_info: Option<GasPricing>,
    /// Transaction nonce
    pub nonce: Option<u64>,
}

/// Whether a payload is well formed for its declared type: it is not empty,
/// and its first byte is an RLP list prefix (0xc0..=0xf7) for a legacy
/// transaction, 0x01 for EIP-2930 and 0x02 for EIP-1559.
pub open spec fn format_ok(payload: Seq<u8>, tx_type: EVMTransactionType) -> bool {
    &&& payload.len() > 0
    &&& match tx_type {
        EVMTransactionType::Legacy => 0xc0 <= payload[0] <= 0xf7,
        EVMTransactionType::AccessList => payload[0] == 1,
        EVMTransactionType::FeeMarket => payload[0] == 2,
    }
}

/// The short description of a payload: "empty", or "0x", the hexadecimal
/// digits of its first (up to) 8 bytes, and "...".
pub open spec fn spec_hex_prefix(payload: Seq<u8>) -> Seq<char> {
    if payload.len() == 0 {
        "empty"@
    } else {
        let n = if payload.len() < 8 {
            payload.len() as int
        } else {
            8
        };
        "0x"@ + spec_hex(payload.take(n)) + "..."@
    }
}

impl EVMTransactionMessage {
    /// Create a new EVM transaction message from raw payload; its type is
    /// read from the first byte and no metadata is set.
    pub fn new(payload: Vec<u8>) -> (res: Self)
        ensures
            res.payload == payload,
            res.tx_type == tx_type_of(payload@),
            res.from is None,
            res.to is None,
            res.gas_info is None,
            res.nonce is None,
    {
        let tx_type = EVMTransactionType::from_first_byte(payload.as_slice());
        EVMTransactionMessage { payload, tx_type, from: None, to: None, gas_info: None, nonce: None }
    }

    /// Create a builder for transaction message with metadata
    pub fn builder(payload: Vec<u8>) -> (res: EVMTransactionMessageBuilder)
        ensures
            res == EVMTransactionMessageBuilder::initial(payload),
            res.priority_fee() is None,
    {
        EVMTransactionMessageBuilder::new(payload)
    }

    /// Verify basic transaction format
    pub fn verify_format(&self) -> (res: bool)
        ensures
            res == format_ok(self.payload@, self.tx_type),
    {
        if self.payload.len() == 0 {
            return false;
        }
        let first = self.payload[0];
        match self.tx_type {
            EVMTransactionType::Legacy => 0xc0 <= first && first <= 0xf7,
            EVMTransactionType::AccessList => first == 1,
            EVMTransactionType::FeeMarket => first == 2,
        }
    }

    /// Get the size of the transaction payload in bytes
    pub fn size(&self) -> (res: usize)
        ensures
            res == self.payload@.len(),
    {
        self.payload.len()
    }

    /// Get a hex-encoded prefix of the transaction for logging purposes
    pub fn hex_prefix(&self) -> (res: String)
        ensures
            res@ == spec_hex_prefix(self.payload@),
    {
        if self.payload.len() == 0 {
            return String::from_str("empty");
        }
        let len: usize = if self.payload.len() < 8 {
            self.payload.len()
        } else {
            8
        };
        let mut out = String::from_str("0x");
        let mut i: usize = 0;
        while i < len
            invariant
                0 <= i <= len,
                len <= self.payload@.len(),
                out@ == "0x"@ + spec_hex(self.payload@.take(i as int)),
            decreases len - i,
        {
            let b = self.payload[i];
            let hi = hex_digit(b / 16);
            let lo = hex_digit(b % 16);
            let ghost before = out@;
            push_char(&mut out, hi);
            push_char(&mut out, lo);
            proof {
                let t = self.payload@.take(i as int + 1);
                assert(t.drop_last() =~= self.payload@.take(i as int));
                assert(t.last() == b);
                assert(out@ =~= "0x"@ + spec_hex(t));
            }
            i = i + 1;
        }
        out.append("...");
        out
    }
}

/// A type's type byte, read back as the first byte of a payload, gives the
/// same type.
pub proof fn law_type_byte_round_trip(t: EVMTransactionType, rest: Seq<u8>)
    ensures
        spec_type_byte(t) matches Some(b) ==> tx_type_of(seq![b] + rest) == t,
{
    if let Some(b) = spec_type_byte(t) {
        assert((seq![b] + rest)[0] == b);
    }
}

/// A transaction made from a payload passes the format check exactly when
/// the payload starts with 0x01, 0x02 or an RLP list prefix (0xc0..=0xf7).
pub proof fn law_new_transaction_format(payload: Seq<u8>)
    ensures
        format_ok(payload, tx_type_of(payload)) <==> (payload.len() > 0 && (payload[0] == 1
            || payload[0] == 2 || (0xc0 <= payload[0] <= 0xf7))),
{
}

/// The short description of a non-empty payload is "0x", two hexadecimal
/// digits for each of its first (up to) 8 bytes, and "...".
pub proof fn law_hex_prefix_length(payload: Seq<u8>)
    requires
        payload.len() > 0,
    ensures
        spec_hex_prefix(payload).len() == 5 + 2 * (if payload.len() < 8 {
            payload.len() as int
        } else {
            8
        }),
{
    reveal_strlit("0x");
    reveal_strlit("...");
    let n = if payload.len() < 8 {
        payload.len() as int
    } else {
        8
    };
    crate::text::lemma_hex_length(payload.take(n));
}

/// Builder for creating EVM transaction messages with metadata
#[derive(Debug)]
pub struct EVMTransactionMessageBuilder {
    /// Raw transaction payload
    payload: Vec<u8>,
    /// Transaction type
    tx_type: EVMTransactionType,
    /// Sender address
    from: Option<[u8; 20]>,
    /// Recipient address
    to: Option<[u8; 20]>,
    /// Gas limit
    gas_limit: Option<u64>,
    /// Max fee per gas
    max_fee_per_gas: Option<u64>,
    /// Max priority fee per gas
    max_priority_fee_per_gas: Option<u64>,
    /// Transaction nonce
    nonce: Option<u64>,
}

impl EVMTransactionMessageBuilder {
    /// A builder for `payload` with its type read from the first byte and nothing else set.
    pub closed spec fn initial(payload: Vec<u8>) -> Self {
        EVMTransactionMessageBuilder {
            payload,
            tx_type: tx_type_of(payload@),
            from: None,
            to: None,
            gas_limit: None,
            max_fee_per_gas: None,
            max_priority_fee_per_gas: None,
            nonce: None,
        }
    }

    /// The message this builder builds: gas information is present exactly
    /// when both the gas limit and the max fee per gas were set.
    pub closed spec fn result(self) -> EVMTransactionMessage {
        EVMTransactionMessage {
            payload: self.payload,
            tx_type: self.tx_type,
            from: self.from,
            to: self.to,
            gas_info: match (self.gas_limit, self.max_fee_per_gas) {
                (Some(gas_limit), Some(max_fee_per_gas)) => Some(
                    GasPricing {
                        gas_limit,
                        max_fee_per_gas,
                        max_priority_fee_per_gas: self.max_priority_fee_per_gas,
                    },
                ),
                _ => None,
            },
            nonce: self.nonce,
        }
    }

    /// Create a new transaction builder
    pub fn new(payload: Vec<u8>) -> (res: Self)
        ensures
            res == Self::initial(payload),
            res.priority_fee() is None,
    {
        let tx_type = EVMTransactionType::from_first_byte(payload.as_slice());
        EVMTransactionMessageBuilder {
            payload,
            tx_type,
            from: None,
            to: None,
            gas_limit: None,
            max_fee_per_gas: None,
            max_priority_fee_per_gas: None,
            nonce: None,
        }
    }

    /// Set the transaction type
    pub fn with_type(self, tx_type: EVMTransactionType) -> (res: Self)
        ensures
            res.result() == (EVMTransactionMessage { tx_type, ..self.result() }),
            res.priority_fee() == self.priority_fee(),
    {
        EVMTransactionMessageBuilder { tx_type, ..self }
    }

    /// Set the sender address
    pub fn with_from(self, from: [u8; 20]) -> (res: Self)
        ensures
            res.result() == (EVMTransactionMessage { from: Some(from), ..self.result() }),
            res.priority_fee() == self.priority_fee(),
    {
        EVMTransactionMessageBuilder { from: Some(from), ..self }
    }

    /// Set the recipient address
    pub fn with_to(self, to: [u8; 20]) -> (res: Self)
        ensures
            res.result() == (EVMTransactionMessage { to: Some(to), ..self.result() }),
            res.priority_fee() == self.priority_fee(),
    {
        EVMTransactionMessageBuilder { to: Some(to), ..self }
    }

    /// Set gas parameters
    pub fn with_gas(self, gas_limit: u64, max_fee_per_gas: u64) -> (res: Self)
        ensures
            res.result() == (EVMTransactionMessage {
                gas_info: Some(
                    GasPricing {
                        gas_limit,
                        max_fee_per_gas,
                        max_priority_fee_per_gas: self.priority_fee(),
                    },
                ),
                ..self.result()
            }),
            res.priority_fee() == self.priority_fee(),
    {
        EVMTransactionMessageBuilder {
            gas_limit: Some(gas_limit),
            max_fee_per_gas: Some(max_fee_per_gas),
            ..self
        }
    }

    /// The priority fee set so far.
    pub closed spec fn priority_fee(self) -> Option<u64> {
        self.max_priority_fee_per_gas
    }

    /// Set priority fee (EIP-1559 only); it appears in the gas information when gas is set.
    pub fn with_priority_fee(self, max_priority_fee_per_gas: u64) -> (res: Self)
        ensures
            res.priority_fee() == Some(max_priority_fee_per_gas),
            res.result() == (EVMTransactionMessage {
                gas_info: match self.result().gas_info {
                    Some(g) => Some(
                        GasPricing {
                            max_priority_fee_per_gas: Some(max_priority_fee_per_gas),
                            ..g
                        },
                    ),
                    None => None,
                },
                ..self.result()
            }),
    {
        EVMTransactionMessageBuilder {
            max_priority_fee_per_gas: Some(max_priority_fee_per_gas),
            ..self
        }
    }

    /// Set the transaction nonce
    pub fn with_nonce(self, nonce: u64) -> (res: Self)
        ensures
            res.result() == (EVMTransactionMessage { nonce: Some(nonce), ..self.result() }),
            res.priority_fee() == self.priority_fee(),
    {
        EVMTransactionMessageBuilder { nonce: Some(nonce), ..self }
    }

    /// A builder given no settings has no priority fee and builds the same
    /// message as `EVMTransactionMessage::new` on the same payload.
    pub proof fn law_plain_build_matches_new(payload: Vec<u8>)
        ensures
            Self::initial(payload).priority_fee() is None,
            Self::initial(payload).result() == (EVMTransactionMessage {
                payload,
                tx_type: tx_type_of(payload@),
                from: None,
                to: None,
                gas_info: None,
                nonce: None,
            }),
    {
    }

    /// Build the transaction message
    pub fn build(self) -> (res: EVMTransactionMessage)
        ensures
            res == self.result(),
    {
        let gas_info = match (self.gas_limit, self.max_fee_per_gas) {
            (Some(gas_limit), Some(max_fee_per_gas)) => Some(
                GasPricing {
                    gas_limit,
                    max_fee_per_gas,
                    max_priority_fee_per_gas: self.max_priority_fee_per_gas,
                },
            ),
            _ => None,
        };
        EVMTransactionMessage {
            payload: self.payload,
            tx_type: self.tx_type,
            from: self.from,
            to: self.to,
            gas_info,
            nonce: self.nonce,
        }
    }
}

} // verus!

verus! {

/// The short description of a non-empty payload is "0x", then two lowercase
/// hexadecimal digits for each of its first (up to) 8 bytes, in order, high
/// four bits first, then "..."; an empty payload is described as "empty".
pub proof fn law_hex_prefix_shape(payload: Seq<u8>)
    ensures
        payload.len() == 0 ==> spec_hex_prefix(payload) == "empty"@,
        payload.len() > 0 ==> {
            let p = spec_hex_prefix(payload);
            let n = if payload.len() < 8 {
                payload.len() as int
            } else {
                8
            };
            &&& p.len() == 5 + 2 * n
            &&& p[0] == '0' && p[1] == 'x'
            &&& p[2 + 2 * n] == '.' && p[3 + 2 * n] == '.' && p[4 + 2 * n] == '.'
            &&& forall|k: int|
                0 <= k < n ==> p[2 + 2 * k] == "0123456789abcdef"@[((#[trigger] payload[k]) / 16) as int]
                    && p[3 + 2 * k] == "0123456789abcdef"@[(payload[k] % 16) as int]
        },
{
    if payload.len() > 0 {
        reveal_strlit("0x");
        reveal_strlit("...");
        let n = if payload.len() < 8 {
            payload.len() as int
        } else {
            8
        };
        let b = payload.take(n);
        crate::text::law_hex_digits_in_order(b);
        let h = spec_hex(b);
        let p = spec_hex_prefix(payload);
        assert(p == "0x"@ + h + "..."@);
        assert forall|k: int| 0 <= k < n implies p[2 + 2 * k] == "0123456789abcdef"@[((
        #[trigger] payload[k]) / 16) as int] && p[3 + 2 * k] == "0123456789abcdef"@[(payload[k] % 16) as int] by {
            assert(b[k] == payload[k]);
            assert(p[2 + 2 * k] == h[2 * k]);
            assert(p[3 + 2 * k] == h[2 * k + 1]);
        }
    }
}

} // verus!
