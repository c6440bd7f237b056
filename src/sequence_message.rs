//! The payload of the `sequence` topic: block connections and
//! disconnections, and mempool acceptances and removals.

use crate::bytes::{
    le_bytes_u64, le_u64, lemma_reversed_twice, push_le_u64, push_reversed, read_le_u64, reversed, lemma_le_bytes_u64_round_trip, lemma_le_u64_round_trip,
    reversed_array_32,
};
use crate::error::MessageError;
use crate::message::Hash256;
use vstd::prelude::*;

verus! {

/// The length of a block connection or disconnection payload.
pub const BLOCK_EVENT_LEN: usize = 33;

/// The length of a mempool acceptance or removal payload.
pub const MEMPOOL_EVENT_LEN: usize = 41;

/// The label of a block connection, ASCII `C`.
pub const LABEL_BLOCK_CONNECT: u8 = 67;

/// The label of a block disconnection, ASCII `D`.
pub const LABEL_BLOCK_DISCONNECT: u8 = 68;

/// The label of a mempool acceptance, ASCII `A`.
pub const LABEL_MEMPOOL_ACCEPTANCE: u8 = 65;

/// The label of a mempool removal, ASCII `R`.
pub const LABEL_MEMPOOL_REMOVAL: u8 = 82;

/// One event of the `sequence` topic.
#[derive(Debug, PartialEq, Eq, Clone)]
pub enum SequenceMessage {
    BlockConnect { blockhash: Hash256 },
    BlockDisconnect { blockhash: Hash256 },
    MempoolAcceptance { txid: Hash256, mempool_sequence: u64 },
    MempoolRemoval { txid: Hash256, mempool_sequence: u64 },
}

/// The label byte of each kind of event.
pub open spec fn label_of(m: SequenceMessage) -> u8 {
    match m {
        SequenceMessage::BlockConnect { .. } => LABEL_BLOCK_CONNECT,
        SequenceMessage::BlockDisconnect { .. } => LABEL_BLOCK_DISCONNECT,
        SequenceMessage::MempoolAcceptance { .. } => LABEL_MEMPOOL_ACCEPTANCE,
        SequenceMessage::MempoolRemoval { .. } => LABEL_MEMPOOL_REMOVAL,
    }
}

/// The hash that an event refers to, in display order.
pub open spec fn hash_of(m: SequenceMessage) -> Seq<u8> {
    match m {
        SequenceMessage::BlockConnect { blockhash } => blockhash.bytes@,
        SequenceMessage::BlockDisconnect { blockhash } => blockhash.bytes@,
        SequenceMessage::MempoolAcceptance { txid, .. } => txid.bytes@,
        SequenceMessage::MempoolRemoval { txid, .. } => txid.bytes@,
    }
}

/// The wire form of an event: the hash in wire order, the label byte and,
/// for mempool events, the mempool sequence as eight little-endian bytes.
pub open spec fn sequence_message_bytes(m: SequenceMessage) -> Seq<u8> {
    reversed(hash_of(m)) + seq![label_of(m)] + match m {
        SequenceMessage::MempoolAcceptance { mempool_sequence, .. } => le_bytes_u64(
            mempool_sequence,
        ),
        SequenceMessage::MempoolRemoval { mempool_sequence, .. } => le_bytes_u64(mempool_sequence),
        _ => Seq::empty(),
    }
}

/// What is wrong with a `sequence` payload, or `None` where it is well formed.
pub open spec fn sequence_message_check(b: Seq<u8>) -> Option<MessageError> {
    if b.len() < 33 {
        Some(MessageError::InvalidSequenceMessageLength(b.len() as usize))
    } else if b[32] == LABEL_BLOCK_CONNECT || b[32] == LABEL_BLOCK_DISCONNECT {
        if b.len() == 33 {
            None
        } else {
            Some(MessageError::InvalidSequenceMessageLength(b.len() as usize))
        }
    } else if b[32] == LABEL_MEMPOOL_ACCEPTANCE || b[32] == LABEL_MEMPOOL_REMOVAL {
        if b.len() == 41 {
            None
        } else {
            Some(MessageError::InvalidSequenceMessageLength(b.len() as usize))
        }
    } else {
        Some(MessageError::InvalidSequenceMessageLabel(b[32]))
    }
}

impl SequenceMessage {
    /// The label byte of this event.
    pub fn label(&self) -> (r: u8)
        ensures
            r == label_of(*self),
    {
        match self {
            SequenceMessage::BlockConnect { .. } => LABEL_BLOCK_CONNECT,
            SequenceMessage::BlockDisconnect { .. } => LABEL_BLOCK_DISCONNECT,
            SequenceMessage::MempoolAcceptance { .. } => LABEL_MEMPOOL_ACCEPTANCE,
            SequenceMessage::MempoolRemoval { .. } => LABEL_MEMPOOL_REMOVAL,
        }
    }

    /// Encodes this event to its wire form.
    pub fn serialize_to_vec(&self) -> (r: Vec<u8>)
        ensures
            r@ == sequence_message_bytes(*self),
    {
        let mut out: Vec<u8> = Vec::new();
        let hash: &[u8; 32] = match self {
            SequenceMessage::BlockConnect { blockhash } => &blockhash.bytes,
            SequenceMessage::BlockDisconnect { blockhash } => &blockhash.bytes,
            SequenceMessage::MempoolAcceptance { txid, .. } => &txid.bytes,
            SequenceMessage::MempoolRemoval { txid, .. } => &txid.bytes,
        };
        push_reversed(&mut out, vstd::array::array_as_slice(hash));
        out.push(self.label());
        match self {
            SequenceMessage::MempoolAcceptance { mempool_sequence, .. } => {
                push_le_u64(&mut out, *mempool_sequence);
            },
            SequenceMessage::MempoolRemoval { mempool_sequence, .. } => {
                push_le_u64(&mut out, *mempool_sequence);
            },
            _ => {},
        }
        assert(out@ =~= sequence_message_bytes(*self));
        out
    }

    /// Decodes an event from its wire form.
    pub fn from_byte_slice(b: &[u8]) -> (r: Result<SequenceMessage, MessageError>)
        ensures
            match sequence_message_check(b@) {
                Some(e) => r == Err::<SequenceMessage, MessageError>(e),
                None => r matches Ok(m) && sequence_message_bytes(m) == b@,
            },
    {
        let len = b.len();
        if len < BLOCK_EVENT_LEN {
            return Err(MessageError::InvalidSequenceMessageLength(len));
        }
        let hash = Hash256 { bytes: reversed_array_32(b) };
        let label = b[32];
        proof {
            lemma_reversed_twice(b@.subrange(0, 32));
            assert(reversed(hash.bytes@) + seq![label] =~= b@.subrange(0, 33));
        }
        if label == LABEL_BLOCK_CONNECT || label == LABEL_BLOCK_DISCONNECT {
            if len != BLOCK_EVENT_LEN {
                return Err(MessageError::InvalidSequenceMessageLength(len));
            }
            let m = if label == LABEL_BLOCK_CONNECT {
                SequenceMessage::BlockConnect { blockhash: hash }
            } else {
                SequenceMessage::BlockDisconnect { blockhash: hash }
            };
            assert(sequence_message_bytes(m) =~= b@);
            Ok(m)
        } else if label == LABEL_MEMPOOL_ACCEPTANCE || label == LABEL_MEMPOOL_REMOVAL {
            if len != MEMPOOL_EVENT_LEN {
                return Err(MessageError::InvalidSequenceMessageLength(len));
            }
            let mempool_sequence = read_le_u64(b, 33);
            proof {
                lemma_le_bytes_u64_round_trip(b@.subrange(33, 41));
            }
            let m = if label == LABEL_MEMPOOL_ACCEPTANCE {
                SequenceMessage::MempoolAcceptance { txid: hash, mempool_sequence }
            } else {
                SequenceMessage::MempoolRemoval { txid: hash, mempool_sequence }
            };
            assert(sequence_message_bytes(m) =~= b@);
            Ok(m)
        } else {
            Err(MessageError::InvalidSequenceMessageLabel(label))
        }
    }
}

/// Every encoded event is well formed.
pub proof fn lemma_encoded_sequence_message_checks(m: SequenceMessage)
    ensures
        sequence_message_check(sequence_message_bytes(m)) is None,
        sequence_message_bytes(m)[32] == label_of(m),
{
    lemma_le_u64_round_trip(0);
    match m {
        SequenceMessage::MempoolAcceptance { mempool_sequence, .. } => {
            lemma_le_u64_round_trip(mempool_sequence);
        },
        SequenceMessage::MempoolRemoval { mempool_sequence, .. } => {
            lemma_le_u64_round_trip(mempool_sequence);
        },
        _ => {},
    }
}

/// Two events with the same wire form are the same event.
pub proof fn lemma_sequence_message_bytes_injective(a: SequenceMessage, b: SequenceMessage)
    requires
        sequence_message_bytes(a) == sequence_message_bytes(b),
    ensures
        a == b,
{
    lemma_encoded_sequence_message_checks(a);
    lemma_encoded_sequence_message_checks(b);
    let ba = sequence_message_bytes(a);
    assert(reversed(hash_of(a)) == ba.subrange(0, 32));
    assert(reversed(hash_of(b)) == ba.subrange(0, 32));
    lemma_reversed_twice(hash_of(a));
    lemma_reversed_twice(hash_of(b));
    assert(hash_of(a) == hash_of(b));
    match a {
        SequenceMessage::MempoolAcceptance { txid, mempool_sequence } => {
            lemma_le_u64_round_trip(mempool_sequence);
            assert(ba.subrange(33, 41) == le_bytes_u64(mempool_sequence));
            if let SequenceMessage::MempoolAcceptance { txid: t2, mempool_sequence: s2 } = b {
                lemma_le_u64_round_trip(s2);
                assert(ba.subrange(33, 41) == le_bytes_u64(s2));
                assert(txid.bytes =~= t2.bytes);
            }
        },
        SequenceMessage::MempoolRemoval { txid, mempool_sequence } => {
            lemma_le_u64_round_trip(mempool_sequence);
            assert(ba.subrange(33, 41) == le_bytes_u64(mempool_sequence));
            if let SequenceMessage::MempoolRemoval { txid: t2, mempool_sequence: s2 } = b {
                lemma_le_u64_round_trip(s2);
                assert(ba.subrange(33, 41) == le_bytes_u64(s2));
                assert(txid.bytes =~= t2.bytes);
            }
        },
        SequenceMessage::BlockConnect { blockhash } => {
            if let SequenceMessage::BlockConnect { blockhash: h2 } = b {
                assert(blockhash.bytes =~= h2.bytes);
            }
        },
        SequenceMessage::BlockDisconnect { blockhash } => {
            if let SequenceMessage::BlockDisconnect { blockhash: h2 } = b {
                assert(blockhash.bytes =~= h2.bytes);
            }
        },
    }
}

} // verus!
