//! The notifications of the feed and their three-frame wire form.

use crate::bytes::{
    le_bytes_u32, le_u32, lemma_le_bytes_u32_round_trip, lemma_le_u32_round_trip,
    lemma_reversed_twice, lemma_trim_zero_padding, push_all, push_reversed, push_zeros,
    read_le_u32, reversed, reversed_array_32, trim_trailing_zeros, trimmed_len, write_le_u32,
};
use crate::error::{topic_snapshot, MessageError};
use crate::sequence_message::{sequence_message_bytes, sequence_message_check, SequenceMessage};
use vstd::prelude::*;
use vstd::string::StringSliceAdditionalSpecFns;
use vstd::utf8::{decode_utf8, encode_scalar, encode_utf8, has_width_1_encoding, valid_utf8};

verus! {

/// The longest topic, in bytes.
pub const TOPIC_MAX_LEN: usize = 9;

/// The largest data frame: one maximum block weight, in weight units.
pub const DATA_MAX_LEN: usize = 4000000;

/// The length of the sequence frame.
pub const SEQUENCE_LEN: usize = 4;

/// A 256-bit hash, held in display order (the reverse of wire order).
#[derive(Clone, Copy, Debug, PartialEq, Eq, Hash)]
pub struct Hash256 {
    pub bytes: [u8; 32],
}

impl Hash256 {
    /// The hash whose display-order bytes are `bytes`.
    pub fn from_byte_array(bytes: [u8; 32]) -> (r: Hash256)
        ensures
            r.bytes == bytes,
    {
        Hash256 { bytes }
    }

    /// The display-order bytes of this hash.
    pub fn to_byte_array(&self) -> (r: [u8; 32])
        ensures
            r == self.bytes,
    {
        self.bytes
    }
}


/// A block as rust-bitcoin decodes it; the library only carries it.
#[verifier::external_type_specification]
#[verifier::external_body]
pub struct ExBlock(bitcoin::Block);

/// A transaction as rust-bitcoin decodes it; the library only carries it.
#[verifier::external_type_specification]
#[verifier::external_body]
pub struct ExTransaction(bitcoin::Transaction);

/// Relies on `Clone` for `bitcoin::Block`, which the derived `Clone` of
/// `Message` calls; nothing is claimed of the copy.
pub assume_specification[ <bitcoin::Block as std::clone::Clone>::clone ](b: &bitcoin::Block) -> bitcoin::Block;

/// Relies on `Clone` for `bitcoin::Transaction`, which the derived `Clone`
/// of `Message` calls; nothing is claimed of the copy.
pub assume_specification[ <bitcoin::Transaction as std::clone::Clone>::clone ](t: &bitcoin::Transaction) -> bitcoin::Transaction;

/// What the consensus codec makes of a block payload: the block, or the
/// codec's error.
pub uninterp spec fn consensus_block(data: Seq<u8>) -> Result<
    bitcoin::Block,
    bitcoin::consensus::encode::Error,
>;

/// What the consensus codec makes of a transaction payload: the
/// transaction, or the codec's error.
pub uninterp spec fn consensus_tx(data: Seq<u8>) -> Result<
    bitcoin::Transaction,
    bitcoin::consensus::encode::Error,
>;

/// The consensus encoding of a block.
pub uninterp spec fn block_encoding(b: bitcoin::Block) -> Seq<u8>;

/// The consensus encoding of a transaction.
pub uninterp spec fn tx_encoding(t: bitcoin::Transaction) -> Seq<u8>;

/// What lossy UTF-8 decoding makes of bytes that are not valid UTF-8.
pub uninterp spec fn lossy_utf8(b: Seq<u8>) -> Seq<char>;

/// The characters that lossy UTF-8 decoding gives for `b`.
pub open spec fn lossy_decoded(b: Seq<u8>) -> Seq<char> {
    if valid_utf8(b) {
        decode_utf8(b)
    } else {
        lossy_utf8(b)
    }
}

/// Relies on `bitcoin::consensus::deserialize` for a block: the outcome,
/// block or error, is a function of the bytes.
#[verifier::external_body]
fn deserialize_block(data: &[u8]) -> (r: Result<bitcoin::Block, bitcoin::consensus::encode::Error>)
    ensures
        r == consensus_block(data@),
{
    bitcoin::consensus::deserialize(data)
}

/// Relies on `bitcoin::consensus::deserialize` for a transaction: the
/// outcome, transaction or error, is a function of the bytes.
#[verifier::external_body]
fn deserialize_tx(data: &[u8]) -> (r: Result<
    bitcoin::Transaction,
    bitcoin::consensus::encode::Error,
>)
    ensures
        r == consensus_tx(data@),
{
    bitcoin::consensus::deserialize(data)
}

/// Relies on `bitcoin::consensus::serialize` for a block: the bytes are a
/// function of the block.
#[verifier::external_body]
fn serialize_block(b: &bitcoin::Block) -> (r: Vec<u8>)
    ensures
        r@ == block_encoding(*b),
{
    bitcoin::consensus::serialize(b)
}

/// Relies on `bitcoin::consensus::serialize` for a transaction: the bytes
/// are a function of the transaction.
#[verifier::external_body]
fn serialize_tx(t: &bitcoin::Transaction) -> (r: Vec<u8>)
    ensures
        r@ == tx_encoding(*t),
{
    bitcoin::consensus::serialize(t)
}

/// Relies on `String::from_utf8_lossy`: valid UTF-8 is decoded as it
/// stands, other bytes give a result that depends on the bytes alone.
#[verifier::external_body]
fn utf8_lossy(b: &[u8]) -> (r: String)
    ensures
        valid_utf8(b@) ==> r@ == decode_utf8(b@),
        !valid_utf8(b@) ==> r@ == lossy_utf8(b@),
{
    String::from_utf8_lossy(b).into_owned()
}

/// The six topics of the feed.
#[derive(Clone, Copy, Debug, PartialEq, Eq)]
pub enum Topic {
    HashBlock,
    HashTx,
    HashWTx,
    RawBlock,
    RawTx,
    Sequence,
}

/// The ASCII bytes of each topic.
pub open spec fn topic_bytes(t: Topic) -> Seq<u8> {
    match t {
        Topic::HashBlock => seq![104u8, 97u8, 115u8, 104u8, 98u8, 108u8, 111u8, 99u8, 107u8],
        Topic::HashTx => seq![104u8, 97u8, 115u8, 104u8, 116u8, 120u8],
        Topic::HashWTx => seq![104u8, 97u8, 115u8, 104u8, 119u8, 116u8, 120u8],
        Topic::RawBlock => seq![114u8, 97u8, 119u8, 98u8, 108u8, 111u8, 99u8, 107u8],
        Topic::RawTx => seq![114u8, 97u8, 119u8, 116u8, 120u8],
        Topic::Sequence => seq![115u8, 101u8, 113u8, 117u8, 101u8, 110u8, 99u8, 101u8],
    }
}

/// True when `b` is the name of one of the six topics.
pub open spec fn is_topic(b: Seq<u8>) -> bool {
    exists|t: Topic| topic_bytes(t) == b
}

proof fn lemma_ascii_literal(s: &str, b: Seq<u8>)
    requires
        s@.len() == b.len(),
        forall|i: int| 0 <= i < b.len() ==> '\0' <= #[trigger] s@[i] <= '\u{7f}' && s@[i] as u8 == b[i],
    ensures
        s.spec_bytes() == b,
{
    assert(vstd::utf8::is_ascii_chars(s@));
    vstd::utf8::is_ascii_chars_encode_utf8(s@);
    assert(s.spec_bytes() =~= b);
}

impl Topic {
    /// The name of this topic.
    pub fn as_str(self) -> (r: &'static str)
        ensures
            r.spec_bytes() == topic_bytes(self),
            r.spec_bytes().len() <= TOPIC_MAX_LEN,
    {
        match self {
            Topic::HashBlock => {
                proof {
                    reveal_strlit("hashblock");
                    lemma_ascii_literal("hashblock", topic_bytes(self));
                }
                "hashblock"
            },
            Topic::HashTx => {
                proof {
                    reveal_strlit("hashtx");
                    lemma_ascii_literal("hashtx", topic_bytes(self));
                }
                "hashtx"
            },
            Topic::HashWTx => {
                proof {
                    reveal_strlit("hashwtx");
                    lemma_ascii_literal("hashwtx", topic_bytes(self));
                }
                "hashwtx"
            },
            Topic::RawBlock => {
                proof {
                    reveal_strlit("rawblock");
                    lemma_ascii_literal("rawblock", topic_bytes(self));
                }
                "rawblock"
            },
            Topic::RawTx => {
                proof {
                    reveal_strlit("rawtx");
                    lemma_ascii_literal("rawtx", topic_bytes(self));
                }
                "rawtx"
            },
            Topic::Sequence => {
                proof {
                    reveal_strlit("sequence");
                    lemma_ascii_literal("sequence", topic_bytes(self));
                }
                "sequence"
            },
        }
    }

    /// The topic named by `b`, if any.
    pub fn from_bytes(b: &[u8]) -> (r: Option<Topic>)
        ensures
            match r {
                Some(t) => topic_bytes(t) == b@,
                None => !is_topic(b@),
            },
    {
        if crate::bytes::bytes_equal(b, Topic::HashBlock.as_str().as_bytes()) {
            Some(Topic::HashBlock)
        } else if crate::bytes::bytes_equal(b, Topic::HashTx.as_str().as_bytes()) {
            Some(Topic::HashTx)
        } else if crate::bytes::bytes_equal(b, Topic::HashWTx.as_str().as_bytes()) {
            Some(Topic::HashWTx)
        } else if crate::bytes::bytes_equal(b, Topic::RawBlock.as_str().as_bytes()) {
            Some(Topic::RawBlock)
        } else if crate::bytes::bytes_equal(b, Topic::RawTx.as_str().as_bytes()) {
            Some(Topic::RawTx)
        } else if crate::bytes::bytes_equal(b, Topic::Sequence.as_str().as_bytes()) {
            Some(Topic::Sequence)
        } else {
            assert forall|t: Topic| topic_bytes(t) != b@ by {
                match t {
                    Topic::HashBlock => {},
                    Topic::HashTx => {},
                    Topic::HashWTx => {},
                    Topic::RawBlock => {},
                    Topic::RawTx => {},
                    Topic::Sequence => {},
                }
            }
            None
        }
    }
}

/// One notification of the feed, with the sequence number that its
/// publisher gave it.
#[derive(Debug, PartialEq, Eq, Clone)]
pub enum Message {
    HashBlock(Hash256, u32),
    HashTx(Hash256, u32),
    HashWTx(Hash256, String, u32),
    Block(bitcoin::Block, u32),
    Tx(bitcoin::Transaction, u32),
    Sequence(SequenceMessage, u32),
}

/// The topic of a notification.
pub open spec fn topic_of(m: Message) -> Topic {
    match m {
        Message::HashBlock(..) => Topic::HashBlock,
        Message::HashTx(..) => Topic::HashTx,
        Message::HashWTx(..) => Topic::HashWTx,
        Message::Block(..) => Topic::RawBlock,
        Message::Tx(..) => Topic::RawTx,
        Message::Sequence(..) => Topic::Sequence,
    }
}

/// The sequence number of a notification.
pub open spec fn sequence_of(m: Message) -> u32 {
    match m {
        Message::HashBlock(_, s) => s,
        Message::HashTx(_, s) => s,
        Message::HashWTx(_, _, s) => s,
        Message::Block(_, s) => s,
        Message::Tx(_, s) => s,
        Message::Sequence(_, s) => s,
    }
}

/// The number of zero bytes that pad a wallet label of `n` bytes to 32.
pub open spec fn label_padding(n: int) -> nat {
    if n < 32 {
        (32 - n) as nat
    } else {
        0
    }
}

/// The data frame of a wallet-tagged hash: the hash in wire order, then the
/// label's UTF-8 bytes, padded with zeros to at least 32 bytes.
pub open spec fn wallet_data(hash: Seq<u8>, label: Seq<char>) -> Seq<u8> {
    reversed(hash) + encode_utf8(label) + Seq::new(
        label_padding(encode_utf8(label).len() as int),
        |i: int| 0u8,
    )
}

/// The data frame of a notification.
pub open spec fn data_of(m: Message) -> Seq<u8> {
    match m {
        Message::HashBlock(h, _) => reversed(h.bytes@),
        Message::HashTx(h, _) => reversed(h.bytes@),
        Message::HashWTx(h, w, _) => wallet_data(h.bytes@, w@),
        Message::Block(b, _) => block_encoding(b),
        Message::Tx(t, _) => tx_encoding(t),
        Message::Sequence(sm, _) => sequence_message_bytes(sm),
    }
}

/// The three frames of a notification: topic, data and sequence.
pub open spec fn frames_of(m: Message) -> Seq<Seq<u8>> {
    seq![topic_bytes(topic_of(m)), data_of(m), le_bytes_u32(sequence_of(m))]
}

/// What decoding gives for a topic, a data frame and a four-byte sequence
/// frame.
pub open spec fn decodes_to(
    topic: Seq<u8>,
    data: Seq<u8>,
    seq: Seq<u8>,
    r: Result<Message, MessageError>,
) -> bool {
    let s = le_u32(seq);
    if topic == topic_bytes(Topic::HashBlock) {
        if data.len() == 32 {
            r matches Ok(Message::HashBlock(h, q)) && h.bytes@ == reversed(data) && q == s
        } else {
            r == Err::<Message, MessageError>(
                MessageError::Invalid256BitHashLength(data.len() as usize),
            )
        }
    } else if topic == topic_bytes(Topic::HashTx) {
        if data.len() == 32 {
            r matches Ok(Message::HashTx(h, q)) && h.bytes@ == reversed(data) && q == s
        } else {
            r == Err::<Message, MessageError>(
                MessageError::Invalid256BitHashLength(data.len() as usize),
            )
        }
    } else if topic == topic_bytes(Topic::HashWTx) {
        if data.len() >= 32 {
            r matches Ok(Message::HashWTx(h, w, q)) && h.bytes@ == reversed(data.subrange(0, 32))
                && w@ == lossy_decoded(trim_trailing_zeros(data.subrange(32, data.len() as int)))
                && q == s
        } else {
            r == Err::<Message, MessageError>(
                MessageError::Invalid256BitHashLength(data.len() as usize),
            )
        }
    } else if topic == topic_bytes(Topic::RawBlock) {
        match consensus_block(data) {
            Ok(b) => r == Ok::<Message, MessageError>(Message::Block(b, s)),
            Err(e) => r == Err::<Message, MessageError>(MessageError::BitcoinDeserialization(e)),
        }
    } else if topic == topic_bytes(Topic::RawTx) {
        match consensus_tx(data) {
            Ok(t) => r == Ok::<Message, MessageError>(Message::Tx(t, s)),
            Err(e) => r == Err::<Message, MessageError>(MessageError::BitcoinDeserialization(e)),
        }
    } else if topic == topic_bytes(Topic::Sequence) {
        match sequence_message_check(data) {
            Some(e) => r == Err::<Message, MessageError>(e),
            None => r matches Ok(Message::Sequence(sm, q)) && sequence_message_bytes(sm) == data
                && q == s,
        }
    } else {
        r matches Err(MessageError::InvalidTopic(n, buf)) && n == topic.len() && buf@
            == topic_snapshot(topic)
    }
}

/// What decoding gives for a whole frame group.
pub open spec fn frames_decode_to(frames: Seq<Seq<u8>>, r: Result<Message, MessageError>) -> bool {
    if frames.len() != 3 {
        r == Err::<Message, MessageError>(
            MessageError::InvalidMutlipartLength(frames.len() as usize),
        )
    } else if frames[2].len() != 4 {
        r == Err::<Message, MessageError>(
            MessageError::InvalidSequenceLength(frames[2].len() as usize),
        )
    } else {
        decodes_to(frames[0], frames[1], frames[2], r)
    }
}

/// The bytes of each frame of a group.
pub open spec fn frame_views(mp: Seq<&[u8]>) -> Seq<Seq<u8>> {
    mp.map_values(|f: &[u8]| f@)
}

impl Message {
    /// The topic of this notification.
    pub fn topic_kind(&self) -> (r: Topic)
        ensures
            r == topic_of(*self),
    {
        match self {
            Message::HashBlock(..) => Topic::HashBlock,
            Message::HashTx(..) => Topic::HashTx,
            Message::HashWTx(..) => Topic::HashWTx,
            Message::Block(..) => Topic::RawBlock,
            Message::Tx(..) => Topic::RawTx,
            Message::Sequence(..) => Topic::Sequence,
        }
    }

    /// The topic of this notification as bytes.
    pub fn topic(&self) -> (r: &'static [u8])
        ensures
            r@ == topic_bytes(topic_of(*self)),
    {
        self.topic_str().as_bytes()
    }

    /// The topic of this notification as a string.
    pub fn topic_str(&self) -> (r: &'static str)
        ensures
            r.spec_bytes() == topic_bytes(topic_of(*self)),
            r.spec_bytes().len() <= TOPIC_MAX_LEN,
    {
        self.topic_kind().as_str()
    }

    /// The sequence number of this notification, which its publisher counts
    /// up from 0.
    pub fn sequence(&self) -> (r: u32)
        ensures
            r == sequence_of(*self),
    {
        match self {
            Message::HashBlock(_, seq) => *seq,
            Message::HashTx(_, seq) => *seq,
            Message::HashWTx(_, _, seq) => *seq,
            Message::Block(_, seq) => *seq,
            Message::Tx(_, seq) => *seq,
            Message::Sequence(_, seq) => *seq,
        }
    }

    /// Encodes the data frame of this notification. A hash is written in wire
    /// order. A wallet-tagged hash is followed by the label's UTF-8 bytes,
    /// padded with zeros to 32 bytes, which makes a 64-byte frame; a label
    /// longer than 32 bytes is written whole, unpadded and never truncated,
    /// so that decoding gives it back. Blocks and transactions take their
    /// consensus encoding; `sequence` events take their own wire form.
    pub fn serialize_data_to_vec(&self) -> (r: Vec<u8>)
        ensures
            r@ == data_of(*self),
    {
        match self {
            Message::HashBlock(h, _) => {
                let mut out: Vec<u8> = Vec::new();
                push_reversed(&mut out, vstd::array::array_as_slice(&h.bytes));
                out
            },
            Message::HashTx(h, _) => {
                let mut out: Vec<u8> = Vec::new();
                push_reversed(&mut out, vstd::array::array_as_slice(&h.bytes));
                out
            },
            Message::HashWTx(h, wallet, _) => {
                let mut out: Vec<u8> = Vec::new();
                push_reversed(&mut out, vstd::array::array_as_slice(&h.bytes));
                let label: &[u8] = wallet.as_str().as_bytes();
                push_all(&mut out, label);
                let pad: usize = if label.len() < 32 {
                    32 - label.len()
                } else {
                    0
                };
                push_zeros(&mut out, pad);
                out
            },
            Message::Block(b, _) => serialize_block(b),
            Message::Tx(t, _) => serialize_tx(t),
            Message::Sequence(sm, _) => sm.serialize_to_vec(),
        }
    }

    /// Encodes this notification as its three frames.
    pub fn serialize_to_vecs(&self) -> (r: [Vec<u8>; 3])
        ensures
            r[0]@ == topic_bytes(topic_of(*self)),
            r[1]@ == data_of(*self),
            r[2]@ == le_bytes_u32(sequence_of(*self)),
    {
        let topic = vstd::slice::slice_to_vec(self.topic());
        let data = self.serialize_data_to_vec();
        let seq = write_le_u32(self.sequence());
        [topic, data, seq]
    }

    /// Decodes a notification from a topic, a data frame and a sequence
    /// frame.
    pub fn from_parts(topic: &[u8], data: &[u8], seq: [u8; 4]) -> (r: Result<
        Message,
        MessageError,
    >)
        ensures
            decodes_to(topic@, data@, seq@, r),
    {
        let s = read_le_u32(seq);
        match Topic::from_bytes(topic) {
            Some(Topic::HashBlock) => {
                if data.len() != 32 {
                    return Err(MessageError::Invalid256BitHashLength(data.len()));
                }
                let h = Hash256 { bytes: reversed_array_32(data) };
                proof {
                    assert(data@.subrange(0, 32) =~= data@);
                }
                Ok(Message::HashBlock(h, s))
            },
            Some(Topic::HashTx) => {
                if data.len() != 32 {
                    return Err(MessageError::Invalid256BitHashLength(data.len()));
                }
                let h = Hash256 { bytes: reversed_array_32(data) };
                proof {
                    assert(data@.subrange(0, 32) =~= data@);
                }
                Ok(Message::HashTx(h, s))
            },
            Some(Topic::HashWTx) => {
                if data.len() < 32 {
                    return Err(MessageError::Invalid256BitHashLength(data.len()));
                }
                let h = Hash256 { bytes: reversed_array_32(data) };
                let rest = vstd::slice::slice_subrange(data, 32, data.len());
                let n = trimmed_len(rest);
                let label = utf8_lossy(vstd::slice::slice_subrange(rest, 0, n));
                Ok(Message::HashWTx(h, label, s))
            },
            Some(Topic::RawBlock) => match deserialize_block(data) {
                Ok(b) => Ok(Message::Block(b, s)),
                Err(e) => Err(MessageError::BitcoinDeserialization(e)),
            },
            Some(Topic::RawTx) => match deserialize_tx(data) {
                Ok(t) => Ok(Message::Tx(t, s)),
                Err(e) => Err(MessageError::BitcoinDeserialization(e)),
            },
            Some(Topic::Sequence) => match SequenceMessage::from_byte_slice(data) {
                Ok(sm) => Ok(Message::Sequence(sm, s)),
                Err(e) => Err(e),
            },
            None => {
                let mut buf: [u8; 9] = [0u8; 9];
                let n: usize = if topic.len() < TOPIC_MAX_LEN {
                    topic.len()
                } else {
                    TOPIC_MAX_LEN
                };
                let mut i: usize = 0;
                while i < n
                    invariant
                        n <= 9,
                        n <= topic@.len(),
                        n == topic@.len() || n == 9,
                        i <= n,
                        forall|j: int| 0 <= j < i ==> buf@[j] == topic@[j],
                        forall|j: int| n <= j < 9 ==> buf@[j] == 0u8,
                    decreases n - i,
                {
                    buf[i] = topic[i];
                    i = i + 1;
                }
                assert(buf@ =~= topic_snapshot(topic@));
                Err(MessageError::InvalidTopic(topic.len(), buf))
            },
        }
    }

    /// Decodes a notification from a group of exactly three frames.
    pub fn from_fixed_size_multipart(mp: &[&[u8]; 3]) -> (r: Result<Message, MessageError>)
        ensures
            frames_decode_to(seq![mp[0]@, mp[1]@, mp[2]@], r),
    {
        let topic: &[u8] = mp[0];
        let data: &[u8] = mp[1];
        let seq: &[u8] = mp[2];
        if seq.len() != SEQUENCE_LEN {
            return Err(MessageError::InvalidSequenceLength(seq.len()));
        }
        let seq_arr: [u8; 4] = [seq[0], seq[1], seq[2], seq[3]];
        assert(seq_arr@ =~= seq@);
        Message::from_parts(topic, data, seq_arr)
    }

    /// Decodes a notification from a frame group, which must hold exactly
    /// three frames.
    pub fn from_multipart(mp: &[&[u8]]) -> (r: Result<Message, MessageError>)
        ensures
            frames_decode_to(frame_views(mp@), r),
    {
        if mp.len() != 3 {
            return Err(MessageError::InvalidMutlipartLength(mp.len()));
        }
        let fixed: [&[u8]; 3] = [mp[0], mp[1], mp[2]];
        let r = Message::from_fixed_size_multipart(&fixed);
        assert(frame_views(mp@) =~= seq![fixed[0]@, fixed[1]@, fixed[2]@]);
        r
    }
}

/// True when two notifications are equal, wallet labels compared by their
/// characters.
pub open spec fn same_message(a: Message, b: Message) -> bool {
    match (a, b) {
        (Message::HashWTx(h1, w1, s1), Message::HashWTx(h2, w2, s2)) => h1 == h2 && w1@ == w2@
            && s1 == s2,
        _ => a == b,
    }
}

/// True when the UTF-8 bytes of a wallet label do not end in a zero byte, so
/// that the zero padding of the wire form can be told apart from the label.
pub open spec fn label_unpadded(label: Seq<char>) -> bool {
    encode_utf8(label).len() == 0 || encode_utf8(label).last() != 0
}

proof fn lemma_scalar_last_byte(c: char)
    ensures
        encode_scalar(c as u32).len() > 0,
        (encode_scalar(c as u32).last() == 0) == (c == '\0'),
{
    let v = c as u32;
    vstd::utf8::char_u32_cast(c, v);
    if has_width_1_encoding(v) {
        assert(((v & 0x7Fu32) as u8 == 0) == (v == 0)) by (bit_vector)
            requires
                v <= 0x7Fu32,
        ;
    } else {
        assert(0x80u8 | (v & 0x3Fu32) as u8 != 0) by (bit_vector);
    }
}

proof fn lemma_encode_utf8_last_byte(chars: Seq<char>)
    requires
        chars.len() > 0,
    ensures
        encode_utf8(chars).len() > 0,
        encode_utf8(chars).last() == encode_scalar(chars.last() as u32).last(),
    decreases chars.len(),
{
    lemma_scalar_last_byte(chars[0]);
    let rest = chars.drop_first();
    let a = encode_scalar(chars[0] as u32);
    let b = encode_utf8(rest);
    assert(encode_utf8(chars) == a + b);
    if rest.len() > 0 {
        lemma_encode_utf8_last_byte(rest);
        assert(rest.last() == chars.last());
        assert((a + b).last() == b.last());
    } else {
        assert(a + b =~= a);
    }
}

/// A wallet label that does not end in a NUL character has UTF-8 bytes that
/// do not end in a zero byte.
pub proof fn lemma_label_unpadded(label: Seq<char>)
    requires
        label.len() == 0 || label.last() != '\0',
    ensures
        label_unpadded(label),
{
    if label.len() > 0 {
        lemma_encode_utf8_last_byte(label);
        lemma_scalar_last_byte(label.last());
    }
}

/// Decoding the frames of a notification gives back the notification. This
/// is shown for every notification whose payload the library encodes itself
/// (not blocks or transactions, which the consensus codec handles), and
/// whose wallet label, if any, does not end in a NUL character, which the
/// zero padding would swallow.
pub proof fn lemma_decode_encode(m: Message, r: Result<Message, MessageError>)
    requires
        !(m is Block),
        !(m is Tx),
        m matches Message::HashWTx(_, w, _) ==> (w@.len() == 0 || w@.last() != '\0'),
        frames_decode_to(frames_of(m), r),
    ensures
        r matches Ok(d) && same_message(d, m),
{
    let s = sequence_of(m);
    lemma_le_u32_round_trip(s);
    let data = data_of(m);
    match m {
        Message::HashBlock(h, _) => {
            lemma_reversed_twice(h.bytes@);
            if let Ok(Message::HashBlock(h2, _)) = r {
                assert(h2.bytes =~= h.bytes);
            }
        },
        Message::HashTx(h, _) => {
            lemma_reversed_twice(h.bytes@);
            if let Ok(Message::HashTx(h2, _)) = r {
                assert(h2.bytes =~= h.bytes);
            }
        },
        Message::HashWTx(h, w, _) => {
            lemma_label_unpadded(w@);
            let enc = encode_utf8(w@);
            let pad = Seq::new(label_padding(enc.len() as int), |i: int| 0u8);
            assert(data.subrange(0, 32) =~= reversed(h.bytes@));
            assert(data.subrange(32, data.len() as int) =~= enc + pad);
            lemma_trim_zero_padding(enc, label_padding(enc.len() as int));
            assert(trim_trailing_zeros(enc) == enc);
            vstd::utf8::encode_utf8_valid_utf8(w@);
            vstd::utf8::encode_utf8_decode_utf8(w@);
            lemma_reversed_twice(h.bytes@);
            if let Ok(Message::HashWTx(h2, _, _)) = r {
                assert(h2.bytes =~= h.bytes);
            }
        },
        Message::Sequence(sm, _) => {
            crate::sequence_message::lemma_encoded_sequence_message_checks(sm);
            if let Ok(Message::Sequence(sm2, _)) = r {
                crate::sequence_message::lemma_sequence_message_bytes_injective(sm2, sm);
            }
        },
        _ => {},
    }
}

/// Encoding a notification decoded from a frame group gives back the frame
/// group. This is shown for the topics whose frames carry no padding and
/// whose payload the library decodes itself: `hashblock`, `hashtx` and
/// `sequence`.
pub proof fn lemma_encode_decode(frames: Seq<Seq<u8>>, m: Message)
    requires
        frames_decode_to(frames, Ok(m)),
        frames.len() == 3 ==> (frames[0] == topic_bytes(Topic::HashBlock) || frames[0]
            == topic_bytes(Topic::HashTx) || frames[0] == topic_bytes(Topic::Sequence)),
    ensures
        frames_of(m) == frames,
{
    lemma_le_bytes_u32_round_trip(frames[2]);
    match m {
        Message::HashBlock(h, _) => {
            lemma_reversed_twice(frames[1]);
        },
        Message::HashTx(h, _) => {
            lemma_reversed_twice(frames[1]);
        },
        _ => {},
    }
    assert(frames_of(m) =~= frames);
}

} // verus!
