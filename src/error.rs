//! The errors of decoding and of the transport.

use vstd::prelude::*;

verus! {

/// The error of rust-bitcoin's consensus decoder, carried through unread.
#[verifier::external_type_specification]
#[verifier::external_body]
pub struct ExConsensusError(bitcoin::consensus::encode::Error);

/// The error of the ZMQ transport, carried through unread.
#[verifier::external_type_specification]
#[verifier::external_body]
pub struct ExZmqError(zmq::Error);

/// Everything that can go wrong while decoding a frame group or receiving it.
#[derive(Debug)]
pub enum MessageError {
    /// The frame group did not hold exactly three frames; carries the count.
    InvalidMutlipartLength(usize),
    /// The topic is none of the known ones; carries its length and its first
    /// bytes, at most `TOPIC_MAX_LEN` of them, padded with zeros.
    InvalidTopic(usize, [u8; 9]),
    /// A hash-bearing payload had the wrong length; carries the length.
    Invalid256BitHashLength(usize),
    /// The sequence frame was not four bytes long; carries its length.
    InvalidSequenceLength(usize),
    /// A `sequence` payload had the wrong length; carries the length.
    InvalidSequenceMessageLength(usize),
    /// A `sequence` payload had an unknown label byte; carries the byte.
    InvalidSequenceMessageLabel(u8),
    /// A monitor message carried no readable event: its first frame was not
    /// six bytes long. Carries that frame's length, or 0 where there was no
    /// frame at all.
    InvalidEventLength(usize),
    /// The consensus codec rejected a block or transaction payload.
    BitcoinDeserialization(bitcoin::consensus::encode::Error),
    /// The messaging transport failed.
    Zmq(zmq::Error),
}

/// The number of topic bytes that an `InvalidTopic` error keeps.
pub open spec fn snapshot_len(len: int) -> int {
    if len < 9 {
        len
    } else {
        9
    }
}

/// The snapshot that an `InvalidTopic` error keeps of `topic`: its first
/// bytes, at most nine, then zeros up to nine bytes.
pub open spec fn topic_snapshot(topic: Seq<u8>) -> Seq<u8> {
    Seq::new(9, |i: int| if i < topic.len() { topic[i] } else { 0u8 })
}

impl MessageError {
    /// For an `InvalidTopic` error, the bytes of the topic that it kept and
    /// the topic's original length.
    pub fn invalid_topic_data(&self) -> (r: Option<(&[u8], usize)>)
        ensures
            match self {
                MessageError::InvalidTopic(len, buf) => r matches Some((s, l)) && l == *len && s@
                    == buf@.subrange(0, snapshot_len(*len as int)),
                _ => r is None,
            },
    {
        match self {
            MessageError::InvalidTopic(len, buf) => {
                let n: usize = if *len < 9 {
                    *len
                } else {
                    9
                };
                let all: &[u8] = vstd::array::array_as_slice(buf);
                Some((vstd::slice::slice_subrange(all, 0, n), *len))
            },
            _ => None,
        }
    }

    /// Wraps a transport error.
    pub fn from_zmq(e: zmq::Error) -> (r: MessageError)
        ensures
            r == MessageError::Zmq(e),
    {
        MessageError::Zmq(e)
    }
}

} // verus!
