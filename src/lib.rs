//! Client-side codec and stream logic for the notifications that a Bitcoin
//! Core node publishes over ZMQ.
//!
//! The wire codec (`message`, `sequence_message`, `event`) is specified over
//! byte sequences. The stream logic (`stream`) is a set of transitions from a
//! state and what was received to the next state and what to do; an async
//! driver performs the socket I/O around them.

pub mod bytes;
pub mod error;
pub mod event;
pub mod message;
pub mod sequence_message;
pub mod stream;

pub use error::MessageError;
pub use event::SocketEvent;
pub use message::{Hash256, Message, Topic, DATA_MAX_LEN, SEQUENCE_LEN, TOPIC_MAX_LEN};
pub use sequence_message::SequenceMessage;
pub use stream::{
    after_monitor_poll, decode_received, wait_handshake, FiniteMessageStream, FiniteStep,
    HandshakeGate, MergeStep, SleepReadyState, SocketMessage,
};
