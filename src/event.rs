//! The connection events that a ZMQ socket monitor reports.

use crate::bytes::{le_u16, le_u32, read_le_u32};
use crate::message::frame_views;
use vstd::prelude::*;

verus! {
/// The monitor's code for `SocketEvent::Connected`.
pub const EVENT_CONNECTED: u16 = 1;
/// The monitor's code for `SocketEvent::ConnectDelayed`.
pub const EVENT_CONNECT_DELAYED: u16 = 2;
/// The monitor's code for `SocketEvent::ConnectRetried`.
pub const EVENT_CONNECT_RETRIED: u16 = 4;
/// The monitor's code for `SocketEvent::Listening`.
pub const EVENT_LISTENING: u16 = 8;
/// The monitor's code for `SocketEvent::BindFailed`.
pub const EVENT_BIND_FAILED: u16 = 16;
/// The monitor's code for `SocketEvent::Accepted`.
pub const EVENT_ACCEPTED: u16 = 32;
/// The monitor's code for `SocketEvent::AcceptFailed`.
pub const EVENT_ACCEPT_FAILED: u16 = 64;
/// The monitor's code for `SocketEvent::Closed`.
pub const EVENT_CLOSED: u16 = 128;
/// The monitor's code for `SocketEvent::CloseFailed`.
pub const EVENT_CLOSE_FAILED: u16 = 256;
/// The monitor's code for `SocketEvent::Disconnected`.
pub const EVENT_DISCONNECTED: u16 = 512;
/// The monitor's code for `SocketEvent::MonitorStopped`.
pub const EVENT_MONITOR_STOPPED: u16 = 1024;
/// The monitor's code for `SocketEvent::HandshakeFailedNoDetail`.
pub const EVENT_HANDSHAKE_FAILED_NO_DETAIL: u16 = 2048;
/// The monitor's code for `SocketEvent::HandshakeSucceeded`.
pub const EVENT_HANDSHAKE_SUCCEEDED: u16 = 4096;
/// The monitor's code for `SocketEvent::HandshakeFailedProtocol`.
pub const EVENT_HANDSHAKE_FAILED_PROTOCOL: u16 = 8192;
/// The monitor's code for `SocketEvent::HandshakeFailedAuth`.
pub const EVENT_HANDSHAKE_FAILED_AUTH: u16 = 16384;
/// The length of the first frame of a monitor message: a 16-bit event code
/// and a 32-bit value, both little-endian.
pub const EVENT_FRAME_LEN: usize = 6;

/// A connection lifecycle event of a socket.
#[derive(Clone, Copy, Debug, PartialEq, Eq, Hash)]
pub enum SocketEvent {
    Connected { fd: u32 },
    ConnectDelayed,
    ConnectRetried { interval: u32 },
    Listening { fd: u32 },
    BindFailed { error: u32 },
    Accepted { fd: u32 },
    AcceptFailed { error: u32 },
    Closed { fd: u32 },
    CloseFailed { error: u32 },
    Disconnected { fd: u32 },
    MonitorStopped,
    HandshakeFailedNoDetail { error: u32 },
    HandshakeSucceeded,
    HandshakeFailedProtocol { error: u32 },
    HandshakeFailedAuth { error: u32 },
    /// An event code that none of the others has.
    Unknown { event: u16, data: u32 },
}

/// The event that a code and its value stand for.
pub open spec fn event_of(event: u16, data: u32) -> SocketEvent {
    if event == EVENT_CONNECTED {
        SocketEvent::Connected { fd: data }
    }     else if event == EVENT_CONNECT_DELAYED {
        SocketEvent::ConnectDelayed
    }     else if event == EVENT_CONNECT_RETRIED {
        SocketEvent::ConnectRetried { interval: data }
    }     else if event == EVENT_LISTENING {
        SocketEvent::Listening { fd: data }
    }     else if event == EVENT_BIND_FAILED {
        SocketEvent::BindFailed { error: data }
    }     else if event == EVENT_ACCEPTED {
        SocketEvent::Accepted { fd: data }
    }     else if event == EVENT_ACCEPT_FAILED {
        SocketEvent::AcceptFailed { error: data }
    }     else if event == EVENT_CLOSED {
        SocketEvent::Closed { fd: data }
    }     else if event == EVENT_CLOSE_FAILED {
        SocketEvent::CloseFailed { error: data }
    }     else if event == EVENT_DISCONNECTED {
        SocketEvent::Disconnected { fd: data }
    }     else if event == EVENT_MONITOR_STOPPED {
        SocketEvent::MonitorStopped
    }     else if event == EVENT_HANDSHAKE_FAILED_NO_DETAIL {
        SocketEvent::HandshakeFailedNoDetail { error: data }
    }     else if event == EVENT_HANDSHAKE_SUCCEEDED {
        SocketEvent::HandshakeSucceeded
    }     else if event == EVENT_HANDSHAKE_FAILED_PROTOCOL {
        SocketEvent::HandshakeFailedProtocol { error: data }
    }     else if event == EVENT_HANDSHAKE_FAILED_AUTH {
        SocketEvent::HandshakeFailedAuth { error: data }
    } else {
        SocketEvent::Unknown { event, data }
    }
}

/// The event that the frames of a monitor message carry, if the first frame
/// is well formed.
pub open spec fn event_in(frames: Seq<Seq<u8>>) -> Option<SocketEvent> {
    if frames.len() > 0 && frames[0].len() == EVENT_FRAME_LEN {
        Some(event_of(le_u16(frames[0].subrange(0, 2)), le_u32(frames[0].subrange(2, 6))))
    } else {
        None
    }
}

impl SocketEvent {
    /// The event that a code and its value stand for.
    pub fn from_raw(event: u16, data: u32) -> (r: SocketEvent)
        ensures
            r == event_of(event, data),
    {
        if event == EVENT_CONNECTED {
            SocketEvent::Connected { fd: data }
        }         else if event == EVENT_CONNECT_DELAYED {
            SocketEvent::ConnectDelayed
        }         else if event == EVENT_CONNECT_RETRIED {
            SocketEvent::ConnectRetried { interval: data }
        }         else if event == EVENT_LISTENING {
            SocketEvent::Listening { fd: data }
        }         else if event == EVENT_BIND_FAILED {
            SocketEvent::BindFailed { error: data }
        }         else if event == EVENT_ACCEPTED {
            SocketEvent::Accepted { fd: data }
        }         else if event == EVENT_ACCEPT_FAILED {
            SocketEvent::AcceptFailed { error: data }
        }         else if event == EVENT_CLOSED {
            SocketEvent::Closed { fd: data }
        }         else if event == EVENT_CLOSE_FAILED {
            SocketEvent::CloseFailed { error: data }
        }         else if event == EVENT_DISCONNECTED {
            SocketEvent::Disconnected { fd: data }
        }         else if event == EVENT_MONITOR_STOPPED {
            SocketEvent::MonitorStopped
        }         else if event == EVENT_HANDSHAKE_FAILED_NO_DETAIL {
            SocketEvent::HandshakeFailedNoDetail { error: data }
        }         else if event == EVENT_HANDSHAKE_SUCCEEDED {
            SocketEvent::HandshakeSucceeded
        }         else if event == EVENT_HANDSHAKE_FAILED_PROTOCOL {
            SocketEvent::HandshakeFailedProtocol { error: data }
        }         else if event == EVENT_HANDSHAKE_FAILED_AUTH {
            SocketEvent::HandshakeFailedAuth { error: data }
        } else {
            SocketEvent::Unknown { event, data }
        }
    }

    /// Decodes the first frame of a monitor message; `None` where it is not
    /// six bytes long.
    pub fn parse_frame(frame: &[u8]) -> (r: Option<SocketEvent>)
        ensures
            frame@.len() == EVENT_FRAME_LEN ==> r == Some(
                event_of(le_u16(frame@.subrange(0, 2)), le_u32(frame@.subrange(2, 6))),
            ),
            frame@.len() != EVENT_FRAME_LEN ==> r is None,
    {
        if frame.len() != EVENT_FRAME_LEN {
            return None;
        }
        let event: u16 = (frame[0] as u16) | ((frame[1] as u16) << 8u16);
        let data = read_le_u32([frame[2], frame[3], frame[4], frame[5]]);
        proof {
            let s = frame@.subrange(2, 6);
            assert(seq![frame@[2], frame@[3], frame@[4], frame@[5]] =~= s);
        }
        Some(SocketEvent::from_raw(event, data))
    }

    /// Decodes the event of a monitor message, whose first frame holds it;
    /// the other frames (the peer's address) are not read.
    pub fn parse_from(frames: &[&[u8]]) -> (r: Option<SocketEvent>)
        ensures
            r == event_in(frame_views(frames@)),
    {
        if frames.len() == 0 {
            None
        } else {
            SocketEvent::parse_frame(frames[0])
        }
    }
}

} // verus!
