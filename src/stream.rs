//! The decisions of the subscription streams: decoding what the data socket
//! delivers, giving the monitor's events priority, gating on handshakes,
//! closing on disconnection, and the timer's ready flag.
//!
//! Each is a transition from a state and what was received to the next state
//! and what to do; the async driver performs the I/O around them.

use crate::error::MessageError;
use crate::event::{event_in, SocketEvent};
use crate::message::{frame_views, frames_decode_to, Message};
use vstd::prelude::*;

verus! {

/// An item of the stream that merges data and monitor events.
#[derive(Debug)]
pub enum SocketMessage {
    Message(Message),
    Event(SocketEvent),
}

/// Decodes one frame group that the data socket delivered, or passes on the
/// transport's error; neither ends the stream.
pub fn decode_received(item: Result<&[&[u8]], zmq::Error>) -> (r: Result<Message, MessageError>)
    ensures
        match item {
            Ok(mp) => frames_decode_to(frame_views(mp@), r),
            Err(e) => r == Err::<Message, MessageError>(MessageError::Zmq(e)),
        },
{
    match item {
        Ok(mp) => Message::from_multipart(mp),
        Err(e) => Err(MessageError::Zmq(e)),
    }
}

/// What the merged stream does once it has polled the monitor.
#[derive(Debug)]
pub enum MergeStep {
    /// Hand this item to the caller without polling the data socket.
    Yield(Result<SocketMessage, MessageError>),
    /// Poll the data socket and hand on what it has.
    PollData,
}

/// The length of the first frame of a monitor message, or 0 where it has no
/// frame.
pub open spec fn first_frame_len(frames: Seq<Seq<u8>>) -> usize {
    if frames.len() > 0 {
        frames[0].len() as usize
    } else {
        0
    }
}

/// Decides on what the monitor had ready (`None`: nothing). Whatever the
/// monitor had ready is handed out at once, without polling the data socket:
/// its event, or an error where the event cannot be read or the transport
/// failed. Only where the monitor had nothing is the data socket polled.
pub fn after_monitor_poll(ready: Option<Result<&[&[u8]], zmq::Error>>) -> (r: MergeStep)
    ensures
        match ready {
            None => r is PollData,
            Some(Err(e)) => r == MergeStep::Yield(Err(MessageError::Zmq(e))),
            Some(Ok(frames)) => match event_in(frame_views(frames@)) {
                Some(ev) => r == MergeStep::Yield(Ok(SocketMessage::Event(ev))),
                None => r == MergeStep::Yield(
                    Err(MessageError::InvalidEventLength(first_frame_len(frame_views(frames@)))),
                ),
            },
        },
{
    match ready {
        None => MergeStep::PollData,
        Some(Err(e)) => MergeStep::Yield(Err(MessageError::Zmq(e))),
        Some(Ok(frames)) => match SocketEvent::parse_from(frames) {
            Some(ev) => MergeStep::Yield(Ok(SocketMessage::Event(ev))),
            None => {
                let len: usize = if frames.len() > 0 {
                    frames[0].len()
                } else {
                    0
                };
                MergeStep::Yield(Err(MessageError::InvalidEventLength(len)))
            },
        },
    }
}

/// How one event moves the count of endpoints still awaiting a handshake.
pub open spec fn gate_step(pending: int, e: SocketEvent) -> int {
    match e {
        SocketEvent::HandshakeSucceeded => pending - 1,
        SocketEvent::Disconnected { .. } => pending + 1,
        _ => pending,
    }
}

/// The count of endpoints still awaiting a handshake after `events`, from
/// `endpoints`.
pub open spec fn pending_after(endpoints: int, events: Seq<SocketEvent>) -> int
    decreases events.len(),
{
    if events.len() == 0 {
        endpoints
    } else {
        gate_step(pending_after(endpoints, events.drop_last()), events.last())
    }
}

/// The number of `HandshakeSucceeded` events in `events`.
pub open spec fn count_succeeded(events: Seq<SocketEvent>) -> nat
    decreases events.len(),
{
    if events.len() == 0 {
        0
    } else {
        count_succeeded(events.drop_last()) + if events.last() is HandshakeSucceeded {
            1nat
        } else {
            0nat
        }
    }
}

/// The number of `Disconnected` events in `events`.
pub open spec fn count_disconnected(events: Seq<SocketEvent>) -> nat
    decreases events.len(),
{
    if events.len() == 0 {
        0
    } else {
        count_disconnected(events.drop_last()) + if events.last() is Disconnected {
            1nat
        } else {
            0nat
        }
    }
}

/// The handshake gate opens after exactly the first `k` events.
pub open spec fn opens_at(endpoints: int, events: Seq<SocketEvent>, k: int) -> bool {
    &&& 0 <= k <= events.len()
    &&& pending_after(endpoints, events.subrange(0, k)) == 0
    &&& forall|j: int| 0 <= j < k ==> pending_after(endpoints, events.subrange(0, j)) != 0
}

/// The pending count is the number of endpoints, less each handshake, plus
/// each disconnection.
pub proof fn lemma_pending_counts(endpoints: int, events: Seq<SocketEvent>)
    ensures
        pending_after(endpoints, events) == endpoints - count_succeeded(events)
            + count_disconnected(events),
    decreases events.len(),
{
    if events.len() > 0 {
        lemma_pending_counts(endpoints, events.drop_last());
    }
}

proof fn lemma_count_succeeded_prefix(events: Seq<SocketEvent>, j: int)
    requires
        0 <= j <= events.len(),
    ensures
        count_succeeded(events.subrange(0, j)) <= count_succeeded(events),
    decreases events.len() - j,
{
    if j < events.len() {
        let next = events.subrange(0, j + 1);
        assert(next.drop_last() =~= events.subrange(0, j));
        lemma_count_succeeded_prefix(events, j + 1);
    } else {
        assert(events.subrange(0, j) =~= events);
    }
}

proof fn lemma_count_disconnected_prefix(events: Seq<SocketEvent>, j: int)
    requires
        0 <= j <= events.len(),
        count_disconnected(events) == 0,
    ensures
        count_disconnected(events.subrange(0, j)) == 0,
    decreases events.len() - j,
{
    if j < events.len() {
        let next = events.subrange(0, j + 1);
        assert(next.drop_last() =~= events.subrange(0, j));
        lemma_count_disconnected_prefix(events, j + 1);
    } else {
        assert(events.subrange(0, j) =~= events);
    }
}

/// With `endpoints` handshakes and no disconnection, the handshake wait
/// completes exactly at the last handshake.
pub proof fn lemma_gate_opens_after_all_handshakes(endpoints: nat, events: Seq<SocketEvent>)
    requires
        events.len() > 0,
        events.last() is HandshakeSucceeded,
        count_succeeded(events) == endpoints,
        count_disconnected(events) == 0,
    ensures
        opens_at(endpoints as int, events, events.len() as int),
{
    assert(events.subrange(0, events.len() as int) =~= events);
    lemma_pending_counts(endpoints as int, events);
    let before = events.drop_last();
    assert forall|j: int| 0 <= j < events.len() implies pending_after(
        endpoints as int,
        events.subrange(0, j),
    ) != 0 by {
        assert(events.subrange(0, j) =~= before.subrange(0, j));
        lemma_count_succeeded_prefix(before, j);
        lemma_count_disconnected_prefix(events, j);
        lemma_pending_counts(endpoints as int, events.subrange(0, j));
    }
}

/// Both counts grow along the prefixes of `events`.
pub proof fn lemma_prefix_counts_grow(events: Seq<SocketEvent>, i: int, j: int)
    requires
        0 <= i <= j <= events.len(),
    ensures
        count_succeeded(events.subrange(0, i)) <= count_succeeded(events.subrange(0, j)),
        count_disconnected(events.subrange(0, i)) <= count_disconnected(events.subrange(0, j)),
    decreases j - i,
{
    if i < j {
        assert(events.subrange(0, j).drop_last() =~= events.subrange(0, j - 1));
        lemma_prefix_counts_grow(events, i, j - 1);
    }
}

/// The handshake wait completes at one place at most.
pub proof fn lemma_opens_at_unique(endpoints: int, events: Seq<SocketEvent>, k1: int, k2: int)
    requires
        opens_at(endpoints, events, k1),
        opens_at(endpoints, events, k2),
    ensures
        k1 == k2,
{
}

/// One disconnection that arrives before the `endpoints`-th handshake asks
/// for one handshake more: the handshake wait completes exactly at handshake
/// `endpoints + 1`, and so not at handshake `endpoints`.
pub proof fn lemma_gate_opens_one_handshake_later(
    endpoints: nat,
    events: Seq<SocketEvent>,
    d: int,
)
    requires
        0 <= d < events.len(),
        events[d] is Disconnected,
        count_succeeded(events.subrange(0, d)) < endpoints,
        count_disconnected(events) == 1,
        count_succeeded(events) == endpoints + 1,
        events.last() is HandshakeSucceeded,
    ensures
        opens_at(endpoints as int, events, events.len() as int),
{
    let n = events.len() as int;
    assert(events.subrange(0, n) =~= events);
    lemma_pending_counts(endpoints as int, events);
    assert(events.subrange(0, d + 1).drop_last() =~= events.subrange(0, d));
    lemma_prefix_counts_grow(events, d + 1, n);
    assert(count_disconnected(events.subrange(0, d)) == 0);
    assert(events.drop_last() =~= events.subrange(0, n - 1));
    assert(count_succeeded(events.subrange(0, n - 1)) == endpoints);
    assert forall|j: int| 0 <= j < n implies pending_after(
        endpoints as int,
        events.subrange(0, j),
    ) != 0 by {
        lemma_pending_counts(endpoints as int, events.subrange(0, j));
        if j <= d {
            lemma_prefix_counts_grow(events, j, d);
        } else {
            lemma_prefix_counts_grow(events, d + 1, j);
            lemma_prefix_counts_grow(events, j, n - 1);
        }
    }
}

/// A disconnection adds one endpoint to those awaiting a handshake, so that
/// one more handshake is needed; a handshake takes one away.
pub proof fn lemma_disconnect_needs_one_more(
    endpoints: int,
    events: Seq<SocketEvent>,
    fd: u32,
)
    ensures
        pending_after(endpoints, events.push(SocketEvent::Disconnected { fd }))
            == pending_after(endpoints, events) + 1,
        pending_after(
            endpoints,
            events.push(SocketEvent::Disconnected { fd }).push(SocketEvent::HandshakeSucceeded),
        ) == pending_after(endpoints, events),
{
    let d = events.push(SocketEvent::Disconnected { fd });
    assert(d.drop_last() =~= events);
    assert(d.push(SocketEvent::HandshakeSucceeded).drop_last() =~= d);
}

/// Counts the endpoints that still await a handshake; opens at zero.
#[derive(Debug)]
pub struct HandshakeGate {
    pending: usize,
}

impl HandshakeGate {
    /// The count of endpoints still awaiting a handshake.
    pub closed spec fn spec_pending(&self) -> nat {
        self.pending as nat
    }

    /// A gate for `endpoints` endpoints; with none it is open at once.
    pub fn new(endpoints: usize) -> (r: HandshakeGate)
        ensures
            r.spec_pending() == endpoints,
    {
        HandshakeGate { pending: endpoints }
    }

    /// The count of endpoints still awaiting a handshake.
    pub fn pending(&self) -> (r: usize)
        ensures
            r == self.spec_pending(),
    {
        self.pending
    }

    /// True once every endpoint has completed its handshake.
    pub fn is_open(&self) -> (r: bool)
        ensures
            r == (self.spec_pending() == 0),
    {
        self.pending == 0
    }

    /// Takes one event into account; true when no endpoint awaits a handshake
    /// any more.
    pub fn observe(&mut self, event: &SocketEvent) -> (opened: bool)
        requires
            old(self).spec_pending() > 0,
            old(self).spec_pending() < usize::MAX,
        ensures
            final(self).spec_pending() == gate_step(old(self).spec_pending() as int, *event),
            opened == (final(self).spec_pending() == 0),
    {
        match event {
            SocketEvent::HandshakeSucceeded => {
                self.pending = self.pending - 1;
            },
            SocketEvent::Disconnected { .. } => {
                self.pending = self.pending + 1;
            },
            _ => {},
        }
        self.pending == 0
    }
}

/// Feeds `events` in order to a gate for `endpoints` endpoints and returns
/// how many it took to open it, or `None` where they do not open it.
pub fn wait_handshake(endpoints: usize, events: &[SocketEvent]) -> (r: Option<usize>)
    requires
        endpoints + events@.len() < usize::MAX,
    ensures
        match r {
            Some(k) => opens_at(endpoints as int, events@, k as int),
            None => forall|j: int|
                0 <= j <= events@.len() ==> pending_after(endpoints as int, events@.subrange(0, j))
                    != 0,
        },
{
    let mut gate = HandshakeGate::new(endpoints);
    assert(events@.subrange(0, 0) =~= Seq::<SocketEvent>::empty());
    if gate.is_open() {
        return Some(0);
    }
    let mut i: usize = 0;
    while i < events.len()
        invariant
            i <= events@.len(),
            endpoints + events@.len() < usize::MAX,
            gate.spec_pending() == pending_after(endpoints as int, events@.subrange(0, i as int)),
            gate.spec_pending() > 0,
            gate.spec_pending() <= endpoints + i,
            forall|j: int|
                0 <= j <= i ==> pending_after(endpoints as int, events@.subrange(0, j)) != 0,
        decreases events@.len() - i,
    {
        let opened = gate.observe(&events[i]);
        proof {
            assert(events@.subrange(0, i + 1).drop_last() =~= events@.subrange(0, i as int));
        }
        i = i + 1;
        if opened {
            return Some(i);
        }
    }
    None
}

/// What the finite stream does with one item of the merged stream.
#[derive(Debug)]
pub enum FiniteStep {
    /// Hand this item to the caller.
    Yield(Result<Message, MessageError>),
    /// Nothing for the caller yet: poll the merged stream again.
    Continue,
    /// The stream has ended, for good.
    End,
}

/// A stream of notifications that ends at the first disconnection. It owns
/// the merged stream while open and drops it when it closes.
pub struct FiniteMessageStream<S> {
    inner: Option<S>,
}

impl<S> FiniteMessageStream<S> {
    /// True once the stream has closed.
    pub closed spec fn closed(&self) -> bool {
        self.inner is None
    }

    /// An open stream over `inner`.
    pub fn new(inner: S) -> (r: FiniteMessageStream<S>)
        ensures
            !r.closed(),
    {
        FiniteMessageStream { inner: Some(inner) }
    }

    /// The merged stream, while open.
    pub fn inner_mut(&mut self) -> (r: Option<&mut S>)
        ensures
            r is None <==> old(self).closed(),
            final(self).closed() == old(self).closed(),
    {
        self.inner.as_mut()
    }

    /// True once the stream has closed; it then stays closed.
    pub fn is_terminated(&self) -> (r: bool)
        ensures
            r == self.closed(),
    {
        self.inner.is_none()
    }

    /// Takes one item of the merged stream (`None`: it ended). Notifications
    /// and errors are handed on; a disconnection, or the end of the merged
    /// stream, closes this stream; other events are passed over. A closed
    /// stream ends again on every item.
    pub fn step(&mut self, item: Option<Result<SocketMessage, MessageError>>) -> (r: FiniteStep)
        ensures
            old(self).closed() ==> r is End && final(self).closed(),
            !old(self).closed() ==> match item {
                None => r is End && final(self).closed(),
                Some(Err(e)) => r == FiniteStep::Yield(Err(e)) && !final(self).closed(),
                Some(Ok(SocketMessage::Message(m))) => r == FiniteStep::Yield(Ok(m))
                    && !final(self).closed(),
                Some(Ok(SocketMessage::Event(ev))) => if ev is Disconnected {
                    r is End && final(self).closed()
                } else {
                    r is Continue && !final(self).closed()
                },
            },
    {
        if self.inner.is_none() {
            return FiniteStep::End;
        }
        match item {
            None => {
                self.inner = None;
                FiniteStep::End
            },
            Some(Err(e)) => FiniteStep::Yield(Err(e)),
            Some(Ok(SocketMessage::Message(m))) => FiniteStep::Yield(Ok(m)),
            Some(Ok(SocketMessage::Event(ev))) => {
                if let SocketEvent::Disconnected { .. } = ev {
                    self.inner = None;
                    FiniteStep::End
                } else {
                    FiniteStep::Continue
                }
            },
        }
    }
}

/// The ready flag that a timer thread shares with the task that polls it.
#[derive(Debug)]
pub enum SleepReadyState<W> {
    /// Not yet elapsed, and nobody waits.
    Pending,
    /// Not yet elapsed; the poller left this waker.
    PendingPolled(W),
    /// Elapsed.
    Done,
}

impl<W> SleepReadyState<W> {
    /// The poller's side: ready once elapsed; otherwise leaves `waker` to be
    /// woken, in place of any earlier one.
    pub fn poll(&mut self, waker: W) -> (ready: bool)
        ensures
            ready == (*old(self) is Done),
            ready ==> *final(self) is Done,
            !ready ==> *final(self) == SleepReadyState::PendingPolled(waker),
    {
        if let SleepReadyState::Done = self {
            true
        } else {
            *self = SleepReadyState::PendingPolled(waker);
            false
        }
    }

    /// The timer's side: marks the flag elapsed and hands back the waker to
    /// wake, if the poller left one.
    pub fn fire(&mut self) -> (r: Option<W>)
        ensures
            *final(self) is Done,
            match *old(self) {
                SleepReadyState::PendingPolled(w) => r == Some(w),
                _ => r is None,
            },
    {
        let mut prev = SleepReadyState::Done;
        std::mem::swap(self, &mut prev);
        match prev {
            SleepReadyState::PendingPolled(w) => Some(w),
            _ => None,
        }
    }
}

} // verus!
