//! The pump: the copy loop of one direction of a relayed connection.
//!
//! A pump does no I/O. It is told what happened on the wire (`PumpEvent`)
//! and answers with what has to happen next (`PumpAction`). Whoever owns the
//! sockets performs the action and comes back with the next event.
//!
//! Conventions that the pump adopts:
//! - A read of zero bytes is handled as the pump was built: with
//!   `ZeroRead::Retry` the pump reads again, with `ZeroRead::Close` it takes
//!   the peer for gone and ends the way a failed read ends it.
//! - A write that took fewer bytes than were offered, or none, is followed
//!   by a write of the rest, until everything that was read has been handed
//!   over.
//! - Only a pump with a read timeout cancels its sibling when it ends.

use crate::buffer::buffer_as_slice;
use crate::buffer::buffer_bytes;
use crate::buffer::buffer_clear;
use crate::buffer::buffer_extend;
use crate::buffer::buffer_len;
use crate::buffer::buffer_with_capacity;
use bytes::BytesMut;
use vstd::prelude::*;

verus! {

/// The most bytes that one read may bring.
pub const BUFFER_CAPACITY: usize = 2048;

/// Where a pump stands in its life.
#[derive(Clone, Copy, Debug, PartialEq, Eq, Structural)]
pub enum PumpState {
    /// Reading and writing in turn.
    Running,
    /// A read failed; the pump is about to end.
    ReadFailed,
    /// A write failed; the pump is about to end.
    WriteFailed,
    /// A read did not complete in time; the pump is about to end.
    TimedOut,
    /// The pump has ended. Nothing leads out of this state.
    Terminated,
}

/// What a pump makes of a read that brought no bytes.
#[derive(Clone, Copy, Debug, PartialEq, Eq, Structural)]
pub enum ZeroRead {
    /// No data yet: read again.
    Retry,
    /// The peer has closed: end the pump.
    Close,
}

/// What happened on the wire since the pump last spoke.
#[derive(Clone, Copy, Debug)]
pub enum PumpEvent<'a> {
    /// A read completed and brought these bytes.
    ReadCompleted(&'a [u8]),
    /// A read failed.
    ReadFailed,
    /// A read did not complete within the timeout.
    ReadTimedOut,
    /// A write completed and took this many of the pending bytes.
    WriteCompleted(usize),
    /// A write failed.
    WriteFailed,
    /// The sibling pump cancelled this one.
    Cancelled,
    /// The pump's stream halves were let go, and its sibling cancelled
    /// where that was asked for.
    Released,
}

/// What the owner of the sockets has to do next.
#[derive(Clone, Copy, Debug, PartialEq, Eq)]
pub enum PumpAction {
    /// Read at most `BUFFER_CAPACITY` bytes; give up after `within`
    /// seconds where a timeout is set.
    Read { within: Option<u64> },
    /// Write the pending bytes.
    Write,
    /// Cancel the sibling pump and let go of the stream halves.
    CancelSibling,
    /// Let go of the stream halves.
    Release,
    /// Nothing is left to do.
    Stop,
}

/// A pump as contracts see it.
pub struct PumpView {
    pub state: PumpState,
    /// The read timeout in seconds, where the pump has one.
    pub timeout: Option<u64>,
    pub zero_read: ZeroRead,
    /// Bytes that were read and are not yet written.
    pub pending: Seq<u8>,
    /// Every byte that the pump has read, in order.
    pub received: Seq<u8>,
    /// Every byte that a write has taken, in order.
    pub delivered: Seq<u8>,
}

impl PumpView {
    /// A pump that has not seen any event.
    pub open spec fn initial(timeout: Option<u64>, zero_read: ZeroRead) -> PumpView {
        PumpView {
            state: PumpState::Running,
            timeout,
            zero_read,
            pending: Seq::empty(),
            received: Seq::empty(),
            delivered: Seq::empty(),
        }
    }

    /// Whether the pump reads under a timeout. Such a pump cancels its
    /// sibling when it ends.
    pub open spec fn guarded(self) -> bool {
        self.timeout is Some
    }

    /// Whether the pump waits for a read to complete.
    pub open spec fn awaits_read(self) -> bool {
        self.state == PumpState::Running && self.pending.len() == 0
    }

    /// Whether the pump waits for a write to complete.
    pub open spec fn awaits_write(self) -> bool {
        self.state == PumpState::Running && self.pending.len() > 0
    }

    /// Whether the pump has left `Running` and not yet reached `Terminated`.
    pub open spec fn failed(self) -> bool {
        self.state == PumpState::ReadFailed || self.state == PumpState::WriteFailed || self.state
            == PumpState::TimedOut
    }

    /// The pump in another state, all else unchanged.
    pub open spec fn moved_to(self, state: PumpState) -> PumpView {
        PumpView { state, ..self }
    }

    /// Whether the pump can be handed `event`: a read brings no more than
    /// the buffer holds, and a write takes no more than was offered.
    pub open spec fn admits(self, event: PumpEvent) -> bool {
        match event {
            PumpEvent::ReadCompleted(data) => data@.len() <= BUFFER_CAPACITY,
            PumpEvent::WriteCompleted(count) => self.awaits_write() ==> count <= self.pending.len(),
            _ => true,
        }
    }

    /// The pump after `event`. An event that the pump does not wait for
    /// leaves it as it is.
    pub open spec fn advance(self, event: PumpEvent) -> PumpView {
        match self.state {
            PumpState::Running => match event {
                PumpEvent::ReadCompleted(data) => {
                    if !self.awaits_read() {
                        self
                    } else if data@.len() > 0 {
                        PumpView { pending: data@, received: self.received + data@, ..self }
                    } else if self.zero_read == ZeroRead::Close {
                        self.moved_to(PumpState::ReadFailed)
                    } else {
                        self
                    }
                },
                PumpEvent::ReadFailed => {
                    if self.awaits_read() {
                        self.moved_to(PumpState::ReadFailed)
                    } else {
                        self
                    }
                },
                PumpEvent::ReadTimedOut => {
                    if self.awaits_read() && self.guarded() {
                        self.moved_to(PumpState::TimedOut)
                    } else {
                        self
                    }
                },
                PumpEvent::WriteCompleted(count) => {
                    if self.awaits_write() && count <= self.pending.len() {
                        PumpView {
                            pending: self.pending.skip(count as int),
                            delivered: self.delivered + self.pending.take(count as int),
                            ..self
                        }
                    } else {
                        self
                    }
                },
                PumpEvent::WriteFailed => {
                    if self.awaits_write() {
                        self.moved_to(PumpState::WriteFailed)
                    } else {
                        self
                    }
                },
                PumpEvent::Cancelled => self.moved_to(PumpState::Terminated),
                PumpEvent::Released => self,
            },
            PumpState::Terminated => self,
            _ => match event {
                PumpEvent::Cancelled => self.moved_to(PumpState::Terminated),
                PumpEvent::Released => self.moved_to(PumpState::Terminated),
                _ => self,
            },
        }
    }

    /// What the pump asks for in its present state.
    pub open spec fn due(self) -> PumpAction {
        match self.state {
            PumpState::Running => {
                if self.pending.len() == 0 {
                    PumpAction::Read { within: self.timeout }
                } else {
                    PumpAction::Write
                }
            },
            PumpState::Terminated => PumpAction::Stop,
            _ => {
                if self.guarded() {
                    PumpAction::CancelSibling
                } else {
                    PumpAction::Release
                }
            },
        }
    }

    /// Whether `event` is an answer to what the pump asks for, or a
    /// cancellation, which may come at any time.
    pub open spec fn expects(self, event: PumpEvent) -> bool {
        match event {
            PumpEvent::ReadCompleted(data) => self.awaits_read() && data@.len() <= BUFFER_CAPACITY,
            PumpEvent::ReadFailed => self.awaits_read(),
            PumpEvent::ReadTimedOut => self.awaits_read() && self.guarded(),
            PumpEvent::WriteCompleted(count) => self.awaits_write() && count <= self.pending.len(),
            PumpEvent::WriteFailed => self.awaits_write(),
            PumpEvent::Cancelled => true,
            PumpEvent::Released => self.failed(),
        }
    }

    /// Whether every event of a run is an answer to what the pump asked for
    /// just before it.
    pub open spec fn follows(self, events: Seq<PumpEvent>) -> bool
        decreases events.len(),
    {
        events.len() == 0 || (self.follows(events.drop_last()) && self.run(
            events.drop_last(),
        ).expects(events.last()))
    }

    /// The bytes that the writes of a run took, in order: of each completed
    /// write, as many of the bytes that were pending as the write reports.
    pub open spec fn bytes_taken(self, events: Seq<PumpEvent>) -> Seq<u8>
        decreases events.len(),
    {
        if events.len() == 0 {
            Seq::empty()
        } else {
            let before = self.run(events.drop_last());
            self.bytes_taken(events.drop_last()) + match events.last() {
                PumpEvent::WriteCompleted(count) => before.pending.take(count as int),
                _ => Seq::empty(),
            }
        }
    }

    /// Whether every byte that was read is either written or still pending,
    /// in the order in which it was read.
    pub open spec fn conserves(self) -> bool {
        self.received == self.delivered + self.pending
    }

    /// The pump after a run of events, taken first to last.
    pub open spec fn run(self, events: Seq<PumpEvent>) -> PumpView
        decreases events.len(),
    {
        if events.len() == 0 {
            self
        } else {
            self.run(events.drop_last()).advance(events.last())
        }
    }
}

/// The bytes that the reads of a run brought, in order.
pub open spec fn bytes_read(events: Seq<PumpEvent>) -> Seq<u8>
    decreases events.len(),
{
    if events.len() == 0 {
        Seq::empty()
    } else {
        bytes_read(events.drop_last()) + match events.last() {
            PumpEvent::ReadCompleted(data) => data@,
            _ => Seq::empty(),
        }
    }
}

/// The copy loop of one direction, as a state machine.
pub struct Pump {
    state: PumpState,
    timeout: Option<u64>,
    zero_read: ZeroRead,
    buffer: BytesMut,
    written: usize,
    received: Ghost<Seq<u8>>,
    delivered: Ghost<Seq<u8>>,
}

impl View for Pump {
    type V = PumpView;

    closed spec fn view(&self) -> PumpView {
        PumpView {
            state: self.state,
            timeout: self.timeout,
            zero_read: self.zero_read,
            pending: buffer_bytes(self.buffer).skip(self.written as int),
            received: self.received@,
            delivered: self.delivered@,
        }
    }
}

impl Pump {
    /// What holds of every pump that this module hands out: the buffer is
    /// within its capacity, it is empty once all of it is written, and no
    /// byte has been lost or made up.
    pub closed spec fn wf(&self) -> bool {
        &&& buffer_bytes(self.buffer).len() <= BUFFER_CAPACITY
        &&& self.written <= buffer_bytes(self.buffer).len()
        &&& self.written == buffer_bytes(self.buffer).len() ==> self.written == 0
        &&& self@.conserves()
    }

    /// A pump that is about to read for the first time. With `timeout` set,
    /// each read is bounded by that many seconds and the pump cancels its
    /// sibling when it ends.
    pub fn new(timeout: Option<u64>, zero_read: ZeroRead) -> (pump: Pump)
        ensures
            pump.wf(),
            pump@ == PumpView::initial(timeout, zero_read),
    {
        let pump = Pump {
            state: PumpState::Running,
            timeout,
            zero_read,
            buffer: buffer_with_capacity(BUFFER_CAPACITY),
            written: 0,
            received: Ghost(Seq::empty()),
            delivered: Ghost(Seq::empty()),
        };
        proof {
            assert(pump@.pending =~= Seq::<u8>::empty());
            assert(pump@.received =~= pump@.delivered + pump@.pending);
        }
        pump
    }

    /// The state of the pump.
    pub fn state(&self) -> (state: PumpState)
        ensures
            state == self@.state,
    {
        self.state
    }

    /// Whether the pump has ended.
    pub fn is_terminated(&self) -> (ended: bool)
        ensures
            ended == (self@.state == PumpState::Terminated),
    {
        match self.state {
            PumpState::Terminated => true,
            _ => false,
        }
    }

    /// The bytes that were read and are not yet written: what the next
    /// write has to offer.
    pub fn pending(&self) -> (bytes: &[u8])
        requires
            self.wf(),
        ensures
            bytes@ == self@.pending,
    {
        let held = buffer_as_slice(&self.buffer);
        let bytes = &held[self.written..held.len()];
        proof {
            assert(bytes@ =~= self@.pending);
        }
        bytes
    }

    /// What the pump asks for in its present state.
    pub fn action(&self) -> (action: PumpAction)
        requires
            self.wf(),
        ensures
            action == self@.due(),
    {
        match self.state {
            PumpState::Running => {
                if buffer_len(&self.buffer) == 0 {
                    PumpAction::Read { within: self.timeout }
                } else {
                    PumpAction::Write
                }
            },
            PumpState::Terminated => PumpAction::Stop,
            _ => {
                if self.timeout.is_some() {
                    PumpAction::CancelSibling
                } else {
                    PumpAction::Release
                }
            },
        }
    }

    /// Takes `event` in and says what has to happen next.
    pub fn step(&mut self, event: PumpEvent<'_>) -> (action: PumpAction)
        requires
            old(self).wf(),
            old(self)@.admits(event),
        ensures
            final(self).wf(),
            final(self)@ == old(self)@.advance(event),
            action == final(self)@.due(),
    {
        let held: usize = buffer_len(&self.buffer);
        match self.state {
            PumpState::Running => match event {
                PumpEvent::ReadCompleted(data) => {
                    if held == 0 {
                        if data.len() > 0 {
                            buffer_extend(&mut self.buffer, data);
                            self.received = Ghost(self.received@ + data@);
                            proof {
                                assert(buffer_bytes(self.buffer) =~= data@);
                                assert(self@.pending =~= data@);
                                assert(self@.received =~= self@.delivered + self@.pending);
                            }
                        } else {
                            match self.zero_read {
                                ZeroRead::Close => {
                                    self.state = PumpState::ReadFailed;
                                },
                                ZeroRead::Retry => {},
                            }
                        }
                    }
                },
                PumpEvent::ReadFailed => {
                    if held == 0 {
                        self.state = PumpState::ReadFailed;
                    }
                },
                PumpEvent::ReadTimedOut => {
                    if held == 0 && self.timeout.is_some() {
                        self.state = PumpState::TimedOut;
                    }
                },
                PumpEvent::WriteCompleted(count) => {
                    if held > 0 {
                        let ghost before = self@;
                        let left: usize = held - self.written;
                        self.delivered = Ghost(self.delivered@ + before.pending.take(count as int));
                        if count == left {
                            buffer_clear(&mut self.buffer);
                            self.written = 0;
                        } else {
                            self.written = self.written + count;
                        }
                        proof {
                            assert(self@.pending =~= before.pending.skip(count as int));
                            assert(before.pending =~= before.pending.take(count as int)
                                + before.pending.skip(count as int));
                            assert(self@.received =~= self@.delivered + self@.pending);
                        }
                    }
                },
                PumpEvent::WriteFailed => {
                    if held > 0 {
                        self.state = PumpState::WriteFailed;
                    }
                },
                PumpEvent::Cancelled => {
                    self.state = PumpState::Terminated;
                },
                PumpEvent::Released => {},
            },
            PumpState::Terminated => {},
            _ => match event {
                PumpEvent::Cancelled => {
                    self.state = PumpState::Terminated;
                },
                PumpEvent::Released => {
                    self.state = PumpState::Terminated;
                },
                _ => {},
            },
        }
        self.action()
    }
}

/// A pump that this module handed out has lost no byte and made none up:
/// what it has read is what it has written, followed by what is pending.
pub proof fn lemma_pump_conserves(pump: Pump)
    requires
        pump.wf(),
    ensures
        pump@.conserves(),
{
}

/// No event makes a pump lose, repeat or reorder a byte.
pub proof fn lemma_advance_conserves(pump: PumpView, event: PumpEvent)
    requires
        pump.conserves(),
    ensures
        pump.advance(event).conserves(),
{
    let after = pump.advance(event);
    match event {
        PumpEvent::ReadCompleted(data) => {
            if pump.awaits_read() && data@.len() > 0 {
                assert(pump.received =~= pump.delivered);
                assert(after.received =~= after.delivered + after.pending);
            }
        },
        PumpEvent::WriteCompleted(count) => {
            if pump.awaits_write() && count <= pump.pending.len() {
                assert(pump.pending =~= pump.pending.take(count as int) + pump.pending.skip(
                    count as int,
                ));
                assert(after.received =~= after.delivered + after.pending);
            }
        },
        _ => {},
    }
}

/// After any run of events, every byte that the pump took in is either
/// written or still pending, in the order in which it came.
pub proof fn lemma_run_conserves(timeout: Option<u64>, zero_read: ZeroRead, events: Seq<PumpEvent>)
    ensures
        PumpView::initial(timeout, zero_read).run(events).conserves(),
    decreases events.len(),
{
    let start = PumpView::initial(timeout, zero_read);
    if events.len() == 0 {
        assert(start.received =~= start.delivered + start.pending);
    } else {
        lemma_run_conserves(timeout, zero_read, events.drop_last());
        lemma_advance_conserves(start.run(events.drop_last()), events.last());
    }
}

/// The relay is lossless and keeps the order. Take any run of events in
/// which each event answers what the pump asked for. Then the bytes that
/// the writes took are the first of the bytes that the reads brought, none
/// missing, none twice, none out of place; and whenever the pump is back at
/// reading, they are all of them. This holds of either direction, with or
/// without a timeout.
pub proof fn lemma_relay_is_lossless(
    timeout: Option<u64>,
    zero_read: ZeroRead,
    events: Seq<PumpEvent>,
)
    requires
        PumpView::initial(timeout, zero_read).follows(events),
    ensures
        ({
            let start = PumpView::initial(timeout, zero_read);
            let pump = start.run(events);
            &&& pump.received == bytes_read(events)
            &&& pump.delivered == start.bytes_taken(events)
            &&& bytes_read(events) == start.bytes_taken(events) + pump.pending
            &&& start.bytes_taken(events).is_prefix_of(bytes_read(events))
            &&& pump.awaits_read() ==> start.bytes_taken(events) == bytes_read(events)
        }),
    decreases events.len(),
{
    let start = PumpView::initial(timeout, zero_read);
    let pump = start.run(events);
    lemma_run_conserves(timeout, zero_read, events);
    if events.len() == 0 {
        assert(pump.received =~= bytes_read(events));
        assert(pump.delivered =~= start.bytes_taken(events));
    } else {
        let before = start.run(events.drop_last());
        lemma_relay_is_lossless(timeout, zero_read, events.drop_last());
        assert(pump == before.advance(events.last()));
        assert(pump.received =~= bytes_read(events));
        assert(pump.delivered =~= start.bytes_taken(events));
    }
    assert(bytes_read(events) =~= start.bytes_taken(events) + pump.pending);
    assert(pump.awaits_read() ==> start.bytes_taken(events) =~= bytes_read(events));
}

/// `Terminated` is final: no event changes a pump that has ended, and such a
/// pump asks for nothing.
pub proof fn lemma_terminated_is_final(pump: PumpView, event: PumpEvent)
    requires
        pump.state == PumpState::Terminated,
    ensures
        pump.advance(event) == pump,
        pump.due() == PumpAction::Stop,
{
}

/// A pump leaves `Running` only through a failed read, a failed write, a
/// timeout or a cancellation, and reaches `Terminated` from there.
pub proof fn lemma_states_follow_in_order(pump: PumpView, event: PumpEvent)
    ensures
        pump.state == PumpState::Running ==> pump.advance(event).state == PumpState::Running
            || pump.advance(event).failed() || (event is Cancelled && pump.advance(event).state
            == PumpState::Terminated),
        pump.failed() ==> pump.advance(event).state == pump.state || pump.advance(event).state
            == PumpState::Terminated,
        pump.advance(event).state == PumpState::TimedOut && pump.state != PumpState::TimedOut
            ==> pump.guarded() && event is ReadTimedOut,
{
}

/// Cancellation goes one way: a pump asks for its sibling to be cancelled
/// only if it reads under a timeout and has just failed.
pub proof fn lemma_only_guarded_pumps_cancel(pump: PumpView)
    ensures
        pump.due() == PumpAction::CancelSibling <==> pump.guarded() && pump.failed(),
        !pump.guarded() && pump.failed() ==> pump.due() == PumpAction::Release,
{
}

/// A write comes before the next read: the pump asks for a read only when
/// nothing is pending, and for a write only when something is. A slow
/// destination therefore holds the source back.
pub proof fn lemma_reads_wait_for_writes(pump: PumpView)
    ensures
        pump.due() is Read ==> pump.pending.len() == 0,
        pump.due() == PumpAction::Write ==> pump.pending.len() > 0,
        pump.due() is Read <==> pump.awaits_read(),
        pump.due() == PumpAction::Write <==> pump.awaits_write(),
{
}

/// A write that took only some of the pending bytes is followed by a write
/// of the rest, and a write that took them all by a read.
pub proof fn lemma_short_write_is_resumed(pump: PumpView, count: usize)
    requires
        pump.awaits_write(),
        count <= pump.pending.len(),
    ensures
        pump.advance(PumpEvent::WriteCompleted(count)).pending == pump.pending.skip(count as int),
        count < pump.pending.len() ==> pump.advance(PumpEvent::WriteCompleted(count)).due()
            == PumpAction::Write,
        count == pump.pending.len() ==> pump.advance(PumpEvent::WriteCompleted(count)).due()
            == (PumpAction::Read { within: pump.timeout }),
{
}

/// The timeout bounds a read and nothing else: while a write is under way
/// no timeout ends the pump.
pub proof fn lemma_timeout_counts_per_read(pump: PumpView)
    requires
        pump.awaits_write(),
    ensures
        pump.advance(PumpEvent::ReadTimedOut) == pump,
{
}

/// A pump that takes an empty read for the end of the stream ends when the
/// peer has closed; a pump that does not reads again.
pub proof fn lemma_empty_read_follows_the_setting(pump: PumpView, data: &[u8])
    requires
        pump.awaits_read(),
        data@.len() == 0,
    ensures
        pump.zero_read == ZeroRead::Close ==> {
            &&& pump.advance(PumpEvent::ReadCompleted(data)).state == PumpState::ReadFailed
            &&& pump.advance(PumpEvent::ReadCompleted(data)).advance(PumpEvent::Released).state
                == PumpState::Terminated
        },
        pump.zero_read == ZeroRead::Retry ==> pump.advance(PumpEvent::ReadCompleted(data))
            == pump,
{
}

/// No event changes the timeout of a pump or its way with empty reads, and
/// a pump without a timeout never times out.
pub proof fn lemma_run_keeps_the_settings(pump: PumpView, events: Seq<PumpEvent>)
    ensures
        pump.run(events).timeout == pump.timeout,
        pump.run(events).zero_read == pump.zero_read,
        !pump.guarded() && pump.state != PumpState::TimedOut ==> pump.run(events).state
            != PumpState::TimedOut,
    decreases events.len(),
{
    if events.len() > 0 {
        lemma_run_keeps_the_settings(pump, events.drop_last());
    }
}

} // verus!
