//! The listener and the connection pair: who is told to do what when a
//! client arrives, when the destination answers or does not, and when a
//! pair is over.
//!
//! Like the pump, both are state machines without I/O. The listener is told
//! what became of a bind or an accept, the connection what became of its
//! dial; each answers with the action that the owner of the sockets has to
//! take.

use crate::args::Arguments;
use crate::args::LoggingLevel;
use crate::filter::kinds_without;
use crate::filter::RecordFilter;
use crate::filter::RecordKind;
use crate::formatter::FormatterView;
use crate::observed::ObservedStream;
use crate::observed::ObservedStreamView;
use crate::pump::lemma_run_keeps_the_settings;
use crate::pump::Pump;
use crate::pump::PumpAction;
use crate::pump::PumpEvent;
use crate::pump::PumpState;
use crate::pump::PumpView;
use crate::pump::ZeroRead;
use vstd::prelude::*;

verus! {

/// Where the listener stands.
#[derive(Clone, Copy, Debug, PartialEq, Eq, Structural)]
pub enum ListenerState {
    /// The address is not bound yet.
    Binding,
    /// The address is bound and connections are accepted.
    Listening,
    /// The address could not be bound. The relay cannot serve.
    Failed,
}

/// What became of the listener's last request.
#[derive(Clone, Copy, Debug, PartialEq, Eq, Structural)]
pub enum ListenerEvent {
    /// The address was bound.
    Bound,
    /// The address could not be bound.
    BindFailed,
    /// A client was accepted.
    Accepted,
    /// An accept failed.
    AcceptFailed,
}

/// What the owner of the listening socket has to do next.
#[derive(Clone, Copy, Debug, PartialEq, Eq, Structural)]
pub enum ListenerAction {
    /// Bind the address.
    Bind,
    /// Wait for the next client.
    Accept,
    /// Hand the accepted client to a connection of its own, then wait for
    /// the next client.
    Dispatch,
    /// Log the failed accept, then wait for the next client.
    Report,
    /// Give up: without a bound address there is nothing to serve.
    Abort,
}

impl ListenerState {
    /// The state after `event`. Once the address is bound, the listener
    /// stays listening whatever happens.
    pub open spec fn advance(self, event: ListenerEvent) -> ListenerState {
        match (self, event) {
            (ListenerState::Binding, ListenerEvent::Bound) => ListenerState::Listening,
            (ListenerState::Binding, ListenerEvent::BindFailed) => ListenerState::Failed,
            _ => self,
        }
    }

    /// What the listener waits for in this state.
    pub open spec fn due(self) -> ListenerAction {
        match self {
            ListenerState::Binding => ListenerAction::Bind,
            ListenerState::Listening => ListenerAction::Accept,
            ListenerState::Failed => ListenerAction::Abort,
        }
    }

    /// The action that answers `event` in this state. An event that the
    /// listener does not wait for is answered with what it waits for.
    pub open spec fn answer(self, event: ListenerEvent) -> ListenerAction {
        match self {
            ListenerState::Binding => match event {
                ListenerEvent::Bound => ListenerAction::Accept,
                ListenerEvent::BindFailed => ListenerAction::Abort,
                _ => ListenerAction::Bind,
            },
            ListenerState::Listening => match event {
                ListenerEvent::Accepted => ListenerAction::Dispatch,
                ListenerEvent::AcceptFailed => ListenerAction::Report,
                _ => ListenerAction::Accept,
            },
            ListenerState::Failed => ListenerAction::Abort,
        }
    }
}

/// The acceptor of the relay.
pub struct Listener {
    state: ListenerState,
    arguments: Arguments,
}

/// A listener as contracts see it.
pub struct ListenerView {
    pub state: ListenerState,
    pub arguments: Arguments,
}

impl View for Listener {
    type V = ListenerView;

    closed spec fn view(&self) -> ListenerView {
        ListenerView { state: self.state, arguments: self.arguments }
    }
}

/// The listener for the given arguments, about to bind its address.
pub fn initialize_tcp_listener(arguments: Arguments) -> (listener: Listener)
    ensures
        listener@.state == ListenerState::Binding,
        listener@.arguments == arguments,
{
    Listener { state: ListenerState::Binding, arguments }
}

impl Listener {
    /// The state of the listener.
    pub fn state(&self) -> (state: ListenerState)
        ensures
            state == self@.state,
    {
        self.state
    }

    /// The arguments that the listener was made with.
    pub fn arguments(&self) -> (arguments: &Arguments)
        ensures
            *arguments == self@.arguments,
    {
        &self.arguments
    }

    /// What the listener waits for: the bind at first, then the next
    /// client.
    pub fn action(&self) -> (action: ListenerAction)
        ensures
            action == self@.state.due(),
    {
        match self.state {
            ListenerState::Binding => ListenerAction::Bind,
            ListenerState::Listening => ListenerAction::Accept,
            ListenerState::Failed => ListenerAction::Abort,
        }
    }

    /// Takes `event` in and says what has to happen next. The arguments
    /// stay as they are.
    pub fn step(&mut self, event: ListenerEvent) -> (action: ListenerAction)
        ensures
            final(self)@.state == old(self)@.state.advance(event),
            final(self)@.arguments == old(self)@.arguments,
            action == old(self)@.state.answer(event),
    {
        match self.state {
            ListenerState::Binding => match event {
                ListenerEvent::Bound => {
                    self.state = ListenerState::Listening;
                    ListenerAction::Accept
                },
                ListenerEvent::BindFailed => {
                    self.state = ListenerState::Failed;
                    ListenerAction::Abort
                },
                _ => ListenerAction::Bind,
            },
            ListenerState::Listening => match event {
                ListenerEvent::Accepted => ListenerAction::Dispatch,
                ListenerEvent::AcceptFailed => ListenerAction::Report,
                _ => ListenerAction::Accept,
            },
            ListenerState::Failed => ListenerAction::Abort,
        }
    }

    /// The connection for a client that was just accepted from the address
    /// `peer`. It carries a copy of the listener's arguments and shares
    /// nothing with the listener or with any other connection.
    pub fn dispatch(&self, peer: &str) -> (connection: Connection)
        ensures
            connection@ == ConnectionView::initial(self@.arguments, peer@),
    {
        incoming_connection_handle(self.arguments.clone(), peer)
    }
}

/// Where a connection pair stands.
#[derive(Clone, Copy, Debug, PartialEq, Eq, Structural)]
pub enum ConnectionState {
    /// The destination is being dialled; there is no destination leg yet.
    Dialing,
    /// Both legs stand and the two pumps run.
    Relaying,
    /// The pair is over: the dial failed, or both pumps have ended.
    Closed,
}

/// What became of the dial.
#[derive(Clone, Copy, Debug, PartialEq, Eq, Structural)]
pub enum ConnectionEvent {
    /// The destination answered.
    Connected,
    /// The destination could not be reached.
    DialFailed,
}

/// What the owner of the sockets has to do next.
#[derive(Clone, Copy, Debug, PartialEq, Eq, Structural)]
pub enum ConnectionAction {
    /// Dial the destination.
    Dial,
    /// Start the two pumps.
    Relay,
    /// Log the failed dial and let go of the client. Nothing else is
    /// affected.
    Report,
    /// Nothing: the event was not waited for.
    Ignore,
}

/// The label of the leg towards the client.
pub open spec fn client_label() -> Seq<char> {
    "client"@
}

/// The label of the leg towards the destination.
pub open spec fn upstream_label() -> Seq<char> {
    "upstream"@
}

/// The kinds that are not logged on the leg towards the destination:
/// payload in either direction. What is left are the events that end the
/// leg.
pub open spec fn upstream_exclusions() -> Seq<RecordKind> {
    seq![RecordKind::Read, RecordKind::Write]
}

/// The severity at which the records of a connection go to the logger.
pub open spec fn record_severity() -> LoggingLevel {
    LoggingLevel::Debug
}

/// A connection pair as contracts see it.
pub struct ConnectionView {
    pub state: ConnectionState,
    pub arguments: Arguments,
    /// The address of the client.
    pub peer: Seq<char>,
    pub zero_read: ZeroRead,
}

impl ConnectionView {
    /// The pair of a client that was just accepted. A read of zero bytes is
    /// retried unless the pair is told otherwise.
    pub open spec fn initial(arguments: Arguments, peer: Seq<char>) -> ConnectionView {
        ConnectionView {
            state: ConnectionState::Dialing,
            arguments,
            peer,
            zero_read: ZeroRead::Retry,
        }
    }

    /// The pair after `event`. Only a pair that dials waits for an event.
    pub open spec fn advance(self, event: ConnectionEvent) -> ConnectionView {
        match (self.state, event) {
            (ConnectionState::Dialing, ConnectionEvent::Connected) => ConnectionView {
                state: ConnectionState::Relaying,
                ..self
            },
            (ConnectionState::Dialing, ConnectionEvent::DialFailed) => ConnectionView {
                state: ConnectionState::Closed,
                ..self
            },
            _ => self,
        }
    }

    /// The action that answers `event`.
    pub open spec fn answer(self, event: ConnectionEvent) -> ConnectionAction {
        match (self.state, event) {
            (ConnectionState::Dialing, ConnectionEvent::Connected) => ConnectionAction::Relay,
            (ConnectionState::Dialing, ConnectionEvent::DialFailed) => ConnectionAction::Report,
            _ => ConnectionAction::Ignore,
        }
    }

    /// The pump that reads from the client, as it starts: it alone reads
    /// under the timeout.
    pub open spec fn source_pump(self) -> PumpView {
        PumpView::initial(Some(self.arguments.timeout), self.zero_read)
    }

    /// The pump that reads from the destination, as it starts.
    pub open spec fn destination_pump(self) -> PumpView {
        PumpView::initial(None, self.zero_read)
    }

    /// The observed stream of the leg towards the client: every kind of
    /// event is logged on it.
    pub open spec fn source_stream(self) -> ObservedStreamView {
        ObservedStreamView {
            label: client_label(),
            peer: self.peer,
            formatter: FormatterView {
                kind: self.arguments.formatting,
                separator: self.arguments.separator@,
            },
            filter: Set::full(),
            severity: record_severity(),
        }
    }

    /// The observed stream of the leg towards the destination: payload is
    /// not logged on it.
    pub open spec fn destination_stream(self) -> ObservedStreamView {
        ObservedStreamView {
            label: upstream_label(),
            peer: self.arguments.remote_addr@,
            formatter: FormatterView {
                kind: self.arguments.formatting,
                separator: self.arguments.separator@,
            },
            filter: kinds_without(upstream_exclusions()),
            severity: record_severity(),
        }
    }

    /// What the pair waits for: the dial while it is dialling, else
    /// nothing.
    pub open spec fn due(self) -> ConnectionAction {
        if self.state == ConnectionState::Dialing {
            ConnectionAction::Dial
        } else {
            ConnectionAction::Ignore
        }
    }
}

/// Whether a pair of pumps is over: both have ended.
pub open spec fn pair_closed(source: PumpView, destination: PumpView) -> bool {
    source.state == PumpState::Terminated && destination.state == PumpState::Terminated
}

/// The manager of one accepted client and its destination.
pub struct Connection {
    state: ConnectionState,
    arguments: Arguments,
    peer: String,
    zero_read: ZeroRead,
}

impl View for Connection {
    type V = ConnectionView;

    closed spec fn view(&self) -> ConnectionView {
        ConnectionView {
            state: self.state,
            arguments: self.arguments,
            peer: self.peer@,
            zero_read: self.zero_read,
        }
    }
}

/// The connection pair for a client that was just accepted from the
/// address `peer`, about to dial the destination.
pub fn incoming_connection_handle(arguments: Arguments, peer: &str) -> (connection: Connection)
    ensures
        connection@ == ConnectionView::initial(arguments, peer@),
{
    Connection {
        state: ConnectionState::Dialing,
        arguments,
        peer: peer.to_owned(),
        zero_read: ZeroRead::Retry,
    }
}

impl Connection {
    /// The state of the pair.
    pub fn state(&self) -> (state: ConnectionState)
        ensures
            state == self@.state,
    {
        self.state
    }

    /// The arguments that the pair was made with.
    pub fn arguments(&self) -> (arguments: &Arguments)
        ensures
            *arguments == self@.arguments,
    {
        &self.arguments
    }

    /// The address of the client.
    pub fn peer(&self) -> (peer: &str)
        ensures
            peer@ == self@.peer,
    {
        self.peer.as_str()
    }

    /// The same pair with another way of handling reads of zero bytes.
    pub fn with_zero_read(self, zero_read: ZeroRead) -> (connection: Connection)
        ensures
            connection@ == (ConnectionView { zero_read, ..self@ }),
    {
        Connection { state: self.state, arguments: self.arguments, peer: self.peer, zero_read }
    }

    /// Takes the outcome of the dial in and says what has to happen next.
    pub fn step(&mut self, event: ConnectionEvent) -> (action: ConnectionAction)
        ensures
            final(self)@ == old(self)@.advance(event),
            action == old(self)@.answer(event),
    {
        match self.state {
            ConnectionState::Dialing => match event {
                ConnectionEvent::Connected => {
                    self.state = ConnectionState::Relaying;
                    ConnectionAction::Relay
                },
                ConnectionEvent::DialFailed => {
                    self.state = ConnectionState::Closed;
                    ConnectionAction::Report
                },
            },
            _ => ConnectionAction::Ignore,
        }
    }

    /// The two pumps of the pair, the one that reads from the client first,
    /// once the destination has answered. There are no pumps before that,
    /// nor after the pair is over.
    pub fn pumps(&self) -> (pumps: Option<(Pump, Pump)>)
        ensures
            pumps is Some <==> self@.state == ConnectionState::Relaying,
            pumps matches Some((source, destination)) ==> {
                &&& source.wf()
                &&& destination.wf()
                &&& source@ == self@.source_pump()
                &&& destination@ == self@.destination_pump()
            },
    {
        match self.state {
            ConnectionState::Relaying => Some(
                (
                    Pump::new(Some(self.arguments.timeout), self.zero_read),
                    Pump::new(None, self.zero_read),
                ),
            ),
            _ => None,
        }
    }

    /// What the pair waits for.
    pub fn action(&self) -> (action: ConnectionAction)
        ensures
            action == self@.due(),
    {
        match self.state {
            ConnectionState::Dialing => ConnectionAction::Dial,
            _ => ConnectionAction::Ignore,
        }
    }

    /// The observed stream of the leg towards the client. Every kind of
    /// event is logged on it.
    pub fn source_stream(&self) -> (stream: ObservedStream)
        ensures
            stream@ == self@.source_stream(),
    {
        ObservedStream::new(
            "client",
            self.peer.as_str(),
            self.arguments.formatter(),
            RecordFilter::accept_all(),
            LoggingLevel::Debug,
        )
    }

    /// The observed stream of the leg towards the destination. Payload is
    /// not logged on it: only the events that end the leg are.
    pub fn destination_stream(&self) -> (stream: ObservedStream)
        ensures
            stream@ == self@.destination_stream(),
    {
        let excluded: [RecordKind; 2] = [RecordKind::Read, RecordKind::Write];
        let filter = RecordFilter::excluding(excluded.as_slice());
        proof {
            assert(excluded@ =~= upstream_exclusions());
        }
        ObservedStream::new(
            "upstream",
            self.arguments.remote_addr.as_str(),
            self.arguments.formatter(),
            filter,
            LoggingLevel::Debug,
        )
    }

    /// Closes the pair if both of its pumps have ended, and says whether
    /// the pair is closed.
    pub fn settle(&mut self, source: &Pump, destination: &Pump) -> (closed: bool)
        ensures
            final(self)@ == (ConnectionView {
                state: if old(self)@.state == ConnectionState::Relaying && pair_closed(
                    source@,
                    destination@,
                ) {
                    ConnectionState::Closed
                } else {
                    old(self)@.state
                },
                ..old(self)@
            }),
            closed == (final(self)@.state == ConnectionState::Closed),
    {
        match self.state {
            ConnectionState::Relaying => {
                if source.is_terminated() && destination.is_terminated() {
                    self.state = ConnectionState::Closed;
                    true
                } else {
                    false
                }
            },
            ConnectionState::Closed => true,
            ConnectionState::Dialing => false,
        }
    }
}

/// A bound listener keeps serving: no event makes it stop or give up, and
/// every accepted client is dispatched.
pub proof fn lemma_listener_keeps_serving(event: ListenerEvent)
    ensures
        ListenerState::Listening.advance(event) == ListenerState::Listening,
        ListenerState::Listening.answer(event) != ListenerAction::Abort,
        ListenerState::Listening.answer(ListenerEvent::Accepted) == ListenerAction::Dispatch,
        ListenerState::Listening.answer(ListenerEvent::AcceptFailed) == ListenerAction::Report,
{
}

/// Only a failed bind makes the listener give up.
pub proof fn lemma_only_a_failed_bind_is_fatal(state: ListenerState, event: ListenerEvent)
    requires
        state != ListenerState::Failed,
    ensures
        state.answer(event) == ListenerAction::Abort <==> state == ListenerState::Binding && event
            == ListenerEvent::BindFailed,
{
}

/// The legs of a pair stand only after its dial has succeeded, and a
/// closed pair stays closed.
pub proof fn lemma_legs_stand_only_after_a_dial(pair: ConnectionView, event: ConnectionEvent)
    ensures
        pair.advance(event).state == ConnectionState::Relaying ==> pair.state
            == ConnectionState::Relaying || (pair.state == ConnectionState::Dialing && event
            == ConnectionEvent::Connected),
        pair.state == ConnectionState::Closed ==> pair.advance(event) == pair,
        pair.advance(event).arguments == pair.arguments,
        pair.advance(event).peer == pair.peer,
{
}

/// A failed dial ends its own pair and nothing else: the pair is closed
/// with a report and never has pumps, the listener has no event through
/// which it could learn of the failure, and the next client is dispatched
/// to a pair that relays once its destination answers.
pub proof fn lemma_dial_failure_is_isolated(
    listener: ListenerView,
    failing: ConnectionView,
    later: ConnectionView,
)
    requires
        listener.state == ListenerState::Listening,
        failing.state == ConnectionState::Dialing,
        later.state == ConnectionState::Dialing,
    ensures
        failing.advance(ConnectionEvent::DialFailed).state == ConnectionState::Closed,
        failing.answer(ConnectionEvent::DialFailed) == ConnectionAction::Report,
        listener.state.advance(ListenerEvent::Accepted) == ListenerState::Listening,
        listener.state.answer(ListenerEvent::Accepted) == ListenerAction::Dispatch,
        later.advance(ConnectionEvent::Connected).state == ConnectionState::Relaying,
        later.answer(ConnectionEvent::Connected) == ConnectionAction::Relay,
{
}

/// An idle client tears the pair down. When the read on the client leg
/// times out, the pump of that leg asks for its sibling to be cancelled;
/// the sibling ends whatever it was doing, and once the stream halves are
/// let go the pair is closed.
pub proof fn lemma_idle_timeout_closes_the_pair(source: PumpView, destination: PumpView)
    requires
        source.guarded(),
        source.awaits_read(),
    ensures
        source.advance(PumpEvent::ReadTimedOut).state == PumpState::TimedOut,
        source.advance(PumpEvent::ReadTimedOut).due() == PumpAction::CancelSibling,
        pair_closed(
            source.advance(PumpEvent::ReadTimedOut).advance(PumpEvent::Released),
            destination.advance(PumpEvent::Cancelled),
        ),
{
}

/// Cancellation is asymmetric. The pump that reads from the destination
/// has no timeout, so when it fails it lets go of its halves and never asks
/// for the other pump to be cancelled.
pub proof fn lemma_upstream_failure_stays_on_its_leg(
    connection: ConnectionView,
    events: Seq<PumpEvent>,
)
    ensures
        connection.destination_pump().run(events).due() != PumpAction::CancelSibling,
        connection.destination_pump().run(events).state != PumpState::TimedOut,
{
    lemma_run_keeps_the_settings(connection.destination_pump(), events);
}

} // verus!
