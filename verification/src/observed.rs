//! The observed stream: what is recorded of each event on one leg of a
//! connection, and the console line of a record.
//!
//! An observed stream never touches the bytes that pass: it is handed a
//! view of what was just transferred and answers with the record to emit,
//! if the filter lets the event through.

use crate::args::LoggingLevel;
use crate::filter::RecordFilter;
use crate::filter::RecordKind;
use crate::formatter::rendered;
use crate::formatter::Formatter;
use crate::formatter::FormatterView;
use crate::text::decimal;
use crate::text::push_decimal;
use vstd::prelude::*;
use vstd::string::StringExecFns;

verus! {

/// One logged observation. A record is not changed after it was made.
pub struct Record {
    kind: RecordKind,
    label: String,
    text: String,
    length: usize,
    severity: LoggingLevel,
}

/// A record as contracts see it.
pub struct RecordView {
    pub kind: RecordKind,
    /// The leg that the event was seen on.
    pub label: Seq<char>,
    /// The formatted payload; empty for a kind that carries none.
    pub text: Seq<char>,
    /// The number of bytes that the event transferred.
    pub length: nat,
    /// The severity at which the record goes to the logger.
    pub severity: LoggingLevel,
}

impl View for Record {
    type V = RecordView;

    closed spec fn view(&self) -> RecordView {
        RecordView {
            kind: self.kind,
            label: self.label@,
            text: self.text@,
            length: self.length as nat,
            severity: self.severity,
        }
    }
}

impl Record {
    /// The kind of the event.
    pub fn kind(&self) -> (kind: RecordKind)
        ensures
            kind == self@.kind,
    {
        self.kind
    }

    /// The leg that the event was seen on.
    pub fn label(&self) -> (label: &str)
        ensures
            label@ == self@.label,
    {
        self.label.as_str()
    }

    /// The formatted payload; empty for a kind that carries none.
    pub fn text(&self) -> (text: &str)
        ensures
            text@ == self@.text,
    {
        self.text.as_str()
    }

    /// The number of bytes that the event transferred.
    pub fn length(&self) -> (length: usize)
        ensures
            length == self@.length,
    {
        self.length
    }

    /// The severity at which the record goes to the logger.
    pub fn severity(&self) -> (severity: LoggingLevel)
        ensures
            severity == self@.severity,
    {
        self.severity
    }
}

/// The word by which a status line names a kind.
pub open spec fn kind_word(kind: RecordKind) -> Seq<char> {
    match kind {
        RecordKind::Read => "read"@,
        RecordKind::Write => "write"@,
        RecordKind::Drop => "drop"@,
        RecordKind::Error => "error"@,
        RecordKind::Shutdown => "shutdown"@,
    }
}

/// The console line of a record. A record with payload gives the label, the
/// formatted payload and the number of bytes. Any other record gives the
/// label, the word of its kind and the peer's address, and for an error
/// the description of the failure behind a colon.
pub open spec fn line_of(record: RecordView, peer: Seq<char>, failure: Seq<char>) -> Seq<char> {
    if record.kind.bears_payload() {
        record.label + " "@ + record.text + " (length - "@ + decimal(record.length) + ")"@
    } else if record.kind == RecordKind::Error {
        record.label + " "@ + kind_word(record.kind) + " "@ + peer + ": "@ + failure
    } else {
        record.label + " "@ + kind_word(record.kind) + " "@ + peer
    }
}

/// What a leg has just seen happen.
#[derive(Clone, Copy, Debug)]
pub enum Observation<'a> {
    /// A read completed and brought these bytes, or none.
    Read(&'a [u8]),
    /// A write completed and took these bytes.
    Written(&'a [u8]),
    /// The transport reported a failure.
    Failed,
    /// The stream was shut down or let go.
    Closed,
}

impl Observation<'_> {
    /// The kind under which the event is recorded. A read that brought no
    /// bytes is a drop.
    pub open spec fn kind(self) -> RecordKind {
        match self {
            Observation::Read(bytes) => if bytes@.len() == 0 {
                RecordKind::Drop
            } else {
                RecordKind::Read
            },
            Observation::Written(_) => RecordKind::Write,
            Observation::Failed => RecordKind::Error,
            Observation::Closed => RecordKind::Shutdown,
        }
    }

    /// The bytes that the event transferred.
    pub open spec fn payload(self) -> Seq<u8> {
        match self {
            Observation::Read(bytes) => bytes@,
            Observation::Written(bytes) => bytes@,
            _ => Seq::empty(),
        }
    }
}

/// One leg of a connection under observation: its label, the address of
/// its peer, and the formatter, the filter and the severity that it was
/// given when the connection was made.
pub struct ObservedStream {
    label: String,
    peer: String,
    formatter: Formatter,
    filter: RecordFilter,
    severity: LoggingLevel,
}

/// An observed stream as contracts see it.
pub struct ObservedStreamView {
    pub label: Seq<char>,
    pub peer: Seq<char>,
    pub formatter: FormatterView,
    /// The kinds that are logged.
    pub filter: Set<RecordKind>,
    /// The severity of every record but those of errors.
    pub severity: LoggingLevel,
}

impl ObservedStreamView {
    /// The record of an event of `kind` that transferred `payload`. An
    /// error is recorded as an error whatever severity the stream was
    /// given.
    pub open spec fn record_of(self, kind: RecordKind, payload: Seq<u8>) -> RecordView {
        RecordView {
            kind,
            label: self.label,
            text: if kind.bears_payload() {
                rendered(self.formatter.kind, self.formatter.separator, payload)
            } else {
                Seq::empty()
            },
            length: payload.len(),
            severity: if kind == RecordKind::Error {
                LoggingLevel::Error
            } else {
                self.severity
            },
        }
    }

    /// What an event of `kind` that transferred `payload` leaves in the
    /// log: its record where the filter accepts the kind, else nothing.
    pub open spec fn observed(self, kind: RecordKind, payload: Seq<u8>) -> Option<RecordView> {
        if self.filter.contains(kind) {
            Some(self.record_of(kind, payload))
        } else {
            None
        }
    }
}

impl View for ObservedStream {
    type V = ObservedStreamView;

    closed spec fn view(&self) -> ObservedStreamView {
        ObservedStreamView {
            label: self.label@,
            peer: self.peer@,
            formatter: self.formatter@,
            filter: self.filter@,
            severity: self.severity,
        }
    }
}

impl ObservedStream {
    /// The observed stream of the given label, peer, formatter, filter and
    /// severity.
    pub fn new(
        label: &str,
        peer: &str,
        formatter: Formatter,
        filter: RecordFilter,
        severity: LoggingLevel,
    ) -> (stream: ObservedStream)
        ensures
            stream@ == (ObservedStreamView {
                label: label@,
                peer: peer@,
                formatter: formatter@,
                filter: filter@,
                severity,
            }),
    {
        ObservedStream {
            label: label.to_owned(),
            peer: peer.to_owned(),
            formatter,
            filter,
            severity,
        }
    }

    /// The label of the leg.
    pub fn label(&self) -> (label: &str)
        ensures
            label@ == self@.label,
    {
        self.label.as_str()
    }

    /// The address of the peer.
    pub fn peer(&self) -> (peer: &str)
        ensures
            peer@ == self@.peer,
    {
        self.peer.as_str()
    }

    /// Whether events of `kind` are logged on this leg.
    pub fn accepts(&self, kind: RecordKind) -> (accepted: bool)
        ensures
            accepted == self@.filter.contains(kind),
    {
        self.filter.accepts(kind)
    }

    /// The record to emit for an event of `kind` that transferred
    /// `payload`, if the filter lets the kind through. The payload is read
    /// and left as it is.
    pub fn observe(&self, kind: RecordKind, payload: &[u8]) -> (record: Option<Record>)
        ensures
            match record {
                Some(made) => self@.observed(kind, payload@) == Some(made@),
                None => self@.observed(kind, payload@) is None,
            },
    {
        if !self.filter.accepts(kind) {
            return None;
        }
        let text = if kind.carries_payload() {
            self.formatter.format_buffer(payload)
        } else {
            String::new()
        };
        let severity = match kind {
            RecordKind::Error => LoggingLevel::Error,
            _ => self.severity,
        };
        Some(Record { kind, label: self.label.clone(), text, length: payload.len(), severity })
    }

    /// The record to emit for what the leg has just seen, if the filter
    /// lets its kind through.
    pub fn record(&self, observation: Observation<'_>) -> (record: Option<Record>)
        ensures
            match record {
                Some(made) => self@.observed(observation.kind(), observation.payload()) == Some(
                    made@,
                ),
                None => self@.observed(observation.kind(), observation.payload()) is None,
            },
    {
        match observation {
            Observation::Read(bytes) => {
                if bytes.len() == 0 {
                    self.observe(RecordKind::Drop, bytes)
                } else {
                    self.observe(RecordKind::Read, bytes)
                }
            },
            Observation::Written(bytes) => self.observe(RecordKind::Write, bytes),
            Observation::Failed => {
                let nothing: [u8; 0] = [];
                self.observe(RecordKind::Error, nothing.as_slice())
            },
            Observation::Closed => {
                let nothing: [u8; 0] = [];
                self.observe(RecordKind::Shutdown, nothing.as_slice())
            },
        }
    }

    /// The console line of a record that this stream made. `failure`
    /// describes what went wrong and is read for an error only.
    pub fn line(&self, record: &Record, failure: &str) -> (line: String)
        ensures
            line@ == line_of(record@, self@.peer, failure@),
    {
        let mut line = record.label.clone();
        line.append(" ");
        if record.kind.carries_payload() {
            line.append(record.text.as_str());
            line.append(" (length - ");
            push_decimal(&mut line, record.length);
            line.append(")");
        } else {
            let word = match record.kind {
                RecordKind::Read => "read",
                RecordKind::Write => "write",
                RecordKind::Drop => "drop",
                RecordKind::Error => "error",
                RecordKind::Shutdown => "shutdown",
            };
            line.append(word);
            line.append(" ");
            line.append(self.peer.as_str());
            match record.kind {
                RecordKind::Error => {
                    line.append(": ");
                    line.append(failure);
                },
                _ => {},
            }
        }
        proof {
            assert(line@ =~= line_of(record@, self@.peer, failure@));
        }
        line
    }
}

impl Clone for ObservedStream {
    /// An observed stream of the same label, peer, formatter and filter.
    fn clone(&self) -> (copy: ObservedStream)
        ensures
            copy@ == self@,
    {
        ObservedStream {
            label: self.label.clone(),
            peer: self.peer.clone(),
            formatter: self.formatter.clone(),
            filter: self.filter.clone(),
            severity: self.severity,
        }
    }
}

/// A record of a kind without payload shows no payload, whatever bytes the
/// event is said to have transferred; and whether a record is made at all
/// depends on the kind alone.
pub proof fn lemma_only_payload_is_formatted(
    stream: ObservedStreamView,
    kind: RecordKind,
    payload: Seq<u8>,
    other: Seq<u8>,
)
    ensures
        !kind.bears_payload() ==> stream.record_of(kind, payload).text == Seq::<char>::empty(),
        stream.observed(kind, payload) is Some <==> stream.observed(kind, other) is Some,
        stream.observed(kind, payload) is Some <==> stream.filter.contains(kind),
{
}

} // verus!
