//! A transparent TCP relay that observes the traffic it forwards.
//!
//! The crate holds the decisions of the relay: how payload is rendered for
//! the console, which events are worth a line, how a pump moves bytes from
//! one leg of a connection to the other, and when a connection pair is torn
//! down. Sockets, timers and tasks are left to the caller, which feeds the
//! state machines of this crate with what happened on the wire.

pub mod args;
pub mod buffer;
pub mod conn;
pub mod decode;
pub mod filter;
pub mod formatter;
pub mod observed;
pub mod pump;
pub mod text;

pub use args::get_formatter_by_kind;
pub use args::Arguments;
pub use args::LoggingLevel;
pub use args::PayloadFormatingKind;
pub use conn::incoming_connection_handle;
pub use conn::initialize_tcp_listener;
pub use conn::Connection;
pub use conn::ConnectionAction;
pub use conn::ConnectionEvent;
pub use conn::ConnectionState;
pub use conn::Listener;
pub use conn::ListenerAction;
pub use conn::ListenerEvent;
pub use conn::ListenerState;
pub use filter::RecordFilter;
pub use filter::RecordKind;
pub use formatter::Formatter;
pub use observed::Observation;
pub use observed::ObservedStream;
pub use observed::Record;
pub use pump::Pump;
pub use pump::PumpAction;
pub use pump::PumpEvent;
pub use pump::PumpState;
pub use pump::ZeroRead;
pub use pump::BUFFER_CAPACITY;
