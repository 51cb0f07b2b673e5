//! The configuration of the relay and the values that its options take.

use crate::formatter::Formatter;
use clap::builder::PossibleValue;
use vstd::prelude::*;
use vstd::string::StringExecFns;

verus! {

/// `PossibleValue::matches` on a value made by `PossibleValue::new`, asked
/// not to ignore case: such a value has one name and no alias, and it
/// matches the text that is that name, letter for letter, and no other.
#[verifier::external_body]
fn possible_value_matches(name: &'static str, value: &str) -> (hit: bool)
    ensures
        hit == (name@ == value@),
{
    PossibleValue::new(name).matches(value, false)
}

/// The message for a text that names no variant.
fn invalid_variant(s: &str) -> (message: String)
    ensures
        message@ == "Invalid variant: "@ + s@,
{
    let mut message = "Invalid variant: ".to_owned();
    message.append(s);
    message
}

/// How much of the log reaches the console. The level decides what is
/// shown and nothing else: the relay forwards the same bytes at every level.
#[derive(Debug, Clone, Copy, PartialEq, Eq, Structural)]
pub enum LoggingLevel {
    Trace,
    Debug,
    Info,
    Warn,
    Error,
    Off,
}

impl LoggingLevel {
    /// Every level, most talkative first.
    pub open spec fn variants() -> Seq<LoggingLevel> {
        seq![
            LoggingLevel::Trace,
            LoggingLevel::Debug,
            LoggingLevel::Info,
            LoggingLevel::Warn,
            LoggingLevel::Error,
            LoggingLevel::Off,
        ]
    }

    /// The word that selects the level on the command line.
    pub open spec fn name(self) -> Seq<char> {
        match self {
            LoggingLevel::Trace => "trace"@,
            LoggingLevel::Debug => "debug"@,
            LoggingLevel::Info => "info"@,
            LoggingLevel::Warn => "warn"@,
            LoggingLevel::Error => "error"@,
            LoggingLevel::Off => "off"@,
        }
    }

    /// How much a level lets through: nothing at `off`, and more with each
    /// step towards `trace`.
    pub open spec fn rank(self) -> nat {
        match self {
            LoggingLevel::Off => 0,
            LoggingLevel::Error => 1,
            LoggingLevel::Warn => 2,
            LoggingLevel::Info => 3,
            LoggingLevel::Debug => 4,
            LoggingLevel::Trace => 5,
        }
    }

    /// Whether a message of the given severity reaches the console when
    /// this level is the threshold.
    pub open spec fn lets_through(self, severity: LoggingLevel) -> bool {
        severity != LoggingLevel::Off && severity.rank() <= self.rank()
    }

    /// Every level, most talkative first.
    pub fn value_variants() -> (variants: Vec<LoggingLevel>)
        ensures
            variants@ == LoggingLevel::variants(),
    {
        let variants = vec![
            LoggingLevel::Trace,
            LoggingLevel::Debug,
            LoggingLevel::Info,
            LoggingLevel::Warn,
            LoggingLevel::Error,
            LoggingLevel::Off,
        ];
        assert(variants@ =~= LoggingLevel::variants());
        variants
    }

    /// The word that selects the level on the command line. No level is
    /// hidden from the command line, so there always is one.
    pub fn to_possible_value(&self) -> (value: Option<&'static str>)
        ensures
            value matches Some(name) && name@ == self.name(),
    {
        Some(
            match self {
                LoggingLevel::Trace => "trace",
                LoggingLevel::Debug => "debug",
                LoggingLevel::Info => "info",
                LoggingLevel::Warn => "warn",
                LoggingLevel::Error => "error",
                LoggingLevel::Off => "off",
            },
        )
    }

    /// The level that `s` names. The text has to be the level's word,
    /// letter for letter; any other text is refused with a message that
    /// quotes it.
    pub fn from_str(s: &str) -> (parsed: Result<LoggingLevel, String>)
        ensures
            match parsed {
                Ok(level) => level.name() == s@,
                Err(message) => {
                    &&& forall|level: LoggingLevel| level.name() != s@
                    &&& message@ == "Invalid variant: "@ + s@
                },
            },
    {
        let variants = LoggingLevel::value_variants();
        let mut i: usize = 0;
        while i < variants.len()
            invariant
                i <= variants.len(),
                variants@ == LoggingLevel::variants(),
                forall|j: int| 0 <= j < i ==> variants@[j].name() != s@,
            decreases variants.len() - i,
        {
            let variant = variants[i];
            if let Some(name) = variant.to_possible_value() {
                if possible_value_matches(name, s) {
                    return Ok(variant);
                }
            }
            i += 1;
        }
        proof {
            assert forall|level: LoggingLevel| level.name() != s@ by {
                lemma_every_level_is_a_variant(level);
            }
        }
        Err(invalid_variant(s))
    }

    /// The word that selects the level on the command line.
    pub fn to_string(&self) -> (text: String)
        ensures
            text@ == self.name(),
    {
        match self.to_possible_value() {
            Some(name) => name.to_owned(),
            None => String::new(),
        }
    }

    /// Whether a message of the given severity reaches the console when
    /// this level is the threshold.
    pub fn shows(&self, severity: LoggingLevel) -> (shown: bool)
        ensures
            shown == self.lets_through(severity),
    {
        let threshold: u8 = match self {
            LoggingLevel::Off => 0,
            LoggingLevel::Error => 1,
            LoggingLevel::Warn => 2,
            LoggingLevel::Info => 3,
            LoggingLevel::Debug => 4,
            LoggingLevel::Trace => 5,
        };
        match severity {
            LoggingLevel::Off => false,
            LoggingLevel::Error => 1 <= threshold,
            LoggingLevel::Warn => 2 <= threshold,
            LoggingLevel::Info => 3 <= threshold,
            LoggingLevel::Debug => 4 <= threshold,
            LoggingLevel::Trace => 5 <= threshold,
        }
    }
}

/// Every level is listed among the variants.
pub proof fn lemma_every_level_is_a_variant(level: LoggingLevel)
    ensures
        exists|i: int|
            0 <= i < LoggingLevel::variants().len() && LoggingLevel::variants()[i] == level,
{
    let i: int = match level {
        LoggingLevel::Trace => 0,
        LoggingLevel::Debug => 1,
        LoggingLevel::Info => 2,
        LoggingLevel::Warn => 3,
        LoggingLevel::Error => 4,
        LoggingLevel::Off => 5,
    };
    assert(LoggingLevel::variants()[i] == level);
}

/// No two levels share a word, so a text names at most one level.
pub proof fn lemma_level_names_differ(first: LoggingLevel, second: LoggingLevel)
    requires
        first.name() == second.name(),
    ensures
        first == second,
{
    reveal_strlit("trace");
    reveal_strlit("debug");
    reveal_strlit("info");
    reveal_strlit("warn");
    reveal_strlit("error");
    reveal_strlit("off");
    assert("trace"@.len() == 5 && "trace"@[0] == 't');
    assert("debug"@.len() == 5 && "debug"@[0] == 'd');
    assert("info"@.len() == 4 && "info"@[0] == 'i');
    assert("warn"@.len() == 4 && "warn"@[0] == 'w');
    assert("error"@.len() == 5 && "error"@[0] == 'e');
    assert("off"@.len() == 3);
}

/// The base in which payload bytes are shown on the console.
#[derive(Debug, Clone, Copy, PartialEq, Eq, Structural)]
pub enum PayloadFormatingKind {
    Decimal,
    LowerHex,
    UpperHex,
    Binary,
    Octal,
}

impl PayloadFormatingKind {
    /// Every kind, in the order in which the command line lists them.
    pub open spec fn variants() -> Seq<PayloadFormatingKind> {
        seq![
            PayloadFormatingKind::Decimal,
            PayloadFormatingKind::LowerHex,
            PayloadFormatingKind::UpperHex,
            PayloadFormatingKind::Binary,
            PayloadFormatingKind::Octal,
        ]
    }

    /// The word that selects the kind on the command line.
    pub open spec fn name(self) -> Seq<char> {
        match self {
            PayloadFormatingKind::Decimal => "decimal"@,
            PayloadFormatingKind::LowerHex => "lowerhex"@,
            PayloadFormatingKind::UpperHex => "upperhex"@,
            PayloadFormatingKind::Binary => "binary"@,
            PayloadFormatingKind::Octal => "octal"@,
        }
    }

    /// Every kind, in the order in which the command line lists them.
    pub fn value_variants() -> (variants: Vec<PayloadFormatingKind>)
        ensures
            variants@ == PayloadFormatingKind::variants(),
    {
        let variants = vec![
            PayloadFormatingKind::Decimal,
            PayloadFormatingKind::LowerHex,
            PayloadFormatingKind::UpperHex,
            PayloadFormatingKind::Binary,
            PayloadFormatingKind::Octal,
        ];
        assert(variants@ =~= PayloadFormatingKind::variants());
        variants
    }

    /// The word that selects the kind on the command line. No kind is
    /// hidden from the command line, so there always is one.
    pub fn to_possible_value(&self) -> (value: Option<&'static str>)
        ensures
            value matches Some(name) && name@ == self.name(),
    {
        Some(
            match self {
                PayloadFormatingKind::Decimal => "decimal",
                PayloadFormatingKind::LowerHex => "lowerhex",
                PayloadFormatingKind::UpperHex => "upperhex",
                PayloadFormatingKind::Binary => "binary",
                PayloadFormatingKind::Octal => "octal",
            },
        )
    }

    /// The kind that `s` names. The text has to be the kind's word, letter
    /// for letter; any other text is refused with a message that quotes it.
    pub fn from_str(s: &str) -> (parsed: Result<PayloadFormatingKind, String>)
        ensures
            match parsed {
                Ok(kind) => kind.name() == s@,
                Err(message) => {
                    &&& forall|kind: PayloadFormatingKind| kind.name() != s@
                    &&& message@ == "Invalid variant: "@ + s@
                },
            },
    {
        let variants = PayloadFormatingKind::value_variants();
        let mut i: usize = 0;
        while i < variants.len()
            invariant
                i <= variants.len(),
                variants@ == PayloadFormatingKind::variants(),
                forall|j: int| 0 <= j < i ==> variants@[j].name() != s@,
            decreases variants.len() - i,
        {
            let variant = variants[i];
            if let Some(name) = variant.to_possible_value() {
                if possible_value_matches(name, s) {
                    return Ok(variant);
                }
            }
            i += 1;
        }
        proof {
            assert forall|kind: PayloadFormatingKind| kind.name() != s@ by {
                lemma_every_kind_is_a_variant(kind);
            }
        }
        Err(invalid_variant(s))
    }

    /// The word that selects the kind on the command line.
    pub fn to_string(&self) -> (text: String)
        ensures
            text@ == self.name(),
    {
        match self.to_possible_value() {
            Some(name) => name.to_owned(),
            None => String::new(),
        }
    }
}

/// Every kind is listed among the variants.
pub proof fn lemma_every_kind_is_a_variant(kind: PayloadFormatingKind)
    ensures
        exists|i: int|
            0 <= i < PayloadFormatingKind::variants().len() && PayloadFormatingKind::variants()[i]
                == kind,
{
    let i: int = match kind {
        PayloadFormatingKind::Decimal => 0,
        PayloadFormatingKind::LowerHex => 1,
        PayloadFormatingKind::UpperHex => 2,
        PayloadFormatingKind::Binary => 3,
        PayloadFormatingKind::Octal => 4,
    };
    assert(PayloadFormatingKind::variants()[i] == kind);
}

/// No two kinds share a word, so a text names at most one kind.
pub proof fn lemma_kind_names_differ(first: PayloadFormatingKind, second: PayloadFormatingKind)
    requires
        first.name() == second.name(),
    ensures
        first == second,
{
    reveal_strlit("decimal");
    reveal_strlit("lowerhex");
    reveal_strlit("upperhex");
    reveal_strlit("binary");
    reveal_strlit("octal");
    assert("decimal"@.len() == 7);
    assert("lowerhex"@.len() == 8 && "lowerhex"@[0] == 'l');
    assert("upperhex"@.len() == 8 && "upperhex"@[0] == 'u');
    assert("binary"@.len() == 6);
    assert("octal"@.len() == 5);
}

/// The formatter of the given base and separator.
pub fn get_formatter_by_kind(kind: PayloadFormatingKind, separator: &str) -> (formatter: Formatter)
    ensures
        formatter@.kind == kind,
        formatter@.separator == separator@,
{
    Formatter::new(kind, separator)
}

/// The timeout of a read on the client leg, in seconds, where none is given.
pub const DEFAULT_TIMEOUT: u64 = 60;

/// What the relay is started with. It is made once and handed on by value:
/// nothing in the crate reads a setting from anywhere else.
#[derive(Debug)]
pub struct Arguments {
    /// How much of the log reaches the console.
    pub level: LoggingLevel,
    /// The address on which the relay listens.
    pub bind_listener_addr: String,
    /// The address of the server that the relay forwards to.
    pub remote_addr: String,
    /// The time that a read on the client leg may take, in seconds.
    pub timeout: u64,
    /// The base in which payload is shown.
    pub formatting: PayloadFormatingKind,
    /// The text between two bytes of payload.
    pub separator: String,
}

impl Arguments {
    /// The arguments for the two addresses, with every other setting as it
    /// is when the command line does not name it: level `debug`, a timeout
    /// of sixty seconds, lower-case hexadecimal payload and `:` between
    /// bytes.
    pub fn new(bind_listener_addr: &str, remote_addr: &str) -> (arguments: Arguments)
        ensures
            arguments.level == LoggingLevel::Debug,
            arguments.bind_listener_addr@ == bind_listener_addr@,
            arguments.remote_addr@ == remote_addr@,
            arguments.timeout == DEFAULT_TIMEOUT,
            arguments.formatting == PayloadFormatingKind::LowerHex,
            arguments.separator@ == ":"@,
    {
        Arguments {
            level: LoggingLevel::Debug,
            bind_listener_addr: bind_listener_addr.to_owned(),
            remote_addr: remote_addr.to_owned(),
            timeout: DEFAULT_TIMEOUT,
            formatting: PayloadFormatingKind::LowerHex,
            separator: ":".to_owned(),
        }
    }

    /// The formatter that these arguments ask for.
    pub fn formatter(&self) -> (formatter: Formatter)
        ensures
            formatter@.kind == self.formatting,
            formatter@.separator == self.separator@,
    {
        get_formatter_by_kind(self.formatting, self.separator.as_str())
    }
}

impl Clone for Arguments {
    /// A copy with the same settings.
    fn clone(&self) -> (copy: Arguments)
        ensures
            copy == *self,
    {
        Arguments {
            level: self.level,
            bind_listener_addr: self.bind_listener_addr.clone(),
            remote_addr: self.remote_addr.clone(),
            timeout: self.timeout,
            formatting: self.formatting,
            separator: self.separator.clone(),
        }
    }
}

} // verus!
