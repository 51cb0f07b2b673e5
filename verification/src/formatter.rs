//! How payload bytes are shown on the console.
//!
//! The text is made by the formatters of `logged_stream`. What they return
//! is stated here as `rendered`, and the functions that call them are
//! believed to return exactly that.

use crate::args::PayloadFormatingKind;
use crate::text::decimal;
use crate::text::fixed_width;
use logged_stream::BinaryFormatter;
use logged_stream::BufferFormatter;
use logged_stream::DecimalFormatter;
use logged_stream::LowercaseHexadecimalFormatter;
use logged_stream::OctalFormatter;
use logged_stream::UppercaseHexadecimalFormatter;
use vstd::prelude::*;

verus! {

/// The text of one byte: decimal without leading zeros, or a fixed number
/// of digits in the other bases (two hexadecimal, eight binary, three
/// octal).
pub open spec fn token_of(kind: PayloadFormatingKind, byte: u8) -> Seq<char> {
    match kind {
        PayloadFormatingKind::Decimal => decimal(byte as nat),
        PayloadFormatingKind::LowerHex => fixed_width(byte as nat, 16, 2, false),
        PayloadFormatingKind::UpperHex => fixed_width(byte as nat, 16, 2, true),
        PayloadFormatingKind::Binary => fixed_width(byte as nat, 2, 8, false),
        PayloadFormatingKind::Octal => fixed_width(byte as nat, 8, 3, false),
    }
}

/// The text of a buffer: the tokens of its bytes, in order, with the
/// separator between each two neighbours. An empty buffer gives no text.
pub open spec fn rendered(
    kind: PayloadFormatingKind,
    separator: Seq<char>,
    bytes: Seq<u8>,
) -> Seq<char>
    decreases bytes.len(),
{
    if bytes.len() == 0 {
        Seq::empty()
    } else if bytes.len() == 1 {
        token_of(kind, bytes[0])
    } else {
        token_of(kind, bytes[0]) + separator + rendered(kind, separator, bytes.skip(1))
    }
}

/// `format_buffer` of a `DecimalFormatter` made by `new` with the given
/// separator: each byte as `{}` prints it, joined by the separator.
#[verifier::external_body]
fn format_decimal(separator: &str, buffer: &[u8]) -> (text: String)
    ensures
        text@ == rendered(PayloadFormatingKind::Decimal, separator@, buffer@),
{
    DecimalFormatter::new(Some(separator)).format_buffer(buffer)
}

/// `format_buffer` of a `LowercaseHexadecimalFormatter` made by `new` with
/// the given separator: each byte as `{:02x}` prints it, joined by the
/// separator.
#[verifier::external_body]
fn format_lower_hex(separator: &str, buffer: &[u8]) -> (text: String)
    ensures
        text@ == rendered(PayloadFormatingKind::LowerHex, separator@, buffer@),
{
    LowercaseHexadecimalFormatter::new(Some(separator)).format_buffer(buffer)
}

/// `format_buffer` of an `UppercaseHexadecimalFormatter` made by `new` with
/// the given separator: each byte as `{:02X}` prints it, joined by the
/// separator.
#[verifier::external_body]
fn format_upper_hex(separator: &str, buffer: &[u8]) -> (text: String)
    ensures
        text@ == rendered(PayloadFormatingKind::UpperHex, separator@, buffer@),
{
    UppercaseHexadecimalFormatter::new(Some(separator)).format_buffer(buffer)
}

/// `format_buffer` of a `BinaryFormatter` made by `new` with the given
/// separator: each byte as `{:08b}` prints it, joined by the separator.
#[verifier::external_body]
fn format_binary(separator: &str, buffer: &[u8]) -> (text: String)
    ensures
        text@ == rendered(PayloadFormatingKind::Binary, separator@, buffer@),
{
    BinaryFormatter::new(Some(separator)).format_buffer(buffer)
}

/// `format_buffer` of an `OctalFormatter` made by `new` with the given
/// separator: each byte as `{:03o}` prints it, joined by the separator.
#[verifier::external_body]
fn format_octal(separator: &str, buffer: &[u8]) -> (text: String)
    ensures
        text@ == rendered(PayloadFormatingKind::Octal, separator@, buffer@),
{
    OctalFormatter::new(Some(separator)).format_buffer(buffer)
}

/// A way of showing bytes: a base and the text that stands between two
/// bytes. It holds nothing else, so the same buffer always gives the same
/// text.
pub struct Formatter {
    kind: PayloadFormatingKind,
    separator: String,
}

/// A formatter as contracts see it.
pub struct FormatterView {
    pub kind: PayloadFormatingKind,
    pub separator: Seq<char>,
}

impl View for Formatter {
    type V = FormatterView;

    closed spec fn view(&self) -> FormatterView {
        FormatterView { kind: self.kind, separator: self.separator@ }
    }
}

impl Formatter {
    /// The formatter of the given base and separator. The separator may be
    /// empty.
    pub fn new(kind: PayloadFormatingKind, separator: &str) -> (formatter: Formatter)
        ensures
            formatter@.kind == kind,
            formatter@.separator == separator@,
    {
        Formatter { kind, separator: separator.to_owned() }
    }

    /// The base of the formatter.
    pub fn kind(&self) -> (kind: PayloadFormatingKind)
        ensures
            kind == self@.kind,
    {
        self.kind
    }

    /// The text that stands between two bytes.
    pub fn get_separator(&self) -> (separator: &str)
        ensures
            separator@ == self@.separator,
    {
        self.separator.as_str()
    }

    /// The text of `buffer`. The buffer is read, never changed.
    pub fn format_buffer(&self, buffer: &[u8]) -> (text: String)
        ensures
            text@ == rendered(self@.kind, self@.separator, buffer@),
    {
        let separator = self.separator.as_str();
        match self.kind {
            PayloadFormatingKind::Decimal => format_decimal(separator, buffer),
            PayloadFormatingKind::LowerHex => format_lower_hex(separator, buffer),
            PayloadFormatingKind::UpperHex => format_upper_hex(separator, buffer),
            PayloadFormatingKind::Binary => format_binary(separator, buffer),
            PayloadFormatingKind::Octal => format_octal(separator, buffer),
        }
    }

    /// The text of one byte.
    pub fn format_byte(&self, byte: u8) -> (text: String)
        ensures
            text@ == token_of(self@.kind, byte),
    {
        let buffer: [u8; 1] = [byte];
        let text = self.format_buffer(buffer.as_slice());
        proof {
            assert(buffer@.len() == 1);
            assert(buffer@[0] == byte);
        }
        text
    }
}

impl Clone for Formatter {
    /// A formatter of the same base and separator.
    fn clone(&self) -> (copy: Formatter)
        ensures
            copy@ == self@,
    {
        Formatter { kind: self.kind, separator: self.separator.clone() }
    }
}

} // verus!
