//! Reading formatted payload back into bytes.
//!
//! A text is read as a formatter writes it: a token, then the separator,
//! then a token, and so on. Tokens of a fixed number of digits are counted
//! off. A decimal token takes as many digits as it needs to reach the
//! separator or the end of the text.

use crate::args::PayloadFormatingKind;
use crate::formatter::rendered;
use crate::formatter::token_of;
use crate::formatter::Formatter;
use crate::text::all_digits;
use crate::text::chars_of;
use crate::text::decimal;
use crate::text::digit;
use crate::text::digit_value;
use crate::text::is_decimal_digit;
use crate::text::lemma_decimal_spells;
use crate::text::lemma_fixed_width_spells;
use crate::text::lemma_spelled_fixes_width;
use crate::text::lemma_spelled_grows;
use crate::text::lemma_spelled_is_decimal;
use crate::text::limit;
use crate::text::spelled;
use crate::text::value_of_digit;
use vstd::prelude::*;

verus! {

/// The base in which a kind writes its digits.
pub open spec fn base_of(kind: PayloadFormatingKind) -> nat {
    match kind {
        PayloadFormatingKind::Decimal => 10,
        PayloadFormatingKind::LowerHex => 16,
        PayloadFormatingKind::UpperHex => 16,
        PayloadFormatingKind::Binary => 2,
        PayloadFormatingKind::Octal => 8,
    }
}

/// Whether a kind writes its letters as capitals.
pub open spec fn is_upper(kind: PayloadFormatingKind) -> bool {
    kind == PayloadFormatingKind::UpperHex
}

/// Whether `text` begins with `width` decimal digits.
pub open spec fn begins_with_digits(text: Seq<char>, width: nat) -> bool {
    width <= text.len() && forall|i: int| 0 <= i < width ==> is_decimal_digit(#[trigger] text[i])
}

/// Whether the first `width` characters of `text` are followed by the end
/// of the text or by the separator.
pub open spec fn token_ends(separator: Seq<char>, text: Seq<char>, width: nat) -> bool {
    width == text.len() || separator.is_prefix_of(text.skip(width as int))
}

/// The number of characters that a decimal token at the head of `text`
/// takes: the fewest digits, three at most, that are followed by the end of
/// the text or by the separator. Zero where the text begins with no such
/// digits.
pub open spec fn decimal_token_len(separator: Seq<char>, text: Seq<char>) -> nat {
    if begins_with_digits(text, 1) && token_ends(separator, text, 1) {
        1
    } else if begins_with_digits(text, 2) && token_ends(separator, text, 2) {
        2
    } else if begins_with_digits(text, 3) && token_ends(separator, text, 3) {
        3
    } else {
        0
    }
}

/// The number of characters that the token at the head of `text` takes: a
/// fixed number in the bases that pad with zeros, and in decimal as many
/// digits as it takes to reach the separator or the end of the text.
pub open spec fn token_len(
    kind: PayloadFormatingKind,
    separator: Seq<char>,
    text: Seq<char>,
) -> nat {
    match kind {
        PayloadFormatingKind::Decimal => decimal_token_len(separator, text),
        PayloadFormatingKind::LowerHex => 2,
        PayloadFormatingKind::UpperHex => 2,
        PayloadFormatingKind::Binary => 8,
        PayloadFormatingKind::Octal => 3,
    }
}

/// The byte that `token` is the text of, if it is the text of one.
pub open spec fn token_byte(kind: PayloadFormatingKind, token: Seq<char>) -> Option<u8> {
    if exists|byte: u8| token_of(kind, byte) == token {
        Some(choose|byte: u8| token_of(kind, byte) == token)
    } else {
        None
    }
}

/// The token at the head of `text`: its byte and the number of characters
/// that it takes. `None` where no token stands there.
#[verifier::opaque]
pub open spec fn leading_token(
    kind: PayloadFormatingKind,
    separator: Seq<char>,
    text: Seq<char>,
) -> Option<(u8, nat)> {
    let width = token_len(kind, separator, text);
    if width == 0 || width > text.len() {
        None
    } else {
        match token_byte(kind, text.take(width as int)) {
            Some(byte) => Some((byte, width)),
            None => None,
        }
    }
}

/// The bytes of a text that holds at least one token: a token, and then
/// either the end of the text or the separator and more tokens. `None`
/// where the text is not of that shape. A token takes at least one
/// character and no more than the text has; the definition says so again
/// to be seen to come to an end.
pub open spec fn decoded_tokens(
    kind: PayloadFormatingKind,
    separator: Seq<char>,
    text: Seq<char>,
) -> Option<Seq<u8>>
    decreases text.len(),
{
    match leading_token(kind, separator, text) {
        None => None,
        Some((byte, width)) => {
            let rest = text.skip(width as int);
            if width == 0 || width > text.len() {
                None
            } else if rest.len() == 0 {
                Some(seq![byte])
            } else if !separator.is_prefix_of(rest) {
                None
            } else {
                match decoded_tokens(kind, separator, rest.skip(separator.len() as int)) {
                    None => None,
                    Some(more) => Some(seq![byte] + more),
                }
            }
        },
    }
}

/// The bytes that `text` shows: none for an empty text, else the bytes of
/// its tokens. `None` where the text is not what a formatter of this kind
/// and separator writes.
pub open spec fn decoded(
    kind: PayloadFormatingKind,
    separator: Seq<char>,
    text: Seq<char>,
) -> Option<Seq<u8>> {
    if text.len() == 0 {
        Some(Seq::empty())
    } else {
        decoded_tokens(kind, separator, text)
    }
}

/// Whether `token` has the shape of a byte's text: the right number of
/// digits of the base, no leading zero in a decimal of several digits,
/// and a value that fits a byte.
pub open spec fn well_formed_token(kind: PayloadFormatingKind, token: Seq<char>) -> bool {
    &&& all_digits(token, base_of(kind), is_upper(kind))
    &&& spelled(token, base_of(kind), is_upper(kind)) <= 255
    &&& match kind {
        PayloadFormatingKind::Decimal => {
            &&& 1 <= token.len() <= 3
            &&& token.len() > 1 ==> token[0] != '0'
        },
        PayloadFormatingKind::LowerHex => token.len() == 2,
        PayloadFormatingKind::UpperHex => token.len() == 2,
        PayloadFormatingKind::Binary => token.len() == 8,
        PayloadFormatingKind::Octal => token.len() == 3,
    }
}

/// The text of a byte is well formed and spells the byte.
pub proof fn lemma_token_spells_its_byte(kind: PayloadFormatingKind, byte: u8)
    ensures
        well_formed_token(kind, token_of(kind, byte)),
        spelled(token_of(kind, byte), base_of(kind), is_upper(kind)) == byte,
{
    reveal_with_fuel(limit, 9);
    match kind {
        PayloadFormatingKind::Decimal => {
            lemma_decimal_spells(byte as nat);
        },
        PayloadFormatingKind::LowerHex => {
            lemma_fixed_width_spells(byte as nat, 16, 2, false);
        },
        PayloadFormatingKind::UpperHex => {
            lemma_fixed_width_spells(byte as nat, 16, 2, true);
        },
        PayloadFormatingKind::Binary => {
            lemma_fixed_width_spells(byte as nat, 2, 8, false);
        },
        PayloadFormatingKind::Octal => {
            lemma_fixed_width_spells(byte as nat, 8, 3, false);
        },
    }
}

/// A well-formed token is the text of the byte that it spells.
pub proof fn lemma_well_formed_token_is_text(kind: PayloadFormatingKind, token: Seq<char>)
    requires
        well_formed_token(kind, token),
    ensures
        token_of(kind, spelled(token, base_of(kind), is_upper(kind)) as u8) == token,
{
    match kind {
        PayloadFormatingKind::Decimal => {
            lemma_spelled_is_decimal(token);
        },
        _ => {
            lemma_spelled_fixes_width(token, base_of(kind), is_upper(kind));
        },
    }
}

/// No two bytes have the same text.
pub proof fn lemma_tokens_differ(kind: PayloadFormatingKind, first: u8, second: u8)
    requires
        token_of(kind, first) == token_of(kind, second),
    ensures
        first == second,
{
    lemma_token_spells_its_byte(kind, first);
    lemma_token_spells_its_byte(kind, second);
}

/// A token stands for a byte exactly when it is well formed, and the byte
/// is then the number that its digits spell.
pub proof fn lemma_token_byte(kind: PayloadFormatingKind, token: Seq<char>)
    ensures
        token_byte(kind, token) == if well_formed_token(kind, token) {
            Some(spelled(token, base_of(kind), is_upper(kind)) as u8)
        } else {
            None
        },
        token_byte(kind, token) matches Some(byte) ==> token_of(kind, byte) == token,
{
    if well_formed_token(kind, token) {
        let byte = spelled(token, base_of(kind), is_upper(kind)) as u8;
        lemma_well_formed_token_is_text(kind, token);
        let chosen = choose|byte: u8| token_of(kind, byte) == token;
        lemma_tokens_differ(kind, byte, chosen);
    } else {
        if exists|byte: u8| token_of(kind, byte) == token {
            let byte = choose|byte: u8| token_of(kind, byte) == token;
            lemma_token_spells_its_byte(kind, byte);
        }
    }
}

/// The bytes `head` before the bytes of `tail`, where there is a tail.
pub open spec fn prepended(head: Seq<u8>, tail: Option<Seq<u8>>) -> Option<Seq<u8>> {
    match tail {
        Some(more) => Some(head + more),
        None => None,
    }
}

/// Whether `prefix` stands at `at`.
fn stands_at(chars: &Vec<char>, at: usize, prefix: &Vec<char>) -> (found: bool)
    requires
        at <= chars.len(),
    ensures
        found == prefix@.is_prefix_of(chars@.skip(at as int)),
{
    if prefix.len() > chars.len() - at {
        return false;
    }
    let ghost rest = chars@.skip(at as int);
    let mut i: usize = 0;
    while i < prefix.len()
        invariant
            i <= prefix.len(),
            at + prefix.len() <= chars.len(),
            rest == chars@.skip(at as int),
            forall|j: int| 0 <= j < i ==> prefix@[j] == rest[j],
        decreases prefix.len() - i,
    {
        if prefix[i] != chars[at + i] {
            proof {
                assert(rest.subrange(0, prefix@.len() as int)[i as int] == rest[i as int]);
            }
            return false;
        }
        i += 1;
    }
    proof {
        assert(prefix@ =~= rest.subrange(0, prefix@.len() as int));
    }
    true
}

/// The number of characters that the decimal token at `pos` takes, zero
/// where none stands there.
fn decimal_width(chars: &Vec<char>, pos: usize, separator: &Vec<char>) -> (width: usize)
    requires
        pos <= chars.len(),
    ensures
        width == decimal_token_len(separator@, chars@.skip(pos as int)),
        width <= 3,
        pos + width <= chars.len(),
{
    let ghost text = chars@.skip(pos as int);
    let left: usize = chars.len() - pos;
    let mut width: usize = 1;
    while width <= 3 && width <= left
        invariant
            1 <= width <= 4,
            pos + left == chars.len(),
            text == chars@.skip(pos as int),
            begins_with_digits(text, (width - 1) as nat),
            forall|w: nat|
                1 <= w < width ==> !(begins_with_digits(text, w) && #[trigger] token_ends(
                    separator@,
                    text,
                    w,
                )),
        decreases 4 - width,
    {
        let c = chars[pos + width - 1];
        proof {
            assert(text[width - 1] == c);
        }
        if !(c >= '0' && c <= '9') {
            return 0;
        }
        proof {
            assert(text.skip(width as int) =~= chars@.skip(pos + width));
        }
        if width == left || stands_at(chars, pos + width, separator) {
            return width;
        }
        width += 1;
    }
    0
}

/// The number that the digits from `from` up to `to` spell, if they all
/// are digits of the base and the number fits a byte.
fn spell(chars: &Vec<char>, from: usize, to: usize, base: u8, upper: bool) -> (value: Option<u8>)
    requires
        from <= to <= chars.len(),
        2 <= base <= 16,
    ensures
        ({
            let token = chars@.subrange(from as int, to as int);
            match value {
                Some(number) => {
                    &&& all_digits(token, base as nat, upper)
                    &&& spelled(token, base as nat, upper) == number
                },
                None => {
                    ||| !all_digits(token, base as nat, upper)
                    ||| spelled(token, base as nat, upper) > 255
                },
            }
        }),
{
    let ghost token = chars@.subrange(from as int, to as int);
    let mut number: u16 = 0;
    let mut i: usize = from;
    while i < to
        invariant
            from <= i <= to <= chars.len(),
            2 <= base <= 16,
            token == chars@.subrange(from as int, to as int),
            all_digits(token.take(i - from), base as nat, upper),
            spelled(token.take(i - from), base as nat, upper) == number,
            number <= 255,
        decreases to - i,
    {
        let ghost seen = token.take(i - from);
        let ghost next = token.take(i - from + 1);
        proof {
            assert(next.drop_last() =~= seen);
            assert(next.last() == chars@[i as int]);
            assert(token[i - from] == chars@[i as int]);
        }
        match value_of_digit(chars[i], upper) {
            None => {
                return None;
            },
            Some(d) => {
                if d >= base {
                    return None;
                }
                assert(number * base <= 255 * 16) by (nonlinear_arith)
                    requires
                        0 <= number <= 255,
                        0 <= base <= 16,
                ;
                let grown: u16 = number * (base as u16) + (d as u16);
                if grown > 255 {
                    proof {
                        lemma_spelled_grows(token, i - from + 1, base as nat, upper);
                    }
                    return None;
                }
                number = grown;
                proof {
                    assert forall|j: int| 0 <= j < next.len() implies {
                        &&& (#[trigger] digit_value(next[j], upper)) is Some
                        &&& digit_value(next[j], upper)->0 < base as nat
                    } by {
                        if j < seen.len() {
                            assert(next[j] == seen[j]);
                        }
                    }
                }
            },
        }
        i += 1;
    }
    proof {
        assert(token.take(to - from) =~= token);
    }
    Some(number as u8)
}

/// The token that stands at `pos`: its byte and the number of characters
/// that it takes.
fn read_token(
    kind: PayloadFormatingKind,
    chars: &Vec<char>,
    pos: usize,
    separator: &Vec<char>,
) -> (token: Option<(u8, usize)>)
    requires
        pos <= chars.len(),
    ensures
        match token {
            Some((byte, taken)) => {
                &&& leading_token(kind, separator@, chars@.skip(pos as int)) == Some(
                    (byte, taken as nat),
                )
                &&& 1 <= taken
                &&& pos + taken <= chars.len()
            },
            None => leading_token(kind, separator@, chars@.skip(pos as int)) is None,
        },
{
    proof {
        reveal(leading_token);
    }
    let left: usize = chars.len() - pos;
    let width: usize = match kind {
        PayloadFormatingKind::Decimal => decimal_width(chars, pos, separator),
        PayloadFormatingKind::LowerHex => 2,
        PayloadFormatingKind::UpperHex => 2,
        PayloadFormatingKind::Binary => 8,
        PayloadFormatingKind::Octal => 3,
    };
    if width == 0 || width > left {
        return None;
    }
    let base: u8 = match kind {
        PayloadFormatingKind::Decimal => 10,
        PayloadFormatingKind::LowerHex => 16,
        PayloadFormatingKind::UpperHex => 16,
        PayloadFormatingKind::Binary => 2,
        PayloadFormatingKind::Octal => 8,
    };
    let upper = match kind {
        PayloadFormatingKind::UpperHex => true,
        _ => false,
    };
    let ghost token = chars@.skip(pos as int).take(width as int);
    proof {
        assert(token =~= chars@.subrange(pos as int, pos + width));
        lemma_token_byte(kind, token);
        assert(token[0] == chars@[pos as int]);
    }
    let padded = match kind {
        PayloadFormatingKind::Decimal => width > 1 && chars[pos] == '0',
        _ => false,
    };
    if padded {
        return None;
    }
    match spell(chars, pos, pos + width, base, upper) {
        Some(byte) => Some((byte, width)),
        None => None,
    }
}

impl Formatter {
    /// The bytes that `text` shows, where it is what this formatter writes
    /// for some buffer; `None` for any other text. The text is read as a
    /// formatter writes it: a token, then the separator, then a token, and
    /// so on, with nothing before, between or behind.
    pub fn decode(&self, text: &str) -> (bytes: Option<Vec<u8>>)
        ensures
            match bytes {
                Some(found) => decoded(self@.kind, self@.separator, text@) == Some(found@),
                None => decoded(self@.kind, self@.separator, text@) is None,
            },
    {
        let kind = self.kind();
        let chars = chars_of(text);
        let separator = chars_of(self.get_separator());
        let mut found: Vec<u8> = Vec::new();
        if chars.len() == 0 {
            return Some(found);
        }
        let mut pos: usize = 0;
        proof {
            assert(chars@.skip(0) =~= chars@);
            assert(forall|tail: Seq<u8>| #[trigger] (found@ + tail) =~= tail);
        }
        loop
            invariant
                pos < chars.len(),
                chars@ == text@,
                kind == self@.kind,
                separator@ == self@.separator,
                decoded_tokens(self@.kind, self@.separator, chars@) == prepended(
                    found@,
                    decoded_tokens(self@.kind, self@.separator, chars@.skip(pos as int)),
                ),
            decreases chars.len() - pos,
        {
            let ghost here = chars@.skip(pos as int);
            let ghost before = found@;
            match read_token(kind, &chars, pos, &separator) {
                None => {
                    return None;
                },
                Some((byte, width)) => {
                    found.push(byte);
                    let after: usize = pos + width;
                    proof {
                        assert(here.skip(width as int) =~= chars@.skip(after as int));
                        assert(before + seq![byte] =~= found@);
                    }
                    if after == chars.len() {
                        return Some(found);
                    }
                    if !stands_at(&chars, after, &separator) {
                        return None;
                    }
                    let next: usize = after + separator.len();
                    proof {
                        assert(chars@.skip(after as int).skip(separator@.len() as int)
                            =~= chars@.skip(next as int));
                        assert(forall|more: Seq<u8>|
                            before + (seq![byte] + more) =~= #[trigger] (found@ + more));
                    }
                    if next >= chars.len() {
                        proof {
                            let rest = chars@.skip(next as int);
                            reveal(leading_token);
                            assert(rest.len() == 0);
                            assert(decoded_tokens(self@.kind, self@.separator, rest) is None);
                        }
                        return None;
                    }
                    pos = next;
                },
            }
        }
    }
}

/// Whether every character of `text` is a decimal digit.
#[verifier::opaque]
pub open spec fn only_digits(text: Seq<char>) -> bool {
    forall|i: int| 0 <= i < text.len() ==> is_decimal_digit(#[trigger] text[i])
}

/// Whether `text` repeats itself every `period` characters.
#[verifier::opaque]
pub open spec fn repeats(text: Seq<char>, period: int) -> bool {
    forall|i: int, j: int|
        0 <= i && j == i + period && j < text.len() ==> #[trigger] text[j] == #[trigger] text[i]
}

/// Whether every text that a formatter of this kind and separator writes
/// can be read back. Tokens of a fixed number of digits are told apart by
/// counting, whatever stands between them. Decimal tokens vary in length,
/// so the separator has to show where one ends. It fails to do so if it is
/// empty, and if it is made of digits alone and repeats itself every one or
/// two characters, as `7`, `00`, `12` and `121` do: such a separator may
/// seem to stand inside a token.
pub open spec fn reads_back(kind: PayloadFormatingKind, separator: Seq<char>) -> bool {
    kind == PayloadFormatingKind::Decimal ==> {
        &&& separator.len() > 0
        &&& !(only_digits(separator) && (repeats(separator, 1) || repeats(separator, 2)))
    }
}

/// A separator that stands behind the first of some digits, where the end
/// of the text or the separator itself follows those digits, is made of
/// digits up to any place, and repeats itself every so many characters as
/// there are digits before it.
proof fn lemma_overlap_is_digits(
    separator: Seq<char>,
    digits: Seq<char>,
    follow: Seq<char>,
    upto: int,
)
    requires
        begins_with_digits(digits, digits.len()),
        digits.len() >= 1,
        follow.len() == 0 || separator.is_prefix_of(follow),
        separator.is_prefix_of(digits + follow),
        0 <= upto < separator.len(),
    ensures
        is_decimal_digit(separator[upto]),
        upto >= digits.len() ==> separator[upto] == separator[upto - digits.len()],
    decreases upto,
{
    let text = digits + follow;
    assert(separator[upto] == text.subrange(0, separator.len() as int)[upto]);
    if upto < digits.len() {
        assert(text[upto] == digits[upto]);
    } else {
        let back = upto - digits.len();
        assert(text[upto] == follow[back]);
        assert(follow.len() > 0);
        assert(follow[back] == follow.subrange(0, separator.len() as int)[back]);
        lemma_overlap_is_digits(separator, digits, follow, back);
    }
}

/// In a text that a decimal formatter wrote, the separator does not stand
/// behind the first `width` digits of a token that has more.
proof fn lemma_separator_is_not_inside(
    separator: Seq<char>,
    token: Seq<char>,
    follow: Seq<char>,
    width: nat,
)
    requires
        reads_back(PayloadFormatingKind::Decimal, separator),
        begins_with_digits(token, token.len()),
        1 <= width < token.len() <= 3,
        follow.len() == 0 || separator.is_prefix_of(follow),
    ensures
        !token_ends(separator, token + follow, width),
{
    let text = token + follow;
    let digits = token.skip(width as int);
    assert(text.skip(width as int) =~= digits + follow);
    assert forall|i: int| 0 <= i < digits.len() implies is_decimal_digit(#[trigger] digits[i]) by {
        assert(digits[i] == token[i + width]);
    }
    if separator.is_prefix_of(digits + follow) {
        assert(only_digits(separator)) by {
            reveal(only_digits);
            assert forall|i: int| 0 <= i < separator.len() implies is_decimal_digit(
                #[trigger] separator[i],
            ) by {
                lemma_overlap_is_digits(separator, digits, follow, i);
            }
        }
        assert(repeats(separator, digits.len() as int)) by {
            reveal(repeats);
            assert forall|i: int, j: int|
                0 <= i && j == i + digits.len() && j < separator.len() implies #[trigger] separator[j]
                == #[trigger] separator[i] by {
                lemma_overlap_is_digits(separator, digits, follow, j);
            }
        }
    }
}

/// In a text that a decimal formatter wrote, a token ends where it was
/// meant to end: the separator does not stand any earlier.
proof fn lemma_decimal_token_ends(separator: Seq<char>, token: Seq<char>, follow: Seq<char>)
    requires
        reads_back(PayloadFormatingKind::Decimal, separator),
        all_digits(token, 10, false),
        1 <= token.len() <= 3,
        follow.len() == 0 || separator.is_prefix_of(follow),
    ensures
        decimal_token_len(separator, token + follow) == token.len(),
{
    let text = token + follow;
    assert forall|i: int| 0 <= i < token.len() implies is_decimal_digit(#[trigger] token[i]) by {
        assert(digit_value(token[i], false) is Some);
    }
    assert forall|i: int| 0 <= i < token.len() implies is_decimal_digit(#[trigger] text[i]) by {
        assert(text[i] == token[i]);
    }
    assert(text.skip(token.len() as int) =~= follow);
    assert(token_ends(separator, text, token.len()));
    assert(begins_with_digits(text, token.len()));
    if token.len() > 1 {
        lemma_separator_is_not_inside(separator, token, follow, 1);
    }
    if token.len() > 2 {
        lemma_separator_is_not_inside(separator, token, follow, 2);
    }
}

/// The text of a byte is read as that byte, whatever may follow it in a
/// text that a formatter wrote.
proof fn lemma_first_token_reads_back(
    kind: PayloadFormatingKind,
    separator: Seq<char>,
    byte: u8,
    follow: Seq<char>,
)
    requires
        reads_back(kind, separator),
        follow.len() == 0 || separator.is_prefix_of(follow),
    ensures
        token_of(kind, byte).len() >= 1,
        leading_token(kind, separator, token_of(kind, byte) + follow) == Some(
            (byte, token_of(kind, byte).len()),
        ),
{
    let token = token_of(kind, byte);
    let text = token + follow;
    reveal(leading_token);
    lemma_token_spells_its_byte(kind, byte);
    lemma_token_byte(kind, token);
    if kind == PayloadFormatingKind::Decimal {
        lemma_decimal_token_ends(separator, token, follow);
    }
    assert(token_len(kind, separator, text) == token.len());
    assert(text.take(token.len() as int) =~= token);
}

/// A text of one byte or more is read back as the bytes it was written for.
proof fn lemma_tokens_read_back(
    kind: PayloadFormatingKind,
    separator: Seq<char>,
    bytes: Seq<u8>,
)
    requires
        reads_back(kind, separator),
        bytes.len() >= 1,
    ensures
        decoded_tokens(kind, separator, rendered(kind, separator, bytes)) == Some(bytes),
    decreases bytes.len(),
{
    let text = rendered(kind, separator, bytes);
    let token = token_of(kind, bytes[0]);
    let tail = bytes.skip(1);
    if bytes.len() == 1 {
        lemma_first_token_reads_back(kind, separator, bytes[0], Seq::empty());
        assert(text =~= token + Seq::<char>::empty());
        assert(text.skip(token.len() as int) =~= Seq::<char>::empty());
        assert(seq![bytes[0]] =~= bytes);
    } else {
        let beyond = rendered(kind, separator, tail);
        let follow = separator + beyond;
        assert(follow.subrange(0, separator.len() as int) =~= separator);
        lemma_first_token_reads_back(kind, separator, bytes[0], follow);
        lemma_tokens_read_back(kind, separator, tail);
        assert(text =~= token + follow);
        assert(text.skip(token.len() as int) =~= follow);
        assert(follow.skip(separator.len() as int) =~= beyond);
        assert(seq![bytes[0]] + tail =~= bytes);
    }
}

/// Formatting and reading back gives the buffer again: for every buffer,
/// for every base that pads its tokens with every separator, and for
/// decimal with every separator that shows where a token ends.
pub proof fn lemma_round_trip(kind: PayloadFormatingKind, separator: Seq<char>, bytes: Seq<u8>)
    requires
        reads_back(kind, separator),
    ensures
        decoded(kind, separator, rendered(kind, separator, bytes)) == Some(bytes),
{
    if bytes.len() == 0 {
        assert(bytes =~= Seq::<u8>::empty());
    } else {
        lemma_tokens_read_back(kind, separator, bytes);
    }
}

/// Reading is the inverse of formatting: with a separator that shows where
/// a token ends, a text is read as some bytes exactly when it is the text
/// of those bytes.
pub proof fn lemma_decode_inverts_format(
    kind: PayloadFormatingKind,
    separator: Seq<char>,
    text: Seq<char>,
    bytes: Seq<u8>,
)
    requires
        reads_back(kind, separator),
    ensures
        decoded(kind, separator, text) == Some(bytes) <==> rendered(kind, separator, bytes) == text,
{
    if decoded(kind, separator, text) == Some(bytes) {
        lemma_decoded_is_rendered(kind, separator, text);
    }
    if rendered(kind, separator, bytes) == text {
        lemma_round_trip(kind, separator, bytes);
    }
}

/// A text that begins with the digit one, behind which the separator
/// stands, is not read as a buffer whose first byte is another.
proof fn lemma_split_behind_one(separator: Seq<char>, text: Seq<char>, bytes: Seq<u8>)
    requires
        text.len() >= 1,
        text[0] == '1',
        separator.is_prefix_of(text.skip(1)),
        bytes.len() >= 1,
        bytes[0] != 1,
    ensures
        decoded(PayloadFormatingKind::Decimal, separator, text) != Some(bytes),
{
    let kind = PayloadFormatingKind::Decimal;
    let one = token_of(kind, 1);
    reveal(leading_token);
    lemma_token_spells_its_byte(kind, 1);
    lemma_token_byte(kind, one);
    assert(one =~= seq!['1']);
    assert(text.take(1) =~= one);
    assert(begins_with_digits(text, 1));
    assert(leading_token(kind, separator, text) == Some((1u8, 1nat)));
    match decoded_tokens(kind, separator, text) {
        Some(found) => {
            assert(found[0] == 1);
        },
        None => {},
    }
}

/// The law of the round trip leaves out no more than it has to: with a
/// decimal formatter and any separator that it leaves out, the text of the
/// buffer that this proof names is not read back as that buffer.
pub proof fn lemma_round_trip_fails_otherwise(separator: Seq<char>) -> (bytes: Seq<u8>)
    requires
        !reads_back(PayloadFormatingKind::Decimal, separator),
    ensures
        decoded(
            PayloadFormatingKind::Decimal,
            separator,
            rendered(PayloadFormatingKind::Decimal, separator, bytes),
        ) != Some(bytes),
{
    let kind = PayloadFormatingKind::Decimal;
    reveal(only_digits);
    reveal(repeats);
    reveal_with_fuel(decimal, 3);
    reveal_with_fuel(rendered, 3);
    if separator.len() == 0 {
        let bytes = seq![12u8];
        let text = rendered(kind, separator, bytes);
        assert(text =~= seq!['1', '2']);
        assert(separator.is_prefix_of(text.skip(1)));
        lemma_split_behind_one(separator, text, bytes);
        bytes
    } else if separator.len() == 1 || repeats(separator, 1) {
        let first = digit_value(separator[0], false)->0;
        let bytes = seq![(10 + first) as u8, 0u8];
        let text = rendered(kind, separator, bytes);
        assert(bytes.skip(1) =~= seq![0u8]);
        assert(digit(first, false) == separator[0]);
        assert(text =~= seq!['1', separator[0]] + separator + seq!['0']);
        let rest = text.skip(1);
        assert forall|i: int| 0 <= i < separator.len() implies rest[i] == separator[i] by {
            if i > 0 {
                assert(separator[i] == separator[i - 1]);
            }
        }
        assert(separator =~= rest.subrange(0, separator.len() as int));
        lemma_split_behind_one(separator, text, bytes);
        bytes
    } else {
        let first = digit_value(separator[0], false)->0;
        let second = digit_value(separator[1], false)->0;
        let bytes = seq![(100 + 10 * first + second) as u8, 0u8];
        let text = rendered(kind, separator, bytes);
        assert(bytes.skip(1) =~= seq![0u8]);
        assert(digit(first, false) == separator[0]);
        assert(digit(second, false) == separator[1]);
        assert(text =~= seq!['1', separator[0], separator[1]] + separator + seq!['0']);
        let rest = text.skip(1);
        assert forall|i: int| 0 <= i < separator.len() implies rest[i] == separator[i] by {
            if i > 1 {
                assert(separator[i] == separator[i - 2]);
            }
        }
        assert(separator =~= rest.subrange(0, separator.len() as int));
        lemma_split_behind_one(separator, text, bytes);
        bytes
    }
}

/// A token that is read from the head of a text is the text of its byte.
proof fn lemma_leading_token_is_text(
    kind: PayloadFormatingKind,
    separator: Seq<char>,
    text: Seq<char>,
)
    requires
        leading_token(kind, separator, text) is Some,
    ensures
        ({
            let (byte, width) = leading_token(kind, separator, text)->0;
            &&& 1 <= width <= text.len()
            &&& token_of(kind, byte) == text.take(width as int)
        }),
{
    reveal(leading_token);
    let width = token_len(kind, separator, text);
    lemma_token_byte(kind, text.take(width as int));
}

/// What is read from a text of tokens is what the text was written for.
proof fn lemma_tokens_are_rendered(
    kind: PayloadFormatingKind,
    separator: Seq<char>,
    text: Seq<char>,
)
    requires
        decoded_tokens(kind, separator, text) is Some,
    ensures
        decoded_tokens(kind, separator, text)->0.len() >= 1,
        rendered(kind, separator, decoded_tokens(kind, separator, text)->0) == text,
    decreases text.len(),
{
    let bytes = decoded_tokens(kind, separator, text)->0;
    assert(leading_token(kind, separator, text) is Some);
    let (byte, width) = leading_token(kind, separator, text)->0;
    let token = text.take(width as int);
    let rest = text.skip(width as int);
    lemma_leading_token_is_text(kind, separator, text);
    if rest.len() == 0 {
        assert(bytes == seq![byte]);
        assert(token =~= text);
    } else {
        let beyond = rest.skip(separator.len() as int);
        assert(separator.is_prefix_of(rest));
        assert(decoded_tokens(kind, separator, beyond) is Some);
        lemma_tokens_are_rendered(kind, separator, beyond);
        let more = decoded_tokens(kind, separator, beyond)->0;
        assert(bytes == seq![byte] + more);
        assert(bytes[0] == byte);
        assert(bytes.skip(1) =~= more);
        assert(rendered(kind, separator, bytes) == token + separator + rendered(
            kind,
            separator,
            more,
        ));
        assert(rest =~= separator + beyond);
        assert(text =~= token + rest);
        assert(text =~= token + separator + beyond);
    }
}

/// Reading accepts only what a formatter writes: where a text is read as
/// some bytes, the text is the text of those bytes, for every base and
/// every separator.
pub proof fn lemma_decoded_is_rendered(
    kind: PayloadFormatingKind,
    separator: Seq<char>,
    text: Seq<char>,
)
    requires
        decoded(kind, separator, text) is Some,
    ensures
        rendered(kind, separator, decoded(kind, separator, text)->0) == text,
{
    if text.len() == 0 {
        assert(text =~= Seq::<char>::empty());
    } else {
        lemma_tokens_are_rendered(kind, separator, text);
    }
}

} // verus!
