//! Digits and numbers as text.

use vstd::arithmetic::div_mod::lemma_fundamental_div_mod;
use vstd::arithmetic::div_mod::lemma_fundamental_div_mod_converse;
use vstd::arithmetic::div_mod::lemma_multiply_divide_lt;
use vstd::prelude::*;

verus! {

/// The character that stands for the digit `d`, for `d` below sixteen.
/// Digits from ten on are letters, capital ones where `upper` is set.
pub open spec fn digit(d: int, upper: bool) -> char {
    if d < 10 {
        (('0' as int) + d) as char
    } else if upper {
        (('A' as int) + d - 10) as char
    } else {
        (('a' as int) + d - 10) as char
    }
}

/// The digit that `c` stands for, if it stands for one. Letters count only
/// in the case that `upper` names.
pub open spec fn digit_value(c: char, upper: bool) -> Option<int> {
    if '0' <= c <= '9' {
        Some(c as int - '0' as int)
    } else if upper && 'A' <= c <= 'F' {
        Some(c as int - 'A' as int + 10)
    } else if !upper && 'a' <= c <= 'f' {
        Some(c as int - 'a' as int + 10)
    } else {
        None
    }
}

/// Whether `c` is one of `0` to `9`.
pub open spec fn is_decimal_digit(c: char) -> bool {
    '0' <= c <= '9'
}

/// The number `n` in decimal, without leading zeros.
pub open spec fn decimal(n: nat) -> Seq<char>
    decreases n,
{
    if n < 10 {
        seq![digit(n as int, false)]
    } else {
        decimal(n / 10).push(digit((n % 10) as int, false))
    }
}

/// The last `width` digits of `n` in the given base, with leading zeros.
pub open spec fn fixed_width(n: nat, base: nat, width: nat, upper: bool) -> Seq<char>
    decreases width,
{
    if width == 0 {
        Seq::empty()
    } else {
        fixed_width(n / base, base, (width - 1) as nat, upper).push(
            digit((n % base) as int, upper),
        )
    }
}

/// The number that the digits of `text` spell in the given base, read as
/// zero where a character is no digit.
pub open spec fn spelled(text: Seq<char>, base: nat, upper: bool) -> nat
    decreases text.len(),
{
    if text.len() == 0 {
        0
    } else {
        let last = match digit_value(text.last(), upper) {
            Some(d) => d as nat,
            None => 0,
        };
        spelled(text.drop_last(), base, upper) * base + last
    }
}

/// The number of values that `width` digits of the given base can spell.
pub open spec fn limit(base: nat, width: nat) -> nat
    decreases width,
{
    if width == 0 {
        1
    } else {
        base * limit(base, (width - 1) as nat)
    }
}

/// Whether every character of `text` is a digit of the given base, letters
/// in the case that `upper` names.
pub open spec fn all_digits(text: Seq<char>, base: nat, upper: bool) -> bool {
    forall|i: int|
        0 <= i < text.len() ==> {
            &&& (#[trigger] digit_value(text[i], upper)) is Some
            &&& digit_value(text[i], upper)->0 < base
        }
}

/// A digit is read back as itself.
pub proof fn lemma_digit_value_of_digit(d: int, upper: bool)
    requires
        0 <= d < 16,
    ensures
        digit_value(digit(d, upper), upper) == Some(d),
        d < 10 ==> is_decimal_digit(digit(d, upper)),
{
}

/// A character that reads as a digit is that digit's character.
pub proof fn lemma_digit_of_digit_value(c: char, upper: bool)
    requires
        digit_value(c, upper) is Some,
    ensures
        0 <= digit_value(c, upper)->0 < 16,
        digit(digit_value(c, upper)->0, upper) == c,
{
}

/// Digits written at a fixed width spell the number they were written for.
pub proof fn lemma_fixed_width_spells(n: nat, base: nat, width: nat, upper: bool)
    requires
        2 <= base <= 16,
        n < limit(base, width),
    ensures
        fixed_width(n, base, width, upper).len() == width,
        all_digits(fixed_width(n, base, width, upper), base, upper),
        spelled(fixed_width(n, base, width, upper), base, upper) == n,
    decreases width,
{
    let text = fixed_width(n, base, width, upper);
    if width > 0 {
        let rest = (width - 1) as nat;
        let inner = fixed_width(n / base, base, rest, upper);
        lemma_multiply_divide_lt(n as int, base as int, limit(base, rest) as int);
        lemma_fixed_width_spells(n / base, base, rest, upper);
        lemma_digit_value_of_digit((n % base) as int, upper);
        lemma_fundamental_div_mod(n as int, base as int);
        assert(text.drop_last() =~= inner);
        assert(text.last() == digit((n % base) as int, upper));
        assert((n / base) * base == base * (n / base)) by (nonlinear_arith);
        assert forall|i: int| 0 <= i < text.len() implies {
            &&& (#[trigger] digit_value(text[i], upper)) is Some
            &&& digit_value(text[i], upper)->0 < base
        } by {
            if i < rest {
                assert(text[i] == inner[i]);
            }
        }
    }
}

/// Digits written at a fixed width are what their number is written as.
pub proof fn lemma_spelled_fixes_width(text: Seq<char>, base: nat, upper: bool)
    requires
        2 <= base <= 16,
        all_digits(text, base, upper),
    ensures
        spelled(text, base, upper) < limit(base, text.len()),
        fixed_width(spelled(text, base, upper), base, text.len(), upper) == text,
    decreases text.len(),
{
    if text.len() == 0 {
        assert(fixed_width(0, base, 0, upper) =~= text);
    } else {
        let init = text.drop_last();
        let last = digit_value(text.last(), upper)->0;
        let n = spelled(text, base, upper);
        let high = spelled(init, base, upper);
        assert(digit_value(text[text.len() - 1], upper) is Some);
        assert forall|i: int| 0 <= i < init.len() implies {
            &&& (#[trigger] digit_value(init[i], upper)) is Some
            &&& digit_value(init[i], upper)->0 < base
        } by {
            assert(init[i] == text[i]);
        }
        lemma_spelled_fixes_width(init, base, upper);
        lemma_fundamental_div_mod_converse(n as int, base as int, high as int, last);
        lemma_digit_of_digit_value(text.last(), upper);
        assert(fixed_width(n, base, text.len(), upper) =~= init.push(text.last()));
        assert(init.push(text.last()) =~= text);
        let room = limit(base, init.len());
        assert(high * base + last < base * room) by (nonlinear_arith)
            requires
                high < room,
                0 <= last < base,
        ;
    }
}

/// The digits that begin a text spell no more than the whole text.
pub proof fn lemma_spelled_grows(text: Seq<char>, k: int, base: nat, upper: bool)
    requires
        1 <= base,
        0 <= k <= text.len(),
    ensures
        spelled(text.take(k), base, upper) <= spelled(text, base, upper),
    decreases text.len() - k,
{
    if k == text.len() {
        assert(text.take(k) =~= text);
    } else {
        let init = text.drop_last();
        lemma_spelled_grows(init, k, base, upper);
        assert(init.take(k) =~= text.take(k));
        let high = spelled(init, base, upper);
        assert(high <= high * base) by (nonlinear_arith)
            requires
                1 <= base,
                0 <= high,
        ;
    }
}

/// A number in decimal spells itself, takes at least one digit, and begins
/// with a zero only if it is a single zero.
pub proof fn lemma_decimal_spells(n: nat)
    ensures
        decimal(n).len() >= 1,
        all_digits(decimal(n), 10, false),
        spelled(decimal(n), 10, false) == n,
        decimal(n).len() > 1 ==> decimal(n)[0] != '0',
        n < 10 <==> decimal(n).len() == 1,
        n < 100 <==> decimal(n).len() <= 2,
        n < 1000 <==> decimal(n).len() <= 3,
    decreases n,
{
    let text = decimal(n);
    if n < 10 {
        lemma_digit_value_of_digit(n as int, false);
        assert(text.drop_last() =~= Seq::<char>::empty());
        assert(spelled(text.drop_last(), 10, false) == 0);
    } else {
        let inner = decimal(n / 10);
        lemma_decimal_spells(n / 10);
        lemma_digit_value_of_digit((n % 10) as int, false);
        assert(text.drop_last() =~= inner);
        assert(text.last() == digit((n % 10) as int, false));
        assert(text[0] == inner[0]);
        assert forall|i: int| 0 <= i < text.len() implies {
            &&& (#[trigger] digit_value(text[i], false)) is Some
            &&& digit_value(text[i], false)->0 < 10
        } by {
            if i < inner.len() {
                assert(text[i] == inner[i]);
            }
        }
    }
}

/// Decimal digits without a leading zero are what their number is written
/// as.
pub proof fn lemma_spelled_is_decimal(text: Seq<char>)
    requires
        text.len() >= 1,
        all_digits(text, 10, false),
        text.len() > 1 ==> text[0] != '0',
    ensures
        decimal(spelled(text, 10, false)) == text,
        text[0] != '0' ==> spelled(text, 10, false) >= 1,
    decreases text.len(),
{
    let init = text.drop_last();
    let n = spelled(text, 10, false);
    assert(digit_value(text[text.len() - 1], false) is Some);
    lemma_digit_of_digit_value(text.last(), false);
    if text.len() == 1 {
        assert(init =~= Seq::<char>::empty());
        assert(spelled(init, 10, false) == 0);
        assert(decimal(n) =~= text);
    } else {
        assert forall|i: int| 0 <= i < init.len() implies {
            &&& (#[trigger] digit_value(init[i], false)) is Some
            &&& digit_value(init[i], false)->0 < 10
        } by {
            assert(init[i] == text[i]);
        }
        assert(init[0] == text[0]);
        lemma_spelled_is_decimal(init);
        assert(decimal(n) =~= init.push(text.last()));
        assert(init.push(text.last()) =~= text);
    }
}

/// `String::push`: the character is appended behind what the string held.
#[verifier::external_body]
pub(crate) fn push_char(text: &mut String, c: char)
    ensures
        final(text)@ == old(text)@.push(c),
{
    text.push(c)
}

/// The characters of `text`, in order.
pub(crate) fn chars_of(text: &str) -> (chars: Vec<char>)
    ensures
        chars@ == text@,
{
    let mut chars: Vec<char> = Vec::new();
    for c in it: text.chars()
        invariant
            chars@ == it.seq().take(it.index()),
    {
        chars.push(c);
    }
    chars
}

/// The character of a digit below sixteen.
pub(crate) fn digit_char(d: u8, upper: bool) -> (c: char)
    requires
        d < 16,
    ensures
        c == digit(d as int, upper),
{
    if d < 10 {
        (48u8 + d) as char
    } else if upper {
        (65u8 + (d - 10)) as char
    } else {
        (97u8 + (d - 10)) as char
    }
}

/// The digit that a character stands for, if it stands for one.
pub(crate) fn value_of_digit(c: char, upper: bool) -> (value: Option<u8>)
    ensures
        match value {
            Some(d) => digit_value(c, upper) == Some(d as int),
            None => digit_value(c, upper) is None,
        },
{
    if c >= '0' && c <= '9' {
        Some((c as u32 - '0' as u32) as u8)
    } else if upper && c >= 'A' && c <= 'F' {
        Some((c as u32 - 'A' as u32 + 10) as u8)
    } else if !upper && c >= 'a' && c <= 'f' {
        Some((c as u32 - 'a' as u32 + 10) as u8)
    } else {
        None
    }
}

/// Appends `n` in decimal to `text`.
pub(crate) fn push_decimal(text: &mut String, n: usize)
    ensures
        final(text)@ == old(text)@ + decimal(n as nat),
    decreases n,
{
    if n >= 10 {
        push_decimal(text, n / 10);
    }
    let last: u8 = (n % 10) as u8;
    push_char(text, digit_char(last, false));
    proof {
        assert(text@ =~= old(text)@ + decimal(n as nat));
    }
}

} // verus!
