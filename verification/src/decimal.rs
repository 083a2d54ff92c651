//! Numbers as decimal text, written exactly.
//!
//! A multiple of 2^-53 has at most 53 decimal places, so the text of a
//! [`Fixed`] is its value: nothing is rounded and nothing is cut off.

use crate::fixed::{Fixed, FRACTION_BITS, UNIT};
use vstd::prelude::*;

verus! {

/// The character of a decimal digit.
pub open spec fn digit_char(digit: nat) -> char
    recommends
        digit < 10,
{
    ((48 + digit) as u8) as char
}

/// A natural number in decimal, without leading zeros.
pub open spec fn natural_text(n: nat) -> Seq<char>
    decreases n,
{
    if n < 10 {
        seq![digit_char(n)]
    } else {
        natural_text(n / 10).push(digit_char(n % 10))
    }
}

/// The decimal places of `fraction / 2^53`, first place first, as far as
/// they are not zero and at most `places` of them.
pub open spec fn fraction_digits(fraction: nat, places: nat) -> Seq<char>
    decreases places,
{
    if places == 0 || fraction == 0 {
        Seq::empty()
    } else {
        seq![digit_char(10 * fraction / (UNIT as nat))] + fraction_digits(
            10 * fraction % (UNIT as nat),
            (places - 1) as nat,
        )
    }
}

/// What is left of `fraction` behind the places that [`fraction_digits`]
/// writes, as a multiple of 2^-53 of the last place.
pub open spec fn fraction_rest(fraction: nat, places: nat) -> nat
    decreases places,
{
    if places == 0 || fraction == 0 {
        fraction
    } else {
        fraction_rest(10 * fraction % (UNIT as nat), (places - 1) as nat)
    }
}

/// The number `raw / 2^53` in decimal: the whole part, a point, and the
/// decimal places without trailing zeros, `0` where there is none.
pub open spec fn fixed_text(raw: nat) -> Seq<char> {
    let fraction = raw % (UNIT as nat);
    natural_text(raw / (UNIT as nat)) + seq!['.'] + if fraction == 0 {
        seq!['0']
    } else {
        fraction_digits(fraction, FRACTION_BITS as nat)
    }
}

/// Appends one character with `String::push`, which puts it at the end and
/// leaves what was there as it was.
#[verifier::external_body]
pub(crate) fn push_char(text: &mut String, c: char)
    ensures
        final(text)@ == old(text)@.push(c),
{
    text.push(c);
}

fn digit_of(digit: u8) -> (c: char)
    requires
        digit < 10,
    ensures
        c == digit_char(digit as nat),
{
    (48u8 + digit) as char
}

/// Appends a natural number in decimal.
pub fn write_natural(text: &mut String, n: u128)
    ensures
        final(text)@ == old(text)@ + natural_text(n as nat),
    decreases n,
{
    if n >= 10 {
        write_natural(text, n / 10);
    }
    push_char(text, digit_of((n % 10) as u8));
}

/// Appends a fixed-point number in decimal, exactly.
pub fn write_fixed(text: &mut String, number: Fixed)
    ensures
        final(text)@ == old(text)@ + fixed_text(number@),
{
    write_natural(text, number.whole());
    push_char(text, '.');
    let fraction: u128 = number.fraction() as u128;
    if fraction == 0 {
        push_char(text, '0');
    } else {
        let ghost before = text@;
        let mut rest: u128 = fraction;
        let mut places: u32 = FRACTION_BITS;
        while rest != 0 && places > 0
            invariant
                rest < UNIT,
                before + fraction_digits(fraction as nat, FRACTION_BITS as nat) == text@
                    + fraction_digits(rest as nat, places as nat),
            decreases places,
        {
            let scaled: u128 = rest * 10;
            push_char(text, digit_of((scaled / UNIT) as u8));
            rest = scaled % UNIT;
            places = places - 1;
        }
    }
}

/// Whether a character is a decimal digit.
pub open spec fn is_digit(c: char) -> bool {
    48 <= c as u32 <= 57
}

/// The digit that a character writes.
pub open spec fn digit_value(c: char) -> nat
    recommends
        is_digit(c),
{
    (c as u32 - 48) as nat
}

/// Whether every character is a decimal digit.
pub open spec fn all_digits(text: Seq<char>) -> bool {
    forall|i: int| 0 <= i < text.len() ==> is_digit(#[trigger] text[i])
}

/// Ten to the power `n`.
pub open spec fn pow10(n: nat) -> nat
    decreases n,
{
    if n == 0 {
        1
    } else {
        10 * pow10((n - 1) as nat)
    }
}

/// The natural number that a run of digits writes; zero for the empty run.
pub open spec fn digits_value(text: Seq<char>) -> nat
    decreases text.len(),
{
    if text.len() == 0 {
        0
    } else {
        10 * digits_value(text.drop_last()) + digit_value(text.last())
    }
}

/// How many digits stand at the front of a text.
pub open spec fn digit_run(text: Seq<char>) -> nat
    decreases text.len(),
{
    if text.len() > 0 && is_digit(text[0]) {
        1 + digit_run(text.skip(1))
    } else {
        0
    }
}

/// Reads a natural number: one or more digits and nothing else.
pub open spec fn read_natural(text: Seq<char>) -> Option<nat> {
    if text.len() > 0 && all_digits(text) {
        Some(digits_value(text))
    } else {
        None
    }
}

/// Reads a decimal number as a multiple of 2^-53: digits, a point, digits.
/// The result is the raw value, and `None` where the text is not of that
/// form or writes a number that is no multiple of 2^-53.
pub open spec fn read_fixed(text: Seq<char>) -> Option<nat> {
    let run = digit_run(text);
    let whole = text.take(run as int);
    let places = text.skip(run as int + 1);
    if 0 < run < text.len() && text[run as int] == '.' && places.len() > 0 && all_digits(places)
        && (digits_value(places) * (UNIT as nat)) % pow10(places.len()) == 0 {
        Some(digits_value(whole) * (UNIT as nat) + digits_value(places) * (UNIT as nat) / pow10(
            places.len(),
        ))
    } else {
        None
    }
}

/// A digit's character is a digit and writes that digit.
proof fn lemma_digit_char(digit: nat)
    requires
        digit < 10,
    ensures
        is_digit(digit_char(digit)),
        digit_value(digit_char(digit)) == digit,
        digit_char(digit) != '.',
{
}

/// The text of a natural number is made of digits and reads back as that
/// number.
pub proof fn lemma_read_natural_text(n: nat)
    ensures
        natural_text(n).len() > 0,
        all_digits(natural_text(n)),
        digits_value(natural_text(n)) == n,
        read_natural(natural_text(n)) == Some(n),
    decreases n,
{
    lemma_digit_char(n % 10);
    if n < 10 {
        let text = natural_text(n);
        assert(text.drop_last() =~= Seq::<char>::empty());
        assert(digits_value(text.drop_last()) == 0);
    } else {
        lemma_read_natural_text(n / 10);
        let text = natural_text(n);
        assert(text.drop_last() =~= natural_text(n / 10));
    }
}

/// A digit in front of a run counts for as many powers of ten as the run is
/// long.
proof fn lemma_digits_value_prepend(c: char, text: Seq<char>)
    ensures
        digits_value(seq![c] + text) == digit_value(c) * pow10(text.len()) + digits_value(text),
    decreases text.len(),
{
    let whole = seq![c] + text;
    assert(whole.last() == if text.len() == 0 {
        c
    } else {
        text.last()
    });
    if text.len() == 0 {
        assert(whole.drop_last() =~= Seq::<char>::empty());
        assert(digits_value(whole.drop_last()) == 0);
        assert(pow10(0) == 1);
        assert(digits_value(text) == 0);
        assert(digits_value(whole) == digit_value(c));
    } else {
        lemma_digits_value_prepend(c, text.drop_last());
        assert(whole.drop_last() =~= seq![c] + text.drop_last());
        let high = digit_value(c);
        let shorter = pow10((text.len() - 1) as nat);
        assert(pow10(text.len()) == 10 * shorter);
        assert(10 * (high * shorter) == high * (10 * shorter)) by (nonlinear_arith);
        assert(digits_value(whole) == 10 * digits_value(whole.drop_last()) + digit_value(
            text.last(),
        ));
        assert(digits_value(text) == 10 * digits_value(text.drop_last()) + digit_value(
            text.last(),
        ));
    }
}

/// The places that [`fraction_digits`] writes are digits, and they and what
/// [`fraction_rest`] leaves make up the fraction: nothing is lost.
proof fn lemma_fraction_digits(fraction: nat, places: nat)
    requires
        fraction < UNIT,
    ensures
        all_digits(fraction_digits(fraction, places)),
        fraction_digits(fraction, places).len() <= places,
        fraction > 0 && places > 0 ==> fraction_digits(fraction, places).len() > 0,
        fraction_rest(fraction, places) < UNIT,
        fraction * pow10(fraction_digits(fraction, places).len()) == digits_value(
            fraction_digits(fraction, places),
        ) * UNIT + fraction_rest(fraction, places),
    decreases places,
{
    if places == 0 || fraction == 0 {
        let text = fraction_digits(fraction, places);
        assert(text.len() == 0);
        assert(pow10(0) == 1);
        assert(digits_value(text) == 0);
        assert(fraction_rest(fraction, places) == fraction);
        assert(fraction * pow10(text.len()) == digits_value(text) * UNIT + fraction)
            by (nonlinear_arith)
            requires
                pow10(text.len()) == 1,
                digits_value(text) == 0,
        ;
    } else {
        let unit = UNIT as nat;
        let digit = 10 * fraction / unit;
        let next = 10 * fraction % unit;
        let tail = fraction_digits(next, (places - 1) as nat);
        let text = fraction_digits(fraction, places);
        lemma_fraction_digits(next, (places - 1) as nat);
        assert(10 * fraction == digit * unit + next && digit < 10) by {
            vstd::arithmetic::div_mod::lemma_fundamental_div_mod(
                (10 * fraction) as int,
                unit as int,
            );
            assert(unit * digit == digit * unit) by (nonlinear_arith);
        }
        lemma_digit_char(digit);
        lemma_digits_value_prepend(digit_char(digit), tail);
        assert(text == seq![digit_char(digit)] + tail);
        assert(text.len() == tail.len() + 1);
        let scale = pow10(tail.len());
        let rest = fraction_rest(next, (places - 1) as nat);
        assert(pow10(text.len()) == 10 * scale);
        assert(digits_value(text) == digit * scale + digits_value(tail));
        assert(fraction * (10 * scale) == (digit * scale + digits_value(tail)) * unit + rest)
            by (nonlinear_arith)
            requires
                10 * fraction == digit * unit + next,
                next * scale == digits_value(tail) * unit + rest,
        ;
        assert(fraction_rest(fraction, places) == rest);
        assert(fraction * pow10(text.len()) == digits_value(text) * unit + rest);
    }
}

/// A fraction that is a multiple of `step`, where `step` is 2^53 divided by
/// a power of two, is written out in full within as many places as that
/// power has twos.
proof fn lemma_fraction_exhausted(fraction: nat, step: nat, places: nat)
    requires
        fraction < UNIT,
        step > 0,
        fraction % step == 0,
        step * vstd::arithmetic::power2::pow2(places) == UNIT,
    ensures
        fraction_rest(fraction, places) == 0,
    decreases places,
{
    let unit = UNIT as nat;
    if places == 0 {
        vstd::arithmetic::power2::lemma2_to64();
        assert(step == unit);
        vstd::arithmetic::div_mod::lemma_small_mod(fraction, unit);
    } else if fraction == 0 {
    } else {
        let next = 10 * fraction % unit;
        let half = vstd::arithmetic::power2::pow2((places - 1) as nat);
        vstd::arithmetic::power2::lemma_pow2_unfold(places);
        assert(step * (2 * half) == (2 * step) * half) by (nonlinear_arith);
        let m = fraction / step;
        let q = 10 * fraction / unit;
        assert(fraction == step * m) by {
            vstd::arithmetic::div_mod::lemma_fundamental_div_mod(fraction as int, step as int);
        }
        assert(next == 10 * fraction - q * unit) by {
            vstd::arithmetic::div_mod::lemma_fundamental_div_mod(
                (10 * fraction) as int,
                unit as int,
            );
            assert(unit * q == q * unit) by (nonlinear_arith);
        }
        assert(next == (2 * step) * (5 * m - q * half)) by (nonlinear_arith)
            requires
                next == 10 * fraction - q * unit,
                fraction == step * m,
                unit == (2 * step) * half,
        ;
        assert(next % (2 * step) == 0) by {
            vstd::arithmetic::div_mod::lemma_mod_multiples_basic(
                5 * m - q * half,
                (2 * step) as int,
            );
            assert((5 * m - q * half) * (2 * step) == (2 * step) * (5 * m - q * half))
                by (nonlinear_arith);
        }
        lemma_fraction_exhausted(next, 2 * step, (places - 1) as nat);
    }
}

/// The digits at the front of a text are all of a run of digits that is
/// followed by something else or by nothing.
proof fn lemma_digit_run(digits: Seq<char>, rest: Seq<char>)
    requires
        all_digits(digits),
        rest.len() == 0 || !is_digit(rest[0]),
    ensures
        digit_run(digits + rest) == digits.len(),
    decreases digits.len(),
{
    let text = digits + rest;
    if digits.len() == 0 {
        assert(text =~= rest);
    } else {
        assert(text[0] == digits[0]);
        assert(text.skip(1) =~= digits.skip(1) + rest);
        assert forall|i: int| 0 <= i < digits.skip(1).len() implies is_digit(
            #[trigger] digits.skip(1)[i],
        ) by {
            assert(digits.skip(1)[i] == digits[i + 1]);
        }
        lemma_digit_run(digits.skip(1), rest);
    }
}

/// The text of a fixed-point number reads back as that number, exactly.
pub proof fn lemma_read_fixed_text(raw: nat)
    ensures
        read_fixed(fixed_text(raw)) == Some(raw),
{
    let unit = UNIT as nat;
    let whole = natural_text(raw / unit);
    let fraction = raw % unit;
    let places = if fraction == 0 {
        seq!['0']
    } else {
        fraction_digits(fraction, FRACTION_BITS as nat)
    };
    let text = fixed_text(raw);
    assert(text == whole + seq!['.'] + places);
    lemma_read_natural_text(raw / unit);
    lemma_fraction_digits(fraction, FRACTION_BITS as nat);
    assert(fraction_rest(fraction, FRACTION_BITS as nat) == 0) by {
        vstd::arithmetic::power2::lemma2_to64_rest();
        lemma_fraction_exhausted(fraction, 1, FRACTION_BITS as nat);
    }
    assert(places.len() > 0);
    assert(all_digits(places));
    assert(fraction * pow10(places.len()) == digits_value(places) * unit) by {
        if fraction == 0 {
            assert(places.drop_last() =~= Seq::<char>::empty());
            assert(digits_value(places.drop_last()) == 0);
            assert(digits_value(places) == 0);
        }
    }
    let tail = seq!['.'] + places;
    assert(text =~= whole + tail);
    lemma_digit_run(whole, tail);
    let run = digit_run(text);
    assert(run == whole.len());
    assert(text.take(run as int) =~= whole);
    assert(text.skip(run as int + 1) =~= places);
    assert(text[run as int] == '.');
    lemma_pow10_positive(places.len());
    assert((digits_value(places) * unit) % pow10(places.len()) == 0 && digits_value(places) * unit
        / pow10(places.len()) == fraction) by {
        vstd::arithmetic::div_mod::lemma_fundamental_div_mod_converse(
            (digits_value(places) * unit) as int,
            pow10(places.len()) as int,
            fraction as int,
            0,
        );
        assert(fraction * pow10(places.len()) == pow10(places.len()) * fraction)
            by (nonlinear_arith);
    }
    assert(raw == (raw / unit) * unit + fraction) by {
        vstd::arithmetic::div_mod::lemma_fundamental_div_mod(raw as int, unit as int);
        assert(unit * (raw / unit) == (raw / unit) * unit) by (nonlinear_arith);
    }
}

/// Powers of ten are positive.
proof fn lemma_pow10_positive(n: nat)
    ensures
        pow10(n) > 0,
    decreases n,
{
    if n > 0 {
        lemma_pow10_positive((n - 1) as nat);
    }
}

/// The text of a fixed-point number is not empty and holds digits and the
/// point, nothing else.
pub proof fn lemma_fixed_text_chars(raw: nat)
    ensures
        fixed_text(raw).len() > 0,
        forall|i: int|
            0 <= i < fixed_text(raw).len() ==> is_digit(#[trigger] fixed_text(raw)[i])
                || fixed_text(raw)[i] == '.',
{
    let unit = UNIT as nat;
    lemma_read_natural_text(raw / unit);
    lemma_fraction_digits(raw % unit, FRACTION_BITS as nat);
}

} // verus!
