//! Non-negative decimal quantities (seconds, pixel offsets, multipliers)
//! counted in millionths, with their text form.
//!
//! Sums of quantities are carried as `u128` counts of millionths, which
//! cannot overflow for any list that fits in memory.

use vstd::prelude::*;
use crate::text::{digit, digit_char, nat_text, push_nat, to_chars};

verus! {

/// Millionths in one whole.
pub const UNITS_PER_WHOLE: u64 = 1_000_000;

/// Most fraction digits that a quantity can carry.
pub const FRACTION_DIGITS: usize = 6;

/// A non-negative decimal quantity with six fraction digits.
#[derive(Clone, Copy, Debug, PartialEq, Eq, Structural)]
pub struct Decimal {
    /// The quantity in millionths.
    pub units: u64,
}

/// Fraction digits of `frac / (10 * scale)`, most significant first, without
/// trailing zeros.
pub open spec fn fraction_text(frac: nat, scale: nat) -> Seq<char>
    decreases scale,
{
    if frac == 0 || scale == 0 {
        Seq::empty()
    } else {
        seq![digit_char(frac / scale)] + fraction_text(frac % scale, scale / 10)
    }
}

/// Text of a count of millionths: the whole part, then, unless the fraction
/// is zero, a point and the fraction digits without trailing zeros.
pub open spec fn units_text(units: nat) -> Seq<char> {
    let whole = units / 1_000_000;
    let frac = units % 1_000_000;
    if frac == 0 {
        nat_text(whole)
    } else {
        nat_text(whole).push('.') + fraction_text(frac, 100_000)
    }
}

/// `c` is one of the ten decimal digits.
pub open spec fn is_digit(c: char) -> bool {
    c == '0' || c == '1' || c == '2' || c == '3' || c == '4' || c == '5' || c == '6' || c == '7'
        || c == '8' || c == '9'
}

/// The number that the digit `c` stands for.
pub open spec fn digit_value(c: char) -> nat {
    if c == '1' {
        1
    } else if c == '2' {
        2
    } else if c == '3' {
        3
    } else if c == '4' {
        4
    } else if c == '5' {
        5
    } else if c == '6' {
        6
    } else if c == '7' {
        7
    } else if c == '8' {
        8
    } else if c == '9' {
        9
    } else {
        0
    }
}

/// Every character of `s` is a digit.
pub open spec fn all_digits(s: Seq<char>) -> bool {
    forall|i: int| 0 <= i < s.len() ==> is_digit(#[trigger] s[i])
}

/// The number written by the digits of `s`, read as decimal.
pub open spec fn digits_value(s: Seq<char>) -> nat
    decreases s.len(),
{
    if s.len() == 0 {
        0
    } else {
        digits_value(s.drop_last()) * 10 + digit_value(s.last())
    }
}

/// Ten to the power `k`.
pub open spec fn pow10(k: nat) -> nat
    decreases k,
{
    if k == 0 {
        1
    } else {
        10 * pow10((k - 1) as nat)
    }
}

/// Number of leading digits of `s`.
pub open spec fn digit_run(s: Seq<char>) -> nat
    decreases s.len(),
{
    if s.len() > 0 && is_digit(s[0]) {
        1 + digit_run(s.drop_first())
    } else {
        0
    }
}

/// The count of millionths that `s` writes, if it writes one: one or more
/// digits, then optionally a point and one to six digits. Nothing may come
/// before, between or after.
pub open spec fn decimal_units(s: Seq<char>) -> Option<nat> {
    let w = digit_run(s) as int;
    let whole = s.take(w);
    if w == 0 {
        None
    } else if w == s.len() {
        Some(digits_value(whole) * 1_000_000)
    } else {
        let frac = s.skip(w + 1);
        if s[w] == '.' && 1 <= frac.len() <= 6 && all_digits(frac) {
            Some(digits_value(whole) * 1_000_000 + digits_value(frac) * pow10((6 - frac.len()) as nat))
        } else {
            None
        }
    }
}

/// `scale` is one of the six place values of the fraction, or zero once
/// the last place has been passed.
pub open spec fn is_place(scale: nat) -> bool {
    scale == 100_000 || scale == 10_000 || scale == 1_000 || scale == 100 || scale == 10
        || scale == 1 || scale == 0
}

/// Appends the fraction digits of `frac` millionths to `out`.
fn push_fraction(out: &mut String, frac: u32)
    requires
        frac < 1_000_000,
    ensures
        final(out)@ == old(out)@ + fraction_text(frac as nat, 100_000),
{
    let mut rest: u32 = frac;
    let mut scale: u32 = 100_000;
    assert(out@ + fraction_text(rest as nat, scale as nat) =~= old(out)@ + fraction_text(
        frac as nat,
        100_000,
    ));
    while rest != 0 && scale != 0
        invariant
            is_place(scale as nat),
            rest < 10 * scale || rest == 0,
            out@ + fraction_text(rest as nat, scale as nat) == old(out)@ + fraction_text(
                frac as nat,
                100_000,
            ),
        decreases scale,
    {
        let ghost before = out@;
        let d: u32 = rest / scale;
        assert(d < 10) by (nonlinear_arith)
            requires
                d == rest / scale,
                rest < 10 * scale,
                scale > 0,
        ;
        out.push(digit(d as u8));
        let next_rest: u32 = rest % scale;
        let next_scale: u32 = scale / 10;
        assert(fraction_text(rest as nat, scale as nat) == seq![digit_char(d as nat)]
            + fraction_text(next_rest as nat, next_scale as nat));
        assert(before + fraction_text(rest as nat, scale as nat) =~= out@ + fraction_text(
            next_rest as nat,
            next_scale as nat,
        ));
        rest = next_rest;
        scale = next_scale;
    }
    assert(fraction_text(rest as nat, scale as nat) =~= Seq::<char>::empty());
    assert(out@ + Seq::<char>::empty() =~= out@);
}

/// Appends the text of `units` millionths to `out`.
pub fn push_units(out: &mut String, units: u128)
    ensures
        final(out)@ == old(out)@ + units_text(units as nat),
{
    push_nat(out, units / 1_000_000);
    let frac: u32 = (units % 1_000_000) as u32;
    if frac != 0 {
        out.push('.');
        push_fraction(out, frac);
        assert(out@ =~= old(out)@ + units_text(units as nat));
    }
}

/// The text of `units` millionths.
pub fn format_units(units: u128) -> (text: String)
    ensures
        text@ == units_text(units as nat),
{
    let mut text = String::new();
    push_units(&mut text, units);
    text
}

/// The leading digits of `t` are digits, and the run ends at the end of `t`
/// or in front of a character that is no digit.
pub proof fn lemma_digit_run(t: Seq<char>)
    ensures
        digit_run(t) <= t.len(),
        all_digits(t.take(digit_run(t) as int)),
        digit_run(t) < t.len() ==> !is_digit(t[digit_run(t) as int]),
        all_digits(t) <==> digit_run(t) == t.len(),
    decreases t.len(),
{
    if t.len() > 0 && is_digit(t[0]) {
        let rest = t.drop_first();
        lemma_digit_run(rest);
        let run = digit_run(t) as int;
        assert forall|i: int| 0 <= i < run implies is_digit(#[trigger] t.take(run)[i]) by {
            if i > 0 {
                assert(t.take(run)[i] == rest.take(run - 1)[i - 1]);
            }
        }
        if all_digits(t) {
            assert forall|i: int| 0 <= i < rest.len() implies is_digit(#[trigger] rest[i]) by {
                assert(rest[i] == t[i + 1]);
            }
        }
        if digit_run(t) == t.len() {
            assert(t.take(run) =~= t);
        }
    } else {
        if t.len() > 0 {
            assert(!is_digit(t[0]));
        }
        assert(t.take(0) =~= Seq::<char>::empty());
    }
}

/// The digit that `c` stands for, if it is one.
pub fn digit_of(c: char) -> (d: Option<u8>)
    ensures
        d is Some <==> is_digit(c),
        d matches Some(v) ==> v == digit_value(c) && v < 10,
{
    if c == '0' {
        Some(0)
    } else if c == '1' {
        Some(1)
    } else if c == '2' {
        Some(2)
    } else if c == '3' {
        Some(3)
    } else if c == '4' {
        Some(4)
    } else if c == '5' {
        Some(5)
    } else if c == '6' {
        Some(6)
    } else if c == '7' {
        Some(7)
    } else if c == '8' {
        Some(8)
    } else if c == '9' {
        Some(9)
    } else {
        None
    }
}

/// Reads the digits that start at `from`: where they end, and their value
/// unless it is above `u64::MAX`.
fn scan_digits(chars: &Vec<char>, from: usize) -> (r: (usize, Option<u64>))
    requires
        from <= chars.len(),
    ensures
        r.0 == from + digit_run(chars@.skip(from as int)),
        r.0 <= chars.len(),
        r.1 == (if digits_value(chars@.subrange(from as int, r.0 as int)) <= u64::MAX {
            Some(digits_value(chars@.subrange(from as int, r.0 as int)) as u64)
        } else {
            None
        }),
{
    let mut end: usize = from;
    let mut value: Option<u64> = Some(0);
    proof {
        assert(chars@.subrange(from as int, from as int) =~= Seq::<char>::empty());
    }
    loop
        invariant
            from <= end <= chars.len(),
            digit_run(chars@.skip(from as int)) == (end - from) + digit_run(
                chars@.skip(end as int),
            ),
            value == (if digits_value(chars@.subrange(from as int, end as int)) <= u64::MAX {
                Some(digits_value(chars@.subrange(from as int, end as int)) as u64)
            } else {
                None
            }),
        decreases chars.len() - end,
    {
        if end == chars.len() {
            return (end, value);
        }
        let d = match digit_of(chars[end]) {
            Some(d) => d,
            None => {
                assert(chars@.skip(end as int)[0] == chars@[end as int]);
                return (end, value);
            },
        };
        proof {
            let tail = chars@.skip(end as int);
            assert(tail[0] == chars@[end as int]);
            assert(tail.drop_first() =~= chars@.skip(end + 1));
            let longer = chars@.subrange(from as int, end + 1);
            assert(longer.drop_last() =~= chars@.subrange(from as int, end as int));
            assert(longer.last() == chars@[end as int]);
        }
        value = match value {
            Some(v) => {
                let wide: u128 = v as u128 * 10 + d as u128;
                if wide <= u64::MAX as u128 {
                    Some(wide as u64)
                } else {
                    None
                }
            },
            None => None,
        };
        end += 1;
    }
}

impl Decimal {
    /// The quantity of `whole` wholes and no fraction.
    pub fn whole(whole: u32) -> (d: Decimal)
        ensures
            d.units == whole * 1_000_000,
    {
        Decimal { units: whole as u64 * UNITS_PER_WHOLE }
    }

    /// The text of the quantity.
    pub fn to_text(&self) -> (text: String)
        ensures
            text@ == units_text(self.units as nat),
    {
        format_units(self.units as u128)
    }

    /// Reads a quantity from its text. `None` where the text writes no
    /// quantity, or one above what `u64` millionths can hold.
    pub fn parse(text: &str) -> (r: Option<Decimal>)
        ensures
            match r {
                Some(d) => decimal_units(text@) == Some(d.units as nat),
                None => decimal_units(text@) matches Some(u) ==> u > u64::MAX,
            },
    {
        let chars = to_chars(text);
        let (w, whole) = scan_digits(&chars, 0);
        proof {
            assert(chars@.skip(0) =~= chars@);
            assert(chars@.subrange(0, w as int) =~= chars@.take(w as int));
        }
        if w == 0 {
            return None;
        }
        let mut units: u128 = match whole {
            Some(v) => v as u128 * 1_000_000,
            None => {
                assert(decimal_units(text@) matches Some(u) ==> u > u64::MAX) by (nonlinear_arith)
                    requires
                        digits_value(text@.take(w as int)) > u64::MAX,
                        decimal_units(text@) matches Some(u) ==> u >= digits_value(
                            text@.take(w as int),
                        ) * 1_000_000,
                ;
                return None;
            },
        };
        if w < chars.len() {
            if chars[w] != '.' {
                return None;
            }
            let (end, frac) = scan_digits(&chars, w + 1);
            proof {
                lemma_digit_run(chars@.skip(w + 1));
                assert(chars@.subrange(w + 1, chars@.len() as int) =~= chars@.skip(w + 1));
            }
            if end != chars.len() || end - (w + 1) < 1 || end - (w + 1) > FRACTION_DIGITS {
                return None;
            }
            let count: usize = end - (w + 1);
            let ghost frac_value = digits_value(chars@.skip(w + 1));
            let place: u128 = if count == 1 {
                100_000
            } else if count == 2 {
                10_000
            } else if count == 3 {
                1_000
            } else if count == 4 {
                100
            } else if count == 5 {
                10
            } else {
                1
            };
            proof {
                lemma_digits_bound(chars@.skip(w + 1));
                reveal_with_fuel(pow10, 7);
                assert(place == pow10((6 - count) as nat));
                assert(frac_value < 1_000_000);
            }
            let scaled: u128 = match frac {
                Some(v) => {
                    assert(v * place < 1_000_000 * 100_000 + 1) by (nonlinear_arith)
                        requires
                            v < 1_000_000,
                            place <= 100_000,
                    ;
                    v as u128 * place
                },
                None => {
                    return None;
                },
            };
            units = units + scaled;
        }
        if units <= u64::MAX as u128 {
            Some(Decimal { units: units as u64 })
        } else {
            None
        }
    }
}

/// A run of `n` digits writes a number below ten to the `n`.
pub proof fn lemma_digits_bound(s: Seq<char>)
    ensures
        digits_value(s) < pow10(s.len()),
    decreases s.len(),
{
    if s.len() > 0 {
        lemma_digits_bound(s.drop_last());
    }
}

/// The text of a natural number is made of digits, at least one, and
/// writes that number.
pub proof fn lemma_nat_text(n: nat)
    ensures
        nat_text(n).len() >= 1,
        all_digits(nat_text(n)),
        digits_value(nat_text(n)) == n,
    decreases n,
{
    if n < 10 {
        assert(nat_text(n).drop_last() =~= Seq::<char>::empty());
        assert(digits_value(nat_text(n).drop_last()) == 0);
    } else {
        lemma_nat_text(n / 10);
        let head = nat_text(n / 10);
        assert(nat_text(n).drop_last() =~= head);
        assert forall|i: int| 0 <= i < nat_text(n).len() implies is_digit(
            #[trigger] nat_text(n)[i],
        ) by {
            if i < head.len() {
                assert(nat_text(n)[i] == head[i]);
            }
        }
    }
}

/// A run of digits in front of something that starts with no digit is the
/// whole run of leading digits.
pub proof fn lemma_digit_run_of_concat(digits: Seq<char>, rest: Seq<char>)
    requires
        all_digits(digits),
        rest.len() == 0 || !is_digit(rest[0]),
    ensures
        digit_run(digits + rest) == digits.len(),
    decreases digits.len(),
{
    if digits.len() == 0 {
        assert(digits + rest =~= rest);
    } else {
        assert((digits + rest)[0] == digits[0]);
        assert((digits + rest).drop_first() =~= digits.drop_first() + rest);
        assert forall|i: int| 0 <= i < digits.drop_first().len() implies is_digit(
            #[trigger] digits.drop_first()[i],
        ) by {
            assert(digits.drop_first()[i] == digits[i + 1]);
        }
        lemma_digit_run_of_concat(digits.drop_first(), rest);
    }
}

/// A digit in front of a run of digits adds its value times the place that
/// it stands in.
pub proof fn lemma_leading_digit(d: char, rest: Seq<char>)
    ensures
        digits_value(seq![d] + rest) == digit_value(d) * pow10(rest.len()) + digits_value(rest),
    decreases rest.len(),
{
    let all = seq![d] + rest;
    if rest.len() == 0 {
        assert(all.drop_last() =~= Seq::<char>::empty());
        assert(digits_value(all.drop_last()) == 0);
    } else {
        lemma_leading_digit(d, rest.drop_last());
        assert(all.drop_last() =~= seq![d] + rest.drop_last());
        assert(all.last() == rest.last());
        let high = digit_value(d) * pow10((rest.len() - 1) as nat);
        assert(digit_value(d) * pow10(rest.len()) == high * 10) by (nonlinear_arith)
            requires
                pow10(rest.len()) == 10 * pow10((rest.len() - 1) as nat),
                high == digit_value(d) * pow10((rest.len() - 1) as nat),
        ;
    }
}

/// The fraction digits of `frac` at `places` places are digits, no more
/// than `places` and at least one unless `frac` is zero, and write `frac`
/// when filled up with zeros to `places` places.
pub proof fn lemma_fraction_text(frac: nat, places: nat)
    requires
        1 <= places <= 6,
        frac < pow10(places),
    ensures
        ({
            let text = fraction_text(frac, pow10((places - 1) as nat));
            &&& all_digits(text)
            &&& text.len() <= places
            &&& frac > 0 ==> text.len() >= 1
            &&& digits_value(text) * pow10((places - text.len()) as nat) == frac
        }),
    decreases places,
{
    reveal_with_fuel(pow10, 8);
    let scale = pow10((places - 1) as nat);
    let text = fraction_text(frac, scale);
    if frac == 0 {
        assert(text =~= Seq::<char>::empty());
        assert(digits_value(text) == 0);
        assert(digits_value(text) * pow10((places - text.len()) as nat) == 0) by (nonlinear_arith)
            requires
                digits_value(text) == 0,
        ;
    } else {
        let d = frac / scale;
        let rest_frac = frac % scale;
        assert(d < 10 && frac == d * scale + rest_frac) by (nonlinear_arith)
            requires
                d == frac / scale,
                rest_frac == frac % scale,
                frac < 10 * scale,
                scale > 0,
        ;
        let rest = fraction_text(rest_frac, scale / 10);
        assert(text == seq![digit_char(d)] + rest);
        if places == 1 {
            assert(rest_frac == 0);
            assert(rest =~= Seq::<char>::empty());
        } else {
            assert(scale / 10 == pow10((places - 2) as nat));
            lemma_fraction_text(rest_frac, (places - 1) as nat);
        }
        assert forall|i: int| 0 <= i < text.len() implies is_digit(#[trigger] text[i]) by {
            if i > 0 {
                assert(text[i] == rest[i - 1]);
            }
        }
        lemma_leading_digit(digit_char(d), rest);
        let fill = pow10((places - text.len()) as nat);
        let rest_value = digits_value(rest);
        let high = pow10(rest.len());
        let value = digits_value(text);
        assert(digit_value(digit_char(d)) == d);
        assert(value == d * high + rest_value);
        assert(rest_value * fill == rest_frac);
        assert(high * fill == scale) by {
            lemma_pow10_sum(rest.len(), (places - text.len()) as nat);
        }
        assert(value * fill == frac) by (nonlinear_arith)
            requires
                value == d * high + rest_value,
                rest_value * fill == rest_frac,
                high * fill == scale,
                frac == d * scale + rest_frac,
        ;
    }
}

/// Ten to a sum is the product of the powers.
pub proof fn lemma_pow10_sum(a: nat, b: nat)
    ensures
        pow10(a) * pow10(b) == pow10(a + b),
    decreases a,
{
    if a > 0 {
        lemma_pow10_sum((a - 1) as nat, b);
        assert(pow10(a) * pow10(b) == 10 * (pow10((a - 1) as nat) * pow10(b)))
            by (nonlinear_arith)
            requires
                pow10(a) == 10 * pow10((a - 1) as nat),
        ;
    } else {
        assert(pow10(a) * pow10(b) == pow10(b)) by (nonlinear_arith)
            requires
                pow10(a) == 1,
        ;
    }
}

/// Reading the text of a quantity gives the quantity back: what
/// [`Decimal::to_text`] writes, [`Decimal::parse`] reads as the same count
/// of millionths.
pub proof fn lemma_text_round_trip(units: nat)
    ensures
        decimal_units(units_text(units)) == Some(units),
{
    reveal_with_fuel(pow10, 8);
    let whole = nat_text(units / 1_000_000);
    let frac = units % 1_000_000;
    lemma_nat_text(units / 1_000_000);
    if frac == 0 {
        lemma_digit_run_of_concat(whole, Seq::empty());
        assert(whole + Seq::<char>::empty() =~= whole);
        assert(whole.take(whole.len() as int) =~= whole);
    } else {
        lemma_fraction_text(frac, 6);
        let digits = fraction_text(frac, 100_000);
        let tail = seq!['.'] + digits;
        let text = units_text(units);
        assert(text =~= whole + tail);
        lemma_digit_run_of_concat(whole, tail);
        assert(text.take(whole.len() as int) =~= whole);
        assert(text[whole.len() as int] == '.');
        assert(text.skip(whole.len() as int + 1) =~= digits);
    }
}

} // verus!
