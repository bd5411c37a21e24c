//! Decimal text of counts and of spans of time.

use crate::timing::Elapsed;
use vstd::prelude::*;
use vstd::string::StringExecFns;

verus! {

/// The character of the decimal digit `d`.
pub open spec fn digit_char(d: nat) -> char {
    if d == 0 {
        '0'
    } else if d == 1 {
        '1'
    } else if d == 2 {
        '2'
    } else if d == 3 {
        '3'
    } else if d == 4 {
        '4'
    } else if d == 5 {
        '5'
    } else if d == 6 {
        '6'
    } else if d == 7 {
        '7'
    } else if d == 8 {
        '8'
    } else {
        '9'
    }
}

/// The decimal numeral of `n`, without leading zeros.
pub open spec fn decimal_text(n: nat) -> Seq<char>
    decreases n,
{
    if n < 10 {
        seq![digit_char(n)]
    } else {
        decimal_text(n / 10).push(digit_char(n % 10))
    }
}

/// The last `width` decimal digits of `n`, with leading zeros.
pub open spec fn padded_text(n: nat, width: nat) -> Seq<char>
    decreases width,
{
    if width == 0 {
        Seq::empty()
    } else {
        padded_text(n / 10, (width - 1) as nat).push(digit_char(n % 10))
    }
}

/// The digits after the decimal point of `numerator / 10^width`, without
/// trailing zeros.
pub open spec fn fraction_text(numerator: nat, width: nat) -> Seq<char>
    decreases width,
{
    if width == 0 {
        Seq::empty()
    } else if numerator % 10 == 0 {
        fraction_text(numerator / 10, (width - 1) as nat)
    } else {
        padded_text(numerator, width)
    }
}

/// The numeral of `whole + numerator / 10^width`: the whole part and, where
/// the fraction is not zero, a point and the digits of the fraction.
pub open spec fn scaled_text(whole: nat, numerator: nat, width: nat) -> Seq<char> {
    if numerator == 0 {
        decimal_text(whole)
    } else {
        decimal_text(whole) + seq!['.'] + fraction_text(numerator, width)
    }
}

/// The text of a span of `nanos` nanoseconds: its exact value in the largest
/// of the units s, ms, µs and ns in which it is at least one (ns for the
/// empty span), followed by the unit.
pub open spec fn duration_text(nanos: nat) -> Seq<char> {
    if nanos >= 1_000_000_000 {
        scaled_text(nanos / 1_000_000_000, nanos % 1_000_000_000, 9) + "s"@
    } else if nanos >= 1_000_000 {
        scaled_text(nanos / 1_000_000, nanos % 1_000_000, 6) + "ms"@
    } else if nanos >= 1_000 {
        scaled_text(nanos / 1_000, nanos % 1_000, 3) + "µs"@
    } else {
        decimal_text(nanos) + "ns"@
    }
}

/// The one-character text of the digit `d`.
fn digit_str(d: u8) -> (text: &'static str)
    requires
        d < 10,
    ensures
        text@ == seq![digit_char(d as nat)],
{
    proof {
        reveal_strlit("0");
        reveal_strlit("1");
        reveal_strlit("2");
        reveal_strlit("3");
        reveal_strlit("4");
        reveal_strlit("5");
        reveal_strlit("6");
        reveal_strlit("7");
        reveal_strlit("8");
        reveal_strlit("9");
    }
    let text = if d == 0 {
        "0"
    } else if d == 1 {
        "1"
    } else if d == 2 {
        "2"
    } else if d == 3 {
        "3"
    } else if d == 4 {
        "4"
    } else if d == 5 {
        "5"
    } else if d == 6 {
        "6"
    } else if d == 7 {
        "7"
    } else if d == 8 {
        "8"
    } else {
        "9"
    };
    assert(text@ =~= seq![digit_char(d as nat)]);
    text
}

/// Appends the decimal numeral of `n` to `out`.
pub fn push_decimal(out: &mut String, n: u128)
    ensures
        final(out)@ == old(out)@ + decimal_text(n as nat),
    decreases n,
{
    if n >= 10 {
        push_decimal(out, n / 10);
    }
    let digit: u8 = (n % 10) as u8;
    out.append(digit_str(digit));
    assert(out@ =~= old(out)@ + decimal_text(n as nat));
}

/// Appends the last `width` decimal digits of `n` to `out`.
fn push_padded(out: &mut String, n: u32, width: u8)
    ensures
        final(out)@ == old(out)@ + padded_text(n as nat, width as nat),
    decreases width,
{
    if width > 0 {
        push_padded(out, n / 10, width - 1);
        let digit: u8 = (n % 10) as u8;
        out.append(digit_str(digit));
    }
    assert(out@ =~= old(out)@ + padded_text(n as nat, width as nat));
}

/// Appends the fraction digits of `numerator / 10^width` to `out`.
fn push_fraction(out: &mut String, numerator: u32, width: u8)
    ensures
        final(out)@ == old(out)@ + fraction_text(numerator as nat, width as nat),
    decreases width,
{
    if width == 0 {
        assert(out@ =~= old(out)@ + fraction_text(numerator as nat, width as nat));
    } else if numerator % 10 == 0 {
        push_fraction(out, numerator / 10, width - 1);
    } else {
        push_padded(out, numerator, width);
    }
}

/// Appends the numeral of `whole + numerator / 10^width` to `out`.
fn push_scaled(out: &mut String, whole: u64, numerator: u32, width: u8)
    ensures
        final(out)@ == old(out)@ + scaled_text(whole as nat, numerator as nat, width as nat),
{
    push_decimal(out, whole as u128);
    if numerator != 0 {
        out.append(".");
        proof {
            reveal_strlit(".");
            assert("."@ =~= seq!['.']);
        }
        push_fraction(out, numerator, width);
    }
    assert(out@ =~= old(out)@ + scaled_text(whole as nat, numerator as nat, width as nat));
}

/// Appends the text of `span` to `out`.
pub fn push_duration(out: &mut String, span: &Elapsed)
    ensures
        final(out)@ == old(out)@ + duration_text(span.total_nanos()),
{
    let secs: u64 = span.as_secs();
    let nanos: u32 = span.subsec_nanos();
    let ghost total = span.total_nanos();
    proof {
        assert(total == secs * 1_000_000_000 + nanos) by (nonlinear_arith)
            requires
                secs == total / 1_000_000_000,
                nanos == total % 1_000_000_000,
        ;
    }
    if secs > 0 {
        push_scaled(out, secs, nanos, 9);
        out.append("s");
    } else if nanos >= 1_000_000 {
        push_scaled(out, (nanos / 1_000_000) as u64, nanos % 1_000_000, 6);
        out.append("ms");
    } else if nanos >= 1_000 {
        push_scaled(out, (nanos / 1_000) as u64, nanos % 1_000, 3);
        out.append("µs");
    } else {
        push_decimal(out, nanos as u128);
        out.append("ns");
    }
    assert(out@ =~= old(out)@ + duration_text(total));
}

/// The decimal numeral of `n`.
pub fn decimal_string(n: usize) -> (text: String)
    ensures
        text@ == decimal_text(n as nat),
{
    let mut text = String::new();
    push_decimal(&mut text, n as u128);
    assert(text@ =~= decimal_text(n as nat));
    text
}

/// The text of a span of time.
pub fn duration_string(span: &Elapsed) -> (text: String)
    ensures
        text@ == duration_text(span.total_nanos()),
{
    let mut text = String::new();
    push_duration(&mut text, span);
    assert(text@ =~= duration_text(span.total_nanos()));
    text
}

} // verus!
