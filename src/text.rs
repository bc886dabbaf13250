use vstd::prelude::*;
use vstd::string::StringExecFns;

use crate::fixed::{abs, UNIT};

verus! {

/// The decimal digit for `d < 10`.
pub open spec fn digit_char(d: nat) -> char {
    if d == 0 {
        '0'
    } else if d == 1 {
        '1'
    } else if d == 2 {
        '2'
    } else if d == 3 {
        '3'
    } else if d == 4 {
        '4'
    } else if d == 5 {
        '5'
    } else if d == 6 {
        '6'
    } else if d == 7 {
        '7'
    } else if d == 8 {
        '8'
    } else {
        '9'
    }
}

/// Decimal digits of `n`, most significant first, without leading zeros.
pub open spec fn digits(n: nat) -> Seq<char>
    decreases n,
{
    if n < 10 {
        seq![digit_char(n)]
    } else {
        digits(n / 10).push(digit_char(n % 10))
    }
}

/// The last `width` decimal digits of `n`, padded with zeros on the left.
pub open spec fn padded_digits(n: nat, width: nat) -> Seq<char>
    decreases width,
{
    if width == 0 {
        Seq::empty()
    } else {
        padded_digits(n / 10, (width - 1) as nat).push(digit_char(n % 10))
    }
}

/// `10` to the power `d`.
pub open spec fn pow10(d: nat) -> nat
    decreases d,
{
    if d == 0 {
        1
    } else {
        10 * pow10((d - 1) as nat)
    }
}

/// Number of decimals shown on tick labels: none for ticks at least a unit
/// apart, one for ticks at least a tenth apart, two below that.
pub open spec fn decimals_for(tick_spacing: int) -> nat {
    if tick_spacing >= UNIT {
        0
    } else if tick_spacing >= UNIT / 10 {
        1
    } else {
        2
    }
}

/// Magnitude of the fixed-point `value` in steps of `10^-decimals`, rounded
/// to the nearest step, halves away from zero.
pub open spec fn rounded_steps(value: int, decimals: nat) -> nat
    recommends
        decimals <= 6,
{
    let step = pow10((6 - decimals) as nat);
    ((abs(value) + step / 2) / (step as int)) as nat
}

/// The fixed-point `value` written with `decimals` decimals: a minus sign for
/// a negative value, the integer part, then a point and the fraction digits
/// when there are any.
pub open spec fn decimal_text(value: int, decimals: nat) -> Seq<char> {
    let m = rounded_steps(value, decimals);
    let sign = if value < 0 {
        seq!['-']
    } else {
        Seq::empty()
    };
    let fraction = if decimals == 0 {
        Seq::empty()
    } else {
        seq!['.'] + padded_digits(m % pow10(decimals), decimals)
    };
    sign + digits(m / pow10(decimals)) + fraction
}

/// The text of a tick label at `value` for ticks `tick_spacing` apart.
pub open spec fn label_text_of(value: int, tick_spacing: int) -> Seq<char> {
    decimal_text(value, decimals_for(tick_spacing))
}

fn digit_str(d: u64) -> (r: &'static str)
    requires
        d < 10,
    ensures
        r@ == seq![digit_char(d as nat)],
{
    proof {
        reveal_strlit("0");
        reveal_strlit("1");
        reveal_strlit("2");
        reveal_strlit("3");
        reveal_strlit("4");
        reveal_strlit("5");
        reveal_strlit("6");
        reveal_strlit("7");
        reveal_strlit("8");
        reveal_strlit("9");
    }
    if d == 0 {
        "0"
    } else if d == 1 {
        "1"
    } else if d == 2 {
        "2"
    } else if d == 3 {
        "3"
    } else if d == 4 {
        "4"
    } else if d == 5 {
        "5"
    } else if d == 6 {
        "6"
    } else if d == 7 {
        "7"
    } else if d == 8 {
        "8"
    } else {
        "9"
    }
}

/// Appends the decimal digits of `n`.
pub fn push_digits(s: &mut String, n: u64)
    ensures
        final(s)@ == old(s)@ + digits(n as nat),
    decreases n,
{
    if n >= 10 {
        push_digits(s, n / 10);
    }
    s.append(digit_str(n % 10));
    assert(final(s)@ =~= old(s)@ + digits(n as nat));
}

/// Appends the last `width` decimal digits of `n`, padded with zeros.
pub fn push_padded_digits(s: &mut String, n: u64, width: u64)
    ensures
        final(s)@ == old(s)@ + padded_digits(n as nat, width as nat),
    decreases width,
{
    if width > 0 {
        push_padded_digits(s, n / 10, width - 1);
        s.append(digit_str(n % 10));
        assert(final(s)@ =~= old(s)@ + padded_digits(n as nat, width as nat));
    } else {
        assert(final(s)@ =~= old(s)@ + padded_digits(n as nat, width as nat));
    }
}

/// `prefix` followed by the decimal digits of `n`, as used for object ids.
pub fn numbered(prefix: &str, n: u32) -> (r: String)
    ensures
        r@ == prefix@ + digits(n as nat),
{
    let mut s = String::from_str(prefix);
    push_digits(&mut s, n as u64);
    s
}

/// Text of a tick label: the value with as many decimals as the tick
/// spacing calls for.
pub fn label_text(value: i64, tick_spacing: i64) -> (r: String)
    ensures
        r@ == label_text_of(value as int, tick_spacing as int),
{
    let decimals: u64 = if tick_spacing >= UNIT {
        0
    } else if tick_spacing >= UNIT / 10 {
        1
    } else {
        2
    };
    let step: u64 = if decimals == 0 {
        1_000_000
    } else if decimals == 1 {
        100_000
    } else {
        10_000
    };
    let scale: u64 = if decimals == 0 {
        1
    } else if decimals == 1 {
        10
    } else {
        100
    };
    proof {
        reveal_with_fuel(pow10, 7);
    }
    assert(step as nat == pow10((6 - decimals) as nat));
    assert(scale as nat == pow10(decimals as nat));
    let magnitude: u64 = if value < 0 {
        (-(value as i128)) as u64
    } else {
        value as u64
    };
    let m: u64 = ((magnitude as u128 + (step / 2) as u128) / step as u128) as u64;
    assert(m as nat == rounded_steps(value as int, decimals as nat));
    let mut s = String::new();
    if value < 0 {
        proof {
            reveal_strlit("-");
        }
        s.append("-");
    }
    push_digits(&mut s, m / scale);
    if decimals > 0 {
        proof {
            reveal_strlit(".");
        }
        s.append(".");
        push_padded_digits(&mut s, m % scale, decimals);
    }
    assert(s@ =~= label_text_of(value as int, tick_spacing as int));
    s
}

} // verus!
