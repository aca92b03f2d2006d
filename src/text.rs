//! Decimal text of counts and speeds.

use vstd::prelude::*;
use vstd::string::*;

verus! {

/// The character of the decimal digit `d`.
pub open spec fn digit_char(d: nat) -> char {
    if d < 10 {
        (48 + d) as u8 as char
    } else {
        '?'
    }
}

/// The decimal text of `n`, without leading zeros.
pub open spec fn decimal_of(n: nat) -> Seq<char>
    decreases n,
{
    if n < 10 {
        seq![digit_char(n)]
    } else {
        decimal_of(n / 10).push(digit_char(n % 10))
    }
}

fn digit_str(d: u64) -> (r: &'static str)
    requires
        d < 10,
    ensures
        r@ == seq![digit_char(d as nat)],
{
    proof {
        reveal_strlit("0");
        reveal_strlit("1");
        reveal_strlit("2");
        reveal_strlit("3");
        reveal_strlit("4");
        reveal_strlit("5");
        reveal_strlit("6");
        reveal_strlit("7");
        reveal_strlit("8");
        reveal_strlit("9");
    }
    let r = if d == 0 {
        "0"
    } else if d == 1 {
        "1"
    } else if d == 2 {
        "2"
    } else if d == 3 {
        "3"
    } else if d == 4 {
        "4"
    } else if d == 5 {
        "5"
    } else if d == 6 {
        "6"
    } else if d == 7 {
        "7"
    } else if d == 8 {
        "8"
    } else {
        "9"
    };
    assert(r@ =~= seq![digit_char(d as nat)]);
    r
}

/// Append the decimal text of `n` to `s`.
pub fn push_decimal(s: &mut String, n: u64)
    ensures
        final(s)@ == old(s)@ + decimal_of(n as nat),
    decreases n,
{
    if n >= 10 {
        push_decimal(s, n / 10);
    }
    s.append(digit_str(n % 10));
    assert(final(s)@ =~= old(s)@ + decimal_of(n as nat));
}

/// The decimal text of `n`.
pub fn decimal(n: u64) -> (r: String)
    ensures
        r@ == decimal_of(n as nat),
{
    let mut s = String::new();
    push_decimal(&mut s, n);
    assert(s@ =~= decimal_of(n as nat));
    s
}

/// `v / unit` in tenths, rounded to the nearest tenth, halves up.
pub open spec fn rounded_tenths(v: nat, unit: nat) -> nat {
    let d = unit / 10;
    v / d + (if 2 * (v % d) >= d {
        1nat
    } else {
        0nat
    })
}

/// `v / unit` with one decimal, then `suffix`.
pub open spec fn scaled_text(v: nat, unit: nat, suffix: char) -> Seq<char> {
    let t = rounded_tenths(v, unit);
    decimal_of(t / 10) + seq!['.', digit_char(t % 10), suffix]
}

/// The text of a speed: billions, millions or thousands with one decimal and
/// `B`, `M` or `K`; below a thousand, the plain number.
pub open spec fn speed_text(speed: nat) -> Seq<char> {
    if speed >= 1_000_000_000 {
        scaled_text(speed, 1_000_000_000, 'B')
    } else if speed >= 1_000_000 {
        scaled_text(speed, 1_000_000, 'M')
    } else if speed >= 1_000 {
        scaled_text(speed, 1_000, 'K')
    } else {
        decimal_of(speed)
    }
}

fn scaled(v: u64, unit: u64, suffix: &str) -> (r: String)
    requires
        unit == 1_000 || unit == 1_000_000 || unit == 1_000_000_000,
        suffix@.len() == 1,
    ensures
        r@ == scaled_text(v as nat, unit as nat, suffix@[0]),
{
    let d = unit / 10;
    assert(v / d < 0xffff_ffff_ffff_ffff) by (nonlinear_arith)
        requires
            d >= 100,
            v <= 0xffff_ffff_ffff_ffff,
    ;
    let t = v / d + if 2 * (v % d) >= d {
        1u64
    } else {
        0u64
    };
    proof {
        reveal_strlit(".");
    }
    let mut s = decimal(t / 10);
    s.append(".");
    s.append(digit_str(t % 10));
    s.append(suffix);
    assert(s@ =~= scaled_text(v as nat, unit as nat, suffix@[0]));
    s
}

/// Format speed for display.
pub fn format_speed(speed: u64) -> (r: String)
    ensures
        r@ == speed_text(speed as nat),
{
    proof {
        reveal_strlit("B");
        reveal_strlit("M");
        reveal_strlit("K");
    }
    if speed >= 1_000_000_000 {
        scaled(speed, 1_000_000_000, "B")
    } else if speed >= 1_000_000 {
        scaled(speed, 1_000_000, "M")
    } else if speed >= 1_000 {
        scaled(speed, 1_000, "K")
    } else {
        decimal(speed)
    }
}

} // verus!
