//! Decimal rendering of the numeric values that argument payloads carry.
//!
//! Every rendering function is proved to produce exactly the character
//! sequence that its spec-level counterpart describes, so payload contracts
//! can speak about the precise text that reaches the target program.

use vstd::prelude::*;

verus! {

/// Number of fractional decimal digits carried by a scaled fixed-point value.
pub const FRACTION_DIGITS: u32 = 6;

/// Scale of fixed-point values: one unit is a millionth.
pub const FRACTION_SCALE: i64 = 1_000_000;

/// The decimal digit character for `d` (only the range 0 to 9 is meaningful).
pub open spec fn digit_char(d: nat) -> char {
    if d == 0 {
        '0'
    } else if d == 1 {
        '1'
    } else if d == 2 {
        '2'
    } else if d == 3 {
        '3'
    } else if d == 4 {
        '4'
    } else if d == 5 {
        '5'
    } else if d == 6 {
        '6'
    } else if d == 7 {
        '7'
    } else if d == 8 {
        '8'
    } else {
        '9'
    }
}

/// Decimal text of a natural number, most significant digit first.
pub open spec fn dec_text(n: nat) -> Seq<char>
    decreases n,
{
    if n < 10 {
        seq![digit_char(n)]
    } else {
        dec_text(n / 10).push(digit_char(n % 10))
    }
}

/// Decimal text of an integer: a minus sign for negative values, then the
/// decimal text of the magnitude.
pub open spec fn int_text(v: int) -> Seq<char> {
    if v < 0 {
        seq!['-'] + dec_text((-v) as nat)
    } else {
        dec_text(v as nat)
    }
}

/// Zero-padded decimal text of `n`, exactly `k` digits long (the `k` least
/// significant digits of `n`).
pub open spec fn padded_text(n: nat, k: nat) -> Seq<char>
    decreases k,
{
    if k == 0 {
        Seq::<char>::empty()
    } else {
        padded_text(n / 10, (k - 1) as nat).push(digit_char(n % 10))
    }
}

/// Decimal text of a fixed-point value scaled by [`FRACTION_SCALE`]:
/// sign, integer part, a point, and six fractional digits.
pub open spec fn fixed_text(v: int) -> Seq<char> {
    let magnitude = if v < 0 { -v } else { v };
    let whole = dec_text((magnitude / (FRACTION_SCALE as int)) as nat) + seq!['.'] + padded_text(
        (magnitude % (FRACTION_SCALE as int)) as nat,
        FRACTION_DIGITS as nat,
    );
    if v < 0 {
        seq!['-'] + whole
    } else {
        whole
    }
}

/// The one-character string for decimal digit `d`.
fn digit_str(d: u64) -> (s: &'static str)
    requires
        d < 10,
    ensures
        s@ == seq![digit_char(d as nat)],
{
    proof {
        reveal_strlit("0");
        reveal_strlit("1");
        reveal_strlit("2");
        reveal_strlit("3");
        reveal_strlit("4");
        reveal_strlit("5");
        reveal_strlit("6");
        reveal_strlit("7");
        reveal_strlit("8");
        reveal_strlit("9");
    }
    let s = if d == 0 {
        "0"
    } else if d == 1 {
        "1"
    } else if d == 2 {
        "2"
    } else if d == 3 {
        "3"
    } else if d == 4 {
        "4"
    } else if d == 5 {
        "5"
    } else if d == 6 {
        "6"
    } else if d == 7 {
        "7"
    } else if d == 8 {
        "8"
    } else {
        "9"
    };
    proof {
        assert(s@ =~= seq![digit_char(d as nat)]);
    }
    s
}

/// Renders `n` in decimal.
pub fn u64_text(n: u64) -> (s: String)
    ensures
        s@ == dec_text(n as nat),
    decreases n,
{
    if n < 10 {
        String::from_str(digit_str(n))
    } else {
        proof {
            vstd::arithmetic::div_mod::lemma_div_is_strictly_smaller(n as int, 10);
            vstd::arithmetic::div_mod::lemma_mod_bound(n as int, 10);
        }
        let head = u64_text(n / 10);
        let s = head.concat(digit_str(n % 10));
        proof {
            assert(s@ =~= dec_text(n as nat));
        }
        s
    }
}

/// Renders `v` in decimal, with a minus sign for negative values.
pub fn i64_text(v: i64) -> (s: String)
    ensures
        s@ == int_text(v as int),
{
    if v >= 0 {
        u64_text(v as u64)
    } else {
        let magnitude: u64 = (-(v as i128)) as u64;
        proof {
            reveal_strlit("-");
        }
        let s = String::from_str("-").concat(u64_text(magnitude).as_str());
        proof {
            assert(s@ =~= int_text(v as int));
        }
        s
    }
}

/// Renders `n` in decimal.
pub fn usize_text(n: usize) -> (s: String)
    ensures
        s@ == dec_text(n as nat),
{
    u64_text(n as u64)
}

/// Renders the `k` least significant decimal digits of `n`, zero padded.
fn padded_u64_text(n: u64, k: u32) -> (s: String)
    requires
        k <= 16,
    ensures
        s@ == padded_text(n as nat, k as nat),
    decreases k,
{
    if k == 0 {
        let s = String::new();
        proof {
            assert(s@ =~= padded_text(n as nat, 0));
        }
        s
    } else {
        proof {
            vstd::arithmetic::div_mod::lemma_mod_bound(n as int, 10);
        }
        let head = padded_u64_text(n / 10, k - 1);
        let s = head.concat(digit_str(n % 10));
        proof {
            assert(s@ =~= padded_text(n as nat, k as nat));
        }
        s
    }
}

/// Renders a fixed-point value scaled by [`FRACTION_SCALE`] as a decimal
/// number with six fractional digits.
pub fn fixed_point_text(v: i64) -> (s: String)
    ensures
        s@ == fixed_text(v as int),
{
    let magnitude: u64 = if v >= 0 {
        v as u64
    } else {
        (-(v as i128)) as u64
    };
    proof {
        vstd::arithmetic::div_mod::lemma_mod_bound(magnitude as int, FRACTION_SCALE as int);
        reveal_strlit(".");
        reveal_strlit("-");
    }
    let whole = u64_text(magnitude / (FRACTION_SCALE as u64));
    let frac = padded_u64_text(magnitude % (FRACTION_SCALE as u64), FRACTION_DIGITS);
    let body = whole.concat(".").concat(frac.as_str());
    let s = if v >= 0 {
        body
    } else {
        String::from_str("-").concat(body.as_str())
    };
    proof {
        assert(s@ =~= fixed_text(v as int));
    }
    s
}

} // verus!
