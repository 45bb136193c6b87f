//! Runtime numbers, carried as IEEE 754 double-precision bit patterns.
//!
//! The language's numbers are 64-bit binary floating-point values. Verified
//! code never holds one directly: a number is its bit pattern, a `u64`. The
//! primitive operations (arithmetic, comparison, decimal conversion) are
//! trusted wrappers around `rustc_apfloat`, a deterministic software
//! implementation of IEEE 754; each wrapper's result is given a name, an
//! uninterpreted spec function of the operand bits, and everything built on
//! top speaks of those names.

use rustc_apfloat::ieee::Double;
use rustc_apfloat::Float;
use vstd::prelude::*;

verus! {

/// Bit pattern of the number 0.0.
pub const NUM_ZERO: u64 = 0;

/// Bit pattern of the number 1.0.
pub const NUM_ONE: u64 = 0x3FF0_0000_0000_0000;

/// The sum of the two doubles these bit patterns encode.
pub uninterp spec fn add_bits(a: u64, b: u64) -> u64;

/// The difference of the two doubles these bit patterns encode.
pub uninterp spec fn sub_bits(a: u64, b: u64) -> u64;

/// The product of the two doubles these bit patterns encode.
pub uninterp spec fn mul_bits(a: u64, b: u64) -> u64;

/// The quotient of the two doubles these bit patterns encode.
pub uninterp spec fn div_bits(a: u64, b: u64) -> u64;

/// The negation of the double this bit pattern encodes.
pub uninterp spec fn neg_bits(a: u64) -> u64;

/// Whether the two doubles these bit patterns encode compare equal
/// (IEEE equality: a NaN is unequal to everything, and 0.0 equals -0.0).
pub uninterp spec fn eq_bits(a: u64, b: u64) -> bool;

/// Whether the first double compares strictly less than the second.
pub uninterp spec fn lt_bits(a: u64, b: u64) -> bool;

/// Whether the first double compares less than or equal to the second.
pub uninterp spec fn le_bits(a: u64, b: u64) -> bool;

/// The double this decimal text parses to, as bits; `None` where the text is
/// not a well-formed numeral.
pub uninterp spec fn parsed_bits(s: Seq<char>) -> Option<u64>;

/// The decimal rendering of the double these bits encode, printed with at
/// most `precision` significant digits, falling back to scientific notation
/// only when more than `width` zeros would have to be inserted.
pub uninterp spec fn rendered_bits(b: u64, precision: usize, width: usize) -> Seq<char>;

/// Relies on `rustc_apfloat::ieee::Double` addition (round to nearest, ties
/// to even): a deterministic function of the operand bit patterns.
#[verifier::external_body]
pub fn num_add(a: u64, b: u64) -> (r: u64)
    ensures
        r == add_bits(a, b),
{
    let x = Double::from_bits(a as u128);
    let y = Double::from_bits(b as u128);
    (x + y).value.to_bits() as u64
}

/// Relies on `rustc_apfloat::ieee::Double` subtraction; stated as for `num_add`.
#[verifier::external_body]
pub fn num_sub(a: u64, b: u64) -> (r: u64)
    ensures
        r == sub_bits(a, b),
{
    let x = Double::from_bits(a as u128);
    let y = Double::from_bits(b as u128);
    (x - y).value.to_bits() as u64
}

/// Relies on `rustc_apfloat::ieee::Double` multiplication; stated as for `num_add`.
#[verifier::external_body]
pub fn num_mul(a: u64, b: u64) -> (r: u64)
    ensures
        r == mul_bits(a, b),
{
    let x = Double::from_bits(a as u128);
    let y = Double::from_bits(b as u128);
    (x * y).value.to_bits() as u64
}

/// Relies on `rustc_apfloat::ieee::Double` division (total: a zero divisor
/// yields an infinity or NaN); stated as for `num_add`.
#[verifier::external_body]
pub fn num_div(a: u64, b: u64) -> (r: u64)
    ensures
        r == div_bits(a, b),
{
    let x = Double::from_bits(a as u128);
    let y = Double::from_bits(b as u128);
    (x / y).value.to_bits() as u64
}

/// Relies on `rustc_apfloat::ieee::Double` negation (a sign-bit flip).
#[verifier::external_body]
pub fn num_neg(a: u64) -> (r: u64)
    ensures
        r == neg_bits(a),
{
    (-Double::from_bits(a as u128)).to_bits() as u64
}

/// Relies on `Double::partial_cmp`, IEEE ordering:
/// deterministic in the operand bit patterns.
#[verifier::external_body]
pub fn num_eq(a: u64, b: u64) -> (r: bool)
    ensures
        r == eq_bits(a, b),
{
    let x = Double::from_bits(a as u128);
    let y = Double::from_bits(b as u128);
    x == y
}

/// Relies on `Double::partial_cmp`; stated as for `num_eq`.
#[verifier::external_body]
pub fn num_lt(a: u64, b: u64) -> (r: bool)
    ensures
        r == lt_bits(a, b),
{
    let x = Double::from_bits(a as u128);
    let y = Double::from_bits(b as u128);
    x < y
}

/// Relies on `Double::partial_cmp`; stated as for `num_eq`.
#[verifier::external_body]
pub fn num_le(a: u64, b: u64) -> (r: bool)
    ensures
        r == le_bits(a, b),
{
    let x = Double::from_bits(a as u128);
    let y = Double::from_bits(b as u128);
    x <= y
}

/// Relies on `Double::from_str` (round to nearest, ties
/// to even): a deterministic decimal-to-double conversion that fails on
/// malformed text and never panics.
#[verifier::external_body]
pub fn num_parse(s: &str) -> (r: Option<u64>)
    ensures
        r == parsed_bits(s@),
{
    match s.parse::<Double>() {
        Ok(d) => Some(d.to_bits() as u64),
        Err(_) => None,
    }
}

/// Relies on the `Display` impl of `rustc_apfloat::ieee::Double`: a
/// deterministic decimal rendering of the given bit pattern, where the
/// formatter's precision bounds the significant digits and its width is the
/// number of zeros tolerated before scientific notation.
#[verifier::external_body]
pub fn num_render(b: u64, precision: usize, width: usize) -> (r: String)
    ensures
        r@ == rendered_bits(b, precision, width),
{
    format!("{:1$.2$}", Double::from_bits(b as u128), width, precision)
}

} // verus!

verus! {

/// The smallest digit count from `p` up (capped at 17, the digits always
/// sufficient for a double) whose rendering parses back to exactly `b`.
pub open spec fn chosen_precision(b: u64, p: int) -> int
    decreases 18 - p,
{
    if p < 1 {
        chosen_precision(b, 1)
    } else if p >= 17 {
        17
    } else if parsed_bits(rendered_bits(b, p as usize, 400)) == Some(b) {
        p
    } else {
        chosen_precision(b, p + 1)
    }
}

/// The decimal text the language prints for the double `b` encodes: the
/// shortest rendering that parses back to the same bits, scientific notation
/// avoided for every double (400 zeros always suffice), and the infinities
/// spelled `inf` and `-inf`.
pub open spec fn spec_render_number(b: u64) -> Seq<char> {
    let t = rendered_bits(b, chosen_precision(b, 1) as usize, 400);
    if t == "+Inf"@ {
        "inf"@
    } else if t == "-Inf"@ {
        "-inf"@
    } else {
        t
    }
}

/// Renders a number the way `print` shows it.
pub fn render_number(b: u64) -> (r: String)
    ensures
        r@ == spec_render_number(b),
{
    let mut p: usize = 1;
    loop
        invariant
            1 <= p <= 17,
            chosen_precision(b, 1) == chosen_precision(b, p as int),
        ensures
            1 <= p <= 17,
            p as int == chosen_precision(b, 1),
        decreases 17 - p,
    {
        if p >= 17 {
            proof {
                assert(chosen_precision(b, p as int) == 17);
            }
            break ;
        }
        let t = num_render(b, p, 400);
        let roundtrip = num_parse(t.as_str());
        match roundtrip {
            Some(back) if back == b => {
                proof {
                    assert(chosen_precision(b, p as int) == p as int);
                }
                break ;
            },
            _ => {
                proof {
                    assert(parsed_bits(rendered_bits(b, p as usize, 400)) != Some(b));
                }
                p = p + 1;
            },
        }
    }
    let t = num_render(b, p, 400);
    if t == "+Inf".to_owned() {
        "inf".to_owned()
    } else if t == "-Inf".to_owned() {
        "-inf".to_owned()
    } else {
        t
    }
}

} // verus!
