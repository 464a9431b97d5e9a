use vstd::prelude::*;
use rustc_apfloat::Float;
use rustc_apfloat::ieee::Double;

verus! {

// The engine stores IEEE-754 double-precision values by their 64-bit
// patterns. Ordering of such patterns is plain bit logic and is defined
// and executed here directly; rounding arithmetic (addition, conversion
// from and to integers) goes through rustc_apfloat, a software IEEE-754
// implementation whose default rounding (to nearest, ties to even)
// matches the hardware default.

/// The exponent field is all ones and the fraction is non-zero.
pub open spec fn spec_f64_is_nan(a: u64) -> bool {
    (a >> 52) & 0x7ff == 0x7ff && a & 0xf_ffff_ffff_ffff != 0
}

/// The sign bit is set.
pub open spec fn spec_f64_is_neg(a: u64) -> bool {
    a >> 63 == 1
}

/// Magnitude: the bit pattern without its sign bit. For non-NaN values
/// of one sign, the IEEE-754 order agrees with the integer order of the
/// magnitudes.
pub open spec fn spec_f64_mag(a: u64) -> u64 {
    a & 0x7fff_ffff_ffff_ffff
}

/// IEEE-754 `>` over bit patterns: false whenever either side is NaN,
/// and +0 equals -0.
pub open spec fn spec_f64_gt(a: u64, b: u64) -> bool {
    &&& !spec_f64_is_nan(a)
    &&& !spec_f64_is_nan(b)
    &&& if !spec_f64_is_neg(a) && !spec_f64_is_neg(b) {
        spec_f64_mag(a) > spec_f64_mag(b)
    } else if spec_f64_is_neg(a) && spec_f64_is_neg(b) {
        spec_f64_mag(a) < spec_f64_mag(b)
    } else if !spec_f64_is_neg(a) {
        !(spec_f64_mag(a) == 0 && spec_f64_mag(b) == 0)
    } else {
        false
    }
}

/// IEEE-754 `<` over bit patterns.
pub open spec fn spec_f64_lt(a: u64, b: u64) -> bool {
    spec_f64_gt(b, a)
}

pub fn f64_bits_gt(a: u64, b: u64) -> (r: bool)
    ensures
        r == spec_f64_gt(a, b),
{
    let a_nan = (a >> 52) & 0x7ff == 0x7ff && a & 0xf_ffff_ffff_ffff != 0;
    let b_nan = (b >> 52) & 0x7ff == 0x7ff && b & 0xf_ffff_ffff_ffff != 0;
    if a_nan || b_nan {
        return false;
    }
    let a_neg = a >> 63 == 1;
    let b_neg = b >> 63 == 1;
    let a_mag = a & 0x7fff_ffff_ffff_ffff;
    let b_mag = b & 0x7fff_ffff_ffff_ffff;
    if !a_neg && !b_neg {
        a_mag > b_mag
    } else if a_neg && b_neg {
        a_mag < b_mag
    } else if !a_neg {
        !(a_mag == 0 && b_mag == 0)
    } else {
        false
    }
}

pub fn f64_bits_lt(a: u64, b: u64) -> (r: bool)
    ensures
        r == spec_f64_lt(a, b),
{
    f64_bits_gt(b, a)
}

/// The IEEE-754 double-precision sum of two bit patterns, rounded to
/// nearest with ties to even. A function of the two operands alone.
pub uninterp spec fn spec_f64_add(a: u64, b: u64) -> u64;

/// Relies on rustc_apfloat's IEEE-754 double addition (`add_r` with
/// round-to-nearest-ties-to-even, the same rounding hardware uses): the
/// sum depends on the operand bit patterns alone.
#[verifier::external_body]
pub fn f64_bits_add(a: u64, b: u64) -> (r: u64)
    ensures
        r == spec_f64_add(a, b),
{
    let sum = (Double::from_bits(a as u128) + Double::from_bits(b as u128)).value;
    sum.to_bits() as u64
}

/// The IEEE-754 double nearest to an `i64`, ties to even: the value a
/// Rust `as f64` cast of the integer produces. A function of the
/// integer alone.
pub uninterp spec fn spec_f64_of_i64(x: i64) -> u64;

/// Relies on rustc_apfloat's `Float::from_i128` (round to nearest, ties
/// to even): the result depends on the integer alone.
#[verifier::external_body]
pub fn f64_bits_of_i64(x: i64) -> (r: u64)
    ensures
        r == spec_f64_of_i64(x),
{
    Double::from_i128(x as i128).value.to_bits() as u64
}

/// The truncation of an IEEE-754 double toward zero into an `i64`,
/// saturating at the type's bounds, 0 for NaN: the value a Rust
/// `as i64` cast of the double produces. A function of the bit pattern
/// alone.
pub uninterp spec fn spec_f64_trunc_i64(a: u64) -> i64;

/// Relies on rustc_apfloat's `Float::to_i128` (round toward zero),
/// which saturates out-of-range values and maps NaN to zero: the result
/// depends on the bit pattern alone.
#[verifier::external_body]
pub fn f64_bits_trunc_i64(a: u64) -> (r: i64)
    ensures
        r == spec_f64_trunc_i64(a),
{
    Double::from_bits(a as u128).to_i128(64).value as i64
}

/// The decimal rendering of an IEEE-754 double bit pattern. A function
/// of the bit pattern alone.
pub uninterp spec fn spec_f64_render(a: u64) -> Seq<char>;

/// Relies on rustc_apfloat's `Display` for IEEE doubles: the rendering
/// depends on the bit pattern alone.
#[verifier::external_body]
pub fn f64_bits_render(a: u64) -> (r: String)
    ensures
        r@ == spec_f64_render(a),
{
    format!("{}", Double::from_bits(a as u128))
}

} // verus!
