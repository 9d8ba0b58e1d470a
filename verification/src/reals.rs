//! Floating-point numbers as bit patterns.
//!
//! A double or a single is held as the integer that `to_bits` gives. Sign, magnitude and order
//! are read off that integer: among numbers that are not NaN, the value grows with the signed
//! magnitude.
use vstd::prelude::*;

verus! {

/// The first magnitude of a double that is not a finite number.
pub const DOUBLE_INFINITY: u64 = 0x7ff0_0000_0000_0000;

/// The bit of a double that holds its sign.
pub const DOUBLE_SIGN: u64 = 0x8000_0000_0000_0000;

/// The first magnitude of a single that is not a finite number.
pub const SINGLE_INFINITY: u32 = 0x7f80_0000;

/// The bit of a single that holds its sign.
pub const SINGLE_SIGN: u32 = 0x8000_0000;

/// The bits of a double without its sign.
pub open spec fn double_magnitude(bits: u64) -> int {
    if bits >= DOUBLE_SIGN {
        bits - DOUBLE_SIGN
    } else {
        bits as int
    }
}

/// The signed magnitude of a double; both zeros have zero.
pub open spec fn double_key(bits: u64) -> int {
    if bits >= DOUBLE_SIGN {
        -double_magnitude(bits)
    } else {
        double_magnitude(bits)
    }
}

/// Tells whether a double is neither infinite nor NaN.
pub open spec fn double_finite(bits: u64) -> bool {
    double_magnitude(bits) < DOUBLE_INFINITY
}

/// Tells whether a double is NaN.
pub open spec fn double_nan(bits: u64) -> bool {
    double_magnitude(bits) > DOUBLE_INFINITY
}

/// `a < b` of two doubles.
pub open spec fn double_less(a: u64, b: u64) -> bool {
    !double_nan(a) && !double_nan(b) && double_key(a) < double_key(b)
}

/// `a == b` of two doubles.
pub open spec fn double_equal(a: u64, b: u64) -> bool {
    !double_nan(a) && !double_nan(b) && double_key(a) == double_key(b)
}

/// The bits of a single without its sign.
pub open spec fn single_magnitude(bits: u32) -> int {
    if bits >= SINGLE_SIGN {
        bits - SINGLE_SIGN
    } else {
        bits as int
    }
}

/// The signed magnitude of a single; both zeros have zero.
pub open spec fn single_key(bits: u32) -> int {
    if bits >= SINGLE_SIGN {
        -single_magnitude(bits)
    } else {
        single_magnitude(bits)
    }
}

/// Tells whether a single is neither infinite nor NaN.
pub open spec fn single_finite(bits: u32) -> bool {
    single_magnitude(bits) < SINGLE_INFINITY
}

/// Tells whether a single is NaN.
pub open spec fn single_nan(bits: u32) -> bool {
    single_magnitude(bits) > SINGLE_INFINITY
}

/// `a < b` of two singles.
pub open spec fn single_less(a: u32, b: u32) -> bool {
    !single_nan(a) && !single_nan(b) && single_key(a) < single_key(b)
}

/// `a <= b` of two singles.
pub open spec fn single_at_most(a: u32, b: u32) -> bool {
    !single_nan(a) && !single_nan(b) && single_key(a) <= single_key(b)
}

/// `a == b` of two singles.
pub open spec fn single_equal(a: u32, b: u32) -> bool {
    !single_nan(a) && !single_nan(b) && single_key(a) == single_key(b)
}

fn magnitude_of_double(bits: u64) -> (r: u64)
    ensures
        r == double_magnitude(bits),
{
    if bits >= DOUBLE_SIGN {
        bits - DOUBLE_SIGN
    } else {
        bits
    }
}

fn key_of_double(bits: u64) -> (r: i128)
    ensures
        r == double_key(bits),
{
    let magnitude: u64 = magnitude_of_double(bits);
    if bits >= DOUBLE_SIGN {
        -(magnitude as i128)
    } else {
        magnitude as i128
    }
}

fn magnitude_of_single(bits: u32) -> (r: u32)
    ensures
        r == single_magnitude(bits),
{
    if bits >= SINGLE_SIGN {
        bits - SINGLE_SIGN
    } else {
        bits
    }
}

fn key_of_single(bits: u32) -> (r: i64)
    ensures
        r == single_key(bits),
{
    let magnitude: u32 = magnitude_of_single(bits);
    if bits >= SINGLE_SIGN {
        -(magnitude as i64)
    } else {
        magnitude as i64
    }
}

/// Tells whether a double is neither infinite nor NaN.
pub fn is_finite_double(bits: u64) -> (r: bool)
    ensures
        r == double_finite(bits),
{
    magnitude_of_double(bits) < DOUBLE_INFINITY
}

/// Tells whether a double is above zero.
pub fn is_positive_double(bits: u64) -> (r: bool)
    ensures
        r == double_less(0, bits),
{
    magnitude_of_double(bits) <= DOUBLE_INFINITY && key_of_double(bits) > 0
}

/// `a < b` of two doubles.
pub fn less_double(a: u64, b: u64) -> (r: bool)
    ensures
        r == double_less(a, b),
{
    magnitude_of_double(a) <= DOUBLE_INFINITY && magnitude_of_double(b) <= DOUBLE_INFINITY
        && key_of_double(a) < key_of_double(b)
}

/// `a == b` of two doubles.
pub fn equal_double(a: u64, b: u64) -> (r: bool)
    ensures
        r == double_equal(a, b),
{
    magnitude_of_double(a) <= DOUBLE_INFINITY && magnitude_of_double(b) <= DOUBLE_INFINITY
        && key_of_double(a) == key_of_double(b)
}

/// Tells whether a single is neither infinite nor NaN.
pub fn is_finite_single(bits: u32) -> (r: bool)
    ensures
        r == single_finite(bits),
{
    magnitude_of_single(bits) < SINGLE_INFINITY
}

/// `a < b` of two singles.
pub fn less_single(a: u32, b: u32) -> (r: bool)
    ensures
        r == single_less(a, b),
{
    magnitude_of_single(a) <= SINGLE_INFINITY && magnitude_of_single(b) <= SINGLE_INFINITY
        && key_of_single(a) < key_of_single(b)
}

/// `a <= b` of two singles.
pub fn at_most_single(a: u32, b: u32) -> (r: bool)
    ensures
        r == single_at_most(a, b),
{
    magnitude_of_single(a) <= SINGLE_INFINITY && magnitude_of_single(b) <= SINGLE_INFINITY
        && key_of_single(a) <= key_of_single(b)
}

/// `a == b` of two singles.
pub fn equal_single(a: u32, b: u32) -> (r: bool)
    ensures
        r == single_equal(a, b),
{
    magnitude_of_single(a) <= SINGLE_INFINITY && magnitude_of_single(b) <= SINGLE_INFINITY
        && key_of_single(a) == key_of_single(b)
}

/// Tells whether a single is NaN.
pub fn is_nan_single(bits: u32) -> (r: bool)
    ensures
        r == single_nan(bits),
{
    magnitude_of_single(bits) > SINGLE_INFINITY
}

/// Law: of two doubles that are not NaN exactly one is less, or they are equal.
pub proof fn law_double_order_total(a: u64, b: u64)
    requires
        !double_nan(a),
        !double_nan(b),
    ensures
        double_less(a, b) || double_equal(a, b) || double_less(b, a),
        !(double_less(a, b) && double_equal(a, b)),
        !(double_less(a, b) && double_less(b, a)),
        !(double_equal(a, b) && double_less(b, a)),
{
}

/// The value of a magnitude, counted in the least value above zero. The magnitude holds an exponent
/// above as many bits of a fraction as `unit` has values: with exponent zero the fraction counts as
/// it is, and from there on it has a leading one and doubles with each exponent.
pub open spec fn magnitude_value(magnitude: int, unit: int) -> int {
    let exponent = magnitude / unit;
    let fraction = magnitude % unit;
    if exponent <= 0 {
        fraction
    } else {
        (unit + fraction) * vstd::arithmetic::power2::pow2((exponent - 1) as nat)
    }
}

/// The value of a finite double, counted in the least double above zero.
pub open spec fn double_value(bits: u64) -> int {
    if bits < 0x8000_0000_0000_0000 {
        magnitude_value(bits as int, 0x10_0000_0000_0000)
    } else {
        -magnitude_value(bits - 0x8000_0000_0000_0000, 0x10_0000_0000_0000)
    }
}

/// The value of a finite single, counted in the least single above zero.
pub open spec fn single_value(bits: u32) -> int {
    if bits < 0x8000_0000 {
        magnitude_value(bits as int, 0x80_0000)
    } else {
        -magnitude_value(bits - 0x8000_0000, 0x80_0000)
    }
}

proof fn lemma_magnitude_value(a: int, b: int, unit: int)
    requires
        0 <= a < b,
        0 < unit,
    ensures
        0 <= magnitude_value(a, unit) < magnitude_value(b, unit),
{
    let e = a / unit;
    let m = a % unit;
    let f = b / unit;
    let n = b % unit;
    vstd::arithmetic::div_mod::lemma_fundamental_div_mod(a, unit);
    vstd::arithmetic::div_mod::lemma_fundamental_div_mod(b, unit);
    assert(0 <= e <= f) by (nonlinear_arith)
        requires
            a == unit * e + m,
            b == unit * f + n,
            0 <= m < unit,
            0 <= n < unit,
            0 <= a < b,
    ;
    if e == f {
        assert(m < n) by (nonlinear_arith)
            requires
                a == unit * e + m,
                b == unit * f + n,
                e == f,
                a < b,
        ;
        if e > 0 {
            let p = vstd::arithmetic::power2::pow2((e - 1) as nat) as int;
            vstd::arithmetic::power2::lemma_pow2_pos((e - 1) as nat);
            assert(0 <= (unit + m) * p < (unit + n) * p) by (nonlinear_arith)
                requires
                    0 <= m < n,
                    0 < unit,
                    0 < p,
            ;
        }
    } else {
        let q = vstd::arithmetic::power2::pow2((f - 1) as nat) as int;
        vstd::arithmetic::power2::lemma_pow2_pos((f - 1) as nat);
        assert((unit + n) * q >= unit * q) by (nonlinear_arith)
            requires
                0 <= n,
                0 < unit,
                0 < q,
        ;
        if e == 0 {
            assert(unit * q >= unit) by (nonlinear_arith)
                requires
                    0 < unit,
                    0 < q,
            ;
        } else {
            let p = vstd::arithmetic::power2::pow2((e - 1) as nat) as int;
            vstd::arithmetic::power2::lemma_pow2_pos((e - 1) as nat);
            vstd::arithmetic::power2::lemma_pow2_unfold(e as nat);
            if e < f - 1 {
                vstd::arithmetic::power2::lemma_pow2_strictly_increases(e as nat, (f - 1) as nat);
            }
            assert(0 <= (unit + m) * p < unit * q) by (nonlinear_arith)
                requires
                    0 <= m < unit,
                    0 < p,
                    2 * p <= q,
            ;
        }
    }
}

proof fn lemma_magnitude_zero(a: int, unit: int)
    requires
        0 < unit,
    ensures
        magnitude_value(0, unit) == 0,
        a > 0 ==> magnitude_value(a, unit) > 0,
{
    vstd::arithmetic::div_mod::lemma_basic_div(0, unit);
    vstd::arithmetic::div_mod::lemma_small_mod(0, unit as nat);
    if a > 0 {
        lemma_magnitude_value(0, a, unit);
    }
}

/// Law: finite doubles are ordered by their values, and are equal exactly where their values are.
/// NaN is neither less than nor equal to anything, and the infinities lie beyond all finite doubles.
pub proof fn law_doubles_are_ordered_by_value(a: u64, b: u64)
    ensures
        double_finite(a) && double_finite(b) ==> (double_less(a, b) <==> double_value(a)
            < double_value(b)),
        double_finite(a) && double_finite(b) ==> (double_equal(a, b) <==> double_value(a)
            == double_value(b)),
        double_finite(a) <==> (a % 0x8000_0000_0000_0000) / 0x10_0000_0000_0000 != 0x7ff,
        double_nan(a) <==> (a % 0x8000_0000_0000_0000) / 0x10_0000_0000_0000 == 0x7ff && a
            % 0x10_0000_0000_0000 != 0,
        double_nan(a) ==> !double_less(a, b) && !double_less(b, a) && !double_equal(a, b),
        double_finite(a) ==> double_less(a, 0x7ff0_0000_0000_0000) && double_less(
            0xfff0_0000_0000_0000,
            a,
        ),
{
    let unit: int = 0x10_0000_0000_0000;
    let ma = double_magnitude(a);
    let mb = double_magnitude(b);
    lemma_magnitude_zero(ma, unit);
    lemma_magnitude_zero(mb, unit);
    if ma < mb {
        lemma_magnitude_value(ma, mb, unit);
    }
    if mb < ma {
        lemma_magnitude_value(mb, ma, unit);
    }
}

/// Law: finite singles are ordered by their values, and are equal exactly where their values are.
/// NaN is neither less than nor equal to anything, and the infinities lie beyond all finite singles.
pub proof fn law_singles_are_ordered_by_value(a: u32, b: u32)
    ensures
        single_finite(a) && single_finite(b) ==> (single_less(a, b) <==> single_value(a)
            < single_value(b)),
        single_finite(a) && single_finite(b) ==> (single_at_most(a, b) <==> single_value(a)
            <= single_value(b)),
        single_finite(a) && single_finite(b) ==> (single_equal(a, b) <==> single_value(a)
            == single_value(b)),
        single_finite(a) <==> (a % 0x8000_0000) / 0x80_0000 != 0xff,
        single_nan(a) <==> (a % 0x8000_0000) / 0x80_0000 == 0xff && a % 0x80_0000 != 0,
        single_nan(a) ==> !single_less(a, b) && !single_less(b, a) && !single_at_most(a, b)
            && !single_at_most(b, a) && !single_equal(a, b),
        single_finite(a) ==> single_less(a, 0x7f80_0000) && single_less(0xff80_0000, a),
{
    let unit: int = 0x80_0000;
    let ma = single_magnitude(a);
    let mb = single_magnitude(b);
    lemma_magnitude_zero(ma, unit);
    lemma_magnitude_zero(mb, unit);
    if ma < mb {
        lemma_magnitude_value(ma, mb, unit);
    }
    if mb < ma {
        lemma_magnitude_value(mb, ma, unit);
    }
}

/// Law: the bits of zero, with either sign, have the value nothing.
pub proof fn law_zero_is_nothing()
    ensures
        double_value(0) == 0,
        double_value(0x8000_0000_0000_0000) == 0,
        single_value(0) == 0,
        single_value(0x8000_0000) == 0,
{
    lemma_magnitude_zero(0, 0x10_0000_0000_0000);
    lemma_magnitude_zero(0, 0x80_0000);
}

} // verus!
