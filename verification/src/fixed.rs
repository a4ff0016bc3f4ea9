//! Fixed-point numbers with 32 fractional bits, held in `i64`.

use vstd::prelude::*;

verus! {

/// The fixed-point representation of 1: one grid cell.
pub const ONE: i64 = 4294967296;

/// The largest length that a direction or plane vector may have (256 cells).
pub const MAX_LENGTH: i64 = 1099511627776;

/// The largest magnitude of a product of two numbers within `MAX_LENGTH`:
/// of the displacement of one step along an axis.
pub const MAX_PRODUCT: i64 = 281474976710656;

/// The distance reported where a ray's distance exceeds every representable one.
pub const FAR: i64 = 9223372036854775807;

/// The absolute value of an integer.
pub open spec fn magnitude(v: int) -> int {
    if v < 0 {
        -v
    } else {
        v
    }
}

/// The quotient of `n` by a positive `d`, rounded toward zero.
pub open spec fn toward_zero(n: int, d: int) -> int {
    if n >= 0 {
        n / d
    } else {
        -((-n) / d)
    }
}

/// The product of two fixed-point numbers, rounded toward zero.
pub open spec fn product(a: int, b: int) -> int {
    toward_zero(a * b, ONE as int)
}

/// The whole part of a fixed-point number: the index of the cell that holds it.
pub open spec fn whole(v: int) -> int {
    v / (ONE as int)
}

/// The fractional part of a fixed-point number, in `[0, ONE)`.
pub open spec fn fraction(v: int) -> int {
    v % (ONE as int)
}

/// The absolute value of `v`.
pub fn magnitude_of(v: i64) -> (m: u64)
    ensures
        m == magnitude(v as int),
{
    if v >= 0 {
        v as u64
    } else if v == i64::MIN {
        9223372036854775808u64
    } else {
        (-v) as u64
    }
}

/// The product of two fixed-point numbers, rounded toward zero.
pub fn multiply(a: i64, b: i64) -> (p: i64)
    requires
        magnitude(a as int) <= MAX_LENGTH,
        magnitude(b as int) <= MAX_LENGTH,
    ensures
        p == product(a as int, b as int),
        magnitude(p as int) <= MAX_PRODUCT,
{
    proof {
        lemma_product_range(a as int, b as int, MAX_LENGTH as int, MAX_LENGTH as int);
    }
    let wide: i128 = (a as i128) * (b as i128);
    let q: i128 = wide / (ONE as i128);
    q as i64
}

/// A product is no larger in magnitude than the product of bounds on its factors.
pub(crate) proof fn lemma_product_range(a: int, b: int, la: int, lb: int)
    by (nonlinear_arith)
    requires
        magnitude(a) <= la,
        magnitude(b) <= lb,
    ensures
        -(la * lb) <= a * b <= la * lb,
{
}

/// Rounding toward zero never increases the magnitude: `|q| * d <= |n|`.
pub(crate) proof fn lemma_toward_zero_shrinks(n: int, d: int)
    requires
        d > 0,
    ensures
        magnitude(toward_zero(n, d)) * d <= magnitude(n),
        magnitude(n) < (magnitude(toward_zero(n, d)) + 1) * d,
        n >= 0 ==> toward_zero(n, d) >= 0,
        n <= 0 ==> toward_zero(n, d) <= 0,
{
    let m = magnitude(n);
    vstd::arithmetic::div_mod::lemma_fundamental_div_mod(m, d);
    vstd::arithmetic::div_mod::lemma_div_pos_is_pos(m, d);
    vstd::arithmetic::div_mod::lemma_mod_bound(m, d);
    assert(d * (m / d) == (m / d) * d) by (nonlinear_arith);
    assert((m / d + 1) * d == (m / d) * d + d) by (nonlinear_arith);
}

} // verus!
