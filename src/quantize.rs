//! Rounding arithmetic shared by the quantizers.
use vstd::prelude::*;
use vstd::arithmetic::div_mod::lemma_fundamental_div_mod;

verus! {

/// `a / b` rounded to the nearest integer, halves away from zero (`a >= 0`, `b > 0`).
pub open spec fn round_div(a: int, b: int) -> int {
    (2 * a + b) / (2 * b)
}

/// The rounded quotient lies within half a divisor of the exact one.
pub proof fn lemma_round_div_bounds(a: int, b: int)
    requires
        b > 0,
    ensures
        2 * b * round_div(a, b) <= 2 * a + b,
        2 * a + b < 2 * b * round_div(a, b) + 2 * b,
{
    lemma_fundamental_div_mod(2 * a + b, 2 * b);
    let q = (2 * a + b) / (2 * b);
    let m = (2 * a + b) % (2 * b);
    assert(0 <= m < 2 * b);
    assert(2 * a + b == 2 * b * q + m) by (nonlinear_arith)
        requires
            2 * a + b == (2 * b) * ((2 * a + b) / (2 * b)) + (2 * a + b) % (2 * b),
            q == (2 * a + b) / (2 * b),
            m == (2 * a + b) % (2 * b),
    ;
}

/// The rounded quotient of a value in `[0, b * n]` by `b` lies in `[0, n]`.
pub proof fn lemma_round_div_range(a: int, b: int, n: int)
    requires
        b > 0,
        n >= 0,
        0 <= a <= b * n,
    ensures
        0 <= round_div(a, b) <= n,
{
    lemma_round_div_bounds(a, b);
    let q = round_div(a, b);
    assert(0 <= q <= n) by (nonlinear_arith)
        requires
            2 * b * q <= 2 * a + b,
            2 * a + b < 2 * b * q + 2 * b,
            b > 0,
            0 <= a <= b * n,
    ;
}

/// Rounds `a / b` to the nearest integer, halves away from zero.
pub fn round_div_u64(a: u64, b: u64) -> (r: u64)
    requires
        b > 0,
        2 * a + b <= u64::MAX,
        2 * b <= u64::MAX,
    ensures
        r == round_div(a as int, b as int),
{
    (2 * a + b) / (2 * b)
}

/// Quantizing `x` in `[0, range]` onto `steps` codes and back lands within one step of `x`:
/// `code = round(x * steps / range)`, `y = round(code * range / steps)`,
/// and `|y - x| <= range / steps`.
pub proof fn lemma_linear_quantization(x: int, range: int, steps: int)
    requires
        0 < steps <= range,
        0 <= x <= range,
    ensures
        ({
            let code = round_div(x * steps, range);
            let y = round_div(code * range, steps);
            &&& 0 <= code <= steps
            &&& steps * (y - x) <= range
            &&& steps * (x - y) <= range
        }),
{
    let code = round_div(x * steps, range);
    let y = round_div(code * range, steps);
    assert(0 <= x * steps <= range * steps) by (nonlinear_arith)
        requires
            0 <= x <= range,
            0 < steps,
    ;
    lemma_round_div_range(x * steps, range, steps);
    lemma_round_div_bounds(x * steps, range);
    lemma_round_div_bounds(code * range, steps);
    let cr = code * range;
    let xs = x * steps;
    assert(steps * (y - x) <= range && steps * (x - y) <= range) by (nonlinear_arith)
        requires
            2 * range * code <= 2 * xs + range,
            2 * xs + range < 2 * range * code + 2 * range,
            2 * steps * y <= 2 * cr + steps,
            2 * cr + steps < 2 * steps * y + 2 * steps,
            cr == code * range,
            xs == x * steps,
            0 < steps <= range,
    ;
}

} // verus!

verus! {

/// Rounds `a / b` to the nearest integer, halves away from zero, on wide operands.
pub fn round_div_u128(a: u128, b: u128) -> (r: u128)
    requires
        b > 0,
        2 * a + b <= u128::MAX,
        2 * b <= u128::MAX,
    ensures
        r == round_div(a as int, b as int),
{
    (2 * a + b) / (2 * b)
}

} // verus!
