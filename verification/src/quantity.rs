//! Measured and accumulated quantities as decimal fractions.

use vstd::prelude::*;

verus! {

/// A quantity in billionths of its unit (V, A, kW, kWh, ...).
pub type Quantity = i64;

/// The nearest value that a quantity can hold.
pub open spec fn clamped(v: int) -> Quantity {
    if v > i64::MAX {
        i64::MAX
    } else if v < i64::MIN {
        i64::MIN
    } else {
        v as i64
    }
}

/// The sum, held at the largest or smallest value if it goes beyond.
pub fn sum(a: Quantity, b: Quantity) -> (r: Quantity)
    ensures
        r == clamped(a + b),
{
    let s: i128 = a as i128 + b as i128;
    if s > i64::MAX as i128 {
        i64::MAX
    } else if s < i64::MIN as i128 {
        i64::MIN
    } else {
        s as i64
    }
}

/// The difference, held at the largest or smallest value if it goes beyond.
pub fn difference(a: Quantity, b: Quantity) -> (r: Quantity)
    ensures
        r == clamped(a - b),
{
    let s: i128 = a as i128 - b as i128;
    if s > i64::MAX as i128 {
        i64::MAX
    } else if s < i64::MIN as i128 {
        i64::MIN
    } else {
        s as i64
    }
}

/// 10 to the power `n`.
pub open spec fn pow10(n: nat) -> int
    decreases n,
{
    if n == 0 {
        1
    } else {
        10 * pow10((n - 1) as nat)
    }
}

/// The quantity in units of 10 to the power `-decimals`, rounded to the nearest whole
/// number; a half is rounded up and nothing is below zero.
#[verifier::opaque]
pub open spec fn scaled(v: Quantity, decimals: nat) -> int {
    if v <= 0 {
        0
    } else {
        (v * pow10(decimals) + 500_000_000) / 1_000_000_000
    }
}

/// Rounds a quantity to `decimals` decimal places.
pub fn scale(v: Quantity, decimals: u8) -> (r: u64)
    requires
        decimals <= 9,
    ensures
        r == scaled(v, decimals as nat),
{
    proof {
        reveal(scaled);
    }
    if v <= 0 {
        return 0;
    }
    let mut factor: u128 = 1;
    proof {
        lemma_pow10_nine();
    }
    for i in 0..decimals
        invariant
            decimals <= 9,
            factor == pow10(i as nat),
            pow10(i as nat) <= pow10(9),
            pow10(9) == 1_000_000_000,
    {
        proof {
            lemma_pow10_mono((i + 1) as nat, 9);
        }
        factor = factor * 10;
    }
    proof {
        lemma_pow10_mono(decimals as nat, 9);
        lemma_pow10_nine();
        assert(v * factor <= 0x7FFF_FFFF_FFFF_FFFF * 1_000_000_000) by (nonlinear_arith)
            requires
                0 < v <= 0x7FFF_FFFF_FFFF_FFFF,
                0 <= factor <= 1_000_000_000,
        ;
        assert(v * factor >= 0) by (nonlinear_arith)
            requires
                0 < v,
                0 <= factor,
        ;
    }
    ((v as u128 * factor + 500_000_000) / 1_000_000_000) as u64
}

pub proof fn lemma_pow10_mono(a: nat, b: nat)
    requires
        a <= b,
    ensures
        1 <= pow10(a) <= pow10(b),
    decreases b,
{
    if a < b {
        lemma_pow10_mono(a, (b - 1) as nat);
    } else if a > 0 {
        lemma_pow10_mono((a - 1) as nat, (b - 1) as nat);
    }
}

pub proof fn lemma_pow10_nine()
    ensures
        pow10(9) == 1_000_000_000,
{
    reveal_with_fuel(pow10, 10);
}

/// Quotient rounded down.
pub fn floor_div(a: i128, b: i128) -> (r: i128)
    requires
        0 < b,
        -0x8000_0000_0000_0000_0000_0000_0000_0000 < a,
    ensures
        r == a as int / b as int,
{
    if a >= 0 {
        let q: u128 = a as u128 / b as u128;
        proof {
            vstd::arithmetic::div_mod::lemma_fundamental_div_mod(a as int, b as int);
            assert(q <= a) by (nonlinear_arith)
                requires
                    q == a as int / b as int,
                    b > 0,
                    a >= 0,
            ;
        }
        q as i128
    } else {
        // a = -1 - n has floor(a / b) = -1 - floor(n / b)
        let n: u128 = (-(a + 1)) as u128;
        let q: u128 = n / b as u128;
        let ghost m = n as int % b as int;
        proof {
            vstd::arithmetic::div_mod::lemma_fundamental_div_mod(n as int, b as int);
            assert(q <= n) by (nonlinear_arith)
                requires
                    q == n as int / b as int,
                    b > 0,
            ;
            assert(a == b * (-1 - q) + (b - 1 - m)) by (nonlinear_arith)
                requires
                    n == b * q + m,
                    n == -(a + 1),
            ;
            vstd::arithmetic::div_mod::lemma_fundamental_div_mod_converse(
                a as int,
                b as int,
                -1 - q,
                b - 1 - m,
            );
        }
        -1 - q as i128
    }
}

/// The nearest value that a quantity can hold.
pub fn clamp_quantity(v: i128) -> (r: Quantity)
    ensures
        r == clamped(v as int),
{
    if v > i64::MAX as i128 {
        i64::MAX
    } else if v < i64::MIN as i128 {
        i64::MIN
    } else {
        v as i64
    }
}

/// The product of two quantities, rounded down.
#[verifier::opaque]
pub open spec fn product_of(a: Quantity, b: Quantity) -> Quantity {
    clamped(a * b / 1_000_000_000)
}

/// Multiplies two quantities.
pub fn product(a: Quantity, b: Quantity) -> (r: Quantity)
    ensures
        r == product_of(a, b),
{
    proof {
        reveal(product_of);
        assert(-0x4000_0000_0000_0000_0000_0000_0000_0000 <= a * b
            <= 0x4000_0000_0000_0000_0000_0000_0000_0000) by (nonlinear_arith)
            requires
                -0x8000_0000_0000_0000 <= a <= 0x7FFF_FFFF_FFFF_FFFF,
                -0x8000_0000_0000_0000 <= b <= 0x7FFF_FFFF_FFFF_FFFF,
        ;
    }
    clamp_quantity(floor_div(a as i128 * b as i128, 1_000_000_000))
}

/// A thousandth of a quantity, rounded down.
pub open spec fn thousandth_of(a: Quantity) -> Quantity {
    (a as int / 1000) as i64
}

pub fn thousandth(a: Quantity) -> (r: Quantity)
    ensures
        r == thousandth_of(a),
{
    floor_div(a as i128, 1000) as i64
}

/// The whole part of the square root of `n`.
pub open spec fn is_root(n: int, r: int) -> bool {
    0 <= r && r * r <= n && n < (r + 1) * (r + 1)
}

/// The whole part of the square root of `n`.
pub open spec fn root_of(n: int) -> int {
    choose|r: int| is_root(n, r)
}

proof fn lemma_root_unique(n: int, r: int)
    requires
        is_root(n, r),
    ensures
        root_of(n) == r,
{
    let q = root_of(n);
    assert(is_root(n, q));
    if q < r {
        assert((q + 1) * (q + 1) <= r * r) by (nonlinear_arith)
            requires
                0 <= q < r,
        ;
    }
    if r < q {
        assert((r + 1) * (r + 1) <= q * q) by (nonlinear_arith)
            requires
                0 <= r < q,
        ;
    }
}

/// The whole part of the square root.
pub fn square_root(n: u128) -> (r: u64)
    ensures
        r == root_of(n as int),
        is_root(n as int, r as int),
{
    let mut low: u128 = 0;
    let mut high: u128 = 0x1_0000_0000_0000_0000;
    assert(0x1_0000_0000_0000_0000int * 0x1_0000_0000_0000_0000int
        == 0x1_0000_0000_0000_0000_0000_0000_0000_0000int);
    while high - low > 1
        invariant
            low < high <= 0x1_0000_0000_0000_0000,
            low * low <= n,
            n < high * high,
        decreases high - low,
    {
        let mid: u128 = low + (high - low) / 2;
        assert(mid * mid <= 0xFFFF_FFFF_FFFF_FFFF * 0xFFFF_FFFF_FFFF_FFFF) by (nonlinear_arith)
            requires
                0 <= mid <= 0xFFFF_FFFF_FFFF_FFFF,
        ;
        if mid * mid <= n {
            low = mid;
        } else {
            high = mid;
        }
    }
    proof {
        assert(high == low + 1);
        lemma_root_unique(n as int, low as int);
    }
    low as u64
}

/// The square of the size of a quantity.
fn square(a: Quantity) -> (r: u128)
    ensures
        r == a * a,
        r <= 0x4000_0000_0000_0000_0000_0000_0000_0000,
{
    proof {
        assert(0 <= a * a <= 0x4000_0000_0000_0000_0000_0000_0000_0000) by (nonlinear_arith)
            requires
                -0x8000_0000_0000_0000 <= a <= 0x7FFF_FFFF_FFFF_FFFF,
        ;
    }
    (a as i128 * a as i128) as u128
}

/// The square root of the sum of two squares, held at the largest quantity.
#[verifier::opaque]
pub open spec fn magnitude_of(a: Quantity, b: Quantity) -> Quantity {
    clamped(root_of(a * a + b * b))
}

/// The size of a vector with the given parts.
pub fn magnitude(a: Quantity, b: Quantity) -> (r: Quantity)
    ensures
        r == magnitude_of(a, b),
{
    proof {
        reveal(magnitude_of);
    }
    let n: u128 = square(a) + square(b);
    clamp_quantity(square_root(n) as i128)
}

/// The sine of an angle from its cosine, for angles up to 180 degrees. Beyond a cosine of
/// one there is none, and it is zero.
#[verifier::opaque]
pub open spec fn sine_of(cosine: Quantity) -> Quantity {
    let rest = 1_000_000_000_000_000_000 - cosine * cosine;
    if rest < 0 {
        0
    } else {
        root_of(rest) as Quantity
    }
}

/// The sine of an angle from its cosine.
pub fn sine(cosine: Quantity) -> (r: Quantity)
    ensures
        r == sine_of(cosine),
{
    proof {
        reveal(sine_of);
    }
    let one: u128 = 1_000_000_000_000_000_000;
    let squared: u128 = square(cosine);
    if squared > one {
        return 0;
    }
    let r: u64 = square_root(one - squared);
    proof {
        assert(r <= 1_000_000_000) by (nonlinear_arith)
            requires
                r * r <= 1_000_000_000_000_000_000,
                0 <= r,
        ;
    }
    r as i64
}

} // verus!
