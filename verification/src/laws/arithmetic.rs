//! Arithmetic of quantities, in billionths, and angles.

use crate::angle::{
    acute_angle, angle_between, arc_cosine, held_size, is_beyond, HALF_TURN_DEGREES,
    QUARTER_TURN_DEGREES,
};
use crate::quantity::{product_of, scaled, sine_of, thousandth_of, Quantity};
use vstd::prelude::*;

verus! {

/// A product is exact to the billionth, rounded down, as far as it can be held.
pub proof fn law_product(a: Quantity, b: Quantity)
    requires
        -9_000_000_000_000_000_000_000_000_000 <= a * b <= 9_000_000_000_000_000_000_000_000_000,
    ensures
        product_of(a, b) * 1_000_000_000 <= a * b < (product_of(a, b) + 1) * 1_000_000_000,
        product_of(a, b) == product_of(b, a),
        product_of(a, 1_000_000_000) == a,
        product_of(a, 0) == 0,
{
    reveal(product_of);
    assert(a * b == b * a) by (nonlinear_arith);
}

/// A product beyond what can be held is held at the end of the range, on its side.
pub proof fn law_product_is_held(a: Quantity, b: Quantity)
    ensures
        a * b >= 0 ==> product_of(a, b) >= 0,
        a * b < 0 ==> product_of(a, b) < 0,
        a * b >= 10_000_000_000_000_000_000_000_000_000 ==> product_of(a, b) == i64::MAX,
        a * b <= -10_000_000_000_000_000_000_000_000_000 ==> product_of(a, b) == i64::MIN,
{
    reveal(product_of);
}

/// A thousand thousandths are the whole, but for less than a thousand billionths.
pub proof fn law_thousandth(a: Quantity)
    ensures
        thousandth_of(a) * 1000 <= a < (thousandth_of(a) + 1) * 1000,
{
}

/// Rounding to decimal places goes to the nearest, and to the higher of two equally near; what is
/// below zero counts as zero.
pub proof fn law_rounding(v: Quantity)
    ensures
        v >= 0 ==> -500_000_000 < scaled(v, 0) * 1_000_000_000 - v <= 500_000_000,
        v >= 0 ==> -50_000_000 < scaled(v, 1) * 100_000_000 - v <= 50_000_000,
        v >= 0 ==> -5_000_000 < scaled(v, 2) * 10_000_000 - v <= 5_000_000,
        v >= 0 ==> -500_000 < scaled(v, 3) * 1_000_000 - v <= 500_000,
        v >= 0 ==> -50_000 < scaled(v, 4) * 100_000 - v <= 50_000,
        v <= 0 ==> scaled(v, 0) == 0 && scaled(v, 1) == 0 && scaled(v, 2) == 0 && scaled(v, 3) == 0
            && scaled(v, 4) == 0,
{
    reveal(scaled);
    crate::laws::digits::lemma_powers();
    assert(crate::quantity::pow10(0) == 1);
}

/// Sine and cosine are the sides of a right triangle with a long side of one.
pub proof fn law_sine(cosine: Quantity)
    requires
        -1_000_000_000 <= cosine <= 1_000_000_000,
    ensures
        ({
            let s = sine_of(cosine) as int;
            let long = 1_000_000_000_000_000_000int;
            &&& 0 <= s <= 1_000_000_000
            &&& s * s + cosine * cosine <= long
            &&& (s + 1) * (s + 1) + cosine * cosine > long
        }),
{
    reveal(sine_of);
    let rest = 1_000_000_000_000_000_000 - cosine * cosine;
    assert(0 <= cosine * cosine <= 1_000_000_000_000_000_000) by (nonlinear_arith)
        requires
            -1_000_000_000 <= cosine <= 1_000_000_000,
    ;
    crate::laws::power::lemma_root_exists(rest, 1_000_000_001);
    let r = crate::quantity::root_of(rest);
    assert(r <= 1_000_000_000) by (nonlinear_arith)
        requires
            0 <= r,
            r * r <= rest,
            rest <= 1_000_000_000 * 1_000_000_000,
    ;
}

proof fn lemma_angle_falls(low: int, high: int, c: int, d: int)
    requires
        low <= high,
        c <= d,
    ensures
        low <= angle_between(low, high, d) <= angle_between(low, high, c) <= high,
    decreases high - low,
{
    reveal(is_beyond);
    if low < high {
        let mid = (low + high) / 2;
        lemma_angle_falls(low, mid, c, d);
        lemma_angle_falls(mid + 1, high, c, d);
    }
}

/// A larger cosine never belongs to a larger angle. Cosines of zero and above belong to angles up
/// to a quarter turn, negative ones to the others, and what is beyond one counts as one.
pub proof fn law_angle_falls_with_the_cosine(c: Quantity, d: Quantity)
    requires
        c <= d,
    ensures
        arc_cosine(d) <= arc_cosine(c),
        c >= 0 ==> 0 <= arc_cosine(c) <= 90_000_000_000,
        c < 0 ==> 90_000_000_000 <= arc_cosine(c) <= 180_000_000_000,
        d > 1_000_000_000 ==> arc_cosine(d) == arc_cosine(1_000_000_000),
{
    let (x, y) = (held_size(c), held_size(d));
    let quarter = QUARTER_TURN_DEGREES as int;
    if x <= y {
        lemma_angle_falls(0, quarter, x, y);
    } else {
        lemma_angle_falls(0, quarter, y, x);
    }
    crate::angle::law_angle_has_the_cosine(c);
    crate::angle::law_angle_has_the_cosine(d);
    assert(HALF_TURN_DEGREES == 2 * QUARTER_TURN_DEGREES);
    assert(acute_angle(c) == angle_between(0, quarter, x));
    assert(acute_angle(d) == angle_between(0, quarter, y));
}

} // verus!
