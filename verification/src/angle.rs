//! Angles in degrees from their cosines.

use crate::quantity::Quantity;
use vstd::prelude::*;

verus! {

/// One, in the parts that sines are reckoned in.
pub const ONE: i128 = 1_000_000_000_000_000_000;

/// Half a turn in radians.
pub const HALF_TURN: i128 = 3_141_592_653_589_793_238;

/// Half a turn in billionths of a degree.
pub const HALF_TURN_DEGREES: i64 = 180_000_000_000;

/// A quarter of a turn in billionths of a degree.
pub const QUARTER_TURN_DEGREES: i64 = 90_000_000_000;

/// The power series of the sine of an angle over the angle, from its term `k` on and with what
/// the terms have in common taken out: 1 - s²/((2k+2)(2k+3)) (1 - ...). `square` is s².
pub open spec fn series_from(square: int, k: nat) -> int
    decreases 12 - k,
{
    if k >= 12 {
        ONE as int
    } else {
        ONE - square * series_from(square, k + 1) / ONE as int / ((2 * k + 2) * (2 * k + 3)) as int
    }
}

/// `n` quarters of a billionth of a degree in radians.
pub open spec fn radians(n: int) -> int {
    n * HALF_TURN / 720_000_000_000int
}

/// The sine of `n` quarters of a billionth of a degree.
pub open spec fn sine_of_quarters(n: int) -> int {
    radians(n) * series_from(radians(n) * radians(n) / ONE as int, 0) / ONE as int
}

/// The angle of `a` and a half billionths of a degree lies beyond the one with that cosine:
/// twice the squared sine of its half is more than one less the cosine.
#[verifier::opaque]
pub open spec fn is_beyond(a: int, cosine: int) -> bool {
    2 * sine_of_quarters(2 * a + 1) * sine_of_quarters(2 * a + 1) > (1_000_000_000 - cosine)
        * 1_000_000_000_000_000_000_000_000_000
}

/// Where between two angles the one with that cosine lies, by halving.
pub open spec fn angle_between(low: int, high: int, cosine: int) -> int
    decreases high - low,
{
    if low >= high {
        low
    } else {
        let mid = (low + high) / 2;
        if is_beyond(mid, cosine) {
            angle_between(low, mid, cosine)
        } else {
            angle_between(mid + 1, high, cosine)
        }
    }
}

/// The size of a cosine, held at 1.
pub open spec fn held_size(cosine: Quantity) -> int {
    if cosine > 1_000_000_000 || cosine < -1_000_000_000 {
        1_000_000_000
    } else if cosine < 0 {
        -cosine
    } else {
        cosine as int
    }
}

/// The angle between 0 and 90 degrees whose cosine has the size of that one, to the nearest
/// billionth of a degree.
pub open spec fn acute_angle(cosine: Quantity) -> int {
    angle_between(0, QUARTER_TURN_DEGREES as int, held_size(cosine))
}

/// The angle between 0 and 180 degrees with that cosine, to the nearest billionth of a degree.
pub open spec fn arc_cosine(cosine: Quantity) -> Quantity {
    if cosine < 0 {
        (HALF_TURN_DEGREES - acute_angle(cosine)) as Quantity
    } else {
        acute_angle(cosine) as Quantity
    }
}

proof fn lemma_radians(n: int)
    requires
        0 <= n <= 360_000_000_001,
    ensures
        0 <= radians(n) <= 1_580_000_000_000_000_000,
        0 <= radians(n) * radians(n) <= 2_500_000_000_000_000_000_000_000_000_000_000_000,
{
    let s = radians(n);
    assert(s * s <= 1_580_000_000_000_000_000 * 1_580_000_000_000_000_000) by (nonlinear_arith)
        requires
            0 <= s <= 1_580_000_000_000_000_000,
    ;
    assert(0 <= s * s) by (nonlinear_arith);
}

/// The sum of the series.
fn series(square: i128) -> (r: i128)
    requires
        0 <= square <= 2_500_000_000_000_000_000,
    ensures
        r == series_from(square as int, 0),
        0 <= r <= ONE,
{
    let mut sum: i128 = ONE;
    let mut k: u32 = 12;
    while k > 0
        invariant
            k <= 12,
            0 <= square <= 2_500_000_000_000_000_000,
            0 <= sum <= ONE,
            sum == series_from(square as int, k as nat),
        decreases k,
    {
        k = k - 1;
        proof {
            assert((2 * k + 2) * (2 * k + 3) <= 26 * 27) by (nonlinear_arith)
                requires
                    0 <= k <= 12,
            ;
        }
        let parts: i128 = ((2 * k + 2) * (2 * k + 3)) as i128;
        proof {
            assert(0 <= square * sum <= 2_500_000_000_000_000_000 * 1_000_000_000_000_000_000)
                by (nonlinear_arith)
                requires
                    0 <= square <= 2_500_000_000_000_000_000,
                    0 <= sum <= 1_000_000_000_000_000_000,
            ;
        }
        let whole: i128 = square * sum / ONE;
        proof {
            assert((2 * k + 2) * (2 * k + 3) >= 6) by (nonlinear_arith)
                requires
                    0 <= k,
            ;
            assert(0 <= whole as int / parts as int <= whole) by (nonlinear_arith)
                requires
                    0 <= whole,
                    parts >= 6,
            ;
            assert(whole as int / parts as int <= 420_000_000_000_000_000) by (nonlinear_arith)
                requires
                    0 <= whole <= 2_500_000_000_000_000_000,
                    parts >= 6,
            ;
        }
        sum = ONE - whole / parts;
    }
    sum
}

/// Whether an angle and a half billionth lies beyond the one with that cosine.
fn lies_beyond(a: i64, cosine: i64) -> (r: bool)
    requires
        0 <= a <= QUARTER_TURN_DEGREES,
        0 <= cosine <= 1_000_000_000,
    ensures
        r == is_beyond(a as int, cosine as int),
{
    let n: i128 = 2 * a as i128 + 1;
    proof {
        reveal(is_beyond);
        lemma_radians(n as int);
    }
    let s: i128 = n * HALF_TURN / 720_000_000_000;
    assert(s == radians(n as int));
    let sum: i128 = series(s * s / ONE);
    proof {
        assert(0 <= s * sum <= 1_580_000_000_000_000_000 * 1_000_000_000_000_000_000)
            by (nonlinear_arith)
            requires
                0 <= s <= 1_580_000_000_000_000_000,
                0 <= sum <= 1_000_000_000_000_000_000,
        ;
    }
    let sine: i128 = s * sum / ONE;
    assert(sine == sine_of_quarters(n as int));
    proof {
        assert(0 <= sine * sine <= 1_580_000_000_000_000_000 * 1_580_000_000_000_000_000)
            by (nonlinear_arith)
            requires
                0 <= sine <= 1_580_000_000_000_000_000,
        ;
        assert(2 * sine * sine == 2 * (sine * sine)) by (nonlinear_arith);
    }
    2 * (sine * sine) > (1_000_000_000 - cosine as i128) * 1_000_000_000_000_000_000_000_000_000
}

/// The angle in degrees with that cosine. Beyond -1 and 1 the cosine is held there.
pub fn angle_of_cosine(cosine: Quantity) -> (r: Quantity)
    ensures
        r == arc_cosine(cosine),
{
    let size: i64 = if cosine > 1_000_000_000 || cosine < -1_000_000_000 {
        1_000_000_000
    } else if cosine < 0 {
        -cosine
    } else {
        cosine
    };
    let mut low: i64 = 0;
    let mut high: i64 = QUARTER_TURN_DEGREES;
    while low < high
        invariant
            0 <= low <= high <= QUARTER_TURN_DEGREES,
            0 <= size <= 1_000_000_000,
            angle_between(low as int, high as int, size as int) == angle_between(
                0,
                QUARTER_TURN_DEGREES as int,
                size as int,
            ),
        decreases high - low,
    {
        let mid: i64 = (low + high) / 2;
        if lies_beyond(mid, size) {
            high = mid;
        } else {
            low = mid + 1;
        }
    }
    if cosine < 0 {
        HALF_TURN_DEGREES - low
    } else {
        low
    }
}

proof fn lemma_angle_between(low: int, high: int, cosine: int)
    requires
        0 <= low <= high,
        low > 0 ==> !is_beyond(low - 1, cosine),
    ensures
        low <= angle_between(low, high, cosine) <= high,
        angle_between(low, high, cosine) > 0 ==> !is_beyond(
            angle_between(low, high, cosine) - 1,
            cosine,
        ),
        angle_between(low, high, cosine) < high ==> is_beyond(
            angle_between(low, high, cosine),
            cosine,
        ),
    decreases high - low,
{
    if low < high {
        let mid = (low + high) / 2;
        if is_beyond(mid, cosine) {
            lemma_angle_between(low, mid, cosine);
        } else {
            lemma_angle_between(mid + 1, high, cosine);
        }
    }
}

/// The angle lies between 0 and 180 degrees, and angles of opposite cosines add up to half a
/// turn. Half a billionth more than the acute one is beyond the angle whose cosine has that
/// size, and half a billionth less is not.
pub proof fn law_angle_has_the_cosine(cosine: Quantity)
    ensures
        0 <= arc_cosine(cosine) <= HALF_TURN_DEGREES,
        0 <= acute_angle(cosine) <= QUARTER_TURN_DEGREES,
        arc_cosine(cosine) == (if cosine < 0 {
            HALF_TURN_DEGREES - acute_angle(cosine)
        } else {
            acute_angle(cosine)
        }),
        cosine != 0 && cosine != i64::MIN ==> arc_cosine(cosine) + arc_cosine((-cosine) as Quantity)
            == HALF_TURN_DEGREES,
        acute_angle(cosine) < QUARTER_TURN_DEGREES ==> is_beyond(
            acute_angle(cosine),
            held_size(cosine),
        ),
        acute_angle(cosine) > 0 ==> !is_beyond(acute_angle(cosine) - 1, held_size(cosine)),
{
    lemma_angle_between(0, QUARTER_TURN_DEGREES as int, held_size(cosine));
    if cosine != i64::MIN {
        assert(held_size((-cosine) as Quantity) == held_size(cosine));
    }
}

} // verus!
