//! Decimal fixed-point scalars: a value is a whole number of billionths.
//!
//! Every quantity of the engine (field strength, position, velocity, time) is a
//! [`Fixed`]. Arithmetic is exact integer arithmetic on the raw counts; a
//! product or a ratio is rounded toward zero to the next billionth, and an
//! operation whose result leaves the 64-bit carrier yields `None`.

use vstd::prelude::*;

verus! {

/// Raw units per whole: a raw count `r` stands for the number `r / SCALE`.
pub const SCALE: i64 = 1_000_000_000;

/// True when `x` raw units fit the 64-bit carrier of [`Fixed`].
pub open spec fn representable(x: int) -> bool {
    i64::MIN <= x <= i64::MAX
}

/// Division rounded toward zero; zero when the divisor is zero.
pub open spec fn quotient(a: int, b: int) -> int {
    if b == 0 {
        0
    } else if a >= 0 && b > 0 {
        a / b
    } else if a >= 0 {
        -(a / (-b))
    } else if b > 0 {
        -((-a) / b)
    } else {
        (-a) / (-b)
    }
}

/// Raw count of the product of two raw counts, rounded toward zero.
pub open spec fn product(a: int, b: int) -> int {
    quotient(a * b, SCALE as int)
}

/// Raw count of the ratio of two raw counts, rounded toward zero.
pub open spec fn ratio(a: int, b: int) -> int {
    quotient(a * SCALE, b)
}

/// A signed decimal number with nine fractional digits.
#[derive(Clone, Copy, Debug, PartialEq, Eq, Structural)]
pub struct Fixed {
    /// The number of billionths.
    pub raw: i64,
}

impl View for Fixed {
    type V = int;

    open spec fn view(&self) -> int {
        self.raw as int
    }
}

/// Brings a wide intermediate back into the carrier, if it fits.
pub fn narrow(wide: i128) -> (r: Option<Fixed>)
    ensures
        match r {
            Some(v) => v@ == wide,
            None => !representable(wide as int),
        },
{
    if wide < i64::MIN as i128 || wide > i64::MAX as i128 {
        None
    } else {
        Some(Fixed { raw: wide as i64 })
    }
}

/// Divides a wide sum by a positive count, rounding toward zero.
pub fn wide_quotient(sum: i128, count: u128) -> (q: i128)
    requires
        count > 0,
    ensures
        q == quotient(sum as int, count as int),
{
    if count <= i128::MAX as u128 {
        sum / (count as i128)
    } else if sum == i128::MIN && count == 0x8000_0000_0000_0000_0000_0000_0000_0000 {
        -1
    } else {
        proof {
            lemma_quotient_remainder(sum as int, count as int);
            let q = quotient(sum as int, count as int);
            if sum >= 0 {
                assert(q == 0) by (nonlinear_arith)
                    requires
                        q >= 0,
                        0 <= sum - count * q,
                        sum < count,
                ;
            } else {
                assert(q == 0) by (nonlinear_arith)
                    requires
                        q <= 0,
                        sum - count * q <= 0,
                        -count < sum,
                ;
            }
        }
        0
    }
}

impl Fixed {
    /// The value with the given count of billionths.
    pub fn from_raw(raw: i64) -> (r: Fixed)
        ensures
            r@ == raw,
    {
        Fixed { raw }
    }

    /// Zero.
    pub fn zero() -> (r: Fixed)
        ensures
            r@ == 0,
    {
        Fixed { raw: 0 }
    }

    /// One whole.
    pub fn one() -> (r: Fixed)
        ensures
            r@ == SCALE,
    {
        Fixed { raw: SCALE }
    }

    /// The whole number `units`, when `units * SCALE` fits.
    pub fn from_units(units: i64) -> (r: Option<Fixed>)
        ensures
            match r {
                Some(v) => v@ == units * SCALE,
                None => !representable(units * SCALE),
            },
    {
        proof {
            lemma_wide_product(units as int, SCALE as int);
        }
        narrow((units as i128) * (SCALE as i128))
    }

    /// Sum, or `None` when it does not fit.
    pub fn checked_add(self, rhs: Fixed) -> (r: Option<Fixed>)
        ensures
            match r {
                Some(v) => v@ == self@ + rhs@,
                None => !representable(self@ + rhs@),
            },
    {
        narrow((self.raw as i128) + (rhs.raw as i128))
    }

    /// Difference, or `None` when it does not fit.
    pub fn checked_sub(self, rhs: Fixed) -> (r: Option<Fixed>)
        ensures
            match r {
                Some(v) => v@ == self@ - rhs@,
                None => !representable(self@ - rhs@),
            },
    {
        narrow((self.raw as i128) - (rhs.raw as i128))
    }

    /// Product rounded toward zero, or `None` when it does not fit.
    pub fn checked_mul(self, rhs: Fixed) -> (r: Option<Fixed>)
        ensures
            match r {
                Some(v) => v@ == product(self@, rhs@),
                None => !representable(product(self@, rhs@)),
            },
    {
        proof {
            lemma_wide_product(self@, rhs@);
        }
        let wide: i128 = (self.raw as i128) * (rhs.raw as i128);
        narrow(wide / (SCALE as i128))
    }

    /// Ratio rounded toward zero; `None` when the divisor is zero or the ratio
    /// does not fit.
    pub fn checked_div(self, rhs: Fixed) -> (r: Option<Fixed>)
        ensures
            match r {
                Some(v) => rhs@ != 0 && v@ == ratio(self@, rhs@),
                None => rhs@ == 0 || !representable(ratio(self@, rhs@)),
            },
    {
        if rhs.raw == 0 {
            return None;
        }
        proof {
            lemma_wide_product(self@, SCALE as int);
        }
        let wide: i128 = (self.raw as i128) * (SCALE as i128);
        if rhs.raw < 0 {
            narrow((-wide) / (-(rhs.raw as i128)))
        } else {
            narrow(wide / (rhs.raw as i128))
        }
    }

    /// The value times the whole number `factor`, or `None` when it does not
    /// fit.
    pub fn checked_scale(self, factor: i64) -> (r: Option<Fixed>)
        ensures
            match r {
                Some(v) => v@ == self@ * factor,
                None => !representable(self@ * factor),
            },
    {
        proof {
            lemma_wide_product(self@, factor as int);
        }
        narrow((self.raw as i128) * (factor as i128))
    }
}

/// The product of two carrier values fits a 128-bit intermediate.
pub proof fn lemma_wide_product(a: int, b: int)
    requires
        representable(a),
        representable(b),
    ensures
        -0x4000_0000_0000_0000_0000_0000_0000_0000 <= a * b
            <= 0x4000_0000_0000_0000_0000_0000_0000_0000,
{
    assert(-0x4000_0000_0000_0000_0000_0000_0000_0000 <= a * b
        <= 0x4000_0000_0000_0000_0000_0000_0000_0000) by (nonlinear_arith)
        requires
            -0x8000_0000_0000_0000 <= a <= 0x8000_0000_0000_0000,
            -0x8000_0000_0000_0000 <= b <= 0x8000_0000_0000_0000,
    ;
}

/// What rounding toward zero loses: the remainder has the sign of the dividend
/// and is smaller than the divisor.
pub proof fn lemma_quotient_remainder(a: int, b: int)
    requires
        b > 0,
    ensures
        a >= 0 ==> 0 <= a - b * quotient(a, b) < b,
        a <= 0 ==> -b < a - b * quotient(a, b) <= 0,
        a >= 0 ==> quotient(a, b) >= 0,
        a <= 0 ==> quotient(a, b) <= 0,
{
    if a >= 0 {
        let q = a / b;
        assert(0 <= a - b * q < b && q >= 0) by (nonlinear_arith)
            requires
                a >= 0,
                b > 0,
                q == a / b,
        ;
    } else {
        let n = -a;
        let q = n / b;
        assert(0 <= n - b * q < b && q >= 0) by (nonlinear_arith)
            requires
                n >= 0,
                b > 0,
                q == n / b,
        ;
        assert(b * (-q) == -(b * q)) by (nonlinear_arith);
    }
}

/// Zero divided by anything is zero, and so is anything times zero.
pub proof fn lemma_zero_stays_zero(b: int)
    ensures
        quotient(0, b) == 0,
        product(0, b) == 0,
        product(b, 0) == 0,
        ratio(0, b) == 0,
{
    if b > 0 {
        lemma_quotient_remainder(0, b);
        let q = quotient(0, b);
        assert(q == 0) by (nonlinear_arith)
            requires
                b > 0,
                0 <= 0 - b * q < b,
                q >= 0,
        ;
    } else if b < 0 {
        lemma_quotient_remainder(0, -b);
        let q = quotient(0, -b);
        assert(q == 0) by (nonlinear_arith)
            requires
                -b > 0,
                0 <= 0 - (-b) * q < -b,
                q >= 0,
        ;
    }
    assert(0 * b == 0 && b * 0 == 0 && 0 * (SCALE as int) == 0) by (nonlinear_arith);
    lemma_quotient_remainder(0, SCALE as int);
    let z = quotient(0, SCALE as int);
    assert(z == 0) by (nonlinear_arith)
        requires
            0 <= 0 - SCALE * z < SCALE,
            z >= 0,
    ;
}

/// Rounding toward zero never grows a magnitude: dividing by a positive
/// divisor keeps the quotient between zero and the dividend.
pub proof fn lemma_quotient_shrinks(a: int, b: int)
    requires
        b > 0,
    ensures
        a >= 0 ==> 0 <= quotient(a, b) <= a,
        a <= 0 ==> a <= quotient(a, b) <= 0,
{
    lemma_quotient_remainder(a, b);
    let q = quotient(a, b);
    if a >= 0 {
        assert(q <= a) by (nonlinear_arith)
            requires
                b >= 1,
                q >= 0,
                a - b * q >= 0,
        ;
    } else {
        assert(a <= q) by (nonlinear_arith)
            requires
                b >= 1,
                q <= 0,
                a - b * q <= 0,
        ;
    }
}

/// Rounding toward zero keeps the order of dividends.
pub proof fn lemma_quotient_monotonic(a1: int, a2: int, b: int)
    requires
        b > 0,
        a1 <= a2,
    ensures
        quotient(a1, b) <= quotient(a2, b),
{
    lemma_quotient_remainder(a1, b);
    lemma_quotient_remainder(a2, b);
    let q1 = quotient(a1, b);
    let q2 = quotient(a2, b);
    if q1 > q2 {
        assert(b * q1 >= b * q2 + b) by (nonlinear_arith)
            requires
                b > 0,
                q1 >= q2 + 1,
        ;
        // The remainders bound `a1` from below by `b * q1 - b + 1` and `a2`
        // from above by `b * q2 + b - 1`, which puts `a2` below `a1`.
        assert(a2 < a1);
    }
}

} // verus!
