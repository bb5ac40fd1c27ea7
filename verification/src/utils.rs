//! Fixed-point helpers shared by everything that moves: vectors, angles,
//! saturating arithmetic and scaling by a sine or cosine.

use vstd::prelude::*;

verus! {

/// Position steps in one world unit.
pub const UNIT: i64 = 1_000;

/// The value that stands for 1 in a sine or cosine.
pub const ONE: i64 = 1_000_000;

/// Time steps in one second.
pub const SECOND: i64 = 1_000_000;

/// Angle steps in a full turn.
pub const FULL_TURN: i64 = 360_000;

/// Angle steps in a quarter turn.
pub const QUARTER_TURN: i64 = 90_000;

/// A point or an extent in the plane.
#[derive(Clone, Copy, Debug, PartialEq, Eq, Structural)]
pub struct Vec2 {
    pub x: i64,
    pub y: i64,
}

/// A direction: an angle together with its sine and cosine.
///
/// Nothing here computes a sine.  Whoever makes a heading from an angle
/// supplies the two values; the operations below keep them in step with the
/// angle, since a full turn leaves both unchanged and a quarter turn swaps
/// them around.
#[derive(Clone, Copy, Debug, PartialEq, Eq, Structural)]
pub struct Heading {
    /// The angle, in thousandths of a degree.
    pub angle: i64,
    /// The sine of the angle, in millionths.
    pub sin: i64,
    /// The cosine of the angle, in millionths.
    pub cos: i64,
}

/// `v` brought into the range of `i64`: values beyond either end become that end.
pub open spec fn saturated(v: int) -> int {
    if v < i64::MIN {
        i64::MIN as int
    } else if v > i64::MAX {
        i64::MAX as int
    } else {
        v
    }
}

/// The quotient of `n` by a positive `d`, rounded toward zero.
pub open spec fn quotient_toward_zero(n: int, d: int) -> int {
    if n >= 0 {
        n / d
    } else {
        -((-n) / d)
    }
}

/// `length` multiplied by a sine or cosine `factor` given in millionths.
pub open spec fn scaled(factor: int, length: int) -> int {
    quotient_toward_zero(factor * length, ONE as int)
}

/// Distance covered in `dt` time steps at `speed` world units per second.
pub open spec fn distance(speed: int, dt: int) -> int {
    quotient_toward_zero(speed * UNIT * dt, SECOND as int)
}

/// The angle one full turn away from `angle` toward the range `[0, FULL_TURN)`,
/// or `angle` itself when it already lies there.
pub open spec fn normalized(angle: int) -> int {
    if angle < 0 {
        angle + FULL_TURN
    } else if angle >= FULL_TURN {
        angle - FULL_TURN
    } else {
        angle
    }
}

/// Brings a wide intermediate result back into `i64`.
pub fn saturate(v: i128) -> (r: i64)
    ensures
        r == saturated(v as int),
{
    if v < i64::MIN as i128 {
        i64::MIN
    } else if v > i64::MAX as i128 {
        i64::MAX
    } else {
        v as i64
    }
}

/// Saturating sum of two coordinates.
pub fn offset_by(a: i64, b: i64) -> (r: i64)
    ensures
        r == saturated(a + b),
{
    saturate(a as i128 + b as i128)
}

/// Saturating difference of two coordinates.
pub fn offset_back(a: i64, b: i64) -> (r: i64)
    ensures
        r == saturated(a - b),
{
    saturate(a as i128 - b as i128)
}

/// Multiplies `length` by a sine or cosine given in millionths, rounding toward zero.
pub fn scale(factor: i64, length: i64) -> (r: i64)
    ensures
        r == saturated(scaled(factor as int, length as int)),
{
    assert(-0x4000_0000_0000_0000_0000_0000_0000_0000 <= factor * length
        <= 0x4000_0000_0000_0000_0000_0000_0000_0000) by (nonlinear_arith)
        requires
            -0x8000_0000_0000_0000 <= factor <= 0x8000_0000_0000_0000,
            -0x8000_0000_0000_0000 <= length <= 0x8000_0000_0000_0000,
    ;
    let product: i128 = (factor as i128) * (length as i128);
    if product >= 0 {
        saturate(product / (ONE as i128))
    } else {
        saturate(-((-product) / (ONE as i128)))
    }
}

/// Distance covered in `dt` microseconds at `speed` world units per second,
/// rounded toward zero.
pub fn travel(speed: i64, dt: u32) -> (r: i64)
    ensures
        r == saturated(distance(speed as int, dt as int)),
{
    assert(-0x8000_0000_0000_0000 * 1_000 * 0x1_0000_0000 <= speed * UNIT * dt
        <= 0x8000_0000_0000_0000 * 1_000 * 0x1_0000_0000) by (nonlinear_arith)
        requires
            -0x8000_0000_0000_0000 <= speed <= 0x8000_0000_0000_0000,
            0 <= dt <= 0x1_0000_0000,
            UNIT == 1_000,
    ;
    let product: i128 = (speed as i128) * (UNIT as i128) * (dt as i128);
    if product >= 0 {
        saturate(product / (SECOND as i128))
    } else {
        saturate(-((-product) / (SECOND as i128)))
    }
}

/// Brings an angle into `[0, FULL_TURN)` by adding or subtracting one full turn.
///
/// Angles within one turn of that range end up inside it.  An angle further
/// away is moved one turn closer and no more.
pub fn normalize_angle(angle: i64) -> (r: i64)
    ensures
        r == normalized(angle as int),
        -FULL_TURN <= angle < 2 * FULL_TURN ==> 0 <= r < FULL_TURN,
        (r - angle) % (FULL_TURN as int) == 0,
{
    if angle < 0 {
        angle + FULL_TURN
    } else if angle >= FULL_TURN {
        angle - FULL_TURN
    } else {
        angle
    }
}

impl Heading {
    /// This heading with its angle normalized; sine and cosine stay as they are.
    pub open spec fn normalized(self) -> Heading {
        Heading { angle: normalized(self.angle as int) as i64, sin: self.sin, cos: self.cos }
    }

    /// This heading a quarter turn further: the sine becomes the old cosine,
    /// the cosine the negated old sine.
    pub open spec fn quarter_ahead(self) -> Heading {
        Heading {
            angle: saturated(self.angle + QUARTER_TURN) as i64,
            sin: self.cos,
            cos: saturated(-self.sin) as i64,
        }
    }

    /// This heading a quarter turn back: the sine becomes the negated old
    /// cosine, the cosine the old sine.
    pub open spec fn quarter_behind(self) -> Heading {
        Heading {
            angle: saturated(self.angle - QUARTER_TURN) as i64,
            sin: saturated(-self.cos) as i64,
            cos: self.sin,
        }
    }

    /// Normalizes the angle as [`normalize_angle`] does.
    pub fn normalize(self) -> (r: Heading)
        ensures
            r == self.normalized(),
    {
        Heading { angle: normalize_angle(self.angle), sin: self.sin, cos: self.cos }
    }

    /// Turns a quarter turn forward.
    pub fn turn_ahead(self) -> (r: Heading)
        ensures
            r == self.quarter_ahead(),
    {
        Heading {
            angle: offset_by(self.angle, QUARTER_TURN),
            sin: self.cos,
            cos: offset_back(0, self.sin),
        }
    }

    /// Turns a quarter turn back.
    pub fn turn_behind(self) -> (r: Heading)
        ensures
            r == self.quarter_behind(),
    {
        Heading {
            angle: offset_back(self.angle, QUARTER_TURN),
            sin: offset_back(0, self.cos),
            cos: self.sin,
        }
    }
}

/// Scaling by a sine or cosine of magnitude at most one never lengthens a
/// length and never turns it round: the result has the sign of the factor
/// and is no longer than `length`.
pub proof fn lemma_scaled_within(factor: int, length: int)
    requires
        -ONE <= factor <= ONE,
        0 <= length,
    ensures
        factor >= 0 ==> 0 <= scaled(factor, length) <= length,
        factor <= 0 ==> -length <= scaled(factor, length) <= 0,
        scaled(-factor, length) == -scaled(factor, length),
{
    let one = ONE as int;
    assert((-factor) * length == -(factor * length)) by (nonlinear_arith);
    if factor >= 0 {
        assert(0 <= factor * length <= one * length) by (nonlinear_arith)
            requires
                0 <= factor <= one,
                0 <= length,
        ;
    } else {
        assert(0 <= -(factor * length) <= one * length) by (nonlinear_arith)
            requires
                -one <= factor <= 0,
                0 <= length,
        ;
    }
}

/// Scaling by one, or by minus one, keeps the length.
pub proof fn lemma_scaled_whole(length: int)
    requires
        0 <= length,
    ensures
        scaled(ONE as int, length) == length,
        scaled(-ONE as int, length) == -length,
        scaled(0, length) == 0,
{
}

} // verus!
