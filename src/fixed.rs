use vstd::prelude::*;

verus! {

/// Number of fixed-point units in one distance unit (and micro-radians per radian).
pub const SCALE: i64 = 1_000_000;

/// How far `cos² + sin²` of a heading may stray from `SCALE²`.
pub const UNIT_SLACK: i64 = 4_000_000;

/// `a * b / SCALE`, rounded toward zero: the product of two fixed-point numbers.
pub open spec fn scaled(a: int, b: int) -> int {
    let p = a * b;
    if p >= 0 {
        p / (SCALE as int)
    } else {
        -((-p) / (SCALE as int))
    }
}

/// `a * b / SCALE`, rounded to the nearest integer (halves away from zero).
pub open spec fn rounded(a: int, b: int) -> int {
    let p = a * b;
    if p >= 0 {
        (p + SCALE / 2) / (SCALE as int)
    } else {
        -((-p + SCALE / 2) / (SCALE as int))
    }
}

/// A direction in the plane: an angle in micro-radians with its cosine and sine in
/// fixed point. The angle itself is unconstrained; the pair (cos, sin) is a unit
/// vector up to `UNIT_SLACK`.
#[derive(Clone, Copy, Debug, PartialEq, Eq, Structural)]
pub struct Heading {
    pub angle: i64,
    pub cos: i64,
    pub sin: i64,
}

pub open spec fn unit_pair(cos: int, sin: int) -> bool {
    &&& -SCALE <= cos <= SCALE
    &&& -SCALE <= sin <= SCALE
    &&& SCALE * SCALE - UNIT_SLACK <= cos * cos + sin * sin <= SCALE * SCALE + UNIT_SLACK
}

impl Heading {
    pub open spec fn wf(self) -> bool {
        unit_pair(self.cos as int, self.sin as int)
    }

    /// The heading of angle zero: pointing along the positive x axis.
    pub fn zero() -> (h: Heading)
        ensures
            h.wf(),
            h == (Heading { angle: 0, cos: SCALE, sin: 0 }),
    {
        let h = Heading { angle: 0, cos: SCALE, sin: 0 };
        assert(SCALE * SCALE + 0 * 0 == SCALE * SCALE) by (nonlinear_arith);
        h
    }

    /// Builds a heading from an angle and its cosine and sine, all in fixed point;
    /// `None` when (cos, sin) is not a unit vector.
    pub fn from_parts(angle: i64, cos: i64, sin: i64) -> (r: Option<Heading>)
        ensures
            r is Some <==> unit_pair(cos as int, sin as int),
            r matches Some(h) ==> h == (Heading { angle, cos, sin }) && h.wf(),
    {
        if cos < -SCALE || cos > SCALE || sin < -SCALE || sin > SCALE {
            return None;
        }
        let c = cos as i128;
        let s = sin as i128;
        assert(c * c <= (SCALE as int) * (SCALE as int)) by (nonlinear_arith)
            requires -SCALE <= c <= SCALE;
        assert(s * s <= (SCALE as int) * (SCALE as int)) by (nonlinear_arith)
            requires -SCALE <= s <= SCALE;
        assert(0 <= c * c && 0 <= s * s) by (nonlinear_arith);
        let norm = c * c + s * s;
        let unit = (SCALE as i128) * (SCALE as i128);
        if norm < unit - (UNIT_SLACK as i128) || norm > unit + (UNIT_SLACK as i128) {
            None
        } else {
            Some(Heading { angle, cos, sin })
        }
    }
}

/// The fixed-point product `a * b / SCALE`, rounded toward zero.
pub fn scaled_product(a: i64, b: i64) -> (r: i64)
    requires
        -1_000_000_000_000 <= a <= 1_000_000_000_000,
        -1_000_000 <= b <= 1_000_000,
    ensures
        r == scaled(a as int, b as int),
{
    assert(-1_000_000_000_000_000_000 <= a * b <= 1_000_000_000_000_000_000) by (nonlinear_arith)
        requires
            -1_000_000_000_000 <= a <= 1_000_000_000_000,
            -1_000_000 <= b <= 1_000_000,
    ;
    let p = (a as i128) * (b as i128);
    if p >= 0 {
        (p / (SCALE as i128)) as i64
    } else {
        -((-p) / (SCALE as i128)) as i64
    }
}

/// The fixed-point product `a * b / SCALE`, rounded to the nearest integer.
pub fn rounded_product(a: i64, b: i64) -> (r: i64)
    requires
        -1_000_000_000_000 <= a <= 1_000_000_000_000,
        -1_000_000 <= b <= 1_000_000,
    ensures
        r == rounded(a as int, b as int),
{
    assert(-1_000_000_000_000_000_000 <= a * b <= 1_000_000_000_000_000_000) by (nonlinear_arith)
        requires
            -1_000_000_000_000 <= a <= 1_000_000_000_000,
            -1_000_000 <= b <= 1_000_000,
    ;
    let p = (a as i128) * (b as i128);
    let half = (SCALE / 2) as i128;
    if p >= 0 {
        ((p + half) / (SCALE as i128)) as i64
    } else {
        -((-p + half) / (SCALE as i128)) as i64
    }
}

} // verus!
