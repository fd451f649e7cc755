use vstd::prelude::*;

verus! {

/// Largest magnitude a world coordinate may take, in pixels. Keeping every
/// coordinate inside this range lets all collision arithmetic stay well within
/// `i64`, and the snapping arithmetic of the kinematics stay within `i32`.
pub const POS_LIMIT: i32 = 100_000_000;

/// Largest width or height of any rectangle, in pixels.
pub const SIZE_LIMIT: u32 = 1_000_000;

/// Largest elapsed time one tick may carry, in milliseconds. The surrounding
/// game loop clamps the frame time to a few tens of milliseconds before it
/// reaches the simulation, so this bound is generous.
pub const MAX_TICK: u32 = 1_000_000;

/// Velocities are stored in thousandths of a pixel per millisecond, so that
/// sub-pixel speeds (such as the gravity increment) are exact integers.
pub const MILLI: i32 = 1000;

/// A 2D point with integer pixel coordinates.
#[derive(Clone, Copy, PartialEq, Eq, Structural, Debug)]
pub struct Vector2(pub i32, pub i32);

impl Vector2 {
    /// The horizontal coordinate of the point.
    pub fn left(&self) -> (r: i32)
        ensures
            r == self.0,
    {
        self.0
    }

    /// The vertical coordinate of the point.
    pub fn top(&self) -> (r: i32)
        ensures
            r == self.1,
    {
        self.1
    }
}

/// An axis-aligned rectangle in world pixel units.
#[derive(Clone, Copy, PartialEq, Eq, Structural, Debug)]
pub struct Rect {
    pub x: i32,
    pub y: i32,
    pub width: u32,
    pub height: u32,
}

impl Rect {
    /// A rectangle is well formed when its origin lies inside the world's
    /// coordinate range and its sides are of bounded length.
    pub open spec fn wf(self) -> bool {
        &&& -POS_LIMIT <= self.x <= POS_LIMIT
        &&& -POS_LIMIT <= self.y <= POS_LIMIT
        &&& self.width <= SIZE_LIMIT
        &&& self.height <= SIZE_LIMIT
    }

    pub open spec fn spec_left(self) -> int {
        self.x as int
    }

    pub open spec fn spec_right(self) -> int {
        self.x + self.width
    }

    pub open spec fn spec_top(self) -> int {
        self.y as int
    }

    pub open spec fn spec_bottom(self) -> int {
        self.y + self.height
    }

    /// Twice the horizontal center of the rectangle. Working with the doubled
    /// value keeps half-pixel centers exact in integer arithmetic.
    pub open spec fn spec_center_x2(self) -> int {
        2 * self.x + self.width
    }

    /// Twice the vertical center of the rectangle.
    pub open spec fn spec_center_y2(self) -> int {
        2 * self.y + self.height
    }

    pub fn new(x: i32, y: i32, width: u32, height: u32) -> (r: Rect)
        ensures
            r == (Rect { x, y, width, height }),
    {
        Rect { x, y, width, height }
    }

    pub fn width(&self) -> (r: u32)
        ensures
            r == self.width,
    {
        self.width
    }

    pub fn height(&self) -> (r: u32)
        ensures
            r == self.height,
    {
        self.height
    }

    pub fn left(&self) -> (r: i32)
        ensures
            r == self.spec_left(),
    {
        self.x
    }

    pub fn right(&self) -> (r: i32)
        requires
            self.wf(),
        ensures
            r == self.spec_right(),
    {
        self.x + self.width as i32
    }

    pub fn top(&self) -> (r: i32)
        ensures
            r == self.spec_top(),
    {
        self.y
    }

    pub fn bottom(&self) -> (r: i32)
        requires
            self.wf(),
        ensures
            r == self.spec_bottom(),
    {
        self.y + self.height as i32
    }

    /// Twice the horizontal center, exact even for half-pixel centers.
    pub fn center_x2(&self) -> (r: i64)
        ensures
            r == self.spec_center_x2(),
    {
        2 * self.x as i64 + self.width as i64
    }

    /// Twice the vertical center, exact even for half-pixel centers.
    pub fn center_y2(&self) -> (r: i64)
        ensures
            r == self.spec_center_y2(),
    {
        2 * self.y as i64 + self.height as i64
    }
}

/// Division of `a` by a positive divisor that rounds toward zero, the rounding
/// of a float-to-integer cast. On spec-level integers `/` rounds toward
/// negative infinity, so the negative case is phrased through the magnitude.
pub open spec fn div_trunc(a: int, b: int) -> int
    recommends
        b > 0,
{
    if a >= 0 {
        a / b
    } else {
        -((-a) / b)
    }
}

/// Division of `a` by a positive divisor that rounds toward positive
/// infinity. On spec-level integers `/` rounds toward negative infinity, so
/// the quotient is bumped whenever the division is inexact.
pub open spec fn div_ceil(a: int, b: int) -> int
    recommends
        b > 0,
{
    if a % b == 0 {
        a / b
    } else {
        a / b + 1
    }
}

/// Division rounding toward zero by any nonzero divisor.
pub open spec fn div_trunc_any(a: int, b: int) -> int
    recommends
        b != 0,
{
    if b > 0 {
        div_trunc(a, b)
    } else {
        div_trunc(-a, -b)
    }
}

/// Clamps a coordinate into the world's range.
pub open spec fn clamp_pos(p: int) -> int {
    if p < -POS_LIMIT {
        -POS_LIMIT as int
    } else if p > POS_LIMIT {
        POS_LIMIT as int
    } else {
        p
    }
}

/// The displacement covered in `dt` milliseconds at velocity `v` thousandths
/// of a pixel per millisecond, truncated toward zero to whole pixels.
pub open spec fn scaled_delta(v: int, dt: int) -> int {
    div_trunc(v * dt, MILLI as int)
}

/// Truncating division, rounding toward zero as a float-to-integer cast does.
pub fn div_trunc_i64(a: i64, b: u32) -> (r: i64)
    requires
        b > 0,
        -0x2000_0000_0000_0000 <= a <= 0x2000_0000_0000_0000,
    ensures
        r == div_trunc(a as int, b as int),
        -0x2000_0000_0000_0000 <= r <= 0x2000_0000_0000_0000,
{
    if a >= 0 {
        let q: u64 = (a as u64) / (b as u64);
        proof {
            vstd::arithmetic::div_mod::lemma_div_nonincreasing(a as int, b as int);
        }
        q as i64
    } else {
        let m: u64 = (-a) as u64;
        let q: u64 = m / (b as u64);
        proof {
            vstd::arithmetic::div_mod::lemma_div_nonincreasing(m as int, b as int);
        }
        -(q as i64)
    }
}

/// Ceiling division by a positive divisor.
pub fn div_ceil_i64(a: i64, b: u32) -> (r: i64)
    requires
        b > 0,
        -0x2000_0000_0000_0000 <= a <= 0x2000_0000_0000_0000,
    ensures
        r == div_ceil(a as int, b as int),
{
    if a >= 0 {
        let q: u64 = (a as u64) / (b as u64);
        let rem: u64 = (a as u64) % (b as u64);
        if rem == 0 {
            q as i64
        } else {
            q as i64 + 1
        }
    } else {
        let m: u64 = (-a) as u64;
        let mq: u64 = m / (b as u64);
        let mrem: u64 = m % (b as u64);
        proof {
            vstd::arithmetic::div_mod::lemma_fundamental_div_mod(m as int, b as int);
            if mrem == 0 {
                assert(a as int == (-(mq as int)) * (b as int) + 0) by (nonlinear_arith)
                    requires
                        m as int == (b as int) * (mq as int) + (mrem as int),
                        a as int == -(m as int),
                        mrem == 0,
                ;
                vstd::arithmetic::div_mod::lemma_fundamental_div_mod_converse_div(
                    a as int,
                    b as int,
                    -(mq as int),
                    0,
                );
                vstd::arithmetic::div_mod::lemma_fundamental_div_mod_converse_mod(
                    a as int,
                    b as int,
                    -(mq as int),
                    0,
                );
            } else {
                assert(a as int == (-(mq as int) - 1) * (b as int) + ((b as int) - (mrem as int)))
                    by (nonlinear_arith)
                    requires
                        m as int == (b as int) * (mq as int) + (mrem as int),
                        a as int == -(m as int),
                ;
                vstd::arithmetic::div_mod::lemma_fundamental_div_mod_converse_div(
                    a as int,
                    b as int,
                    -(mq as int) - 1,
                    (b as int) - (mrem as int),
                );
                vstd::arithmetic::div_mod::lemma_fundamental_div_mod_converse_mod(
                    a as int,
                    b as int,
                    -(mq as int) - 1,
                    (b as int) - (mrem as int),
                );
            }
        }
        -(mq as i64)
    }
}

/// Truncating division by any nonzero divisor.
pub fn div_trunc_any_i64(a: i64, b: i64) -> (r: i64)
    requires
        b != 0,
        -0x2000_0000_0000_0000 <= a <= 0x2000_0000_0000_0000,
        -0x2000_0000_0000_0000 <= b <= 0x2000_0000_0000_0000,
    ensures
        r == div_trunc_any(a as int, b as int),
        -0x2000_0000_0000_0000 <= r <= 0x2000_0000_0000_0000,
{
    let negative = (a < 0) != (b < 0);
    let ma: u64 = if a >= 0 {
        a as u64
    } else {
        (-a) as u64
    };
    let mb: u64 = if b >= 0 {
        b as u64
    } else {
        (-b) as u64
    };
    let q: u64 = ma / mb;
    proof {
        vstd::arithmetic::div_mod::lemma_div_nonincreasing(ma as int, mb as int);
    }
    if negative {
        -(q as i64)
    } else {
        q as i64
    }
}

/// Clamps a coordinate into the world's range.
pub fn clamp_to_world(p: i64) -> (r: i32)
    ensures
        r == clamp_pos(p as int),
{
    if p < -POS_LIMIT as i64 {
        -POS_LIMIT
    } else if p > POS_LIMIT as i64 {
        POS_LIMIT
    } else {
        p as i32
    }
}

/// The displacement covered in `dt` milliseconds at velocity `v` thousandths
/// of a pixel per millisecond, truncated toward zero to whole pixels.
pub fn scaled_delta_i64(v: i32, dt: u32) -> (r: i64)
    requires
        dt <= MAX_TICK,
    ensures
        r == scaled_delta(v as int, dt as int),
        -0x2000_0000_0000_0000 <= r <= 0x2000_0000_0000_0000,
{
    proof {
        assert(-0x2000_0000_0000_0000 <= (v as int) * (dt as int) <= 0x2000_0000_0000_0000)
            by (nonlinear_arith)
            requires
                -0x8000_0000 <= v as int <= 0x8000_0000,
                0 <= dt as int <= MAX_TICK as int,
        ;
    }
    let p: i64 = v as i64 * dt as i64;
    div_trunc_i64(p, 1000)
}

} // verus!
