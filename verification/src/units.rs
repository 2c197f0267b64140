//! Units of measure shared by every part of the core.

use vstd::prelude::*;

verus! {

/// Billionths of a pixel in one whole pixel.
pub const NANOS_PER_PIXEL: i64 = 1_000_000_000;

/// A collider position in whole pixels.
#[derive(Clone, Copy, Debug, PartialEq, Eq, Structural)]
pub struct Point {
    pub x: i32,
    pub y: i32,
}

/// A velocity in thousandths of a pixel per second.
#[derive(Clone, Copy, Debug, PartialEq, Eq, Structural)]
pub struct Velocity {
    pub x: i32,
    pub y: i32,
}

/// The distance to cover within one frame, in billionths of a pixel.
#[derive(Clone, Copy, Debug, PartialEq, Eq, Structural)]
pub struct Displacement {
    pub dx: i64,
    pub dy: i64,
}

/// A position finer than the pixel grid, in billionths of a pixel.
#[derive(Clone, Copy, Debug, PartialEq, Eq, Structural)]
pub struct FinePoint {
    pub x: i64,
    pub y: i64,
}

/// One reading of the clock: the monotonic time and the time the last frame
/// took, both in microseconds.
#[derive(Clone, Copy, Debug, PartialEq, Eq, Structural)]
pub struct Frame {
    pub now: u64,
    pub dt: u32,
}

/// The time that has passed at `now` since `since`; zero if the clock reads
/// earlier than `since`.
pub open spec fn elapsed_since(now: u64, since: u64) -> nat {
    if now >= since {
        (now - since) as nat
    } else {
        0
    }
}

/// `value` brought into the range of `i32`.
pub open spec fn clamp_to_i32(value: int) -> int {
    if value < i32::MIN {
        i32::MIN as int
    } else if value > i32::MAX {
        i32::MAX as int
    } else {
        value
    }
}

/// `value` brought into the range of `i64`.
pub open spec fn clamp_to_i64(value: int) -> int {
    if value < i64::MIN {
        i64::MIN as int
    } else if value > i64::MAX {
        i64::MAX as int
    } else {
        value
    }
}

/// The sum of two coordinates, kept within the range of `i32`.
fn add_clamped_i32(a: i32, b: i32) -> (s: i32)
    ensures
        s == clamp_to_i32(a + b),
{
    let wide: i64 = a as i64 + b as i64;
    if wide < i32::MIN as i64 {
        i32::MIN
    } else if wide > i32::MAX as i64 {
        i32::MAX
    } else {
        wide as i32
    }
}

/// The sum of two fine coordinates, kept within the range of `i64`.
fn add_clamped_i64(a: i64, b: i64) -> (s: i64)
    ensures
        s == clamp_to_i64(a + b),
{
    let wide: i128 = a as i128 + b as i128;
    if wide < i64::MIN as i128 {
        i64::MIN
    } else if wide > i64::MAX as i128 {
        i64::MAX
    } else {
        wide as i64
    }
}

/// The time between two readings of the clock, as [`elapsed_since`] defines
/// it.
pub fn elapsed(now: u64, since: u64) -> (t: u64)
    ensures
        t == elapsed_since(now, since),
{
    if now >= since {
        now - since
    } else {
        0
    }
}

/// A timer that has `remaining` microseconds left, after `dt` more have
/// passed; it stops at zero.
pub open spec fn run_down(remaining: u64, dt: u32) -> u64 {
    if remaining >= dt {
        (remaining - dt) as u64
    } else {
        0
    }
}

impl Point {
    /// The point reached from `self` by `by`, each coordinate kept within the
    /// range of `i32`.
    pub open spec fn shifted(self, by: Point) -> Point {
        Point {
            x: clamp_to_i32(self.x + by.x) as i32,
            y: clamp_to_i32(self.y + by.y) as i32,
        }
    }

    /// Shifts the point by an offset; a coordinate that would leave the
    /// range of `i32` stays at its end.
    pub fn offset(self, by: Point) -> (p: Point)
        ensures
            p == self.shifted(by),
    {
        Point { x: add_clamped_i32(self.x, by.x), y: add_clamped_i32(self.y, by.y) }
    }

    /// Whether `self` and `other` are closer than `range` pixels on both
    /// axes.
    pub open spec fn near(self, other: Point, range: u32) -> bool {
        &&& -(range as int) < self.x - other.x < range
        &&& -(range as int) < self.y - other.y < range
    }

    /// Axis-aligned proximity test: both coordinate differences are below
    /// `range` in magnitude.
    pub fn is_near(self, other: Point, range: u32) -> (b: bool)
        ensures
            b == self.near(other, range),
    {
        let dx: i64 = self.x as i64 - other.x as i64;
        let dy: i64 = self.y as i64 - other.y as i64;
        let r: i64 = range as i64;
        -r < dx && dx < r && -r < dy && dy < r
    }
}

impl FinePoint {
    /// The pixel that holds this place: each coordinate rounded down to a
    /// whole pixel and kept within the range of `i32`.
    pub open spec fn pixel(self) -> Point {
        Point {
            x: clamp_to_i32(self.x as int / NANOS_PER_PIXEL as int) as i32,
            y: clamp_to_i32(self.y as int / NANOS_PER_PIXEL as int) as i32,
        }
    }

    /// Rounds down to the pixel grid.
    pub fn to_pixel(self) -> (p: Point)
        ensures
            p == self.pixel(),
    {
        Point { x: floor_pixel(self.x), y: floor_pixel(self.y) }
    }

    /// The place reached from `self` by `by`, each coordinate kept within the
    /// range of `i64`.
    pub open spec fn moved(self, by: Displacement) -> FinePoint {
        FinePoint {
            x: clamp_to_i64(self.x + by.dx) as i64,
            y: clamp_to_i64(self.y + by.dy) as i64,
        }
    }

    /// Moves by a displacement; a coordinate that would leave the range of
    /// `i64` stays at its end.
    pub fn advance(self, by: Displacement) -> (p: FinePoint)
        ensures
            p == self.moved(by),
    {
        FinePoint { x: add_clamped_i64(self.x, by.dx), y: add_clamped_i64(self.y, by.dy) }
    }
}

/// One fine coordinate rounded down to whole pixels.
fn floor_pixel(c: i64) -> (p: i32)
    ensures
        p == clamp_to_i32(c as int / NANOS_PER_PIXEL as int),
{
    let q: i64 = c / NANOS_PER_PIXEL;
    let r: i64 = c % NANOS_PER_PIXEL;
    let floor: i64 = if r < 0 { q - 1 } else { q };
    if floor < i32::MIN as i64 {
        i32::MIN
    } else if floor > i32::MAX as i64 {
        i32::MAX
    } else {
        floor as i32
    }
}

impl Velocity {
    /// A velocity whose components can both be negated.
    pub open spec fn well_formed(self) -> bool {
        self.x > i32::MIN && self.y > i32::MIN
    }

    /// The distance covered at this velocity in `dt` microseconds.
    pub open spec fn over(self, dt: u32) -> Displacement {
        Displacement { dx: (self.x * dt) as i64, dy: (self.y * dt) as i64 }
    }

    /// The velocity turned by a quarter turn: `(x, y)` becomes `(-y, x)`.
    pub open spec fn quarter_turned(self) -> Velocity {
        Velocity { x: (-self.y) as i32, y: self.x }
    }

    /// Distance covered in `dt` microseconds: thousandths of a pixel per
    /// second times microseconds are billionths of a pixel.
    pub fn travel(self, dt: u32) -> (d: Displacement)
        ensures
            d == self.over(dt),
            d.dx == self.x * dt,
            d.dy == self.y * dt,
    {
        Displacement { dx: scale(self.x, dt), dy: scale(self.y, dt) }
    }
}

/// The product of one velocity component and a frame time.
fn scale(v: i32, dt: u32) -> (d: i64)
    ensures
        d == v * dt,
{
    assert(-0x8000_0000 * 0xffff_ffff <= v * dt <= 0x7fff_ffff * 0xffff_ffff) by (nonlinear_arith)
        requires
            -0x8000_0000 <= v <= 0x7fff_ffff,
            0 <= dt <= 0xffff_ffff,
    ;
    v as i64 * dt as i64
}

impl Displacement {
    /// No motion at all.
    pub open spec fn zero() -> Displacement {
        Displacement { dx: 0, dy: 0 }
    }

    /// The displacement that moves nothing.
    pub fn none() -> (d: Displacement)
        ensures
            d == Displacement::zero(),
    {
        Displacement { dx: 0, dy: 0 }
    }
}

} // verus!
