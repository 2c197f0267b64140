//! Directions and their normalisation to unit length on an integer grid.

use vstd::prelude::*;

verus! {

/// The length of a unit vector on the heading grid: a [`Heading`] holds the
/// components of a direction of length one, multiplied by this.
pub const UNIT: i32 = 1_000_000;

/// A direction as it is given: any vector, of any length.
#[derive(Clone, Copy, Debug, PartialEq, Eq, Structural)]
pub struct Direction {
    pub x: i32,
    pub y: i32,
}

/// A direction of unit length, in millionths.
#[derive(Clone, Copy, Debug, PartialEq, Eq, Structural)]
pub struct Heading {
    pub x: i32,
    pub y: i32,
}

/// Whether `r` is the square root of `n`, rounded down.
pub open spec fn is_floor_sqrt(n: int, r: int) -> bool {
    0 <= r && r * r <= n < (r + 1) * (r + 1)
}

/// The square root of `n`, rounded down.
pub open spec fn floor_sqrt(n: int) -> int {
    choose|r: int| is_floor_sqrt(n, r)
}

/// `num / den` rounded toward zero, for a positive `den`.
pub open spec fn toward_zero(num: int, den: int) -> int {
    if num >= 0 {
        num / den
    } else {
        -((-num) / den)
    }
}

/// The heading that points along `dir`. A zero direction has no heading of
/// its own and gets the positive x axis.
pub open spec fn normalized(dir: Direction) -> Heading {
    if dir.x == 0 && dir.y == 0 {
        Heading { x: UNIT, y: 0 }
    } else {
        let n = floor_sqrt((dir.x * dir.x + dir.y * dir.y) * (UNIT * UNIT));
        Heading {
            x: toward_zero(dir.x * (UNIT * UNIT), n) as i32,
            y: toward_zero(dir.y * (UNIT * UNIT), n) as i32,
        }
    }
}

impl Heading {
    /// The squared length of the heading, in squared millionths.
    pub open spec fn norm_squared(self) -> int {
        self.x * self.x + self.y * self.y
    }

    /// A heading has unit length up to two millionths, and no component
    /// longer than the unit.
    pub open spec fn well_formed(self) -> bool {
        &&& -UNIT <= self.x <= UNIT
        &&& -UNIT <= self.y <= UNIT
        &&& (UNIT - 2) * (UNIT - 2) <= self.norm_squared() <= (UNIT + 2) * (UNIT + 2)
    }
}

/// Two numbers that are both the rounded-down square root of `n` are equal.
pub proof fn lemma_floor_sqrt_unique(n: int, a: int, b: int)
    requires
        is_floor_sqrt(n, a),
        is_floor_sqrt(n, b),
    ensures
        a == b,
{
    if a < b {
        assert((a + 1) * (a + 1) <= b * b) by (nonlinear_arith)
            requires
                0 <= a,
                a + 1 <= b,
        ;
    } else if b < a {
        assert((b + 1) * (b + 1) <= a * a) by (nonlinear_arith)
            requires
                0 <= b,
                b + 1 <= a,
        ;
    }
}

/// A number that passes [`is_floor_sqrt`] is the value of [`floor_sqrt`].
pub proof fn lemma_floor_sqrt_is(n: int, r: int)
    requires
        is_floor_sqrt(n, r),
    ensures
        floor_sqrt(n) == r,
{
    lemma_floor_sqrt_unique(n, floor_sqrt(n), r);
}

/// Square root of `n`, rounded down, by bisection.
pub fn integer_sqrt(n: u128) -> (r: u64)
    ensures
        is_floor_sqrt(n as int, r as int),
        r == floor_sqrt(n as int),
{
    let mut lo: u128 = 0;
    let mut hi: u128 = 0x1_0000_0000_0000_0000;
    assert(hi * hi > n) by (nonlinear_arith)
        requires
            hi == 0x1_0000_0000_0000_0000,
            n <= 0xffff_ffff_ffff_ffff_ffff_ffff_ffff_ffff,
    ;
    while hi - lo > 1
        invariant
            lo < hi <= 0x1_0000_0000_0000_0000,
            lo * lo <= n < hi * hi,
        decreases hi - lo,
    {
        let mid: u128 = lo + (hi - lo) / 2;
        assert(mid * mid <= 0xffff_ffff_ffff_ffff * 0xffff_ffff_ffff_ffff) by (nonlinear_arith)
            requires
                0 <= mid <= 0xffff_ffff_ffff_ffff,
        ;
        if mid * mid <= n {
            lo = mid;
        } else {
            hi = mid;
        }
    }
    proof {
        assert(hi == lo + 1);
        lemma_floor_sqrt_is(n as int, lo as int);
    }
    lo as u64
}

/// The magnitude of a component.
fn magnitude(c: i32) -> (m: u128)
    ensures
        m == if c >= 0 { c as int } else { -(c as int) },
{
    if c >= 0 {
        c as u128
    } else {
        (-(c as i64)) as u128
    }
}

/// For non-negative `a`, `b` and `n` the rounded-down root of `(a² + b²)·u²`,
/// the quotients `p = a·u²/n` and `q = b·u²/n` are at most `u` each, and the
/// vector `(p, q)` is within two of the length `u`.
proof fn lemma_quotients_have_unit_length(a: int, b: int, u: int, n: int, p: int, q: int)
    requires
        0 <= a,
        0 <= b,
        a + b > 0,
        u >= 2,
        is_floor_sqrt((a * a + b * b) * (u * u), n),
        n > 0,
        p == (a * (u * u)) / n,
        q == (b * (u * u)) / n,
    ensures
        0 <= p <= u,
        0 <= q <= u,
        (u - 2) * (u - 2) <= p * p + q * q <= (u + 2) * (u + 2),
{
    let d = a * a + b * b;
    let au = a * (u * u);
    let bu = b * (u * u);
    let t = d * (u * u);
    assert(d >= 1) by (nonlinear_arith)
        requires
            0 <= a,
            0 <= b,
            a + b > 0,
            d == a * a + b * b,
    ;
    // n is at least u
    assert(n >= u) by (nonlinear_arith)
        requires
            d >= 1,
            u >= 2,
            n >= 0,
            t == d * (u * u),
            t < (n + 1) * (n + 1),
    ;
    // what the two divisions leave
    assert(p * n <= au < (p + 1) * n && 0 <= p) by (nonlinear_arith)
        requires
            n > 0,
            au >= 0,
            p == au / n,
    ;
    assert(q * n <= bu < (q + 1) * n && 0 <= q) by (nonlinear_arith)
        requires
            n > 0,
            bu >= 0,
            q == bu / n,
    ;
    assert(au >= 0 && bu >= 0) by (nonlinear_arith)
        requires
            0 <= a,
            0 <= b,
            au == a * (u * u),
            bu == b * (u * u),
    ;
    // no component exceeds u
    lemma_component_at_most_unit(a, b, u, n, p);
    lemma_component_at_most_unit(b, a, u, n, q);
    // the squares of the numerators add up to t·u²
    assert(au * au + bu * bu == t * (u * u)) by (nonlinear_arith)
        requires
            au == a * (u * u),
            bu == b * (u * u),
            t == (a * a + b * b) * (u * u),
    ;
    lemma_length_at_most(u, n, p, q, au, bu, t);
    lemma_length_at_least(u, n, p, q, au, bu, t);
}

/// One quotient of [`lemma_quotients_have_unit_length`] is at most `u`.
proof fn lemma_component_at_most_unit(a: int, b: int, u: int, n: int, p: int)
    requires
        0 <= a,
        0 <= b,
        u >= 2,
        n > 0,
        is_floor_sqrt((a * a + b * b) * (u * u), n),
        p == (a * (u * u)) / n,
    ensures
        p <= u,
{
    let s = a * u;
    assert(s * s <= (a * a + b * b) * (u * u)) by (nonlinear_arith)
        requires
            s == a * u,
            0 <= a,
            0 <= b,
            u >= 2,
    ;
    assert(s < n + 1) by (nonlinear_arith)
        requires
            s * s < (n + 1) * (n + 1),
            n >= 0,
            s >= 0,
    {
        assert(s >= 0);
    }
    assert(a * (u * u) <= n * u) by (nonlinear_arith)
        requires
            s == a * u,
            s <= n,
            u >= 2,
    ;
    assert(p <= u) by (nonlinear_arith)
        requires
            p == (a * (u * u)) / n,
            a * (u * u) <= n * u,
            n > 0,
    ;
}

/// The vector of quotients is no longer than `u + 2`.
proof fn lemma_length_at_most(u: int, n: int, p: int, q: int, au: int, bu: int, t: int)
    requires
        u >= 2,
        n >= u,
        0 <= p,
        0 <= q,
        p * n <= au,
        q * n <= bu,
        au * au + bu * bu == t * (u * u),
        t < (n + 1) * (n + 1),
    ensures
        p * p + q * q <= (u + 2) * (u + 2),
{
    let l = p * p + q * q;
    assert((p * n) * (p * n) <= au * au) by (nonlinear_arith)
        requires
            0 <= p,
            n >= 0,
            p * n <= au,
    ;
    assert((q * n) * (q * n) <= bu * bu) by (nonlinear_arith)
        requires
            0 <= q,
            n >= 0,
            q * n <= bu,
    ;
    assert(l * (n * n) == (p * n) * (p * n) + (q * n) * (q * n)) by (nonlinear_arith)
        requires
            l == p * p + q * q,
    ;
    assert(t * (u * u) <= ((n + 1) * (n + 1) - 1) * (u * u)) by (nonlinear_arith)
        requires
            t <= (n + 1) * (n + 1) - 1,
            u >= 2,
    ;
    // so l·n² < (u·(n+1))²
    let big = (u * (n + 1)) * (u * (n + 1));
    assert(((n + 1) * (n + 1) - 1) * (u * u) < big) by (nonlinear_arith)
        requires
            big == (u * (n + 1)) * (u * (n + 1)),
            u >= 2,
    ;
    assert(l * (n * n) < big);
    if l > (u + 2) * (u + 2) {
        assert(((u + 2) * n) * ((u + 2) * n) <= l * (n * n)) by (nonlinear_arith)
            requires
                l >= (u + 2) * (u + 2),
                n >= 0,
        ;
        assert((u + 2) * n < u * (n + 1)) by (nonlinear_arith)
            requires
                ((u + 2) * n) * ((u + 2) * n) < (u * (n + 1)) * (u * (n + 1)),
                u >= 2,
                n >= 0,
        ;
        assert((u + 2) * n == u * n + 2 * n && u * (n + 1) == u * n + u) by (nonlinear_arith);
        assert(false);
    }
}

/// The vector of quotients is no shorter than `u - 2`.
proof fn lemma_length_at_least(u: int, n: int, p: int, q: int, au: int, bu: int, t: int)
    requires
        u >= 2,
        n >= u,
        0 <= p,
        0 <= q,
        0 <= au < (p + 1) * n,
        0 <= bu < (q + 1) * n,
        au * au + bu * bu == t * (u * u),
        n * n <= t,
    ensures
        (u - 2) * (u - 2) <= p * p + q * q,
{
    let l = p * p + q * q;
    let p_next = p + 1;
    let q_next = q + 1;
    assert(au * au < (p_next * n) * (p_next * n)) by (nonlinear_arith)
        requires
            0 <= au < p_next * n,
    ;
    assert(bu * bu < (q_next * n) * (q_next * n)) by (nonlinear_arith)
        requires
            0 <= bu < q_next * n,
    ;
    assert((n * n) * (u * u) <= t * (u * u)) by (nonlinear_arith)
        requires
            n * n <= t,
            u >= 2,
    ;
    assert((p_next * n) * (p_next * n) + (q_next * n) * (q_next * n) == (p_next * p_next + q_next * q_next) * (n * n))
        by (nonlinear_arith);
    assert(p_next * p_next + q_next * q_next > u * u) by (nonlinear_arith)
        requires
            (p_next * p_next + q_next * q_next) * (n * n) > (n * n) * (u * u),
            n > 0,
    ;
    assert(p_next * p_next + q_next * q_next == l + 2 * (p + q) + 2) by (nonlinear_arith)
        requires
            p_next == p + 1,
            q_next == q + 1,
            l == p * p + q * q,
    ;
    if l < (u - 2) * (u - 2) {
        assert((u - 2) * (u - 2) == u * u - 4 * u + 4) by (nonlinear_arith);
        assert(p + q >= 2 * u - 2);
        assert((p + q) * (p + q) <= 2 * l) by (nonlinear_arith)
            requires
                l == p * p + q * q,
        ;
        assert((p + q) * (p + q) >= (2 * u - 2) * (2 * u - 2)) by (nonlinear_arith)
            requires
                p + q >= 2 * u - 2,
                u >= 2,
        ;
        assert((2 * u - 2) * (2 * u - 2) == 4 * (u * u) - 8 * u + 4) by (nonlinear_arith);
        assert(u * u >= 2 * u) by (nonlinear_arith)
            requires
                u >= 2,
        ;
        assert(false);
    }
}

/// Every non-negative number has a rounded-down square root.
pub proof fn lemma_floor_sqrt_exists(n: int)
    requires
        n >= 0,
    ensures
        is_floor_sqrt(n, floor_sqrt(n)),
    decreases n,
{
    if n == 0 {
        assert(is_floor_sqrt(0, 0));
    } else {
        lemma_floor_sqrt_exists(n - 1);
        let r = floor_sqrt(n - 1);
        if (r + 1) * (r + 1) <= n {
            assert((r + 1) * (r + 1) < (r + 2) * (r + 2)) by (nonlinear_arith)
                requires
                    r >= 0,
            ;
            assert(is_floor_sqrt(n, r + 1));
        } else {
            assert(is_floor_sqrt(n, r));
        }
    }
}

/// The stored direction of a throw has unit length: whatever direction is
/// given, its heading is one unit long up to two millionths, and the zero
/// direction, which has no heading of its own, always gets the positive x
/// axis.
pub proof fn lemma_normalized_is_unit(dir: Direction)
    ensures
        normalized(dir).well_formed(),
        dir.x == 0 && dir.y == 0 ==> normalized(dir) == (Heading { x: UNIT, y: 0 }),
{
    if dir.x == 0 && dir.y == 0 {
        assert(UNIT * UNIT == 1_000_000_000_000);
    } else {
        let a: int = if dir.x >= 0 { dir.x as int } else { -(dir.x as int) };
        let b: int = if dir.y >= 0 { dir.y as int } else { -(dir.y as int) };
        let uu: int = UNIT * UNIT;
        let t = (dir.x * dir.x + dir.y * dir.y) * uu;
        let n = floor_sqrt(t);
        assert(dir.x * dir.x == a * a && dir.y * dir.y == b * b) by (nonlinear_arith)
            requires
                a == dir.x || a == -dir.x,
                b == dir.y || b == -dir.y,
        ;
        assert(a * a + b * b >= 1) by (nonlinear_arith)
            requires
                a >= 0,
                b >= 0,
                a + b > 0,
        ;
        assert(t >= 1) by (nonlinear_arith)
            requires
                t == (a * a + b * b) * uu,
                a * a + b * b >= 1,
                uu == 1_000_000_000_000,
        ;
        lemma_floor_sqrt_exists(t);
        assert(n > 0) by (nonlinear_arith)
            requires
                t >= 1,
                n >= 0,
                t < (n + 1) * (n + 1),
        ;
        let p = (a * uu) / n;
        let q = (b * uu) / n;
        lemma_quotients_have_unit_length(a, b, UNIT as int, n, p, q);
        assert(a * uu >= 0 && b * uu >= 0) by (nonlinear_arith)
            requires
                a >= 0,
                b >= 0,
                uu >= 0,
        ;
        assert(dir.x * uu == if dir.x >= 0 { a * uu } else { -(a * uu) }) by (nonlinear_arith)
            requires
                a == if dir.x >= 0 { dir.x as int } else { -(dir.x as int) },
        ;
        assert(dir.y * uu == if dir.y >= 0 { b * uu } else { -(b * uu) }) by (nonlinear_arith)
            requires
                b == if dir.y >= 0 { dir.y as int } else { -(dir.y as int) },
        ;
        assert(a == 0 ==> a * uu == 0);
        assert(b == 0 ==> b * uu == 0);
        let hx = toward_zero(dir.x * uu, n);
        let hy = toward_zero(dir.y * uu, n);
        assert(hx == p || hx == -p);
        assert(hy == q || hy == -q);
        assert(hx * hx == p * p && hy * hy == q * q) by (nonlinear_arith)
            requires
                hx == p || hx == -p,
                hy == q || hy == -q,
        ;
    }
}

/// Normalises a direction: the heading has the signs of `dir`'s components
/// and unit length; the zero direction gives the positive x axis.
pub fn unit_heading(dir: Direction) -> (h: Heading)
    ensures
        h == normalized(dir),
        h.well_formed(),
        dir.x >= 0 ==> h.x >= 0,
        dir.y >= 0 ==> h.y >= 0,
        dir.y <= 0 ==> h.y <= 0,
        dir.x < 0 || (dir.x == 0 && dir.y != 0) ==> h.x <= 0,
{
    if dir.x == 0 && dir.y == 0 {
        return Heading { x: UNIT, y: 0 };
    }
    let a: u128 = magnitude(dir.x);
    let b: u128 = magnitude(dir.y);
    let unit_squared: u128 = 1_000_000_000_000;
    assert(a * a + b * b <= 0x8000_0000_0000_0000) by (nonlinear_arith)
        requires
            0 <= a <= 0x8000_0000,
            0 <= b <= 0x8000_0000,
    ;
    let d: u128 = a * a + b * b;
    assert(d * unit_squared <= 0x8000_0000_0000_0000 * 1_000_000_000_000) by (nonlinear_arith)
        requires
            0 <= d <= 0x8000_0000_0000_0000,
            unit_squared == 1_000_000_000_000,
    ;
    let n: u64 = integer_sqrt(d * unit_squared);
    assert(a * unit_squared <= 0x8000_0000 * 1_000_000_000_000 && b * unit_squared <= 0x8000_0000
        * 1_000_000_000_000) by (nonlinear_arith)
        requires
            0 <= a <= 0x8000_0000,
            0 <= b <= 0x8000_0000,
            unit_squared == 1_000_000_000_000,
    ;
    proof {
        assert(UNIT * UNIT == 1_000_000_000_000);
        assert(dir.x * dir.x == a * a && dir.y * dir.y == b * b) by (nonlinear_arith)
            requires
                a == dir.x || a == -dir.x,
                b == dir.y || b == -dir.y,
        ;
        assert(d >= 1) by (nonlinear_arith)
            requires
                a >= 0,
                b >= 0,
                a + b > 0,
                a * a + b * b == d,
        ;
        assert(n > 0) by (nonlinear_arith)
            requires
                d >= 1,
                (d * unit_squared) < (n + 1) * (n + 1),
                unit_squared == 1_000_000_000_000,
                n >= 0,
        {
            assert(d * unit_squared >= 1);
        }
    }
    let p: u128 = a * unit_squared / (n as u128);
    let q: u128 = b * unit_squared / (n as u128);
    proof {
        lemma_quotients_have_unit_length(
            a as int,
            b as int,
            UNIT as int,
            n as int,
            p as int,
            q as int,
        );
        assert(dir.x * (UNIT * UNIT) == if dir.x >= 0 {
            a * unit_squared
        } else {
            -(a * unit_squared)
        }) by (nonlinear_arith)
            requires
                a == if dir.x >= 0 {
                    dir.x as int
                } else {
                    -(dir.x as int)
                },
                UNIT * UNIT == unit_squared,
        ;
        assert(dir.y * (UNIT * UNIT) == if dir.y >= 0 {
            b * unit_squared
        } else {
            -(b * unit_squared)
        }) by (nonlinear_arith)
            requires
                b == if dir.y >= 0 {
                    dir.y as int
                } else {
                    -(dir.y as int)
                },
                UNIT * UNIT == unit_squared,
        ;
        assert(a * unit_squared >= 0 && b * unit_squared >= 0) by (nonlinear_arith)
            requires
                a >= 0,
                b >= 0,
                unit_squared >= 0,
        ;
        assert(a == 0 ==> a * unit_squared == 0);
        assert(b == 0 ==> b * unit_squared == 0);
    }
    let hx: i32 = if dir.x >= 0 { p as i32 } else { -(p as i32) };
    let hy: i32 = if dir.y >= 0 { q as i32 } else { -(q as i32) };
    proof {
        assert(hx * hx == p * p && hy * hy == q * q) by (nonlinear_arith)
            requires
                hx == p || hx == -p,
                hy == q || hy == -q,
        ;
    }
    Heading { x: hx, y: hy }
}

} // verus!
