//! Points, placements and distances on the integer grid.

use vstd::prelude::*;

verus! {

/// A point or an extent on the playfield, in world units.
#[derive(Clone, Copy, Debug, PartialEq, Eq, Structural)]
pub struct Vector2 {
    pub x: i32,
    pub y: i32,
}

impl Vector2 {
    pub fn new(x: i32, y: i32) -> (r: Self)
        ensures
            r == (Vector2 { x, y }),
    {
        Vector2 { x, y }
    }
}

/// Where an entity is and how it is drawn.
#[derive(Clone, Copy, Debug, PartialEq, Eq, Structural)]
pub struct Transform {
    /// Centre of the entity.
    pub translation: Vector2,
    /// Depth layer: higher layers are drawn over lower ones.
    pub layer: i32,
    /// Scale of the sprite, in percent.
    pub scale: u16,
}

/// The value of `v` brought into the range of `i32`.
pub open spec fn clamp_i32(v: int) -> int {
    if v < i32::MIN {
        i32::MIN as int
    } else if v > i32::MAX {
        i32::MAX as int
    } else {
        v
    }
}

/// Moves a coordinate by `by`, stopping at the edge of the coordinate space.
pub fn shift(coordinate: i32, by: i64) -> (r: i32)
    ensures
        r == clamp_i32(coordinate + by),
{
    let wide: i128 = coordinate as i128 + by as i128;
    if wide < i32::MIN as i128 {
        i32::MIN
    } else if wide > i32::MAX as i128 {
        i32::MAX
    } else {
        wide as i32
    }
}

/// `root` is the whole part of the square root of `n`.
pub open spec fn is_sqrt(n: int, root: int) -> bool {
    0 <= root && root * root <= n < (root + 1) * (root + 1)
}

/// The whole part of the square root of `n`.
pub open spec fn sqrt(n: nat) -> nat {
    choose|root: nat| is_sqrt(n as int, root as int)
}

/// A number has one whole square root.
pub proof fn lemma_sqrt_unique(n: int, a: int, b: int)
    requires
        is_sqrt(n, a),
        is_sqrt(n, b),
    ensures
        a == b,
{
    assert(a < b ==> (a + 1) * (a + 1) <= b * b) by (nonlinear_arith)
        requires
            0 <= a,
            0 <= b,
    ;
    assert(b < a ==> (b + 1) * (b + 1) <= a * a) by (nonlinear_arith)
        requires
            0 <= a,
            0 <= b,
    ;
}

/// Every number has a whole square root, and `sqrt` is it.
pub proof fn lemma_sqrt(n: nat)
    ensures
        is_sqrt(n as int, sqrt(n) as int),
    decreases n,
{
    if n == 0 {
        assert(is_sqrt(0, 0));
    } else {
        lemma_sqrt((n - 1) as nat);
        let below = sqrt((n - 1) as nat);
        if (below + 1) * (below + 1) <= n {
            assert((below + 2) * (below + 2) > n) by (nonlinear_arith)
                requires
                    n - 1 < (below + 1) * (below + 1),
            ;
            assert(is_sqrt(n as int, (below + 1) as int));
        } else {
            assert(is_sqrt(n as int, below as int));
        }
    }
}

/// Computes the whole part of the square root of `n`.
pub fn isqrt(n: u128) -> (root: u64)
    ensures
        root == sqrt(n as nat),
        is_sqrt(n as int, root as int),
{
    let mut low: u128 = 0;
    let mut high: u128 = 0x1_0000_0000_0000_0000;
    assert(n < high * high) by (nonlinear_arith)
        requires
            high == 0x1_0000_0000_0000_0000,
            n <= u128::MAX,
    ;
    while high - low > 1
        invariant
            low < high <= 0x1_0000_0000_0000_0000,
            low * low <= n < high * high,
        decreases high - low,
    {
        let mid: u128 = low + (high - low) / 2;
        assert(mid * mid < 0x1_0000_0000_0000_0000 * 0x1_0000_0000_0000_0000) by (nonlinear_arith)
            requires
                0 <= mid < 0x1_0000_0000_0000_0000,
        ;
        if mid * mid <= n {
            low = mid;
        } else {
            high = mid;
        }
    }
    proof {
        lemma_sqrt(n as nat);
        lemma_sqrt_unique(n as int, low as int, sqrt(n as nat) as int);
    }
    low as u64
}

/// The whole part of the distance between two points.
pub open spec fn spec_distance(a: Vector2, b: Vector2) -> nat {
    sqrt(((a.x - b.x) * (a.x - b.x) + (a.y - b.y) * (a.y - b.y)) as nat)
}

/// Computes the whole part of the distance between two points.
pub fn distance(a: Vector2, b: Vector2) -> (d: u64)
    ensures
        d == spec_distance(a, b),
{
    let dx: i64 = a.x as i64 - b.x as i64;
    let dy: i64 = a.y as i64 - b.y as i64;
    assert(0 <= dx * dx <= 0x1_0000_0000 * 0x1_0000_0000 && 0 <= dy * dy <= 0x1_0000_0000
        * 0x1_0000_0000) by (nonlinear_arith)
        requires
            -0x1_0000_0000 <= dx <= 0x1_0000_0000,
            -0x1_0000_0000 <= dy <= 0x1_0000_0000,
    ;
    let square: u128 = (dx as i128 * dx as i128 + dy as i128 * dy as i128) as u128;
    isqrt(square)
}

/// Where a coordinate at `from` gets to on its way to `to`, when the whole
/// way between the two points is `distance` long and one move covers `step`
/// of it: the coordinate covers the same share of its own way, rounded
/// towards `from`, and stops at `to` rather than pass it. With no way to go
/// it stays.
pub open spec fn spec_approach(from: i32, to: i32, step: u64, distance: u64) -> i32 {
    let gap = from - to;
    if distance == 0 {
        from
    } else if gap > 0 {
        let moved = from - gap * step / (distance as int);
        (if moved >= to { moved } else { to as int }) as i32
    } else {
        let moved = from + (-gap) * step / (distance as int);
        (if moved <= to { moved } else { to as int }) as i32
    }
}

/// Moves one coordinate towards its target.
#[verifier::when_used_as_spec(spec_approach)]
pub fn approach(from: i32, to: i32, step: u64, distance: u64) -> (r: i32)
    ensures
        r == spec_approach(from, to, step, distance),
        from <= to ==> from <= r <= to,
        to <= from ==> to <= r <= from,
{
    if distance == 0 {
        return from;
    }
    let gap: i64 = from as i64 - to as i64;
    let span: u64 = if gap > 0 {
        gap as u64
    } else {
        (-gap) as u64
    };
    assert(span * step <= 0x1_0000_0000 * 0x1_0000_0000_0000_0000) by (nonlinear_arith)
        requires
            span <= 0x1_0000_0000,
            step <= 0x1_0000_0000_0000_0000,
    ;
    let share: u128 = span as u128 * step as u128 / distance as u128;
    let moved: u64 = if share < span as u128 {
        share as u64
    } else {
        span
    };
    if gap > 0 {
        assert(gap * step == span * step);
        (from as i64 - moved as i64) as i32
    } else {
        assert((-gap) * step == span * step);
        (from as i64 + moved as i64) as i32
    }
}

/// A move towards a target never leaves the stretch between where it began
/// and the target: it neither passes the target nor backs away from it.
pub proof fn lemma_approach_between(from: i32, to: i32, step: u64, distance: u64)
    ensures
        from <= to ==> from <= spec_approach(from, to, step, distance) <= to,
        to <= from ==> to <= spec_approach(from, to, step, distance) <= from,
{
    let gap = from - to;
    if distance != 0 {
        if gap > 0 {
            assert(gap * step / (distance as int) >= 0) by (nonlinear_arith)
                requires
                    gap > 0,
                    step >= 0,
                    distance > 0,
            ;
        } else {
            assert((-gap) * step / (distance as int) >= 0) by (nonlinear_arith)
                requires
                    gap <= 0,
                    step >= 0,
                    distance > 0,
            ;
        }
    }
}

/// A move of two units or more brings the point nearer its target: the
/// coordinate with the longer way to go moves by one unit at least, unless
/// the point is at the target already.
pub proof fn lemma_approach_advances(here: Vector2, target: Vector2, step: u64)
    requires
        step >= 2,
        here != target,
    ensures
        ({
            let d = spec_distance(here, target) as u64;
            let x = spec_approach(here.x, target.x, step, d);
            let y = spec_approach(here.y, target.y, step, d);
            x != here.x || y != here.y
        }),
{
    let dx = here.x - target.x;
    let dy = here.y - target.y;
    let square = (dx * dx + dy * dy) as nat;
    assert(dx * dx >= 0 && dy * dy >= 0 && (dx != 0 ==> dx * dx >= 1) && (dy != 0 ==> dy * dy >= 1))
        by (nonlinear_arith);
    lemma_sqrt(square);
    let d = sqrt(square);
    assert(d >= 1) by (nonlinear_arith)
        requires
            square >= 1,
            square < (d + 1) * (d + 1),
    ;
    assert(d <= 0x2_0000_0000) by (nonlinear_arith)
        requires
            d * d <= square,
            square == dx * dx + dy * dy,
            -0x1_0000_0000 <= dx <= 0x1_0000_0000,
            -0x1_0000_0000 <= dy <= 0x1_0000_0000,
    ;
    let ax = if dx >= 0 { dx } else { -dx };
    let ay = if dy >= 0 { dy } else { -dy };
    assert(ax * ax == dx * dx && ay * ay == dy * dy) by (nonlinear_arith)
        requires
            ax == dx || ax == -dx,
            ay == dy || ay == -dy,
    ;
    if ax >= ay {
        assert(ax * step / (d as int) >= 1) by (nonlinear_arith)
            requires
                ax >= ay >= 0,
                d >= 1,
                d * d <= ax * ax + ay * ay,
                step >= 2,
        ;
        assert(ax >= 1);
    } else {
        assert(ay * step / (d as int) >= 1) by (nonlinear_arith)
            requires
                ay >= ax >= 0,
                d >= 1,
                d * d <= ax * ax + ay * ay,
                step >= 2,
        ;
        assert(ay >= 1);
    }
}

} // verus!
