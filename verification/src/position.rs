//! Integer grid positions: distances, bounded steps and clamping.

use vstd::prelude::*;
use rand::rngs::StdRng;
use crate::chance::pick_inclusive;

verus! {

/// A point of the integer grid.
#[derive(Debug, Clone, Copy, PartialEq, Eq, Structural)]
pub struct Position {
    pub x: i32,
    pub y: i32,
}

/// `k` is the integer part of the square root of `n`.
pub open spec fn is_floor_sqrt(n: int, k: int) -> bool {
    0 <= k && k * k <= n < (k + 1) * (k + 1)
}

/// The integer part of the square root of `n`.
pub open spec fn floor_sqrt(n: int) -> int {
    choose|k: int| is_floor_sqrt(n, k)
}

/// A coordinate brought into `0 ..= extent - 1`: raised to 0 first, then
/// lowered to `extent - 1`.
pub open spec fn clamp_axis(v: int, extent: int) -> int {
    let raised = if v < 0 { 0 } else { v };
    if raised > extent - 1 { extent - 1 } else { raised }
}

/// How far a walker at distance `sqrt(dist_sq)` from its goal advances along
/// one axis on which the goal lies `d` away, when it walks `tenths / 10` units
/// straight at the goal: the exact share `d * (tenths / 10) / sqrt(dist_sq)`,
/// rounded toward zero.
pub open spec fn axis_step(d: int, dist_sq: int, tenths: int) -> int {
    let k = floor_sqrt((d * d * tenths * tenths) / (100 * dist_sq));
    if d >= 0 { k } else { -k }
}

/// Two integer parts of one square root are the same number.
pub proof fn lemma_floor_sqrt_unique(n: int, a: int, b: int)
    requires
        is_floor_sqrt(n, a),
        is_floor_sqrt(n, b),
    ensures
        a == b,
{
    if a < b {
        assert((a + 1) * (a + 1) <= b * b) by (nonlinear_arith)
            requires 0 <= a + 1 <= b;
    } else if b < a {
        assert((b + 1) * (b + 1) <= a * a) by (nonlinear_arith)
            requires 0 <= b + 1 <= a;
    }
}

/// A number known to be an integer part of the root is `floor_sqrt`.
pub proof fn lemma_floor_sqrt_is(n: int, k: int)
    requires
        is_floor_sqrt(n, k),
    ensures
        floor_sqrt(n) == k,
{
    lemma_floor_sqrt_unique(n, floor_sqrt(n), k);
}

/// The integer part of the square root of `n`, by bisection.
pub fn integer_sqrt(n: u64) -> (k: u32)
    ensures
        is_floor_sqrt(n as int, k as int),
        k == floor_sqrt(n as int),
{
    let mut lo: u64 = 0;
    let mut hi: u64 = 0x1_0000_0000;
    assert(0x1_0000_0000 * 0x1_0000_0000 > u64::MAX) by (nonlinear_arith);
    while hi - lo > 1
        invariant
            lo < hi <= 0x1_0000_0000,
            lo * lo <= n < hi * hi,
        decreases hi - lo,
    {
        let mid: u64 = lo + (hi - lo) / 2;
        assert(mid * mid <= 0xffff_ffff * 0xffff_ffff) by (nonlinear_arith)
            requires 0 <= mid <= 0xffff_ffff;
        if mid * mid <= n {
            lo = mid;
        } else {
            hi = mid;
        }
    }
    proof {
        lemma_floor_sqrt_is(n as int, lo as int);
    }
    lo as u32
}

impl Position {
    /// The squared Euclidean distance between two points.
    pub open spec fn distance_squared(self, other: Position) -> int {
        (self.x - other.x) * (self.x - other.x) + (self.y - other.y) * (self.y - other.y)
    }

    /// The point shifted by `dx` and `dy`.
    pub open spec fn shifted(self, dx: int, dy: int) -> (int, int) {
        (self.x + dx, self.y + dy)
    }

    /// The point brought into the rectangle `width` by `height`.
    pub open spec fn clamped(self, width: int, height: int) -> (int, int) {
        (clamp_axis(self.x as int, width), clamp_axis(self.y as int, height))
    }

    /// Whether the point lies in the rectangle `width` by `height`.
    pub open spec fn within(self, width: int, height: int) -> bool {
        0 <= self.x < width && 0 <= self.y < height
    }

    /// Where a walk of `tenths / 10` units straight at `target` ends: on the
    /// target when it is that close, else one rounded step nearer on each axis.
    pub open spec fn stepped_towards(self, target: Position, tenths: int) -> (int, int) {
        let dist_sq = self.distance_squared(target);
        if 100 * dist_sq <= tenths * tenths {
            (target.x as int, target.y as int)
        } else {
            (
                self.x + axis_step(target.x - self.x, dist_sq, tenths),
                self.y + axis_step(target.y - self.y, dist_sq, tenths),
            )
        }
    }

    /// The point `(x, y)`.
    pub fn new(x: i32, y: i32) -> (p: Position)
        ensures
            p.x == x,
            p.y == y,
    {
        Position { x, y }
    }

    /// The squared distance, for every pair of points.
    pub fn wide_distance_squared_to(&self, other: &Position) -> (d: i128)
        ensures
            d == self.distance_squared(*other),
            0 <= d <= 2 * (0xffff_ffff * 0xffff_ffff),
    {
        let dx: i128 = self.x as i128 - other.x as i128;
        let dy: i128 = self.y as i128 - other.y as i128;
        assert(0 <= dx * dx <= 0xffff_ffff * 0xffff_ffff) by (nonlinear_arith)
            requires -0xffff_ffff <= dx <= 0xffff_ffff;
        assert(0 <= dy * dy <= 0xffff_ffff * 0xffff_ffff) by (nonlinear_arith)
            requires -0xffff_ffff <= dy <= 0xffff_ffff;
        dx * dx + dy * dy
    }

    /// The squared distance where it fits the coordinate type.
    pub fn distance_squared_to(&self, other: &Position) -> (d: i32)
        requires
            self.distance_squared(*other) <= i32::MAX,
        ensures
            d == self.distance_squared(*other),
    {
        let wide: i128 = self.wide_distance_squared_to(other);
        wide as i32
    }

    /// Shifts the point by a chosen offset.
    pub fn offset_by(&mut self, dx: i32, dy: i32)
        requires
            i32::MIN <= old(self).x + dx <= i32::MAX,
            i32::MIN <= old(self).y + dy <= i32::MAX,
        ensures
            (final(self).x as int, final(self).y as int) == old(self).shifted(dx as int, dy as int),
    {
        self.x = self.x + dx;
        self.y = self.y + dy;
    }

    /// Shifts the point by a random offset of at most `max_offset` on each axis.
    pub fn add_random_offset(&mut self, max_offset: i32, rng: &mut StdRng)
        requires
            0 <= max_offset,
            i32::MIN <= old(self).x - max_offset,
            old(self).x + max_offset <= i32::MAX,
            i32::MIN <= old(self).y - max_offset,
            old(self).y + max_offset <= i32::MAX,
        ensures
            -max_offset <= final(self).x - old(self).x <= max_offset,
            -max_offset <= final(self).y - old(self).y <= max_offset,
    {
        let dx: i32 = pick_inclusive(rng, -max_offset, max_offset);
        let dy: i32 = pick_inclusive(rng, -max_offset, max_offset);
        self.offset_by(dx, dy);
    }

    /// Walks `tenths / 10` units straight at `target`, stopping on it when it
    /// is no farther than that.
    pub fn move_towards(&mut self, target: &Position, tenths: u32)
        ensures
            (final(self).x as int, final(self).y as int) == old(self).stepped_towards(
                *target,
                tenths as int,
            ),
    {
        let dist_sq: i128 = self.wide_distance_squared_to(target);
        assert(0 <= tenths * tenths <= 0xffff_ffff * 0xffff_ffff) by (nonlinear_arith)
            requires 0 <= tenths <= 0xffff_ffff;
        let reach_sq: i128 = (tenths as i128) * (tenths as i128);
        if 100 * dist_sq <= reach_sq {
            self.x = target.x;
            self.y = target.y;
        } else {
            let dx: i64 = target.x as i64 - self.x as i64;
            let dy: i64 = target.y as i64 - self.y as i64;
            assert(dx * dx == (self.x - target.x) * (self.x - target.x) && dx * dx >= 0)
                by (nonlinear_arith)
                requires dx == target.x - self.x;
            assert(dy * dy == (self.y - target.y) * (self.y - target.y) && dy * dy >= 0)
                by (nonlinear_arith)
                requires dy == target.y - self.y;
            let sx: i64 = step_along(dx, dist_sq, reach_sq, Ghost(tenths as int));
            let sy: i64 = step_along(dy, dist_sq, reach_sq, Ghost(tenths as int));
            self.x = (self.x as i64 + sx) as i32;
            self.y = (self.y as i64 + sy) as i32;
        }
    }

    /// Brings the point into the rectangle `width` by `height`.
    pub fn clamp_to_bounds(&mut self, width: usize, height: usize)
        ensures
            (final(self).x as int, final(self).y as int) == old(self).clamped(
                width as int,
                height as int,
            ),
            width >= 1 && height >= 1 ==> final(self).within(width as int, height as int),
    {
        self.x = clamp_coordinate(self.x, width);
        self.y = clamp_coordinate(self.y, height);
    }
}

/// The step along one axis of a walk that does not reach its goal: never
/// longer than the way `d` to the goal on that axis, and in its direction.
fn step_along(d: i64, dist_sq: i128, reach_sq: i128, Ghost(tenths): Ghost<int>) -> (s: i64)
    requires
        -0xffff_ffff <= d <= 0xffff_ffff,
        d * d <= dist_sq <= 2 * (0xffff_ffff * 0xffff_ffff),
        reach_sq == tenths * tenths,
        0 <= reach_sq < 100 * dist_sq,
        reach_sq <= 0xffff_ffff * 0xffff_ffff,
    ensures
        s == axis_step(d as int, dist_sq as int, tenths),
        d >= 0 ==> 0 <= s <= d,
        d < 0 ==> d <= s <= 0,
{
    let a: u128 = if d >= 0 { d as u128 } else { (-d) as u128 };
    assert(0 <= a * a <= 0xffff_ffff * 0xffff_ffff && a * a == d * d) by (nonlinear_arith)
        requires 0 <= a <= 0xffff_ffff, a == d || a == -d;
    let a_sq: u128 = a * a;
    assert(0 <= a_sq * reach_sq <= (0xffff_ffff * 0xffff_ffff) * (0xffff_ffff * 0xffff_ffff))
        by (nonlinear_arith)
        requires
            0 <= a_sq <= 0xffff_ffff * 0xffff_ffff,
            0 <= reach_sq <= 0xffff_ffff * 0xffff_ffff;
    let numerator: u128 = a_sq * (reach_sq as u128);
    let denominator: u128 = 100 * (dist_sq as u128);
    let quotient: u128 = numerator / denominator;
    assert(0 <= quotient <= a_sq) by (nonlinear_arith)
        requires
            quotient == numerator / denominator,
            numerator == a_sq * reach_sq,
            0 <= a_sq,
            0 <= reach_sq < denominator;
    assert(d * d * tenths * tenths == numerator) by (nonlinear_arith)
        requires numerator == a_sq * reach_sq, a_sq == d * d, reach_sq == tenths * tenths;
    let k: u32 = integer_sqrt(quotient as u64);
    assert(k <= a) by (nonlinear_arith)
        requires k * k <= quotient, quotient <= a * a, 0 <= a, 0 <= k;
    if d >= 0 { k as i64 } else { -(k as i64) }
}

/// One coordinate brought into `0 ..= extent - 1`.
fn clamp_coordinate(v: i32, extent: usize) -> (r: i32)
    ensures
        r == clamp_axis(v as int, extent as int),
{
    let raised: i32 = if v < 0 { 0 } else { v };
    if extent <= 0x7fff_ffff {
        let top: i32 = extent as i32 - 1;
        if raised > top { top } else { raised }
    } else {
        raised
    }
}

} // verus!
