//! Planar geometry for the road network, in integer units. Coordinates,
//! lengths and lateral offsets are all integers, so regenerating geometry
//! from the same inputs gives bit-identical output.

use vstd::prelude::*;

verus! {

/// Coordinates of network geometry stay within this bound, so every derived
/// quantity (segment lengths, squared distances) fits its integer type.
pub const COORD_LIMIT: i64 = 0x100000;

/// Directions are near-unit vectors held at this fixed-point scale.
pub const DIR_SCALE: i64 = 256;

/// A point or direction in the plane, in integer units.
#[derive(Debug, PartialEq, Eq, Copy, Clone, Structural)]
pub struct Vec2 {
    pub x: i64,
    pub y: i64,
}

impl Vec2 {
    pub open spec fn in_bounds(self) -> bool {
        &&& -COORD_LIMIT <= self.x <= COORD_LIMIT
        &&& -COORD_LIMIT <= self.y <= COORD_LIMIT
    }

    /// The squared Euclidean distance between two in-bounds points.
    pub open spec fn spec_dist_sq(self, o: Vec2) -> int {
        (o.x - self.x) * (o.x - self.x) + (o.y - self.y) * (o.y - self.y)
    }

    pub fn dist_sq(&self, o: &Vec2) -> (r: u64)
        requires
            self.in_bounds(),
            o.in_bounds(),
        ensures
            r == self.spec_dist_sq(*o),
    {
        let dx: i64 = o.x - self.x;
        let dy: i64 = o.y - self.y;
        proof {
            assert(dx * dx <= 4 * COORD_LIMIT * COORD_LIMIT && dx * dx >= 0) by (nonlinear_arith)
                requires -2 * COORD_LIMIT <= dx <= 2 * COORD_LIMIT;
            assert(dy * dy <= 4 * COORD_LIMIT * COORD_LIMIT && dy * dy >= 0) by (nonlinear_arith)
                requires -2 * COORD_LIMIT <= dy <= 2 * COORD_LIMIT;
        }
        (dx * dx + dy * dy) as u64
    }

    /// The Euclidean distance, rounded down to an integer.
    pub fn dist(&self, o: &Vec2) -> (r: u64)
        requires
            self.in_bounds(),
            o.in_bounds(),
        ensures
            r == spec_isqrt(self.spec_dist_sq(*o) as nat),
    {
        isqrt(self.dist_sq(o))
    }
}

/// Integer division rounding toward zero, matching the executable `/` on
/// values whose signs are handled explicitly.
pub open spec fn div_toward_zero(a: int, b: int) -> int {
    if a >= 0 {
        a / b
    } else {
        -((-a) / b)
    }
}

/// The integer square root: the largest `r` with `r * r <= n`.
pub open spec fn spec_isqrt(n: nat) -> nat
    decreases n,
{
    if n == 0 {
        0
    } else {
        let p = spec_isqrt((n - 1) as nat);
        if (p + 1) * (p + 1) <= n {
            p + 1
        } else {
            p
        }
    }
}

pub proof fn lemma_isqrt_bounds(n: nat)
    ensures
        spec_isqrt(n) * spec_isqrt(n) <= n,
        n < (spec_isqrt(n) + 1) * (spec_isqrt(n) + 1),
    decreases n,
{
    if n == 0 {
        assert(spec_isqrt(0) == 0);
        assert(n < (spec_isqrt(n) + 1) * (spec_isqrt(n) + 1)) by (nonlinear_arith)
            requires n == 0 && spec_isqrt(n) == 0;
    } else {
        lemma_isqrt_bounds((n - 1) as nat);
        let p = spec_isqrt((n - 1) as nat);
        let s = spec_isqrt(n);
        assert(s == if (p + 1) * (p + 1) <= n {
            p + 1
        } else {
            p
        });
        if (p + 1) * (p + 1) <= n {
            assert(s == p + 1);
            assert(s * s <= n) by (nonlinear_arith)
                requires s == p + 1 && (p + 1) * (p + 1) <= n;
            assert(n < (s + 1) * (s + 1)) by (nonlinear_arith)
                requires s == p + 1 && (n - 1) < (p + 1) * (p + 1);
        } else {
            assert(s == p);
            assert(s * s <= n) by (nonlinear_arith)
                requires s == p && p * p <= n - 1;
            assert(n < (s + 1) * (s + 1));
        }
    }
}

/// Any `r` whose square brackets `n` is the integer square root.
pub proof fn lemma_isqrt_unique(n: nat, r: nat)
    requires
        r * r <= n,
        n < (r + 1) * (r + 1),
    ensures
        r == spec_isqrt(n),
{
    lemma_isqrt_bounds(n);
    let s = spec_isqrt(n);
    if r < s {
        assert((r + 1) * (r + 1) <= s * s) by (nonlinear_arith)
            requires r + 1 <= s;
    }
    if s < r {
        assert((s + 1) * (s + 1) <= r * r) by (nonlinear_arith)
            requires s + 1 <= r;
    }
}

/// Integer square root by bisection.
pub fn isqrt(n: u64) -> (r: u64)
    ensures
        r == spec_isqrt(n as nat),
        r * r <= n < (r + 1) * (r + 1),
{
    let mut lo: u64 = 0;
    let mut hi: u64 = 0x100000000;
    proof {
        assert((0x100000000 as int) * 0x100000000 > u64::MAX as int) by (nonlinear_arith);
    }
    while lo + 1 < hi
        invariant
            lo < hi,
            hi <= 0x100000000,
            lo * lo <= n,
            (n as int) < (hi as int) * (hi as int),
        decreases hi - lo,
    {
        let mid: u64 = lo + (hi - lo) / 2;
        proof {
            assert((mid as int) * (mid as int) <= (0x100000000 as int) * 0x100000000)
                by (nonlinear_arith)
                requires 0 <= mid <= 0x100000000;
        }
        if (mid as u128) * (mid as u128) <= n as u128 {
            lo = mid;
        } else {
            hi = mid;
        }
    }
    proof {
        lemma_isqrt_unique(n as nat, lo as nat);
    }
    lo
}

pub proof fn lemma_isqrt_monotone(a: nat, b: nat)
    requires
        a <= b,
    ensures
        spec_isqrt(a) <= spec_isqrt(b),
{
    lemma_isqrt_bounds(a);
    lemma_isqrt_bounds(b);
    let sa = spec_isqrt(a);
    let sb = spec_isqrt(b);
    if sb < sa {
        assert((sb + 1) * (sb + 1) <= sa * sa) by (nonlinear_arith)
            requires sb + 1 <= sa;
    }
}

pub proof fn lemma_isqrt_square(k: nat)
    ensures
        spec_isqrt(k * k) == k,
{
    assert(k * k < (k + 1) * (k + 1)) by (nonlinear_arith);
    lemma_isqrt_unique(k * k, k);
}

/// The length, rounded down, of the segment from `a` to `b`.
pub open spec fn spec_seg_len(a: Vec2, b: Vec2) -> int {
    spec_isqrt(a.spec_dist_sq(b) as nat) as int
}

/// A segment between in-bounds points is shorter than `SEG_LEN_LIMIT`.
pub const SEG_LEN_LIMIT: u64 = 0x400000;

pub proof fn lemma_seg_len_bounds(a: Vec2, b: Vec2)
    requires
        a.in_bounds(),
        b.in_bounds(),
    ensures
        0 <= spec_seg_len(a, b) < SEG_LEN_LIMIT,
        (b.x - a.x <= spec_seg_len(a, b)) && (a.x - b.x <= spec_seg_len(a, b)),
        (b.y - a.y <= spec_seg_len(a, b)) && (a.y - b.y <= spec_seg_len(a, b)),
{
    let dx = b.x - a.x;
    let dy = b.y - a.y;
    let q = a.spec_dist_sq(b);
    assert(dx * dx >= 0 && dy * dy >= 0 && q < (SEG_LEN_LIMIT as int) * (SEG_LEN_LIMIT as int))
        by (nonlinear_arith)
        requires -2 * COORD_LIMIT <= dx <= 2 * COORD_LIMIT && -2 * COORD_LIMIT <= dy <= 2
            * COORD_LIMIT && q == dx * dx + dy * dy;
    lemma_isqrt_bounds(q as nat);
    let s = spec_isqrt(q as nat);
    if s >= SEG_LEN_LIMIT {
        assert((SEG_LEN_LIMIT as int) * (SEG_LEN_LIMIT as int) <= s * s) by (nonlinear_arith)
            requires SEG_LEN_LIMIT <= s;
    }
    let m = if dx >= 0 {
        dx
    } else {
        -dx
    };
    assert(m * m == dx * dx && m >= 0) by (nonlinear_arith)
        requires m == if dx >= 0 { dx } else { -dx };
    lemma_isqrt_square(m as nat);
    lemma_isqrt_monotone((m * m) as nat, q as nat);
    let my = if dy >= 0 {
        dy
    } else {
        -dy
    };
    assert(my * my == dy * dy && my >= 0) by (nonlinear_arith)
        requires my == if dy >= 0 { dy } else { -dy };
    lemma_isqrt_square(my as nat);
    lemma_isqrt_monotone((my * my) as nat, q as nat);
}

/// An ordered polyline of interpolation points.
#[derive(Debug, PartialEq, Eq)]
pub struct PolyLine {
    pub points: Vec<Vec2>,
}

/// The summed lengths of the first `k - 1` segments of a point sequence.
pub open spec fn spec_length_prefix(pts: Seq<Vec2>, k: int) -> int
    decreases k,
{
    if k <= 1 {
        0
    } else {
        spec_length_prefix(pts, k - 1) + spec_seg_len(pts[k - 2], pts[k - 1])
    }
}

impl PolyLine {
    /// At least two in-bounds points, and few enough of them that the total
    /// length fits comfortably in an integer.
    pub open spec fn wf(self) -> bool {
        &&& 2 <= self.points@.len() <= 0x100000
        &&& forall|i: int| 0 <= i < self.points@.len() ==> #[trigger] self.points@[i].in_bounds()
    }

    pub open spec fn spec_length(self) -> int {
        spec_length_prefix(self.points@, self.points@.len() as int)
    }

    pub fn new(points: Vec<Vec2>) -> (r: PolyLine)
        ensures
            r.points == points,
    {
        PolyLine { points }
    }

    pub fn n_points(&self) -> (r: usize)
        ensures
            r == self.points@.len(),
    {
        self.points.len()
    }

    pub fn get(&self, i: usize) -> (r: Vec2)
        requires
            i < self.points@.len(),
        ensures
            r == self.points@[i as int],
    {
        self.points[i]
    }

    pub fn first(&self) -> (r: Vec2)
        requires
            self.points@.len() >= 1,
        ensures
            r == self.points@[0],
    {
        self.points[0]
    }

    pub fn last(&self) -> (r: Vec2)
        requires
            self.points@.len() >= 1,
        ensures
            r == self.points@[self.points@.len() - 1],
    {
        self.points[self.points.len() - 1]
    }

    pub fn set_first(&mut self, p: Vec2)
        requires
            old(self).points@.len() >= 1,
        ensures
            final(self).points@ == old(self).points@.update(0, p),
    {
        self.points[0] = p;
    }

    pub fn set_last(&mut self, p: Vec2)
        requires
            old(self).points@.len() >= 1,
        ensures
            final(self).points@ == old(self).points@.update(old(self).points@.len() - 1, p),
    {
        let n: usize = self.points.len();
        self.points[n - 1] = p;
    }

    /// Total length of the polyline, rounded down segment by segment.
    pub fn length(&self) -> (r: u64)
        requires
            self.wf(),
        ensures
            r == self.spec_length(),
    {
        let n: usize = self.points.len();
        let mut acc: u64 = 0;
        let mut i: usize = 1;
        while i < n
            invariant
                1 <= i <= n,
                n == self.points@.len(),
                self.wf(),
                acc == spec_length_prefix(self.points@, i as int),
                acc <= (i - 1) * (SEG_LEN_LIMIT as int),
            decreases n - i,
        {
            proof {
                lemma_seg_len_bounds(self.points@[i as int - 1], self.points@[i as int]);
                assert((i - 1) * (SEG_LEN_LIMIT as int) + SEG_LEN_LIMIT == i * (
                SEG_LEN_LIMIT as int)) by (nonlinear_arith);
                assert(i * (SEG_LEN_LIMIT as int) <= 0x100000 * (SEG_LEN_LIMIT as int))
                    by (nonlinear_arith)
                    requires i <= 0x100000;
            }
            let a: Vec2 = self.points[i - 1];
            let b: Vec2 = self.points[i];
            acc = acc + a.dist(&b);
            i = i + 1;
        }
        acc
    }

    /// The scaled direction of the first segment, if it has any length.
    pub fn first_dir(&self) -> (r: Option<Vec2>)
        requires
            self.wf(),
        ensures
            r == spec_scaled_dir(self.points@[0], self.points@[1]),
    {
        scaled_dir(self.points[0], self.points[1])
    }

    /// The scaled direction of the last segment, if it has any length.
    pub fn last_dir(&self) -> (r: Option<Vec2>)
        requires
            self.wf(),
        ensures
            r == spec_scaled_dir(
                self.points@[self.points@.len() - 2],
                self.points@[self.points@.len() - 1],
            ),
    {
        let n: usize = self.points.len();
        scaled_dir(self.points[n - 2], self.points[n - 1])
    }
}

/// The direction from `a` to `b` as a fixed-point near-unit vector scaled by
/// `DIR_SCALE`, or nothing for a zero-length segment.
pub open spec fn spec_scaled_dir(a: Vec2, b: Vec2) -> Option<Vec2> {
    let l = spec_seg_len(a, b);
    if l == 0 {
        Option::None
    } else {
        Option::Some(
            Vec2 {
                x: div_toward_zero((b.x - a.x) * DIR_SCALE, l) as i64,
                y: div_toward_zero((b.y - a.y) * DIR_SCALE, l) as i64,
            },
        )
    }
}

/// Each component of a scaled direction lies within the scale.
pub proof fn lemma_scaled_dir_bounds(a: Vec2, b: Vec2)
    requires
        a.in_bounds(),
        b.in_bounds(),
        spec_scaled_dir(a, b) is Some,
    ensures
        -DIR_SCALE <= spec_scaled_dir(a, b)->Some_0.x <= DIR_SCALE,
        -DIR_SCALE <= spec_scaled_dir(a, b)->Some_0.y <= DIR_SCALE,
{
    let l = spec_seg_len(a, b);
    lemma_seg_len_bounds(a, b);
    lemma_div_toward_zero_scale_bound(b.x - a.x, l);
    lemma_div_toward_zero_scale_bound(b.y - a.y, l);
}

proof fn lemma_div_toward_zero_scale_bound(d: int, l: int)
    requires
        0 < l,
        -l <= d <= l,
    ensures
        -DIR_SCALE <= div_toward_zero(d * DIR_SCALE, l) <= DIR_SCALE,
{
    if d >= 0 {
        assert(d * DIR_SCALE <= l * DIR_SCALE) by (nonlinear_arith)
            requires 0 <= d <= l && DIR_SCALE >= 0;
        vstd::arithmetic::div_mod::lemma_div_is_ordered(d * DIR_SCALE, l * DIR_SCALE, l);
        vstd::arithmetic::div_mod::lemma_div_pos_is_pos(d * DIR_SCALE, l);
        assert((l * DIR_SCALE) / l == DIR_SCALE) by {
            vstd::arithmetic::div_mod::lemma_div_multiples_vanish(DIR_SCALE as int, l);
        }
    } else {
        assert((-d) * DIR_SCALE <= l * DIR_SCALE) by (nonlinear_arith)
            requires 0 <= -d <= l && DIR_SCALE >= 0;
        vstd::arithmetic::div_mod::lemma_div_is_ordered((-d) * DIR_SCALE, l * DIR_SCALE, l);
        vstd::arithmetic::div_mod::lemma_div_pos_is_pos((-d) * DIR_SCALE, l);
        assert((l * DIR_SCALE) / l == DIR_SCALE) by {
            vstd::arithmetic::div_mod::lemma_div_multiples_vanish(DIR_SCALE as int, l);
        }
    }
}

/// Division by the direction scale shrinks the magnitude.
proof fn lemma_div_toward_zero_bound(a: int, m: int)
    requires
        -m <= a <= m,
        0 <= m,
    ensures
        -m <= div_toward_zero(a, DIR_SCALE as int) <= m,
{
    if a >= 0 {
        vstd::arithmetic::div_mod::lemma_div_pos_is_pos(a, DIR_SCALE as int);
        vstd::arithmetic::div_mod::lemma_div_is_ordered_by_denominator(a, 1, DIR_SCALE as int);
        vstd::arithmetic::div_mod::lemma_div_basics_2(a);
    } else {
        vstd::arithmetic::div_mod::lemma_div_pos_is_pos(-a, DIR_SCALE as int);
        vstd::arithmetic::div_mod::lemma_div_is_ordered_by_denominator(-a, 1, DIR_SCALE as int);
        vstd::arithmetic::div_mod::lemma_div_basics_2(-a);
    }
}

/// Computes the scaled direction from `a` to `b`.
pub fn scaled_dir(a: Vec2, b: Vec2) -> (r: Option<Vec2>)
    requires
        a.in_bounds(),
        b.in_bounds(),
    ensures
        r == spec_scaled_dir(a, b),
{
    let l: u64 = a.dist(&b);
    if l == 0 {
        return Option::None;
    }
    proof {
        lemma_seg_len_bounds(a, b);
    }
    let dx: i64 = b.x - a.x;
    let dy: i64 = b.y - a.y;
    let x: i64 = if dx >= 0 {
        (dx * DIR_SCALE) / (l as i64)
    } else {
        -((-dx * DIR_SCALE) / (l as i64))
    };
    let y: i64 = if dy >= 0 {
        (dy * DIR_SCALE) / (l as i64)
    } else {
        -((-dy * DIR_SCALE) / (l as i64))
    };
    proof {
        lemma_div_toward_zero_scale_bound(dx as int, l as int);
        lemma_div_toward_zero_scale_bound(dy as int, l as int);
    }
    Option::Some(Vec2 { x, y })
}

/// Negates a direction, to orient a segment toward the other endpoint.
pub fn neg_dir(d: Vec2) -> (r: Vec2)
    requires
        -DIR_SCALE <= d.x <= DIR_SCALE,
        -DIR_SCALE <= d.y <= DIR_SCALE,
    ensures
        r.x == -d.x && r.y == -d.y,
{
    Vec2 { x: -d.x, y: -d.y }
}

/// What `offset_point` produces: `p` moved by `off` units along the left
/// normal of the scaled direction `dir`.
pub open spec fn spec_offset_point(p: Vec2, dir: Vec2, off: int) -> Vec2 {
    Vec2 {
        x: (p.x + div_toward_zero(-dir.y * off, DIR_SCALE as int)) as i64,
        y: (p.y + div_toward_zero(dir.x * off, DIR_SCALE as int)) as i64,
    }
}

/// Moves a point sideways: `off` units along the left normal of `dir`.
pub fn offset_point(p: Vec2, dir: Vec2, off: i64) -> (r: Vec2)
    requires
        p.in_bounds(),
        -DIR_SCALE <= dir.x <= DIR_SCALE,
        -DIR_SCALE <= dir.y <= DIR_SCALE,
        0 <= off <= 0x10000,
    ensures
        r == spec_offset_point(p, dir, off as int),
{
    proof {
        assert(-DIR_SCALE * 0x10000 <= -dir.y * off <= DIR_SCALE * 0x10000) by (nonlinear_arith)
            requires -DIR_SCALE <= dir.y <= DIR_SCALE && 0 <= off <= 0x10000;
        assert(-DIR_SCALE * 0x10000 <= dir.x * off <= DIR_SCALE * 0x10000) by (nonlinear_arith)
            requires -DIR_SCALE <= dir.x <= DIR_SCALE && 0 <= off <= 0x10000;
    }
    let nx: i64 = -dir.y * off;
    let ny: i64 = dir.x * off;
    let ox: i64 = if nx >= 0 {
        nx / DIR_SCALE
    } else {
        -(-nx / DIR_SCALE)
    };
    let oy: i64 = if ny >= 0 {
        ny / DIR_SCALE
    } else {
        -(-ny / DIR_SCALE)
    };
    proof {
        lemma_div_toward_zero_bound(nx as int, DIR_SCALE * 0x10000);
        lemma_div_toward_zero_bound(ny as int, DIR_SCALE * 0x10000);
    }
    Vec2 { x: p.x + ox, y: p.y + oy }
}

/// Divides rounding toward zero, as the road geometry defines all its
/// fixed-point scalings.
pub fn div_tz(a: i64, b: i64) -> (r: i64)
    requires
        b > 0,
        a > i64::MIN,
    ensures
        r == div_toward_zero(a as int, b as int),
        a >= 0 ==> 0 <= r <= a,
        a < 0 ==> a <= r <= 0,
{
    if a >= 0 {
        proof {
            vstd::arithmetic::div_mod::lemma_div_pos_is_pos(a as int, b as int);
            vstd::arithmetic::div_mod::lemma_div_is_ordered_by_denominator(a as int, 1, b as int);
            vstd::arithmetic::div_mod::lemma_div_basics_2(a as int);
        }
        a / b
    } else {
        proof {
            vstd::arithmetic::div_mod::lemma_div_pos_is_pos(-a as int, b as int);
            vstd::arithmetic::div_mod::lemma_div_is_ordered_by_denominator(-a as int, 1, b as int);
            vstd::arithmetic::div_mod::lemma_div_basics_2(-a as int);
        }
        -(-a / b)
    }
}

/// A cubic interpolation stencil between two pulled-back road ends.
#[derive(Debug, PartialEq, Eq, Copy, Clone, Structural)]
pub struct Spline {
    pub from: Vec2,
    pub to: Vec2,
    pub from_derivative: Vec2,
    pub to_derivative: Vec2,
}

} // verus!
