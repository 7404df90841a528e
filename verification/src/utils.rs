//! Shortest distance from a point to a segment, kept exact.
//!
//! On an integer grid the closest point of a segment has rational
//! coordinates, so the square of the distance is a fraction of two
//! integers. That fraction is what is computed and compared; no
//! rounding takes place anywhere.

use crate::draw::stroke::Segment;
use crate::geometry::{dist_sq, Point};
use vstd::prelude::*;

verus! {

/// A non-negative fraction `num / den`.
pub struct Fraction {
    pub num: int,
    pub den: int,
}

/// A distance, held as the fraction that is its square.
#[derive(Clone, Copy, Debug, PartialEq, Eq)]
pub struct Distance {
    pub num: u128,
    pub den: u128,
}

impl View for Distance {
    type V = Fraction;

    open spec fn view(&self) -> Fraction {
        Fraction { num: self.num as int, den: self.den as int }
    }
}

/// `f` is strictly greater than the square of `radius`.
pub open spec fn exceeds(f: Fraction, radius: int) -> bool {
    f.num > radius * radius * f.den
}

/// Dot product of `p - a` with `b - a`.
pub open spec fn along(p: Point, s: Segment) -> int {
    (p.x - s.a.x) * (s.b.x - s.a.x) + (p.y - s.a.y) * (s.b.y - s.a.y)
}

/// Cross product of `p - a` with `b - a`.
pub open spec fn across(p: Point, s: Segment) -> int {
    (p.x - s.a.x) * (s.b.y - s.a.y) - (p.y - s.a.y) * (s.b.x - s.a.x)
}

/// Square of the distance from `p` to the closest point of the closed
/// segment `s`.
///
/// The foot of the perpendicular from `p` sits at the fraction
/// `along / |b - a|^2` of the way from `a` to `b`. Before `a` the closest
/// point is `a`, past `b` it is `b`, and in between it is the foot itself,
/// whose squared distance is `across^2 / |b - a|^2`. A segment with
/// `a == b` has `along == 0` and falls under the first case.
pub open spec fn segment_dist_sq(p: Point, s: Segment) -> Fraction {
    let len_sq = dist_sq(s.b, s.a);
    let t = along(p, s);
    if t <= 0 {
        Fraction { num: dist_sq(p, s.a), den: 1 }
    } else if t >= len_sq {
        Fraction { num: dist_sq(p, s.b), den: 1 }
    } else {
        Fraction { num: across(p, s) * across(p, s), den: len_sq }
    }
}

/// `m * m` times the squared distance from `p` to the point that lies
/// `k / m` of the way from `s.a` to `s.b`.
pub open spec fn scaled_dist_sq_at(p: Point, s: Segment, k: int, m: int) -> int {
    let dx = m * (p.x - s.a.x) - k * (s.b.x - s.a.x);
    let dy = m * (p.y - s.a.y) - k * (s.b.y - s.a.y);
    dx * dx + dy * dy
}

proof fn lemma_product_bound(x: int, y: int, b: int)
    by (nonlinear_arith)
    requires
        -b <= x <= b,
        -b <= y <= b,
    ensures
        -(b * b) <= x * y <= b * b,
{
}

proof fn lemma_square_bound(c: int, b: int)
    by (nonlinear_arith)
    requires
        -b <= c <= b,
    ensures
        0 <= c * c <= b * b,
{
}

/// Shortest distance from `cursor_pos` to the closed segment `segment`.
pub fn cursor_to_segment_distance(cursor_pos: Point, segment: &Segment) -> (d: Distance)
    requires
        cursor_pos.in_range(),
        segment.in_range(),
    ensures
        d@ == segment_dist_sq(cursor_pos, *segment),
        d.den > 0,
{
    let ux: i128 = cursor_pos.x as i128 - segment.a.x as i128;
    let uy: i128 = cursor_pos.y as i128 - segment.a.y as i128;
    let vx: i128 = segment.b.x as i128 - segment.a.x as i128;
    let vy: i128 = segment.b.y as i128 - segment.a.y as i128;
    let wx: i128 = cursor_pos.x as i128 - segment.b.x as i128;
    let wy: i128 = cursor_pos.y as i128 - segment.b.y as i128;
    proof {
        let b: int = 0x8000_0000;
        lemma_product_bound(ux as int, vx as int, b);
        lemma_product_bound(uy as int, vy as int, b);
        lemma_product_bound(ux as int, vy as int, b);
        lemma_product_bound(uy as int, vx as int, b);
        lemma_square_bound(ux as int, b);
        lemma_square_bound(uy as int, b);
        lemma_square_bound(vx as int, b);
        lemma_square_bound(vy as int, b);
        lemma_square_bound(wx as int, b);
        lemma_square_bound(wy as int, b);
        assert(b * b == 0x4000_0000_0000_0000);
    }
    let len_sq: i128 = vx * vx + vy * vy;
    let t: i128 = ux * vx + uy * vy;
    if t <= 0 {
        Distance { num: (ux * ux + uy * uy) as u128, den: 1 }
    } else if t >= len_sq {
        Distance { num: (wx * wx + wy * wy) as u128, den: 1 }
    } else {
        let c: i128 = ux * vy - uy * vx;
        proof {
            lemma_square_bound(c as int, 0x8000_0000_0000_0000);
            assert(0x8000_0000_0000_0000int * 0x8000_0000_0000_0000int
                == 0x4000_0000_0000_0000_0000_0000_0000_0000);
        }
        Distance { num: (c * c) as u128, den: len_sq as u128 }
    }
}

proof fn lemma_pair_swap(a: int, b: int, c: int, d: int)
    by (nonlinear_arith)
    ensures
        (a * b) * (c * d) == (a * c) * (b * d),
        (a * b) * (c * d) == (a * d) * (c * b),
{
}

proof fn lemma_square_of_difference(a: int, b: int)
    by (nonlinear_arith)
    ensures
        (a - b) * (a - b) == a * a - 2 * (a * b) + b * b,
{
}

proof fn lemma_scaled_square(m: int, x: int, k: int, y: int)
    ensures
        (m * x - k * y) * (m * x - k * y) == (m * m) * (x * x) - 2 * ((m * k) * (x * y)) + (k * k)
            * (y * y),
{
    lemma_square_of_difference(m * x, k * y);
    lemma_pair_swap(m, x, m, x);
    lemma_pair_swap(m, x, k, y);
    lemma_pair_swap(k, y, k, y);
}

proof fn lemma_lagrange(ux: int, uy: int, vx: int, vy: int)
    ensures
        (ux * vy - uy * vx) * (ux * vy - uy * vx) == (ux * ux + uy * uy) * (vx * vx + vy * vy) - (
        ux * vx + uy * vy) * (ux * vx + uy * vy),
{
    let a = ux * ux;
    let b = uy * uy;
    let c = vx * vx;
    let d = vy * vy;
    let q1 = ux * vx;
    let q2 = uy * vy;
    lemma_square_of_difference(ux * vy, uy * vx);
    lemma_square_of_difference(q1, -q2);
    assert(q1 * (-q2) == -(q1 * q2)) by (nonlinear_arith);
    assert((-q2) * (-q2) == q2 * q2) by (nonlinear_arith);
    assert((a + b) * (c + d) == a * c + a * d + b * c + b * d) by (nonlinear_arith);
    lemma_pair_swap(ux, vy, ux, vy);
    lemma_pair_swap(uy, vx, uy, vx);
    lemma_pair_swap(ux, vx, ux, vx);
    lemma_pair_swap(uy, vy, uy, vy);
    lemma_pair_swap(ux, vy, uy, vx);
    lemma_pair_swap(ux, vx, uy, vy);
}

proof fn lemma_shifted(ux: int, uy: int, vx: int, vy: int)
    by (nonlinear_arith)
    ensures
        (ux - vx) * (ux - vx) + (uy - vy) * (uy - vy) == (ux * ux + uy * uy) - 2 * (ux * vx + uy
            * vy) + (vx * vx + vy * vy),
{
}

proof fn lemma_spread(c: int, a: int, b: int)
    by (nonlinear_arith)
    ensures
        c * (a + b) == c * a + c * b,
{
}

/// The scaled squared distance, written over the three products that the
/// case analysis needs.
proof fn lemma_expand(ux: int, uy: int, vx: int, vy: int, k: int, m: int)
    ensures
        (m * ux - k * vx) * (m * ux - k * vx) + (m * uy - k * vy) * (m * uy - k * vy) == (m * m)
            * (ux * ux + uy * uy) - 2 * ((m * k) * (ux * vx + uy * vy)) + (k * k) * (vx * vx + vy
            * vy),
{
    lemma_scaled_square(m, ux, k, vx);
    lemma_scaled_square(m, uy, k, vy);
    lemma_spread(m * m, ux * ux, uy * uy);
    lemma_spread(m * k, ux * vx, uy * vy);
    lemma_spread(k * k, vx * vx, vy * vy);
}

proof fn lemma_scale_order(k: int, m: int)
    by (nonlinear_arith)
    requires
        0 <= k <= m,
    ensures
        0 <= k * k,
        0 <= m * k <= m * m,
        m * m - 2 * (m * k) + k * k >= 0,
{
    assert(m * m - 2 * (m * k) + k * k == (m - k) * (m - k));
}

proof fn lemma_before_start(mm: int, mk: int, kk: int, uu: int, t: int, d: int)
    by (nonlinear_arith)
    requires
        mk >= 0,
        kk >= 0,
        d >= 0,
        t <= 0,
    ensures
        uu * mm <= mm * uu - 2 * (mk * t) + kk * d,
{
}

proof fn lemma_past_end(mm: int, mk: int, kk: int, uu: int, t: int, d: int)
    by (nonlinear_arith)
    requires
        mm >= mk,
        mm - 2 * mk + kk >= 0,
        t >= d >= 0,
    ensures
        (uu - 2 * t + d) * mm <= mm * uu - 2 * (mk * t) + kk * d,
{
    assert((mm - mk) * t >= (mm - mk) * d);
    assert((mm - 2 * mk + kk) * d >= 0);
}

proof fn lemma_beside(mm: int, mk: int, kk: int, uu: int, t: int, d: int)
    by (nonlinear_arith)
    ensures
        d * (mm * uu - 2 * (mk * t) + kk * d) - (uu * d - t * t) * mm == mm * (t * t) - 2 * (mk * (
        t * d)) + kk * (d * d),
{
}

proof fn lemma_unit_scale(n: int, m: int)
    by (nonlinear_arith)
    requires
        m == 1,
    ensures
        n * (m * m) == n,
{
}

/// No point of the closed segment is closer to `p` than `segment_dist_sq`
/// says: for the point `k / m` of the way from `s.a` to `s.b`, with
/// `0 <= k <= m`, the squared distance is at least that fraction.
pub proof fn distance_is_lower_bound(p: Point, s: Segment, k: int, m: int)
    requires
        m > 0,
        0 <= k <= m,
    ensures
        segment_dist_sq(p, s).den > 0,
        segment_dist_sq(p, s).num * (m * m) <= segment_dist_sq(p, s).den * scaled_dist_sq_at(
            p,
            s,
            k,
            m,
        ),
{
    let ux = p.x - s.a.x;
    let uy = p.y - s.a.y;
    let vx = s.b.x - s.a.x;
    let vy = s.b.y - s.a.y;
    let uu = ux * ux + uy * uy;
    let t = along(p, s);
    let d = dist_sq(s.b, s.a);
    lemma_expand(ux, uy, vx, vy, k, m);
    lemma_scale_order(k, m);
    assert(d >= 0) by (nonlinear_arith)
        requires
            d == vx * vx + vy * vy,
    ;
    if t <= 0 {
        lemma_before_start(m * m, m * k, k * k, uu, t, d);
    } else if t >= d {
        lemma_past_end(m * m, m * k, k * k, uu, t, d);
        lemma_shifted(ux, uy, vx, vy);
    } else {
        lemma_beside(m * m, m * k, k * k, uu, t, d);
        lemma_lagrange(ux, uy, vx, vy);
        lemma_scaled_square(m, t, k, d);
        let e = m * t - k * d;
        assert(e * e >= 0) by (nonlinear_arith);
    }
}

/// Some point of the closed segment lies exactly as far from `p` as
/// `segment_dist_sq` says: the returned `(k, m)` names it, as the point
/// `k / m` of the way from `s.a` to `s.b`.
pub proof fn distance_is_attained(p: Point, s: Segment) -> (at: (int, int))
    ensures
        at.1 > 0,
        0 <= at.0 <= at.1,
        segment_dist_sq(p, s).num * (at.1 * at.1) == segment_dist_sq(p, s).den
            * scaled_dist_sq_at(p, s, at.0, at.1),
{
    let ux = p.x - s.a.x;
    let uy = p.y - s.a.y;
    let vx = s.b.x - s.a.x;
    let vy = s.b.y - s.a.y;
    let uu = ux * ux + uy * uy;
    let t = along(p, s);
    let d = dist_sq(s.b, s.a);
    if t <= 0 {
        lemma_unit_scale(dist_sq(p, s.a), 1);
        (0, 1)
    } else if t >= d {
        lemma_unit_scale(dist_sq(p, s.b), 1);
        (1, 1)
    } else {
        lemma_expand(ux, uy, vx, vy, t, d);
        lemma_beside(d * d, d * t, t * t, uu, t, d);
        lemma_lagrange(ux, uy, vx, vy);
        lemma_scaled_square(d, t, t, d);
        assert((d * t - t * d) * (d * t - t * d) == 0) by (nonlinear_arith);
        (t, d)
    }
}

/// For a segment that is a single point, the distance is the distance to
/// that point.
pub proof fn distance_to_degenerate_segment(p: Point, s: Segment)
    requires
        s.a == s.b,
    ensures
        segment_dist_sq(p, s) == (Fraction { num: dist_sq(p, s.a), den: 1 }),
{
    assert(along(p, s) == 0) by (nonlinear_arith)
        requires
            s.b.x - s.a.x == 0,
            s.b.y - s.a.y == 0,
            along(p, s) == (p.x - s.a.x) * (s.b.x - s.a.x) + (p.y - s.a.y) * (s.b.y - s.a.y),
    ;
}

impl Distance {
    /// Tells whether the distance is strictly greater than `radius`.
    pub fn exceeds(&self, radius: u32) -> (far: bool)
        ensures
            far == exceeds(self@, radius as int),
    {
        let r: u128 = radius as u128;
        assert(r * r <= 0xffff_ffff * 0xffff_ffff) by (nonlinear_arith)
            requires
                0 <= r <= 0xffff_ffff,
        ;
        let r_sq: u128 = r * r;
        match r_sq.checked_mul(self.den) {
            Some(bound) => self.num > bound,
            None => false,
        }
    }
}

} // verus!
