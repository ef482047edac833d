//! Overlap tests between the axis-aligned squares and the player's circle.
//!
//! A square is given as a centre and an edge length.  To avoid halving odd
//! edge lengths, every predicate works in doubled coordinates: the interval
//! `[2c - s, 2c + s]` is the doubled extent of a square of edge `s` centred
//! at `c`.

use vstd::prelude::*;
use crate::entities::{Hazard, Player, Projectile, COORD_BOUND, MAX_SIZE};

verus! {

/// Distance between two integers.
pub open spec fn dist(a: int, b: int) -> int {
    if a >= b {
        a - b
    } else {
        b - a
    }
}

/// `v` clamped into `[lo, hi]` (meaningful when `lo <= hi`).
pub open spec fn clamp_spec(v: int, lo: int, hi: int) -> int {
    if v < lo {
        lo
    } else if v > hi {
        hi
    } else {
        v
    }
}

/// Two axis-aligned squares, each given as centre and edge length, overlap:
/// their extents meet on both axes, exactly touching edges included.
pub open spec fn boxes_overlap(
    ax: int,
    ay: int,
    a_size: int,
    bx: int,
    by: int,
    b_size: int,
) -> bool {
    &&& 2 * dist(ax, bx) <= a_size + b_size
    &&& 2 * dist(ay, by) <= a_size + b_size
}

/// A circle overlaps an axis-aligned square: the point of the square nearest
/// to the circle's centre lies within the radius, exact touch included.
/// Computed in doubled coordinates.
pub open spec fn circle_box_overlap(
    cx: int,
    cy: int,
    radius: int,
    bx: int,
    by: int,
    size: int,
) -> bool {
    let nx = clamp_spec(2 * cx, 2 * bx - size, 2 * bx + size);
    let ny = clamp_spec(2 * cy, 2 * by - size, 2 * by + size);
    (2 * cx - nx) * (2 * cx - nx) + (2 * cy - ny) * (2 * cy - ny) <= (2 * radius) * (2 * radius)
}

/// Overlap test between two squares given as centre and edge length.
pub fn box_vs_box(ax: i64, ay: i64, a_size: i64, bx: i64, by: i64, b_size: i64) -> (r: bool)
    requires
        -COORD_BOUND <= ax <= COORD_BOUND,
        -COORD_BOUND <= ay <= COORD_BOUND,
        -COORD_BOUND <= bx <= COORD_BOUND,
        -COORD_BOUND <= by <= COORD_BOUND,
        0 < a_size <= MAX_SIZE,
        0 < b_size <= MAX_SIZE,
    ensures
        r == boxes_overlap(ax as int, ay as int, a_size as int, bx as int, by as int, b_size as int),
{
    let dx: i64 = if ax >= bx {
        ax - bx
    } else {
        bx - ax
    };
    let dy: i64 = if ay >= by {
        ay - by
    } else {
        by - ay
    };
    2 * dx <= a_size + b_size && 2 * dy <= a_size + b_size
}

/// Overlap test between a projectile and a hazard.
pub fn projectile_vs_hazard(p: &Projectile, h: &Hazard) -> (r: bool)
    requires
        crate::entities::projectile_ok(*p),
        crate::entities::hazard_ok(*h),
    ensures
        r == boxes_overlap(h.x as int, h.y as int, h.size as int, p.x as int, p.y as int, p.size as int),
{
    box_vs_box(h.x, h.y, h.size, p.x, p.y, p.size)
}

/// Overlap test between the player's circle and a hazard's square, by
/// clamping the circle's centre into the square and comparing the squared
/// distance against the squared radius.
pub fn player_vs_hazard(p: &Player, h: &Hazard) -> (r: bool)
    requires
        -COORD_BOUND <= p.x <= COORD_BOUND,
        -COORD_BOUND <= p.y <= COORD_BOUND,
        0 < p.radius <= MAX_SIZE,
        crate::entities::hazard_ok(*h),
    ensures
        r == circle_box_overlap(p.x as int, p.y as int, p.radius as int, h.x as int, h.y as int, h.size as int),
{
    let cx: i128 = 2 * (p.x as i128);
    let cy: i128 = 2 * (p.y as i128);
    let lo_x: i128 = 2 * (h.x as i128) - (h.size as i128);
    let hi_x: i128 = 2 * (h.x as i128) + (h.size as i128);
    let lo_y: i128 = 2 * (h.y as i128) - (h.size as i128);
    let hi_y: i128 = 2 * (h.y as i128) + (h.size as i128);
    let nx: i128 = if cx < lo_x {
        lo_x
    } else if cx > hi_x {
        hi_x
    } else {
        cx
    };
    let ny: i128 = if cy < lo_y {
        lo_y
    } else if cy > hi_y {
        hi_y
    } else {
        cy
    };
    let dx: i128 = cx - nx;
    let dy: i128 = cy - ny;
    let rr: i128 = 2 * (p.radius as i128);
    proof {
        assert(-5 * (COORD_BOUND as int) <= dx <= 5 * (COORD_BOUND as int));
        assert(-5 * (COORD_BOUND as int) <= dy <= 5 * (COORD_BOUND as int));
        lemma_square_bound(dx as int, 5 * (COORD_BOUND as int));
        lemma_square_bound(dy as int, 5 * (COORD_BOUND as int));
        lemma_square_bound(rr as int, 2 * (MAX_SIZE as int));
    }
    dx * dx + dy * dy <= rr * rr
}

/// If `|v| <= b` then `v * v <= b * b`.
proof fn lemma_square_bound(v: int, b: int)
    requires
        -b <= v <= b,
    ensures
        0 <= v * v <= b * b,
{
    assert(0 <= v * v <= b * b) by (nonlinear_arith)
        requires
            -b <= v <= b,
    ;
}

} // verus!
