//! When two shapes count as close: the exact distance test, in integers.

use crate::component::Shape;
use crate::vector::Position;
use vstd::prelude::*;

verus! {

/// Half the width of the box at the core of a shape; a circle's core is its centre.
pub open spec fn core_half_width(s: Shape) -> int {
    match s {
        Shape::Circle { .. } => 0,
        Shape::Box { half_width, .. } => half_width as int,
    }
}

/// Half the height of the box at the core of a shape.
pub open spec fn core_half_height(s: Shape) -> int {
    match s {
        Shape::Circle { .. } => 0,
        Shape::Box { half_height, .. } => half_height as int,
    }
}

/// How far a shape reaches beyond its core in every direction.
pub open spec fn rounding(s: Shape) -> int {
    match s {
        Shape::Circle { radius } => radius as int,
        Shape::Box { .. } => 0,
    }
}

/// The distance along one axis between two intervals centred on `a` and `b`
/// whose half lengths add up to `reach`; zero where they overlap.
pub open spec fn gap(a: int, b: int, reach: int) -> int {
    let d = if a >= b {
        a - b
    } else {
        b - a
    };
    if d > reach {
        d - reach
    } else {
        0
    }
}

/// The square of the distance between two points.
pub open spec fn distance_squared(a: Position, b: Position) -> int {
    (a.x - b.x) * (a.x - b.x) + (a.y - b.y) * (a.y - b.y)
}

/// Whether the distance between shape `sa` at `pa` and shape `sb` at `pb` is at
/// most `margin`. The distance between the cores is compared, squared, with
/// the square of what the two roundings and the margin allow.
pub open spec fn within(sa: Shape, pa: Position, sb: Shape, pb: Position, margin: int) -> bool {
    let gx = gap(pa.x as int, pb.x as int, core_half_width(sa) + core_half_width(sb));
    let gy = gap(pa.y as int, pb.y as int, core_half_height(sa) + core_half_height(sb));
    let allowed = rounding(sa) + rounding(sb) + margin;
    gx * gx + gy * gy <= allowed * allowed
}

fn half_width_of(s: &Shape) -> (r: u32)
    ensures
        r == core_half_width(*s),
{
    match s {
        Shape::Circle { .. } => 0,
        Shape::Box { half_width, .. } => *half_width,
    }
}

fn half_height_of(s: &Shape) -> (r: u32)
    ensures
        r == core_half_height(*s),
{
    match s {
        Shape::Circle { .. } => 0,
        Shape::Box { half_height, .. } => *half_height,
    }
}

fn rounding_of(s: &Shape) -> (r: u32)
    ensures
        r == rounding(*s),
{
    match s {
        Shape::Circle { radius } => *radius,
        Shape::Box { .. } => 0,
    }
}

fn gap_of(a: i64, b: i64, reach: u64) -> (r: i128)
    ensures
        r == gap(a as int, b as int, reach as int),
        0 <= r <= 0xffff_ffff_ffff_ffff,
{
    let wide_a: i128 = a as i128;
    let wide_b: i128 = b as i128;
    let d: i128 = if wide_a >= wide_b {
        wide_a - wide_b
    } else {
        wide_b - wide_a
    };
    let wide_reach: i128 = reach as i128;
    if d > wide_reach {
        d - wide_reach
    } else {
        0
    }
}

proof fn lemma_square_bound(g: int, limit: int)
    requires
        0 <= g <= limit,
    ensures
        0 <= g * g <= limit * limit,
{
    assert(0 <= g * g <= limit * limit) by (nonlinear_arith)
        requires
            0 <= g <= limit,
    ;
}

proof fn lemma_square_exceeds(g: int, other: int, allowed: int)
    requires
        0 <= allowed < g,
    ensures
        g * g + other * other > allowed * allowed,
{
    assert(g * g + other * other > allowed * allowed) by (nonlinear_arith)
        requires
            0 <= allowed < g,
    ;
}

/// The distance test on two placed shapes.
pub fn shapes_within(sa: &Shape, pa: &Position, sb: &Shape, pb: &Position, margin: u64) -> (r:
    bool)
    requires
        margin <= 2 * u32::MAX,
    ensures
        r == within(*sa, *pa, *sb, *pb, margin as int),
{
    let reach_x: u64 = half_width_of(sa) as u64 + half_width_of(sb) as u64;
    let reach_y: u64 = half_height_of(sa) as u64 + half_height_of(sb) as u64;
    let allowed: i128 = rounding_of(sa) as i128 + rounding_of(sb) as i128 + margin as i128;
    let gx: i128 = gap_of(pa.x, pb.x, reach_x);
    let gy: i128 = gap_of(pa.y, pb.y, reach_y);
    if gx > allowed {
        proof {
            lemma_square_exceeds(gx as int, gy as int, allowed as int);
        }
        false
    } else if gy > allowed {
        proof {
            lemma_square_exceeds(gy as int, gx as int, allowed as int);
        }
        false
    } else {
        proof {
            lemma_square_bound(gx as int, allowed as int);
            lemma_square_bound(gy as int, allowed as int);
            lemma_square_bound(allowed as int, 0x4_0000_0000);
        }
        gx * gx + gy * gy <= allowed * allowed
    }
}

/// Two circles are within `margin` of each other exactly when the distance
/// `d` between their centres satisfies `d <= r1 + r2 + margin`; both sides
/// being non-negative, that is the same inequality between their squares.
pub proof fn lemma_circles_within(
    r1: u32,
    c1: Position,
    r2: u32,
    c2: Position,
    margin: nat,
)
    ensures
        within(Shape::Circle { radius: r1 }, c1, Shape::Circle { radius: r2 }, c2, margin as int)
            <==> distance_squared(c1, c2) <= (r1 + r2 + margin) * (r1 + r2 + margin),
{
    let dx = c1.x - c2.x;
    let dy = c1.y - c2.y;
    assert((-dx) * (-dx) == dx * dx) by (nonlinear_arith);
    assert((-dy) * (-dy) == dy * dy) by (nonlinear_arith);
}

/// The distance test does not depend on which shape is named first.
pub proof fn lemma_within_symmetric(
    sa: Shape,
    pa: Position,
    sb: Shape,
    pb: Position,
    margin: int,
)
    ensures
        within(sa, pa, sb, pb, margin) == within(sb, pb, sa, pa, margin),
{
}

} // verus!
