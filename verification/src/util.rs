//! Exact geometric predicates: segment against segment, segment against
//! axis-aligned rectangle, and point in triangle by ray casting.
//!
//! The classic parametric formulas divide by a cross-product determinant;
//! here every comparison of such a fraction is carried out by
//! cross-multiplication over the integers, so the predicates are exact.
//! Parallel segments, for which the determinant is zero and the parametric
//! form has no solution, count as not intersecting.

use vstd::prelude::*;

use crate::constants::COORD_LIMIT;
use crate::vector::Vector;

verus! {

/// The determinant of the parametric intersection system of segments
/// `(ax1, ay1)-(ax2, ay2)` and `(bx1, by1)-(bx2, by2)`; zero exactly when
/// the segments are parallel.
pub open spec fn seg_den(
    ax1: int, ay1: int, ax2: int, ay2: int,
    bx1: int, by1: int, bx2: int, by2: int,
) -> int {
    (by2 - by1) * (ax2 - ax1) - (bx2 - bx1) * (ay2 - ay1)
}

/// Numerator of the intersection parameter along the first segment.
pub open spec fn seg_num_a(
    ax1: int, ay1: int, ax2: int, ay2: int,
    bx1: int, by1: int, bx2: int, by2: int,
) -> int {
    (bx2 - bx1) * (ay1 - by1) - (by2 - by1) * (ax1 - bx1)
}

/// Numerator of the intersection parameter along the second segment.
pub open spec fn seg_num_b(
    ax1: int, ay1: int, ax2: int, ay2: int,
    bx1: int, by1: int, bx2: int, by2: int,
) -> int {
    (ax2 - ax1) * (ay1 - by1) - (ay2 - ay1) * (ax1 - bx1)
}

/// Whether the fraction `num / den` lies in the unit interval `[0, 1]`,
/// stated by cross-multiplication.  A zero denominator yields `false`:
/// the parallel case counts as no intersection.
pub open spec fn frac_in_unit(num: int, den: int) -> bool {
    if den > 0 {
        0 <= num <= den
    } else if den < 0 {
        den <= num <= 0
    } else {
        false
    }
}

/// Whether the closed segments `(ax1, ay1)-(ax2, ay2)` and
/// `(bx1, by1)-(bx2, by2)` intersect: both intersection parameters of the
/// parametric form lie in `[0, 1]`.  Parallel segments do not intersect.
pub open spec fn segments_intersect(
    ax1: int, ay1: int, ax2: int, ay2: int,
    bx1: int, by1: int, bx2: int, by2: int,
) -> bool {
    &&& frac_in_unit(
        seg_num_a(ax1, ay1, ax2, ay2, bx1, by1, bx2, by2),
        seg_den(ax1, ay1, ax2, ay2, bx1, by1, bx2, by2),
    )
    &&& frac_in_unit(
        seg_num_b(ax1, ay1, ax2, ay2, bx1, by1, bx2, by2),
        seg_den(ax1, ay1, ax2, ay2, bx1, by1, bx2, by2),
    )
}

/// Whether the segment `(lx1, ly1)-(lx2, ly2)` meets the boundary of the
/// axis-aligned rectangle with top-left corner `(rx, ry)`, width `rw` and
/// height `rh`: it intersects the left, right, top or bottom edge.
pub open spec fn segment_hits_rect(
    lx1: int, ly1: int, lx2: int, ly2: int,
    rx: int, ry: int, rw: int, rh: int,
) -> bool {
    ||| segments_intersect(lx1, ly1, lx2, ly2, rx, ry, rx, ry + rh)
    ||| segments_intersect(lx1, ly1, lx2, ly2, rx + rw, ry, rx + rw, ry + rh)
    ||| segments_intersect(lx1, ly1, lx2, ly2, rx, ry, rx + rw, ry)
    ||| segments_intersect(lx1, ly1, lx2, ly2, rx, ry + rh, rx + rw, ry + rh)
}

/// Whether the edge from `(cx, cy)` to `(nx, ny)` crosses the horizontal
/// ray cast leftward from `(px, py)`: the endpoints lie strictly on
/// opposite sides of the ray's height, and the point lies strictly left of
/// the edge's x-intercept at that height.  The intercept comparison is the
/// cross-multiplied form of `px < cx + (nx - cx) * (py - cy) / (ny - cy)`;
/// the guard keeps `ny - cy` nonzero, so no degenerate case arises.
pub open spec fn edge_crossing(cx: int, cy: int, nx: int, ny: int, px: int, py: int) -> bool {
    &&& ((cy > py && ny < py) || (cy < py && ny > py))
    &&& (if ny > cy {
        (px - cx) * (ny - cy) < (nx - cx) * (py - cy)
    } else {
        (px - cx) * (ny - cy) > (nx - cx) * (py - cy)
    })
}

/// Whether `p` lies inside the triangle `v0 v1 v2`, by the parity of the
/// number of triangle edges crossing the leftward ray from `p`.
pub open spec fn point_in_triangle(v0: Vector, v1: Vector, v2: Vector, p: Vector) -> bool {
    (edge_crossing(v0.x as int, v0.y as int, v1.x as int, v1.y as int, p.x as int, p.y as int)
        != edge_crossing(v1.x as int, v1.y as int, v2.x as int, v2.y as int, p.x as int, p.y as int))
        != edge_crossing(v2.x as int, v2.y as int, v0.x as int, v0.y as int, p.x as int, p.y as int)
}

/// A product of two factors bounded by `b` is bounded by `b * b`.
proof fn mul_bounded(x: int, y: int, b: int)
    requires
        0 <= b,
        -b <= x <= b,
        -b <= y <= b,
    ensures
        -b * b <= x * y <= b * b,
{
    assert(-b * b <= x * y <= b * b) by (nonlinear_arith)
        requires
            0 <= b,
            -b <= x <= b,
            -b <= y <= b,
    ;
}

/// Exact test of `num / den` lying in `[0, 1]`.
fn frac_in_unit_exec(num: i128, den: i128) -> (r: bool)
    ensures
        r == frac_in_unit(num as int, den as int),
{
    if den > 0 {
        0 <= num && num <= den
    } else if den < 0 {
        den <= num && num <= 0
    } else {
        false
    }
}

/// Whether the segment from `line_a_1` to `line_a_2` intersects the
/// segment from `line_b_1` to `line_b_2`; parallel segments never do.
pub fn line_line(line_a_1: &Vector, line_a_2: &Vector, line_b_1: &Vector, line_b_2: &Vector) -> (r:
    bool)
    requires
        line_a_1.in_span(8 * COORD_LIMIT),
        line_a_2.in_span(8 * COORD_LIMIT),
        line_b_1.in_span(8 * COORD_LIMIT),
        line_b_2.in_span(8 * COORD_LIMIT),
    ensures
        r == segments_intersect(
            line_a_1.x as int, line_a_1.y as int, line_a_2.x as int, line_a_2.y as int,
            line_b_1.x as int, line_b_1.y as int, line_b_2.x as int, line_b_2.y as int,
        ),
{
    let dax: i128 = line_a_2.x as i128 - line_a_1.x as i128;
    let day: i128 = line_a_2.y as i128 - line_a_1.y as i128;
    let dbx: i128 = line_b_2.x as i128 - line_b_1.x as i128;
    let dby: i128 = line_b_2.y as i128 - line_b_1.y as i128;
    let wx: i128 = line_a_1.x as i128 - line_b_1.x as i128;
    let wy: i128 = line_a_1.y as i128 - line_b_1.y as i128;
    proof {
        mul_bounded(dby as int, dax as int, 16 * COORD_LIMIT);
        mul_bounded(dbx as int, day as int, 16 * COORD_LIMIT);
        mul_bounded(dbx as int, wy as int, 16 * COORD_LIMIT);
        mul_bounded(dby as int, wx as int, 16 * COORD_LIMIT);
        mul_bounded(dax as int, wy as int, 16 * COORD_LIMIT);
        mul_bounded(day as int, wx as int, 16 * COORD_LIMIT);
    }
    let den: i128 = dby * dax - dbx * day;
    let num_a: i128 = dbx * wy - dby * wx;
    let num_b: i128 = dax * wy - day * wx;
    let in_a: bool = frac_in_unit_exec(num_a, den);
    let in_b: bool = frac_in_unit_exec(num_b, den);
    in_a && in_b
}

/// Whether the segment from `line_1` to `line_2` meets the boundary of
/// the axis-aligned rectangle at `rect_pos` with extent `rect_size`.
pub fn line_rect(line_1: &Vector, line_2: &Vector, rect_pos: &Vector, rect_size: &Vector) -> (r:
    bool)
    requires
        line_1.in_span(4 * COORD_LIMIT),
        line_2.in_span(4 * COORD_LIMIT),
        rect_pos.in_span(4 * COORD_LIMIT),
        0 <= rect_size.x <= 2 * COORD_LIMIT,
        0 <= rect_size.y <= 2 * COORD_LIMIT,
    ensures
        r == segment_hits_rect(
            line_1.x as int, line_1.y as int, line_2.x as int, line_2.y as int,
            rect_pos.x as int, rect_pos.y as int, rect_size.x as int, rect_size.y as int,
        ),
{
    let corner_x: i64 = rect_pos.x + rect_size.x;
    let corner_y: i64 = rect_pos.y + rect_size.y;
    let left: bool = line_line(
        line_1,
        line_2,
        rect_pos,
        &Vector::new(rect_pos.x, corner_y),
    );
    let right: bool = line_line(
        line_1,
        line_2,
        &Vector::new(corner_x, rect_pos.y),
        &Vector::new(corner_x, corner_y),
    );
    let top: bool = line_line(
        line_1,
        line_2,
        rect_pos,
        &Vector::new(corner_x, rect_pos.y),
    );
    let bottom: bool = line_line(
        line_1,
        line_2,
        &Vector::new(rect_pos.x, corner_y),
        &Vector::new(corner_x, corner_y),
    );
    left || right || top || bottom
}

/// Exact test of one edge of the ray-casting loop.
fn edge_crossing_exec(vc: &Vector, vn: &Vector, p: &Vector) -> (r: bool)
    requires
        vc.in_span(8 * COORD_LIMIT),
        vn.in_span(8 * COORD_LIMIT),
        p.in_span(8 * COORD_LIMIT),
    ensures
        r == edge_crossing(vc.x as int, vc.y as int, vn.x as int, vn.y as int, p.x as int, p.y as int),
{
    let opposite: bool = (vc.y > p.y && vn.y < p.y) || (vc.y < p.y && vn.y > p.y);
    if !opposite {
        return false;
    }
    let dpx: i128 = p.x as i128 - vc.x as i128;
    let dy: i128 = vn.y as i128 - vc.y as i128;
    let dnx: i128 = vn.x as i128 - vc.x as i128;
    let dpy: i128 = p.y as i128 - vc.y as i128;
    proof {
        mul_bounded(dpx as int, dy as int, 16 * COORD_LIMIT);
        mul_bounded(dnx as int, dpy as int, 16 * COORD_LIMIT);
    }
    if vn.y > vc.y {
        dpx * dy < dnx * dpy
    } else {
        dpx * dy > dnx * dpy
    }
}

/// Whether `point` lies inside the triangle with corners `vertices`, by
/// ray casting: the ray cast leftward from `point` crosses an odd number
/// of the triangle's edges.
pub fn polygon_point(vertices: [Vector; 3], point: Vector) -> (r: bool)
    requires
        vertices[0].in_span(4 * COORD_LIMIT),
        vertices[1].in_span(4 * COORD_LIMIT),
        vertices[2].in_span(4 * COORD_LIMIT),
        point.in_span(4 * COORD_LIMIT),
    ensures
        r == point_in_triangle(vertices[0], vertices[1], vertices[2], point),
{
    let e0: bool = edge_crossing_exec(&vertices[0], &vertices[1], &point);
    let e1: bool = edge_crossing_exec(&vertices[1], &vertices[2], &point);
    let e2: bool = edge_crossing_exec(&vertices[2], &vertices[0], &point);
    (e0 != e1) != e2
}

} // verus!
