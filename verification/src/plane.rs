//! The mathematical model of the chromaticity plane.
//!
//! Coordinates are whole numbers of grid steps. Everything here is ghost
//! code: points and triangles over unbounded integers, the predicates that the
//! executable types are specified against, and the laws that hold of them.

use vstd::prelude::*;

verus! {

/// A point of the grid.
pub struct Point {
    pub x: int,
    pub y: int,
}

/// Three points taken as the red, green and blue corners of a gamut.
pub struct Triangle {
    pub red: Point,
    pub green: Point,
    pub blue: Point,
}

/// Twice the signed area of the triangle `a`, `b`, `p`: positive when `p` lies to
/// the left of the directed line from `a` to `b`, zero when it lies on the line.
pub open spec fn orient(a: Point, b: Point, p: Point) -> int {
    (b.x - a.x) * (p.y - a.y) - (b.y - a.y) * (p.x - a.x)
}

/// The squared Euclidean distance between two points.
pub open spec fn dist2(a: Point, b: Point) -> int {
    (a.x - b.x) * (a.x - b.x) + (a.y - b.y) * (a.y - b.y)
}

/// The scalar product of `p - a` with `b - a`.
pub open spec fn along(p: Point, a: Point, b: Point) -> int {
    (p.x - a.x) * (b.x - a.x) + (p.y - a.y) * (b.y - a.y)
}

impl Triangle {
    /// Twice the signed area.
    pub open spec fn area2(self) -> int {
        orient(self.red, self.green, self.blue)
    }

    /// The three corners are not on one line.
    pub open spec fn nondegenerate(self) -> bool {
        self.area2() != 0
    }

    /// `p` lies inside the triangle or on its boundary: walking the edges
    /// blue-red, red-green, green-blue, `p` is never strictly left of one and
    /// strictly right of another.
    pub open spec fn contains(self, p: Point) -> bool {
        let s = orient(self.blue, self.red, p);
        let t = orient(self.red, self.green, p);
        let d = orient(self.green, self.blue, p);
        (s >= 0 && t >= 0 && d >= 0) || (s <= 0 && t <= 0 && d <= 0)
    }

    /// The point `(nx / k, ny / k)`, which need not be on the grid, lies inside the
    /// triangle or on its boundary.
    pub open spec fn contains_fraction(self, nx: int, ny: int, k: int) -> bool {
        self.scaled(k).contains(Point { x: nx, y: ny })
    }

    /// The triangle with every coordinate multiplied by `k`.
    pub open spec fn scaled(self, k: int) -> Triangle {
        Triangle {
            red: Point { x: k * self.red.x, y: k * self.red.y },
            green: Point { x: k * self.green.x, y: k * self.green.y },
            blue: Point { x: k * self.blue.x, y: k * self.blue.y },
        }
    }
}

/// `c` if the triangle contains it and it is strictly nearer to `p` than `cur`,
/// otherwise `cur`.
pub open spec fn closer(t: Triangle, p: Point, cur: Point, c: Point) -> Point {
    if t.contains(c) && dist2(c, p) < dist2(cur, p) {
        c
    } else {
        cur
    }
}

/// The grid point that stands for the point of the edge from `a` to `b` nearest
/// to `p`.
///
/// The foot of the perpendicular from `p` is taken at the parameter
/// `along / dist2(a, b)` clamped to `[0, 1]`. At 0 and 1 it is `a` or `b`.
/// In between it falls into one cell of the grid, and the result is, among the
/// two end points and the four corners of that cell, the one nearest to `p` that
/// the triangle contains; on equal distance the end points go before the corners
/// and the corners go in the order low-low, high-low, low-high, high-high.
pub open spec fn nearest_on_edge(t: Triangle, p: Point, a: Point, b: Point) -> Point {
    let len2 = dist2(a, b);
    let al = along(p, a, b);
    if al <= 0 {
        a
    } else if al >= len2 {
        b
    } else {
        let fx = a.x + (al * (b.x - a.x)) / len2;
        let fy = a.y + (al * (b.y - a.y)) / len2;
        let c0 = closer(t, p, a, b);
        let c1 = closer(t, p, c0, Point { x: fx, y: fy });
        let c2 = closer(t, p, c1, Point { x: fx + 1, y: fy });
        let c3 = closer(t, p, c2, Point { x: fx, y: fy + 1 });
        closer(t, p, c3, Point { x: fx + 1, y: fy + 1 })
    }
}

/// `p` brought into the triangle: `p` itself where the triangle contains it,
/// otherwise the nearest of the three points that `nearest_on_edge` gives for
/// the edges red-green, green-blue and blue-red, the earlier edge winning on
/// equal distance.
pub open spec fn restrain(t: Triangle, p: Point) -> Point {
    if t.contains(p) {
        p
    } else {
        let rg = nearest_on_edge(t, p, t.red, t.green);
        let gb = nearest_on_edge(t, p, t.green, t.blue);
        let br = nearest_on_edge(t, p, t.blue, t.red);
        let drg = dist2(rg, p);
        let dgb = dist2(gb, p);
        let dbr = dist2(br, p);
        if drg <= dgb && drg <= dbr {
            rg
        } else if dgb <= dbr {
            gb
        } else {
            br
        }
    }
}

/// A product of two differences, multiplied out.
proof fn lemma_mul_diff(a: int, b: int, c: int, d: int)
    ensures
        (a - b) * (c - d) == a * c - a * d - b * c + b * d,
{
    assert((a - b) * (c - d) == a * c - a * d - b * c + b * d) by (nonlinear_arith);
}

/// `orient` multiplied out.
proof fn lemma_orient_expanded(a: Point, b: Point, p: Point)
    ensures
        orient(a, b, p) == b.x * p.y - b.x * a.y - a.x * p.y - p.x * b.y + a.x * b.y + p.x * a.y,
{
    lemma_mul_diff(b.x, a.x, p.y, a.y);
    lemma_mul_diff(b.y, a.y, p.x, a.x);
    assert(b.y * p.x == p.x * b.y);
    assert(b.y * a.x == a.x * b.y);
    assert(a.y * p.x == p.x * a.y);
    assert(a.y * a.x == a.x * a.y);
}

/// `dist2` multiplied out.
proof fn lemma_dist2_expanded(a: Point, b: Point)
    ensures
        dist2(a, b) == a.x * a.x - 2 * (a.x * b.x) + b.x * b.x + a.y * a.y - 2 * (a.y * b.y) + b.y
            * b.y,
{
    lemma_mul_diff(a.x, b.x, a.x, b.x);
    lemma_mul_diff(a.y, b.y, a.y, b.y);
    assert(b.x * a.x == a.x * b.x);
    assert(b.y * a.y == a.y * b.y);
}

/// `along` multiplied out.
proof fn lemma_along_expanded(p: Point, a: Point, b: Point)
    ensures
        along(p, a, b) == p.x * b.x - p.x * a.x - a.x * b.x + a.x * a.x + p.y * b.y - p.y * a.y
            - a.y * b.y + a.y * a.y,
{
    lemma_mul_diff(p.x, a.x, b.x, a.x);
    lemma_mul_diff(p.y, a.y, b.y, a.y);
}

/// The three edge orientations of any point add up to twice the area.
pub proof fn lemma_orient_sum(t: Triangle, p: Point)
    ensures
        orient(t.blue, t.red, p) + orient(t.red, t.green, p) + orient(t.green, t.blue, p)
            == t.area2(),
{
    lemma_orient_expanded(t.blue, t.red, p);
    lemma_orient_expanded(t.red, t.green, p);
    lemma_orient_expanded(t.green, t.blue, p);
    lemma_orient_expanded(t.red, t.green, t.blue);
}

/// In a triangle of positive area the contained points are those on the left of
/// or on all three edges; in one of negative area, those on the right of or on
/// all three.
pub proof fn lemma_contains_by_orientation(t: Triangle, p: Point)
    ensures
        t.area2() > 0 ==> (t.contains(p) <==> orient(t.blue, t.red, p) >= 0 && orient(
            t.red,
            t.green,
            p,
        ) >= 0 && orient(t.green, t.blue, p) >= 0),
        t.area2() < 0 ==> (t.contains(p) <==> orient(t.blue, t.red, p) <= 0 && orient(
            t.red,
            t.green,
            p,
        ) <= 0 && orient(t.green, t.blue, p) <= 0),
{
    lemma_orient_sum(t, p);
}

/// Each corner of a triangle lies in the triangle.
pub proof fn lemma_corners_contained(t: Triangle)
    ensures
        t.contains(t.red),
        t.contains(t.green),
        t.contains(t.blue),
{
    lemma_orient_expanded(t.blue, t.red, t.red);
    lemma_orient_expanded(t.red, t.green, t.red);
    lemma_orient_expanded(t.red, t.green, t.green);
    lemma_orient_expanded(t.green, t.blue, t.green);
    lemma_orient_expanded(t.green, t.blue, t.blue);
    lemma_orient_expanded(t.blue, t.red, t.blue);
}

/// The orientation of the sum of three points against an edge whose ends are
/// taken three times is three times the sum of their orientations against the
/// edge.
proof fn lemma_orient_of_sum(a: Point, b: Point, u: Point, v: Point, w: Point)
    ensures
        orient(
            Point { x: 3 * a.x, y: 3 * a.y },
            Point { x: 3 * b.x, y: 3 * b.y },
            Point { x: u.x + v.x + w.x, y: u.y + v.y + w.y },
        ) == 3 * (orient(a, b, u) + orient(a, b, v) + orient(a, b, w)),
{
    let dx = b.x - a.x;
    let dy = b.y - a.y;
    let sx = (u.x - a.x) + (v.x - a.x) + (w.x - a.x);
    let sy = (u.y - a.y) + (v.y - a.y) + (w.y - a.y);
    assert((3 * dx) * sy == 3 * (dx * sy)) by (nonlinear_arith);
    assert((3 * dy) * sx == 3 * (dy * sx)) by (nonlinear_arith);
    assert(dx * sy == dx * (u.y - a.y) + dx * (v.y - a.y) + dx * (w.y - a.y)) by (nonlinear_arith)
        requires
            sy == (u.y - a.y) + (v.y - a.y) + (w.y - a.y),
    ;
    assert(dy * sx == dy * (u.x - a.x) + dy * (v.x - a.x) + dy * (w.x - a.x)) by (nonlinear_arith)
        requires
            sx == (u.x - a.x) + (v.x - a.x) + (w.x - a.x),
    ;
}

/// The centroid of a triangle lies in the triangle. The centroid is
/// `(sx / 3, sy / 3)` with `sx` and `sy` the sums of the corners' coordinates.
pub proof fn lemma_centroid_contained(t: Triangle)
    ensures
        t.contains_fraction(
            t.red.x + t.green.x + t.blue.x,
            t.red.y + t.green.y + t.blue.y,
            3,
        ),
{
    lemma_orient_of_sum(t.blue, t.red, t.red, t.green, t.blue);
    lemma_orient_of_sum(t.red, t.green, t.red, t.green, t.blue);
    lemma_orient_of_sum(t.green, t.blue, t.red, t.green, t.blue);
    lemma_corners_contained(t);
    lemma_orient_expanded(t.blue, t.red, t.red);
    lemma_orient_expanded(t.blue, t.red, t.blue);
    lemma_orient_expanded(t.blue, t.red, t.green);
    lemma_orient_expanded(t.red, t.green, t.red);
    lemma_orient_expanded(t.red, t.green, t.green);
    lemma_orient_expanded(t.red, t.green, t.blue);
    lemma_orient_expanded(t.green, t.blue, t.green);
    lemma_orient_expanded(t.green, t.blue, t.blue);
    lemma_orient_expanded(t.green, t.blue, t.red);
    let a = t.area2();
    assert(orient(t.blue, t.red, t.green) == a);
    assert(orient(t.green, t.blue, t.red) == a);
}

/// Where the centroid falls on the grid, the triangle contains that grid point.
pub proof fn lemma_grid_centroid_contained(t: Triangle, c: Point)
    requires
        3 * c.x == t.red.x + t.green.x + t.blue.x,
        3 * c.y == t.red.y + t.green.y + t.blue.y,
    ensures
        t.contains(c),
{
    lemma_centroid_contained(t);
    lemma_fraction_of_grid_point(t, c, 3);
}

/// A grid point written as a fraction is contained exactly when the grid point
/// is.
pub proof fn lemma_fraction_of_grid_point(t: Triangle, p: Point, k: int)
    requires
        k > 0,
    ensures
        t.contains_fraction(k * p.x, k * p.y, k) <==> t.contains(p),
{
    let u = t.scaled(k);
    let q = Point { x: k * p.x, y: k * p.y };
    lemma_orient_scaled(t.blue, t.red, p, k);
    lemma_orient_scaled(t.red, t.green, p, k);
    lemma_orient_scaled(t.green, t.blue, p, k);
}

/// Multiplying every coordinate by `k > 0` multiplies the orientation by `k * k`
/// and so keeps its sign.
pub proof fn lemma_orient_scaled(a: Point, b: Point, p: Point, k: int)
    requires
        k > 0,
    ensures
        orient(
            Point { x: k * a.x, y: k * a.y },
            Point { x: k * b.x, y: k * b.y },
            Point { x: k * p.x, y: k * p.y },
        ) == k * k * orient(a, b, p),
        orient(
            Point { x: k * a.x, y: k * a.y },
            Point { x: k * b.x, y: k * b.y },
            Point { x: k * p.x, y: k * p.y },
        ) >= 0 <==> orient(a, b, p) >= 0,
        orient(
            Point { x: k * a.x, y: k * a.y },
            Point { x: k * b.x, y: k * b.y },
            Point { x: k * p.x, y: k * p.y },
        ) <= 0 <==> orient(a, b, p) <= 0,
{
    let o = orient(a, b, p);
    let s = orient(
        Point { x: k * a.x, y: k * a.y },
        Point { x: k * b.x, y: k * b.y },
        Point { x: k * p.x, y: k * p.y },
    );
    let u = b.x - a.x;
    let v = p.y - a.y;
    let w = b.y - a.y;
    let z = p.x - a.x;
    assert(k * b.x - k * a.x == k * u && k * p.y - k * a.y == k * v && k * b.y - k * a.y == k * w
        && k * p.x - k * a.x == k * z) by (nonlinear_arith)
        requires
            u == b.x - a.x,
            v == p.y - a.y,
            w == b.y - a.y,
            z == p.x - a.x,
    ;
    assert((k * u) * (k * v) == k * k * (u * v)) by (nonlinear_arith);
    assert((k * w) * (k * z) == k * k * (w * z)) by (nonlinear_arith);
    assert(k * k * (u * v) - k * k * (w * z) == k * k * (u * v - w * z)) by (nonlinear_arith);
    assert((s >= 0 <==> o >= 0) && (s <= 0 <==> o <= 0)) by (nonlinear_arith)
        requires
            s == k * k * o,
            k > 0,
    ;
}

/// The point from which `nearest_on_edge` takes its cell is the foot of the
/// perpendicular from `p` on the line through `a` and `b`. With `len2 = dist2(a,
/// b)` the foot is `(fx / len2, fy / len2)`, where `fx = a.x * len2 + along * (b.x
/// - a.x)` and `fy` likewise: it lies on the line, and the line from it to `p` is
/// at a right angle to the edge.
pub proof fn lemma_foot_of_perpendicular(p: Point, a: Point, b: Point)
    ensures
        ({
            let len2 = dist2(a, b);
            let fx = a.x * len2 + along(p, a, b) * (b.x - a.x);
            let fy = a.y * len2 + along(p, a, b) * (b.y - a.y);
            &&& (b.x - a.x) * (fy - a.y * len2) - (b.y - a.y) * (fx - a.x * len2) == 0
            &&& (p.x * len2 - fx) * (b.x - a.x) + (p.y * len2 - fy) * (b.y - a.y) == 0
        }),
{
    let dx = b.x - a.x;
    let dy = b.y - a.y;
    let ux = p.x - a.x;
    let uy = p.y - a.y;
    let len2 = dist2(a, b);
    let al = along(p, a, b);
    let fx = a.x * len2 + al * dx;
    let fy = a.y * len2 + al * dy;
    assert(dx * (al * dy) == dy * (al * dx)) by (nonlinear_arith);
    assert(len2 == dx * dx + dy * dy) by {
        assert((a.x - b.x) * (a.x - b.x) == dx * dx) by (nonlinear_arith)
            requires
                dx == b.x - a.x,
        ;
        assert((a.y - b.y) * (a.y - b.y) == dy * dy) by (nonlinear_arith)
            requires
                dy == b.y - a.y,
        ;
    }
    assert(al == ux * dx + uy * dy);
    assert(p.x * len2 - a.x * len2 == ux * len2) by (nonlinear_arith)
        requires
            ux == p.x - a.x,
    ;
    assert(p.y * len2 - a.y * len2 == uy * len2) by (nonlinear_arith)
        requires
            uy == p.y - a.y,
    ;
    let bx = al * dx;
    let by = al * dy;
    assert((ux * len2 - bx) * dx == (ux * len2) * dx - bx * dx) by (nonlinear_arith);
    assert((uy * len2 - by) * dy == (uy * len2) * dy - by * dy) by (nonlinear_arith);
    assert((ux * len2) * dx == len2 * (ux * dx)) by (nonlinear_arith);
    assert((uy * len2) * dy == len2 * (uy * dy)) by (nonlinear_arith);
    assert(bx * dx == al * (dx * dx)) by (nonlinear_arith)
        requires
            bx == al * dx,
    ;
    assert(by * dy == al * (dy * dy)) by (nonlinear_arith)
        requires
            by == al * dy,
    ;
    let m = ux * dx;
    let n = uy * dy;
    let q = dx * dx;
    let r = dy * dy;
    assert(len2 * m + len2 * n == len2 * (m + n)) by (nonlinear_arith);
    assert(al * q + al * r == al * (q + r)) by (nonlinear_arith);
    assert(len2 * al == al * len2) by (nonlinear_arith);
}

/// The points among which `nearest_on_edge` chooses: one end of the edge where
/// the foot of the perpendicular is at or beyond it, and otherwise both ends
/// and the four corners of the cell of the foot.
pub open spec fn edge_candidates(p: Point, a: Point, b: Point) -> Seq<Point> {
    let len2 = dist2(a, b);
    let al = along(p, a, b);
    if al <= 0 {
        seq![a]
    } else if al >= len2 {
        seq![b]
    } else {
        let fx = a.x + (al * (b.x - a.x)) / len2;
        let fy = a.y + (al * (b.y - a.y)) / len2;
        seq![
            a,
            b,
            Point { x: fx, y: fy },
            Point { x: fx + 1, y: fy },
            Point { x: fx, y: fy + 1 },
            Point { x: fx + 1, y: fy + 1 },
        ]
    }
}

/// Between the ends of an edge, the cell that `nearest_on_edge` looks at holds
/// the foot of the perpendicular: in each coordinate the foot is at or above the
/// low corner and below the high one.
pub proof fn lemma_cell_holds_foot(p: Point, a: Point, b: Point)
    requires
        0 < along(p, a, b) < dist2(a, b),
    ensures
        ({
            let len2 = dist2(a, b);
            let low = edge_candidates(p, a, b)[2];
            &&& low.x * len2 <= a.x * len2 + along(p, a, b) * (b.x - a.x) < (low.x + 1) * len2
            &&& low.y * len2 <= a.y * len2 + along(p, a, b) * (b.y - a.y) < (low.y + 1) * len2
        }),
{
    let len2 = dist2(a, b);
    let al = along(p, a, b);
    lemma_floor_bounds(al * (b.x - a.x), len2, a.x);
    lemma_floor_bounds(al * (b.y - a.y), len2, a.y);
}

/// `n / d` is the whole part of the fraction, also after a whole number `k` is
/// added to it.
proof fn lemma_floor_bounds(n: int, d: int, k: int)
    requires
        d > 0,
    ensures
        (k + n / d) * d <= k * d + n < (k + n / d + 1) * d,
{
    vstd::arithmetic::div_mod::lemma_fundamental_div_mod(n, d);
    vstd::arithmetic::div_mod::lemma_mod_bound(n, d);
    let q = n / d;
    assert((k + q) * d == k * d + d * q && (k + q + 1) * d == k * d + d * q + d)
        by (nonlinear_arith);
}

/// What `nearest_on_edge` gives for an edge between two points of the
/// triangle is one of its candidates, lies in the triangle, and is as near to
/// `p` as every candidate that lies in the triangle.
pub proof fn lemma_nearest_on_edge_is_best(t: Triangle, p: Point, a: Point, b: Point)
    requires
        t.contains(a),
        t.contains(b),
    ensures
        edge_candidates(p, a, b).contains(nearest_on_edge(t, p, a, b)),
        t.contains(nearest_on_edge(t, p, a, b)),
        forall|i: int|
            0 <= i < edge_candidates(p, a, b).len() && t.contains(
                #[trigger] edge_candidates(p, a, b)[i],
            ) ==> dist2(nearest_on_edge(t, p, a, b), p) <= dist2(edge_candidates(p, a, b)[i], p),
{
    let c = edge_candidates(p, a, b);
    let r = nearest_on_edge(t, p, a, b);
    let len2 = dist2(a, b);
    let al = along(p, a, b);
    if al <= 0 || al >= len2 {
        assert(c[0] == r);
    } else {
        let c0 = closer(t, p, c[0], c[1]);
        let c1 = closer(t, p, c0, c[2]);
        let c2 = closer(t, p, c1, c[3]);
        let c3 = closer(t, p, c2, c[4]);
        let c4 = closer(t, p, c3, c[5]);
        assert(r == c4);
        assert(r == c[0] || r == c[1] || r == c[2] || r == c[3] || r == c[4] || r == c[5]);
    }
}

/// `a` and `b` are the ends of one of the edges red-green, green-blue and
/// blue-red, in this direction.
pub open spec fn is_edge(t: Triangle, a: Point, b: Point) -> bool {
    ||| a == t.red && b == t.green
    ||| a == t.green && b == t.blue
    ||| a == t.blue && b == t.red
}

/// What `restrain` makes of a point outside the triangle is as near to the
/// point as every candidate of every edge that lies in the triangle.
pub proof fn lemma_restrain_is_best(t: Triangle, p: Point, a: Point, b: Point, i: int)
    requires
        !t.contains(p),
        is_edge(t, a, b),
        0 <= i < edge_candidates(p, a, b).len(),
        t.contains(edge_candidates(p, a, b)[i]),
    ensures
        dist2(restrain(t, p), p) <= dist2(edge_candidates(p, a, b)[i], p),
{
    lemma_corners_contained(t);
    lemma_nearest_on_edge_is_best(t, p, t.red, t.green);
    lemma_nearest_on_edge_is_best(t, p, t.green, t.blue);
    lemma_nearest_on_edge_is_best(t, p, t.blue, t.red);
}

/// What `restrain` makes of a point is as near to the point as each corner of
/// the triangle.
pub proof fn lemma_restrain_near_as_corners(t: Triangle, p: Point)
    ensures
        dist2(restrain(t, p), p) <= dist2(t.red, p),
        dist2(restrain(t, p), p) <= dist2(t.green, p),
        dist2(restrain(t, p), p) <= dist2(t.blue, p),
{
    if t.contains(p) {
        assert(dist2(p, p) == 0);
        lemma_dist2_not_negative(t.red, p);
        lemma_dist2_not_negative(t.green, p);
        lemma_dist2_not_negative(t.blue, p);
    } else {
        lemma_corners_contained(t);
        lemma_nearest_on_edge_near_as_ends(t, p, t.red, t.green);
        lemma_nearest_on_edge_near_as_ends(t, p, t.green, t.blue);
        lemma_nearest_on_edge_near_as_ends(t, p, t.blue, t.red);
    }
}

/// A squared distance is not negative.
pub proof fn lemma_dist2_not_negative(a: Point, b: Point)
    ensures
        dist2(a, b) >= 0,
{
    assert((a.x - b.x) * (a.x - b.x) >= 0 && (a.y - b.y) * (a.y - b.y) >= 0) by (nonlinear_arith);
}

/// What `nearest_on_edge` gives is as near to `p` as both ends of the edge.
pub proof fn lemma_nearest_on_edge_near_as_ends(t: Triangle, p: Point, a: Point, b: Point)
    requires
        t.contains(a),
        t.contains(b),
    ensures
        dist2(nearest_on_edge(t, p, a, b), p) <= dist2(a, p),
        dist2(nearest_on_edge(t, p, a, b), p) <= dist2(b, p),
{
    lemma_dist2_not_negative(a, b);
    lemma_dist2_expanded(a, b);
    lemma_dist2_expanded(a, p);
    lemma_dist2_expanded(b, p);
    lemma_along_expanded(p, a, b);
    assert(dist2(b, p) - dist2(a, p) == dist2(a, b) - 2 * along(p, a, b));
}

/// The point that `nearest_on_edge` gives for an edge between two corners lies
/// in the triangle.
pub proof fn lemma_nearest_on_edge_contained(t: Triangle, p: Point, a: Point, b: Point)
    requires
        t.contains(a),
        t.contains(b),
    ensures
        t.contains(nearest_on_edge(t, p, a, b)),
{
}

/// Whatever the point, the triangle contains what `restrain` makes of it.
pub proof fn lemma_restrain_contained(t: Triangle, p: Point)
    ensures
        t.contains(restrain(t, p)),
{
    lemma_corners_contained(t);
    lemma_nearest_on_edge_contained(t, p, t.red, t.green);
    lemma_nearest_on_edge_contained(t, p, t.green, t.blue);
    lemma_nearest_on_edge_contained(t, p, t.blue, t.red);
}

/// A point that the triangle contains is left where it is.
pub proof fn lemma_restrain_inside(t: Triangle, p: Point)
    requires
        t.contains(p),
    ensures
        restrain(t, p) == p,
{
}

/// Restraining twice is restraining once.
pub proof fn lemma_restrain_idempotent(t: Triangle, p: Point)
    ensures
        restrain(t, restrain(t, p)) == restrain(t, p),
{
    lemma_restrain_contained(t, p);
}

/// Twice the area times a point is the sum of the corners, each weighted by
/// the orientation of the point against the opposite edge.
pub proof fn lemma_barycentric(t: Triangle, p: Point)
    ensures
        t.area2() * p.x == orient(t.green, t.blue, p) * t.red.x + orient(t.blue, t.red, p)
            * t.green.x + orient(t.red, t.green, p) * t.blue.x,
        t.area2() * p.y == orient(t.green, t.blue, p) * t.red.y + orient(t.blue, t.red, p)
            * t.green.y + orient(t.red, t.green, p) * t.blue.y,
{
    let gx = t.green.x - t.red.x;
    let gy = t.green.y - t.red.y;
    let bx = t.blue.x - t.red.x;
    let by = t.blue.y - t.red.y;
    let px = p.x - t.red.x;
    let py = p.y - t.red.y;
    let a = t.area2();
    let d = orient(t.green, t.blue, p);
    let s = orient(t.blue, t.red, p);
    let w = orient(t.red, t.green, p);
    lemma_orient_sum(t, p);
    assert(a == gx * by - gy * bx);
    assert(w == gx * py - gy * px);
    assert(s == by * px - bx * py) by {
        lemma_orient_expanded(t.blue, t.red, p);
        lemma_mul_diff(t.blue.y, t.red.y, p.x, t.red.x);
        lemma_mul_diff(t.blue.x, t.red.x, p.y, t.red.y);
    }
    lemma_weights(gx, gy, bx, by, px, py);
    assert(a * p.x == d * t.red.x + s * t.green.x + w * t.blue.x) by {
        lemma_place(a, d, s, w, px, gx, bx, t.red.x);
    }
    assert(a * p.y == d * t.red.y + s * t.green.y + w * t.blue.y) by {
        lemma_place(a, d, s, w, py, gy, by, t.red.y);
    }
}

/// With one corner of a triangle at the origin and the others at `g` and `b`,
/// twice the area times a point `p` is the sum of `g` and `b` weighted by the
/// orientations of `p` against the edges from and to the origin.
proof fn lemma_weights(gx: int, gy: int, bx: int, by: int, px: int, py: int)
    ensures
        (gx * by - gy * bx) * px == (by * px - bx * py) * gx + (gx * py - gy * px) * bx,
        (gx * by - gy * bx) * py == (by * px - bx * py) * gy + (gx * py - gy * px) * by,
{
    assert((gx * by - gy * bx) * px == (gx * by) * px - (gy * bx) * px) by (nonlinear_arith);
    assert((by * px - bx * py) * gx == (by * px) * gx - (bx * py) * gx) by (nonlinear_arith);
    assert((gx * py - gy * px) * bx == (gx * py) * bx - (gy * px) * bx) by (nonlinear_arith);
    assert((gx * by) * px == (by * px) * gx) by (nonlinear_arith);
    assert((gy * bx) * px == (gy * px) * bx) by (nonlinear_arith);
    assert((bx * py) * gx == (gx * py) * bx) by (nonlinear_arith);
    assert((gx * by - gy * bx) * py == (gx * by) * py - (gy * bx) * py) by (nonlinear_arith);
    assert((by * px - bx * py) * gy == (by * px) * gy - (bx * py) * gy) by (nonlinear_arith);
    assert((gx * py - gy * px) * by == (gx * py) * by - (gy * px) * by) by (nonlinear_arith);
    assert((gx * by) * py == (gx * py) * by) by (nonlinear_arith);
    assert((gy * bx) * py == (bx * py) * gy) by (nonlinear_arith);
    assert((by * px) * gy == (gy * px) * by) by (nonlinear_arith);
}

/// Moves the identity of `lemma_weights` from the origin to the corner `r`.
proof fn lemma_place(a: int, d: int, s: int, w: int, p: int, g: int, b: int, r: int)
    requires
        a == d + s + w,
        a * p == s * g + w * b,
    ensures
        a * (p + r) == d * r + s * (g + r) + w * (b + r),
{
    assert(a * (p + r) == a * p + a * r) by (nonlinear_arith);
    assert(s * (g + r) == s * g + s * r) by (nonlinear_arith);
    assert(w * (b + r) == w * b + w * r) by (nonlinear_arith);
    assert(a * r == d * r + s * r + w * r) by (nonlinear_arith)
        requires
            a == d + s + w,
    ;
}

/// A weighted mean of three numbers in `[lo, hi]`, with weights of one sign
/// that do not all vanish, lies in `[lo, hi]`.
proof fn lemma_weighted_mean_bounds(
    a: int,
    v: int,
    d: int,
    s: int,
    w: int,
    r: int,
    g: int,
    b: int,
    lo: int,
    hi: int,
)
    requires
        a == d + s + w,
        a != 0,
        (d >= 0 && s >= 0 && w >= 0) || (d <= 0 && s <= 0 && w <= 0),
        a * v == d * r + s * g + w * b,
        lo <= r <= hi,
        lo <= g <= hi,
        lo <= b <= hi,
    ensures
        lo <= v <= hi,
{
    if d >= 0 && s >= 0 && w >= 0 {
        assert(d * lo <= d * r <= d * hi) by (nonlinear_arith)
            requires
                d >= 0,
                lo <= r <= hi,
        ;
        assert(s * lo <= s * g <= s * hi) by (nonlinear_arith)
            requires
                s >= 0,
                lo <= g <= hi,
        ;
        assert(w * lo <= w * b <= w * hi) by (nonlinear_arith)
            requires
                w >= 0,
                lo <= b <= hi,
        ;
        assert(a * lo == d * lo + s * lo + w * lo && a * hi == d * hi + s * hi + w * hi)
            by (nonlinear_arith)
            requires
                a == d + s + w,
        ;
        assert(lo <= v <= hi) by (nonlinear_arith)
            requires
                a > 0,
                a * lo <= a * v <= a * hi,
        ;
    } else {
        assert(d * lo >= d * r >= d * hi) by (nonlinear_arith)
            requires
                d <= 0,
                lo <= r <= hi,
        ;
        assert(s * lo >= s * g >= s * hi) by (nonlinear_arith)
            requires
                s <= 0,
                lo <= g <= hi,
        ;
        assert(w * lo >= w * b >= w * hi) by (nonlinear_arith)
            requires
                w <= 0,
                lo <= b <= hi,
        ;
        assert(a * lo == d * lo + s * lo + w * lo && a * hi == d * hi + s * hi + w * hi)
            by (nonlinear_arith)
            requires
                a == d + s + w,
        ;
        assert(lo <= v <= hi) by (nonlinear_arith)
            requires
                a < 0,
                a * lo >= a * v >= a * hi,
        ;
    }
}

/// A point that a non-degenerate triangle contains lies in every axis-parallel
/// box that holds the three corners.
pub proof fn lemma_contained_in_box(t: Triangle, p: Point, lo: int, hi: int)
    requires
        t.nondegenerate(),
        t.contains(p),
        lo <= t.red.x <= hi,
        lo <= t.green.x <= hi,
        lo <= t.blue.x <= hi,
        lo <= t.red.y <= hi,
        lo <= t.green.y <= hi,
        lo <= t.blue.y <= hi,
    ensures
        lo <= p.x <= hi,
        lo <= p.y <= hi,
{
    lemma_barycentric(t, p);
    lemma_orient_sum(t, p);
    let d = orient(t.green, t.blue, p);
    let s = orient(t.blue, t.red, p);
    let w = orient(t.red, t.green, p);
    lemma_weighted_mean_bounds(
        t.area2(),
        p.x,
        d,
        s,
        w,
        t.red.x,
        t.green.x,
        t.blue.x,
        lo,
        hi,
    );
    lemma_weighted_mean_bounds(
        t.area2(),
        p.y,
        d,
        s,
        w,
        t.red.y,
        t.green.y,
        t.blue.y,
        lo,
        hi,
    );
}

/// The quotient of a division by a positive number is the one `q` with
/// `q * d <= n < (q + 1) * d`.
pub proof fn lemma_floor_quotient(n: int, d: int, q: int)
    requires
        d > 0,
        q * d <= n < (q + 1) * d,
    ensures
        n / d == q,
{
    assert((q + 1) * d == q * d + d) by (nonlinear_arith);
    vstd::arithmetic::div_mod::lemma_fundamental_div_mod_converse(n, d, q, n - q * d);
}

/// The whole number nearest to `n / d`, a half rounded up.
pub open spec fn round_div(n: int, d: int) -> int {
    (2 * n + d) / (2 * d)
}

/// `round_div` gives the nearest whole number: `n / d` is at most a half below
/// it and less than a half above.
pub proof fn lemma_round_div_nearest(n: int, d: int)
    requires
        d > 0,
    ensures
        -d < 2 * (round_div(n, d) * d - n) <= d,
{
    let q = round_div(n, d);
    let rest = (2 * n + d) % (2 * d);
    vstd::arithmetic::div_mod::lemma_fundamental_div_mod(2 * n + d, 2 * d);
    vstd::arithmetic::div_mod::lemma_mod_bound(2 * n + d, 2 * d);
    assert((2 * d) * q == 2 * (q * d)) by (nonlinear_arith);
}

/// Rounding a fraction between 0 and `bound` stays between 0 and `bound`.
pub proof fn lemma_round_div_bounds(n: int, d: int, bound: int)
    requires
        d > 0,
        bound >= 0,
        0 <= n <= bound * d,
    ensures
        0 <= round_div(n, d) <= bound,
{
    let q = round_div(n, d);
    let rest = (2 * n + d) % (2 * d);
    vstd::arithmetic::div_mod::lemma_fundamental_div_mod(2 * n + d, 2 * d);
    vstd::arithmetic::div_mod::lemma_mod_bound(2 * n + d, 2 * d);
    let e = 2 * d;
    assert(e * q < e * (bound + 1)) by (nonlinear_arith)
        requires
            e == 2 * d,
            d > 0,
            n <= bound * d,
            2 * n + d == e * q + rest,
            0 <= rest,
    ;
    assert(e * q > e * (-1)) by (nonlinear_arith)
        requires
            e == 2 * d,
            d > 0,
            0 <= n,
            2 * n + d == e * q + rest,
            rest < e,
    ;
    assert(-1 < q < bound + 1) by (nonlinear_arith)
        requires
            e > 0,
            e * (-1) < e * q < e * (bound + 1),
    ;
}

/// A product of two numbers of magnitude at most `b` has magnitude at most
/// `b * b`.
pub proof fn lemma_product_bound(u: int, v: int, b: int)
    requires
        -b <= u <= b,
        -b <= v <= b,
    ensures
        -(b * b) <= u * v <= b * b,
{
    assert(-(b * b) <= u * v <= b * b) by (nonlinear_arith)
        requires
            -b <= u <= b,
            -b <= v <= b,
    ;
}

/// The cross product of the vectors `(ux, uy)` and `(vx, vy)`.
pub open spec fn cross(ux: int, uy: int, vx: int, vy: int) -> int {
    ux * vy - uy * vx
}

/// The magnitude of a number.
pub open spec fn magnitude(v: int) -> int {
    if v < 0 {
        -v
    } else {
        v
    }
}

/// The distance between two points along the axes.
pub open spec fn taxi(a: Point, b: Point) -> int {
    magnitude(a.x - b.x) + magnitude(a.y - b.y)
}

/// The corner that is no end of the edge from `a` to `b`.
pub open spec fn opposite(t: Triangle, a: Point, b: Point) -> Point {
    if a == t.red && b == t.green {
        t.blue
    } else if a == t.green && b == t.blue {
        t.red
    } else {
        t.green
    }
}

/// The foot of the perpendicular from `p` on the edge from `a` to `b` lies
/// between its ends and is clear of the other two edges: the triangles that it
/// spans with them have at least the area of a strip of one step along them.
pub open spec fn foot_is_clear(t: Triangle, p: Point, a: Point, b: Point) -> bool {
    let c = opposite(t, a, b);
    let len2 = dist2(a, b);
    let al = along(p, a, b);
    let area2 = magnitude(t.area2());
    &&& 0 < al < len2
    &&& al * area2 >= len2 * taxi(a, c)
    &&& (len2 - al) * area2 >= len2 * taxi(b, c)
}

/// `orient` changes with its third point as the cross product with the edge
/// does.
proof fn lemma_orient_shift(u: Point, v: Point, a: Point, q: Point)
    ensures
        orient(u, v, q) == orient(u, v, a) + cross(v.x - u.x, v.y - u.y, q.x - a.x, q.y - a.y),
{
    lemma_orient_expanded(u, v, q);
    lemma_orient_expanded(u, v, a);
    lemma_mul_diff(v.x, u.x, q.y, a.y);
    lemma_mul_diff(v.y, u.y, q.x, a.x);
    assert(v.y * q.x == q.x * v.y);
    assert(v.y * a.x == a.x * v.y);
    assert(u.y * q.x == q.x * u.y);
    assert(u.y * a.x == a.x * u.y);
}

/// The cross product with a combination of two vectors is the combination of
/// the cross products.
proof fn lemma_cross_combined(wx: int, wy: int, xx: int, xy: int, dx: int, dy: int, l: int, m: int)
    ensures
        cross(wx, wy, l * xx - m * dx, l * xy - m * dy) == l * cross(wx, wy, xx, xy) - m * cross(
            wx,
            wy,
            dx,
            dy,
        ),
{
    let lx = l * xx;
    let ly = l * xy;
    let mx = m * dx;
    let my = m * dy;
    assert(wx * (ly - my) == wx * ly - wx * my) by (nonlinear_arith);
    assert(wy * (lx - mx) == wy * lx - wy * mx) by (nonlinear_arith);
    assert(wx * ly == l * (wx * xy)) by (nonlinear_arith)
        requires
            ly == l * xy,
    ;
    assert(wx * my == m * (wx * dy)) by (nonlinear_arith)
        requires
            my == m * dy,
    ;
    assert(wy * lx == l * (wy * xx)) by (nonlinear_arith)
        requires
            lx == l * xx,
    ;
    assert(wy * mx == m * (wy * dx)) by (nonlinear_arith)
        requires
            mx == m * dx,
    ;
    let a = wx * xy;
    let b = wy * xx;
    let c = wx * dy;
    let d = wy * dx;
    assert(l * (a - b) == l * a - l * b) by (nonlinear_arith);
    assert(m * (c - d) == m * c - m * d) by (nonlinear_arith);
}

/// `len2` times the orientation of a point `q` against an edge, by the
/// orientations of `a` and `b` and by how far `q` is from the point that lies
/// `al / len2` of the way from `a` to `b`.
proof fn lemma_orient_at_offset(u: Point, v: Point, a: Point, b: Point, q: Point, len2: int, al: int)
    ensures
        len2 * orient(u, v, q) == (len2 - al) * orient(u, v, a) + al * orient(u, v, b) + cross(
            v.x - u.x,
            v.y - u.y,
            len2 * (q.x - a.x) - al * (b.x - a.x),
            len2 * (q.y - a.y) - al * (b.y - a.y),
        ),
{
    let wx = v.x - u.x;
    let wy = v.y - u.y;
    let oa = orient(u, v, a);
    let cx = cross(wx, wy, q.x - a.x, q.y - a.y);
    let cd = cross(wx, wy, b.x - a.x, b.y - a.y);
    lemma_orient_shift(u, v, a, q);
    lemma_orient_shift(u, v, a, b);
    lemma_cross_combined(wx, wy, q.x - a.x, q.y - a.y, b.x - a.x, b.y - a.y, len2, al);
    assert(len2 * (oa + cx) == len2 * oa + len2 * cx) by (nonlinear_arith);
    assert(al * (oa + cd) == al * oa + al * cd) by (nonlinear_arith);
    assert((len2 - al) * oa == len2 * oa - al * oa) by (nonlinear_arith);
}

/// A product is bounded by the product of the magnitudes.
proof fn lemma_product_within(u: int, v: int, l: int)
    requires
        -l <= v <= l,
    ensures
        -(magnitude(u) * l) <= u * v <= magnitude(u) * l,
{
    let m = magnitude(u);
    if u >= 0 {
        assert(u * (-l) <= u * v <= u * l) by (nonlinear_arith)
            requires
                u >= 0,
                -l <= v <= l,
        ;
        assert(u * (-l) == -(u * l)) by (nonlinear_arith);
    } else {
        assert(m * (-l) <= m * v <= m * l) by (nonlinear_arith)
            requires
                m >= 0,
                -l <= v <= l,
        ;
        assert(m * (-l) == -(m * l)) by (nonlinear_arith);
        assert(u * v == -(m * v)) by (nonlinear_arith)
            requires
                m == -u,
        ;
    }
}

/// A cross product with a vector whose coordinates are within `l` is within
/// `l` times the length of the other vector along the axes.
proof fn lemma_cross_within(wx: int, wy: int, ex: int, ey: int, l: int)
    requires
        -l <= ex <= l,
        -l <= ey <= l,
    ensures
        -((magnitude(wx) + magnitude(wy)) * l) <= cross(wx, wy, ex, ey) <= (magnitude(wx)
            + magnitude(wy)) * l,
{
    lemma_product_within(wx, ey, l);
    lemma_product_within(wy, ex, l);
    let a = magnitude(wx);
    let b = magnitude(wy);
    assert((a + b) * l == a * l + b * l) by (nonlinear_arith);
}

/// Two numbers of the same sign have a product that is not negative.
proof fn lemma_same_sign_product(u: int, v: int)
    requires
        (u >= 0 && v >= 0) || (u <= 0 && v <= 0),
    ensures
        u * v >= 0,
{
    assert(u * v >= 0) by (nonlinear_arith)
        requires
            (u >= 0 && v >= 0) || (u <= 0 && v <= 0),
    ;
}

/// In a cell of the grid that holds a point of the line through `a` and `b`,
/// one corner lies on the side of the line that `side` names: on the left
/// where `side` is 1, on the right where it is -1. The point is `(a.x + ex /
/// len2, a.y + ey / len2)` above the low corner, and the corner that is chosen
/// is `(hx, hy)` steps above the low one.
proof fn lemma_corner_on_side(dx: int, dy: int, ex: int, ey: int, len2: int, side: int) -> (h: (
    int,
    int,
))
    requires
        len2 > 0,
        side == 1 || side == -1,
        -len2 < ex <= 0,
        -len2 < ey <= 0,
    ensures
        h.0 == 0 || h.0 == 1,
        h.1 == 0 || h.1 == 1,
        side * cross(dx, dy, ex + h.0 * len2, ey + h.1 * len2) >= 0,
{
    let u = side * dx;
    let v = side * dy;
    let hy: int = if u >= 0 { 1 } else { 0 };
    let hx: int = if v >= 0 { 0 } else { 1 };
    let fx = ex + hx * len2;
    let fy = ey + hy * len2;
    assert(hx * len2 == (if hx == 1 { len2 } else { 0 }) && hy * len2 == (if hy == 1 {
        len2
    } else {
        0
    })) by (nonlinear_arith)
        requires
            hx == 0 || hx == 1,
            hy == 0 || hy == 1,
    ;
    lemma_same_sign_product(u, fy);
    lemma_same_sign_product(v, -fx);
    assert(side * (dx * fy - dy * fx) == u * fy + v * (-fx)) by (nonlinear_arith)
        requires
            u == side * dx,
            v == side * dy,
    ;
    (hx, hy)
}

/// Where the foot of the perpendicular on an edge is clear of the other two
/// edges, the triangle contains a corner of the cell of the foot.
pub proof fn lemma_clear_foot_has_corner(t: Triangle, p: Point, a: Point, b: Point) -> (i: int)
    requires
        is_edge(t, a, b),
        foot_is_clear(t, p, a, b),
    ensures
        2 <= i < 6,
        t.contains(edge_candidates(p, a, b)[i]),
{
    let c = opposite(t, a, b);
    let len2 = dist2(a, b);
    let al = along(p, a, b);
    let area = t.area2();
    let dx = b.x - a.x;
    let dy = b.y - a.y;
    let low = edge_candidates(p, a, b)[2];
    // The area by the corners in the order a, b, c, and what the orientations of
    // a and b against the other two edges are.
    lemma_orient_expanded(a, b, c);
    lemma_orient_expanded(t.red, t.green, t.blue);
    assert(orient(a, b, c) == area);
    lemma_orient_expanded(c, a, a);
    lemma_orient_expanded(c, a, b);
    lemma_orient_expanded(b, c, a);
    lemma_orient_expanded(b, c, b);
    lemma_orient_expanded(a, b, a);
    lemma_orient_expanded(a, b, b);
    assert(orient(c, a, a) == 0 && orient(c, a, b) == area);
    assert(orient(b, c, a) == area && orient(b, c, b) == 0);
    assert(orient(a, b, a) == 0 && orient(a, b, b) == 0);
    // The area does not vanish, or the foot would not be clear.
    if area == 0 {
        assert(al * 0 == 0 && (len2 - al) * 0 == 0) by (nonlinear_arith);
        assert(len2 * taxi(a, c) <= 0 && len2 * taxi(b, c) <= 0);
        assert(taxi(a, c) <= 0 && taxi(b, c) <= 0) by (nonlinear_arith)
            requires
                len2 > 0,
                len2 * taxi(a, c) <= 0,
                len2 * taxi(b, c) <= 0,
        ;
        assert(a == b);
        assert(dist2(a, a) == 0) by (nonlinear_arith);
    }
    let side: int = if area > 0 { 1 } else { -1 };
    assert(side * area == magnitude(area)) by (nonlinear_arith)
        requires
            side == (if area > 0 { 1int } else { -1int }),
    ;
    // How far the low corner is from the foot, in parts of len2.
    lemma_cell_holds_foot(p, a, b);
    let ex = len2 * (low.x - a.x) - al * dx;
    let ey = len2 * (low.y - a.y) - al * dy;
    assert(ex == low.x * len2 - (a.x * len2 + al * dx) && ey == low.y * len2 - (a.y * len2 + al
        * dy)) by (nonlinear_arith)
        requires
            ex == len2 * (low.x - a.x) - al * dx,
            ey == len2 * (low.y - a.y) - al * dy,
    ;
    assert((low.x + 1) * len2 == low.x * len2 + len2 && (low.y + 1) * len2 == low.y * len2 + len2)
        by (nonlinear_arith);
    let (hx, hy) = lemma_corner_on_side(dx, dy, ex, ey, len2, side);
    let q = Point { x: low.x + hx, y: low.y + hy };
    let fx = len2 * (q.x - a.x) - al * dx;
    let fy = len2 * (q.y - a.y) - al * dy;
    assert(fx == ex + hx * len2 && fy == ey + hy * len2) by (nonlinear_arith)
        requires
            ex == len2 * (low.x - a.x) - al * dx,
            ey == len2 * (low.y - a.y) - al * dy,
            fx == len2 * (low.x + hx - a.x) - al * dx,
            fy == len2 * (low.y + hy - a.y) - al * dy,
    ;
    assert(-len2 <= fx <= len2 && -len2 <= fy <= len2) by (nonlinear_arith)
        requires
            fx == ex + hx * len2,
            fy == ey + hy * len2,
            -len2 < ex <= 0,
            -len2 < ey <= 0,
            hx == 0 || hx == 1,
            hy == 0 || hy == 1,
    ;
    // The edge itself.
    lemma_orient_at_offset(a, b, a, b, q, len2, al);
    assert((len2 - al) * 0 == 0 && al * 0 == 0) by (nonlinear_arith);
    let o1 = orient(a, b, q);
    assert(side * (len2 * o1) >= 0);
    // The edge from c to a.
    lemma_orient_at_offset(c, a, a, b, q, len2, al);
    lemma_cross_within(a.x - c.x, a.y - c.y, fx, fy, len2);
    let o2 = orient(c, a, q);
    let k2 = cross(a.x - c.x, a.y - c.y, fx, fy);
    assert(len2 * o2 == al * area + k2);
    assert(taxi(a, c) * len2 == len2 * taxi(a, c)) by (nonlinear_arith);
    assert(side * (al * area) == al * magnitude(area)) by (nonlinear_arith)
        requires
            side * area == magnitude(area),
    ;
    assert(side * (al * area + k2) == side * (al * area) + side * k2) by (nonlinear_arith);
    assert(side * k2 >= -(taxi(a, c) * len2)) by (nonlinear_arith)
        requires
            side == 1 || side == -1,
            -(taxi(a, c) * len2) <= k2 <= taxi(a, c) * len2,
    ;
    assert(side * (len2 * o2) >= 0);
    // The edge from b to c.
    lemma_orient_at_offset(b, c, a, b, q, len2, al);
    lemma_cross_within(c.x - b.x, c.y - b.y, fx, fy, len2);
    let o3 = orient(b, c, q);
    let k3 = cross(c.x - b.x, c.y - b.y, fx, fy);
    assert(len2 * o3 == (len2 - al) * area + k3);
    assert(magnitude(c.x - b.x) + magnitude(c.y - b.y) == taxi(b, c));
    assert(taxi(b, c) * len2 == len2 * taxi(b, c)) by (nonlinear_arith);
    assert(side * ((len2 - al) * area) == (len2 - al) * magnitude(area)) by (nonlinear_arith)
        requires
            side * area == magnitude(area),
    ;
    assert(side * ((len2 - al) * area + k3) == side * ((len2 - al) * area) + side * k3)
        by (nonlinear_arith);
    assert(side * k3 >= -(taxi(b, c) * len2)) by (nonlinear_arith)
        requires
            side == 1 || side == -1,
            -(taxi(b, c) * len2) <= k3 <= taxi(b, c) * len2,
    ;
    assert(side * (len2 * o3) >= 0);
    // All three orientations are on the side of the area.
    assert(side * o1 >= 0 && side * o2 >= 0 && side * o3 >= 0) by (nonlinear_arith)
        requires
            len2 > 0,
            side == 1 || side == -1,
            side * (len2 * o1) >= 0,
            side * (len2 * o2) >= 0,
            side * (len2 * o3) >= 0,
    ;
    assert(side * o1 == (if side == 1 { o1 } else { -o1 }) && side * o2 == (if side == 1 {
        o2
    } else {
        -o2
    }) && side * o3 == (if side == 1 { o3 } else { -o3 })) by (nonlinear_arith)
        requires
            side == 1 || side == -1,
    ;
    assert(t.contains(q));
    let i: int = 2 + hx + 2 * hy;
    assert(edge_candidates(p, a, b)[i] == q);
    i
}

/// Where the foot of the perpendicular from a point outside on an edge is
/// clear of the other two edges, what `restrain` gives is as near to the point
/// as a corner of the cell of the foot that lies in the triangle: it is within
/// a step of the foot in each coordinate, or nearer to the point.
pub proof fn lemma_restrain_near_clear_foot(t: Triangle, p: Point, a: Point, b: Point) -> (i: int)
    requires
        !t.contains(p),
        is_edge(t, a, b),
        foot_is_clear(t, p, a, b),
    ensures
        2 <= i < 6,
        t.contains(edge_candidates(p, a, b)[i]),
        dist2(restrain(t, p), p) <= dist2(edge_candidates(p, a, b)[i], p),
{
    let i = lemma_clear_foot_has_corner(t, p, a, b);
    lemma_restrain_is_best(t, p, a, b, i);
    i
}

} // verus!
