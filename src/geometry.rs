//! Geometry primitives and the pairwise shape intersection tests.
use vstd::prelude::*;

verus! {

/// Largest magnitude of a coordinate or radius that the shape tests accept.
/// Every intermediate product of the exact tests then fits in 128 bits.
pub const COORD_LIMIT: i64 = 536_870_912;

/// Largest magnitude of a bounding-box corner. Boxes are turned into shapes at
/// twice their scale, which keeps box centers exact; the doubled box then
/// stays within [`COORD_LIMIT`].
pub const RECT_LIMIT: i64 = 268_435_456;

/// The tag that selects which exact test applies to a collidable body.
#[derive(Clone, Copy, Debug, PartialEq, Eq, Structural)]
pub enum CollisionType {
    Circle,
    Rectangle,
    Triangle,
}

/// A point (or a vector) of the plane.
#[derive(Clone, Copy, Debug, PartialEq, Eq, Structural)]
pub struct Point {
    pub x: i64,
    pub y: i64,
}

/// An axis-aligned box: top-left corner, width and height (y grows downward).
#[derive(Clone, Copy, Debug, PartialEq, Eq, Structural)]
pub struct Rect {
    pub x: i64,
    pub y: i64,
    pub width: i64,
    pub height: i64,
}

#[derive(Clone, Copy, Debug, PartialEq, Eq, Structural)]
pub struct Circle {
    pub center: Point,
    pub radius: i64,
}

#[derive(Clone, Copy, Debug, PartialEq, Eq, Structural)]
pub struct Triangle {
    pub a: Point,
    pub b: Point,
    pub c: Point,
}

pub open spec fn in_limit(v: int, lim: int) -> bool {
    -lim <= v <= lim
}

impl Point {
    pub open spec fn wf(self) -> bool {
        in_limit(self.x as int, COORD_LIMIT as int) && in_limit(self.y as int, COORD_LIMIT as int)
    }
}

impl Circle {
    pub open spec fn wf(self) -> bool {
        self.center.wf() && 0 <= self.radius <= COORD_LIMIT
    }
}

impl Triangle {
    pub open spec fn wf(self) -> bool {
        self.a.wf() && self.b.wf() && self.c.wf()
    }
}

impl Rect {
    /// Positive size, and both corners within `lim` of the origin on each axis.
    pub open spec fn within(self, lim: int) -> bool {
        &&& self.width > 0
        &&& self.height > 0
        &&& -lim <= self.x
        &&& self.x + self.width <= lim
        &&& -lim <= self.y
        &&& self.y + self.height <= lim
    }

    /// A bounding box that the shape oracle accepts.
    pub open spec fn wf(self) -> bool {
        self.within(RECT_LIMIT as int)
    }
}

pub open spec fn dist_sq(p: Point, q: Point) -> int {
    (p.x - q.x) * (p.x - q.x) + (p.y - q.y) * (p.y - q.y)
}

/// Two circles touch or overlap: the distance of the centers is at most the
/// sum of the radii.
pub open spec fn circles_collide(c1: Circle, c2: Circle) -> bool {
    dist_sq(c1.center, c2.center) <= (c1.radius + c2.radius) * (c1.radius + c2.radius)
}

/// Two boxes share interior area (boxes that only touch do not collide).
pub open spec fn recs_collide(r1: Rect, r2: Rect) -> bool {
    &&& r1.x < r2.x + r2.width
    &&& r2.x < r1.x + r1.width
    &&& r1.y < r2.y + r2.height
    &&& r2.y < r1.y + r1.height
}

pub open spec fn clamp_int(v: int, lo: int, hi: int) -> int {
    if v < lo {
        lo
    } else if v > hi {
        hi
    } else {
        v
    }
}

/// The point of the closed box nearest to `p`.
pub open spec fn nearest_in_rect(p: Point, r: Rect) -> (int, int) {
    (clamp_int(p.x as int, r.x as int, r.x + r.width), clamp_int(p.y as int, r.y as int, r.y + r.height))
}

/// A circle and a closed box share a point: the box point nearest to the
/// center lies within the radius.
pub open spec fn circle_rec_collide(c: Circle, r: Rect) -> bool {
    let (nx, ny) = nearest_in_rect(c.center, r);
    (c.center.x - nx) * (c.center.x - nx) + (c.center.y - ny) * (c.center.y - ny)
        <= c.radius * c.radius
}

pub proof fn lemma_mul_abs_bound(a: int, b: int, la: int, lb: int)
    requires
        -la <= a <= la,
        -lb <= b <= lb,
    ensures
        -(la * lb) <= a * b <= la * lb,
        0 <= a * a <= la * la,
{
    assert(-(la * lb) <= a * b <= la * lb) by (nonlinear_arith)
        requires
            -la <= a <= la,
            -lb <= b <= lb,
    ;
    assert(0 <= a * a <= la * la) by (nonlinear_arith)
        requires
            -la <= a <= la,
    ;
}

/// Squared distance of two points.
pub fn distance_squared(p: Point, q: Point) -> (r: i128)
    requires
        p.wf(),
        q.wf(),
    ensures
        r == dist_sq(p, q),
        0 <= r <= 0x2000_0000_0000_0000,
{
    let dx = p.x as i128 - q.x as i128;
    let dy = p.y as i128 - q.y as i128;
    proof {
        lemma_mul_abs_bound(dx as int, dx as int, 0x4000_0000, 0x4000_0000);
        lemma_mul_abs_bound(dy as int, dy as int, 0x4000_0000, 0x4000_0000);
    }
    dx * dx + dy * dy
}

/// Circle against circle.
pub fn check_collision_circles(c1: &Circle, c2: &Circle) -> (r: bool)
    requires
        c1.wf(),
        c2.wf(),
    ensures
        r == circles_collide(*c1, *c2),
{
    let d = distance_squared(c1.center, c2.center);
    let s = c1.radius as i128 + c2.radius as i128;
    proof {
        lemma_mul_abs_bound(s as int, s as int, 0x4000_0000, 0x4000_0000);
    }
    d <= s * s
}

/// Box against box.
pub fn check_collision_recs(r1: &Rect, r2: &Rect) -> (r: bool)
    requires
        r1.within(COORD_LIMIT as int),
        r2.within(COORD_LIMIT as int),
    ensures
        r == recs_collide(*r1, *r2),
{
    r1.x < r2.x + r2.width && r2.x < r1.x + r1.width && r1.y < r2.y + r2.height && r2.y < r1.y
        + r1.height
}

fn clamp_coord(v: i64, lo: i64, hi: i64) -> (r: i64)
    requires
        lo <= hi,
    ensures
        r == clamp_int(v as int, lo as int, hi as int),
{
    if v < lo {
        lo
    } else if v > hi {
        hi
    } else {
        v
    }
}

/// Circle against box.
pub fn check_collision_circle_rec(c: &Circle, rect: &Rect) -> (r: bool)
    requires
        c.wf(),
        rect.within(COORD_LIMIT as int),
    ensures
        r == circle_rec_collide(*c, *rect),
{
    let nx = clamp_coord(c.center.x, rect.x, rect.x + rect.width);
    let ny = clamp_coord(c.center.y, rect.y, rect.y + rect.height);
    let nearest = Point { x: nx, y: ny };
    let d = distance_squared(c.center, nearest);
    let rad = c.radius as i128;
    proof {
        lemma_mul_abs_bound(rad as int, rad as int, 0x2000_0000, 0x2000_0000);
    }
    d <= rad * rad
}


/// Twice the signed area of the triangle (a, b, c); its sign gives the
/// orientation.
pub open spec fn orient(a: Point, b: Point, c: Point) -> int {
    (a.x - c.x) * (b.y - c.y) - (b.x - c.x) * (a.y - c.y)
}

/// `p` lies in the closed triangle: the three signed areas (p, a, b),
/// (p, b, c), (p, c, a) are never of both signs.
pub open spec fn in_triangle(p: Point, t: Triangle) -> bool {
    let d1 = orient(p, t.a, t.b);
    let d2 = orient(p, t.b, t.c);
    let d3 = orient(p, t.c, t.a);
    !((d1 < 0 || d2 < 0 || d3 < 0) && (d1 > 0 || d2 > 0 || d3 > 0))
}

pub open spec fn dot_from(o: Point, p: Point, q: Point) -> int {
    (p.x - o.x) * (q.x - o.x) + (p.y - o.y) * (q.y - o.y)
}

/// The squared distance from `p` to the segment `ab`, as a fraction
/// (numerator, denominator) with a positive denominator. The nearest point
/// of the segment is the projection of `p` on the line, clamped to the
/// segment; a segment of zero length is the point `a`.
pub open spec fn segment_dist_sq(p: Point, a: Point, b: Point) -> (int, int) {
    let l2 = dist_sq(a, b);
    let t = dot_from(a, p, b);
    if l2 == 0 || t <= 0 {
        (dist_sq(p, a), 1)
    } else if t >= l2 {
        (dist_sq(p, b), 1)
    } else {
        (dist_sq(p, a) * l2 - t * t, l2)
    }
}

/// The segment `ab` passes within distance `r` of `p`.
pub open spec fn segment_within(p: Point, a: Point, b: Point, r: int) -> bool {
    let (num, den) = segment_dist_sq(p, a, b);
    num <= r * r * den
}

/// A circle and a closed triangle share a point: the center lies inside, or
/// an edge passes within the radius, or a vertex lies within the radius.
pub open spec fn circle_triangle_collide(c: Circle, t: Triangle) -> bool {
    let r = c.radius as int;
    ||| in_triangle(c.center, t)
    ||| segment_within(c.center, t.a, t.b, r)
    ||| segment_within(c.center, t.b, t.c, r)
    ||| segment_within(c.center, t.c, t.a, r)
    ||| dist_sq(c.center, t.a) <= r * r
    ||| dist_sq(c.center, t.b) <= r * r
    ||| dist_sq(c.center, t.c) <= r * r
}

impl Triangle {
    pub open spec fn edge_seq(self) -> Seq<(Point, Point)> {
        seq![(self.a, self.b), (self.b, self.c), (self.c, self.a)]
    }

    /// The three edges, in the fixed winding a→b, b→c, c→a.
    pub fn edges(&self) -> (r: [(Point, Point); 3])
        ensures
            r@ == self.edge_seq(),
    {
        let r = [(self.a, self.b), (self.b, self.c), (self.c, self.a)];
        assert(r@ =~= self.edge_seq());
        r
    }
}

fn orientation(a: Point, b: Point, c: Point) -> (r: i128)
    requires
        a.wf(),
        b.wf(),
        c.wf(),
    ensures
        r == orient(a, b, c),
{
    let ax = a.x as i128 - c.x as i128;
    let ay = a.y as i128 - c.y as i128;
    let bx = b.x as i128 - c.x as i128;
    let by = b.y as i128 - c.y as i128;
    proof {
        lemma_mul_abs_bound(ax as int, by as int, 0x4000_0000, 0x4000_0000);
        lemma_mul_abs_bound(bx as int, ay as int, 0x4000_0000, 0x4000_0000);
    }
    ax * by - bx * ay
}

/// Whether `p` lies in the closed triangle (boundary counts as inside).
pub fn point_in_triangle(p: Point, tri: &Triangle) -> (r: bool)
    requires
        p.wf(),
        tri.wf(),
    ensures
        r == in_triangle(p, *tri),
{
    let d1 = orientation(p, tri.a, tri.b);
    let d2 = orientation(p, tri.b, tri.c);
    let d3 = orientation(p, tri.c, tri.a);
    let has_neg = d1 < 0 || d2 < 0 || d3 < 0;
    let has_pos = d1 > 0 || d2 > 0 || d3 > 0;
    !(has_neg && has_pos)
}

/// Squared distance from `p` to the segment `ab`, exact, as
/// (numerator, denominator).
pub fn point_to_segment_distance_sq(p: Point, a: Point, b: Point) -> (r: (i128, i128))
    requires
        p.wf(),
        a.wf(),
        b.wf(),
    ensures
        (r.0 as int, r.1 as int) == segment_dist_sq(p, a, b),
        r.1 > 0,
        0 < r.1 <= 0x2000_0000_0000_0000,
        0 <= r.0 <= 0x2000_0000_0000_0000 * r.1,
{
    let l2 = distance_squared(a, b);
    let da = distance_squared(p, a);
    let wx = p.x as i128 - a.x as i128;
    let wy = p.y as i128 - a.y as i128;
    let ex = b.x as i128 - a.x as i128;
    let ey = b.y as i128 - a.y as i128;
    proof {
        lemma_mul_abs_bound(wx as int, ex as int, 0x4000_0000, 0x4000_0000);
        lemma_mul_abs_bound(wy as int, ey as int, 0x4000_0000, 0x4000_0000);
    }
    let t = wx * ex + wy * ey;
    if l2 == 0 || t <= 0 {
        (da, 1)
    } else if t >= l2 {
        (distance_squared(p, b), 1)
    } else {
        proof {
            lemma_mul_abs_bound(da as int, l2 as int, 0x2000_0000_0000_0000, 0x2000_0000_0000_0000);
            lemma_mul_abs_bound(t as int, t as int, l2 as int, l2 as int);
            lemma_mul_abs_bound(l2 as int, l2 as int, 0x2000_0000_0000_0000, 0x2000_0000_0000_0000);
            assert(da * l2 <= 0x2000_0000_0000_0000 * l2) by (nonlinear_arith)
                requires
                    0 <= da <= 0x2000_0000_0000_0000,
                    0 <= l2,
            ;
            assert(da == wx * wx + wy * wy);
            assert(l2 == ex * ex + ey * ey) by (nonlinear_arith)
                requires
                    l2 == (a.x - b.x) * (a.x - b.x) + (a.y - b.y) * (a.y - b.y),
                    ex == b.x - a.x,
                    ey == b.y - a.y,
            ;
            lemma_projection_nonneg(wx as int, wy as int, ex as int, ey as int);
        }
        (da * l2 - t * t, l2)
    }
}

/// Cauchy–Schwarz in the plane: (w·e)² ≤ |w|²·|e|².
pub proof fn lemma_projection_nonneg(wx: int, wy: int, ex: int, ey: int)
    ensures
        (wx * ex + wy * ey) * (wx * ex + wy * ey) <= (wx * wx + wy * wy) * (ex * ex + ey * ey),
{
    let a = wx * ex;
    let b = wy * ey;
    let c = wx * ey;
    let d = wy * ex;
    assert((wx * wx + wy * wy) * (ex * ex + ey * ey) == (wx * wx) * (ex * ex) + (wx * wx) * (ey
        * ey) + (wy * wy) * (ex * ex) + (wy * wy) * (ey * ey)) by (nonlinear_arith);
    assert((wx * wx) * (ex * ex) == a * a) by (nonlinear_arith)
        requires
            a == wx * ex,
    ;
    assert((wy * wy) * (ey * ey) == b * b) by (nonlinear_arith)
        requires
            b == wy * ey,
    ;
    assert((wx * wx) * (ey * ey) == c * c) by (nonlinear_arith)
        requires
            c == wx * ey,
    ;
    assert((wy * wy) * (ex * ex) == d * d) by (nonlinear_arith)
        requires
            d == wy * ex,
    ;
    assert(a * b == c * d) by (nonlinear_arith)
        requires
            a == wx * ex,
            b == wy * ey,
            c == wx * ey,
            d == wy * ex,
    ;
    assert((a + b) * (a + b) == a * a + 2 * (a * b) + b * b) by (nonlinear_arith);
    assert(0 <= (c - d) * (c - d)) by (nonlinear_arith);
    assert((c - d) * (c - d) == c * c - 2 * (c * d) + d * d) by (nonlinear_arith);
}

/// Circle against triangle.
pub fn check_collision_circle_triangle(circle: &Circle, tri: &Triangle) -> (r: bool)
    requires
        circle.wf(),
        tri.wf(),
    ensures
        r == circle_triangle_collide(*circle, *tri),
{
    if point_in_triangle(circle.center, tri) {
        return true;
    }
    let rad = circle.radius as i128;
    proof {
        lemma_mul_abs_bound(rad as int, rad as int, 0x2000_0000, 0x2000_0000);
    }
    let radius_sq = rad * rad;
    let edges = tri.edges();
    let mut k: usize = 0;
    while k < 3
        invariant
            0 <= k <= 3,
            circle.wf(),
            tri.wf(),
            edges@ == tri.edge_seq(),
            radius_sq == circle.radius * circle.radius,
            0 <= radius_sq <= 0x0400_0000_0000_0000,
            forall|i: int|
                0 <= i < k ==> !segment_within(
                    circle.center,
                    #[trigger] edges@[i].0,
                    edges@[i].1,
                    circle.radius as int,
                ),
        decreases 3 - k,
    {
        let (ea, eb) = edges[k];
        let (num, den) = point_to_segment_distance_sq(circle.center, ea, eb);
        proof {
            lemma_mul_abs_bound(radius_sq as int, den as int, 0x0400_0000_0000_0000, 0x2000_0000_0000_0000);
        }
        if num <= radius_sq * den {
            return true;
        }
        k = k + 1;
    }
    proof {
        assert(!segment_within(circle.center, edges@[0].0, edges@[0].1, circle.radius as int));
        assert(!segment_within(circle.center, edges@[1].0, edges@[1].1, circle.radius as int));
        assert(!segment_within(circle.center, edges@[2].0, edges@[2].1, circle.radius as int));
    }
    distance_squared(circle.center, tri.a) <= radius_sq || distance_squared(circle.center, tri.b)
        <= radius_sq || distance_squared(circle.center, tri.c) <= radius_sq
}


/// Projection of a point on an axis (the axis need not have unit length:
/// scaling it by a positive factor scales every projection alike and keeps
/// every overlap decision).
pub open spec fn dot(p: Point, axis: Point) -> int {
    axis.x * p.x + axis.y * p.y
}

pub open spec fn min_int(a: int, b: int) -> int {
    if b < a {
        b
    } else {
        a
    }
}

pub open spec fn max_int(a: int, b: int) -> int {
    if b > a {
        b
    } else {
        a
    }
}

/// Smallest projection of the vertices of `poly` on `axis`.
pub open spec fn proj_min(poly: Seq<Point>, axis: Point) -> int
    decreases poly.len(),
{
    if poly.len() <= 1 {
        dot(poly[0], axis)
    } else {
        min_int(proj_min(poly.drop_last(), axis), dot(poly.last(), axis))
    }
}

/// Largest projection of the vertices of `poly` on `axis`.
pub open spec fn proj_max(poly: Seq<Point>, axis: Point) -> int
    decreases poly.len(),
{
    if poly.len() <= 1 {
        dot(poly[0], axis)
    } else {
        max_int(proj_max(poly.drop_last(), axis), dot(poly.last(), axis))
    }
}

/// The edge vector p1→p2 turned a quarter turn: (−dy, dx).
pub open spec fn perp(p1: Point, p2: Point) -> Point {
    Point { x: (-(p2.y - p1.y)) as i64, y: (p2.x - p1.x) as i64 }
}

pub open spec fn intervals_overlap(a: (int, int), b: (int, int)) -> bool {
    a.0 <= b.1 && b.0 <= a.1
}

/// `axis` separates the two polygons: their projection intervals are disjoint.
pub open spec fn separates(axis: Point, p: Seq<Point>, q: Seq<Point>) -> bool {
    !intervals_overlap((proj_min(p, axis), proj_max(p, axis)), (proj_min(q, axis), proj_max(q, axis)))
}

/// The four corners of a box, clockwise on screen from the top-left.
pub open spec fn rect_corners(r: Rect) -> Seq<Point> {
    seq![
        Point { x: r.x, y: r.y },
        Point { x: (r.x + r.width) as i64, y: r.y },
        Point { x: (r.x + r.width) as i64, y: (r.y + r.height) as i64 },
        Point { x: r.x, y: (r.y + r.height) as i64 },
    ]
}

pub open spec fn tri_corners(t: Triangle) -> Seq<Point> {
    seq![t.a, t.b, t.c]
}

/// The five candidate separating axes: two perpendicular box edges and the
/// three triangle edges.
pub open spec fn sat_axes(r: Rect, t: Triangle) -> Seq<Point> {
    let rp = rect_corners(r);
    seq![perp(rp[0], rp[1]), perp(rp[1], rp[2]), perp(t.a, t.b), perp(t.b, t.c), perp(t.c, t.a)]
}

/// Box and triangle overlap: none of the five candidate axes separates them.
pub open spec fn rect_triangle_collide(r: Rect, t: Triangle) -> bool {
    forall|k: int| 0 <= k < 5 ==> !separates(#[trigger] sat_axes(r, t)[k], rect_corners(r), tri_corners(t))
}

pub open spec fn axis_ok(axis: Point) -> bool {
    in_limit(axis.x as int, 0x4000_0000) && in_limit(axis.y as int, 0x4000_0000)
}

fn dot_exec(p: Point, axis: Point) -> (r: i64)
    requires
        p.wf(),
        axis_ok(axis),
    ensures
        r == dot(p, axis),
{
    proof {
        lemma_mul_abs_bound(axis.x as int, p.x as int, 0x4000_0000, 0x2000_0000);
        lemma_mul_abs_bound(axis.y as int, p.y as int, 0x4000_0000, 0x2000_0000);
    }
    axis.x * p.x + axis.y * p.y
}

/// The interval (min, max) of the projections of the vertices on `axis`.
fn project(poly: &[Point], axis: Point) -> (r: (i64, i64))
    requires
        poly@.len() > 0,
        forall|i: int| 0 <= i < poly@.len() ==> (#[trigger] poly@[i]).wf(),
        axis_ok(axis),
    ensures
        r.0 == proj_min(poly@, axis),
        r.1 == proj_max(poly@, axis),
{
    let mut min = dot_exec(poly[0], axis);
    let mut max = min;
    let mut i: usize = 1;
    proof {
        assert(poly@.take(1).len() == 1);
    }
    while i < poly.len()
        invariant
            1 <= i <= poly@.len(),
            forall|k: int| 0 <= k < poly@.len() ==> (#[trigger] poly@[k]).wf(),
            axis_ok(axis),
            min == proj_min(poly@.take(i as int), axis),
            max == proj_max(poly@.take(i as int), axis),
        decreases poly@.len() - i,
    {
        let proj = dot_exec(poly[i], axis);
        if proj < min {
            min = proj;
        }
        if proj > max {
            max = proj;
        }
        proof {
            let next = poly@.take(i + 1);
            assert(next.drop_last() =~= poly@.take(i as int));
            assert(next.last() == poly@[i as int]);
        }
        i = i + 1;
    }
    proof {
        assert(poly@.take(i as int) =~= poly@);
    }
    (min, max)
}

fn overlaps(a: (i64, i64), b: (i64, i64)) -> (r: bool)
    ensures
        r == intervals_overlap((a.0 as int, a.1 as int), (b.0 as int, b.1 as int)),
{
    a.0 <= b.1 && b.0 <= a.1
}

fn perpendicular(p1: Point, p2: Point) -> (r: Point)
    requires
        p1.wf(),
        p2.wf(),
    ensures
        r == perp(p1, p2),
        axis_ok(r),
{
    let edge = Point { x: p2.x - p1.x, y: p2.y - p1.y };
    Point { x: -edge.y, y: edge.x }
}

fn rect_to_poly(rect: &Rect) -> (r: [Point; 4])
    requires
        rect.within(COORD_LIMIT as int),
    ensures
        r@ == rect_corners(*rect),
        forall|i: int| 0 <= i < 4 ==> (#[trigger] r@[i]).wf(),
{
    let r = [
        Point { x: rect.x, y: rect.y },
        Point { x: rect.x + rect.width, y: rect.y },
        Point { x: rect.x + rect.width, y: rect.y + rect.height },
        Point { x: rect.x, y: rect.y + rect.height },
    ];
    assert(r@ =~= rect_corners(*rect));
    r
}

/// Box against triangle by the separating axis theorem.
pub fn check_collision_rect_triangle(rect: &Rect, tri: &Triangle) -> (r: bool)
    requires
        rect.within(COORD_LIMIT as int),
        tri.wf(),
    ensures
        r == rect_triangle_collide(*rect, *tri),
{
    let rect_poly = rect_to_poly(rect);
    let tri_poly = [tri.a, tri.b, tri.c];
    let ghost rp = rect_poly@;
    let ghost tp = tri_poly@;
    let ghost axes = sat_axes(*rect, *tri);
    proof {
        assert(tp =~= tri_corners(*tri));
    }
    let rect_edges = [(rect_poly[0], rect_poly[1]), (rect_poly[1], rect_poly[2])];
    let mut k: usize = 0;
    while k < 2
        invariant
            0 <= k <= 2,
            rect.within(COORD_LIMIT as int),
            tri.wf(),
            rect_poly@ == rp,
            tri_poly@ == tp,
            rp == rect_corners(*rect),
            tp == tri_corners(*tri),
            axes == sat_axes(*rect, *tri),
            forall|i: int| 0 <= i < 4 ==> (#[trigger] rp[i]).wf(),
            rect_edges@ == seq![(rp[0], rp[1]), (rp[1], rp[2])],
            forall|i: int| 0 <= i < k ==> !separates(#[trigger] axes[i], rp, tp),
        decreases 2 - k,
    {
        let (e0, e1) = rect_edges[k];
        let axis = perpendicular(e0, e1);
        let rect_proj = project(&rect_poly, axis);
        let tri_proj = project(&tri_poly, axis);
        if !overlaps(rect_proj, tri_proj) {
            proof {
                assert(axes[k as int] == axis);
                assert(separates(axes[k as int], rect_corners(*rect), tri_corners(*tri)));
            }
            return false;
        }
        k = k + 1;
    }
    let tri_edges = tri.edges();
    let mut k: usize = 0;
    while k < 3
        invariant
            0 <= k <= 3,
            rect.within(COORD_LIMIT as int),
            tri.wf(),
            rect_poly@ == rp,
            tri_poly@ == tp,
            rp == rect_corners(*rect),
            tp == tri_corners(*tri),
            axes == sat_axes(*rect, *tri),
            forall|i: int| 0 <= i < 4 ==> (#[trigger] rp[i]).wf(),
            tri_edges@ == tri.edge_seq(),
            forall|i: int| 0 <= i < 2 + k ==> !separates(#[trigger] axes[i], rp, tp),
        decreases 3 - k,
    {
        let (e0, e1) = tri_edges[k];
        let axis = perpendicular(e0, e1);
        let rect_proj = project(&rect_poly, axis);
        let tri_proj = project(&tri_poly, axis);
        if !overlaps(rect_proj, tri_proj) {
            proof {
                assert(axes[2 + k as int] == axis);
                assert(separates(axes[2 + k as int], rect_corners(*rect), tri_corners(*tri)));
            }
            return false;
        }
        k = k + 1;
    }
    true
}


impl Rect {
    /// The same box at twice the scale.
    pub open spec fn doubled(self) -> Rect {
        Rect {
            x: (2 * self.x) as i64,
            y: (2 * self.y) as i64,
            width: (2 * self.width) as i64,
            height: (2 * self.height) as i64,
        }
    }

    pub fn to_doubled(&self) -> (r: Rect)
        requires
            self.wf(),
        ensures
            r == self.doubled(),
            r.within(COORD_LIMIT as int),
    {
        Rect { x: 2 * self.x, y: 2 * self.y, width: 2 * self.width, height: 2 * self.height }
    }
}

impl Circle {
    /// The circle a box stands for, at twice the box's scale: centered in
    /// the box, with half the box's width as radius.
    pub open spec fn of_box(r: Rect) -> Circle {
        Circle {
            center: Point { x: (2 * r.x + r.width) as i64, y: (2 * r.y + r.height) as i64 },
            radius: r.width,
        }
    }

    pub fn from_rect(rect: &Rect) -> (c: Circle)
        requires
            rect.wf(),
        ensures
            c == Circle::of_box(*rect),
            c.wf(),
    {
        Circle {
            center: Point { x: 2 * rect.x + rect.width, y: 2 * rect.y + rect.height },
            radius: rect.width,
        }
    }
}

impl Triangle {
    /// The triangle a box stands for, at twice the box's scale: bottom-left,
    /// bottom-right and top-middle of the box, pointing up.
    pub open spec fn of_box(r: Rect) -> Triangle {
        Triangle {
            a: Point { x: (2 * r.x) as i64, y: (2 * (r.y + r.height)) as i64 },
            b: Point { x: (2 * (r.x + r.width)) as i64, y: (2 * (r.y + r.height)) as i64 },
            c: Point { x: (2 * r.x + r.width) as i64, y: (2 * r.y) as i64 },
        }
    }

    pub fn from_rect(rect: &Rect) -> (t: Triangle)
        requires
            rect.wf(),
        ensures
            t == Triangle::of_box(*rect),
            t.wf(),
    {
        Triangle {
            a: Point { x: 2 * rect.x, y: 2 * (rect.y + rect.height) },
            b: Point { x: 2 * (rect.x + rect.width), y: 2 * (rect.y + rect.height) },
            c: Point { x: 2 * rect.x + rect.width, y: 2 * rect.y },
        }
    }
}

/// Two bodies overlap, each given by its bounding box and its shape kind.
/// Triangle against triangle is no case of this model.
pub open spec fn shapes_intersect(a: Rect, ka: CollisionType, b: Rect, kb: CollisionType) -> bool {
    match (ka, kb) {
        (CollisionType::Circle, CollisionType::Circle) => circles_collide(
            Circle::of_box(a),
            Circle::of_box(b),
        ),
        (CollisionType::Circle, CollisionType::Rectangle) => circle_rec_collide(
            Circle::of_box(a),
            b.doubled(),
        ),
        (CollisionType::Circle, CollisionType::Triangle) => circle_triangle_collide(
            Circle::of_box(a),
            Triangle::of_box(b),
        ),
        (CollisionType::Rectangle, CollisionType::Circle) => circle_rec_collide(
            Circle::of_box(b),
            a.doubled(),
        ),
        (CollisionType::Rectangle, CollisionType::Rectangle) => recs_collide(a, b),
        (CollisionType::Rectangle, CollisionType::Triangle) => rect_triangle_collide(
            a.doubled(),
            Triangle::of_box(b),
        ),
        (CollisionType::Triangle, CollisionType::Circle) => circle_triangle_collide(
            Circle::of_box(b),
            Triangle::of_box(a),
        ),
        (CollisionType::Triangle, CollisionType::Rectangle) => rect_triangle_collide(
            b.doubled(),
            Triangle::of_box(a),
        ),
        (CollisionType::Triangle, CollisionType::Triangle) => false,
    }
}

/// Decides whether two bodies overlap, each given by its bounding box and
/// its shape kind, with the test that the pair of kinds calls for.
pub fn intersects(a: &Rect, ka: CollisionType, b: &Rect, kb: CollisionType) -> (r: bool)
    requires
        a.wf(),
        b.wf(),
        !(ka == CollisionType::Triangle && kb == CollisionType::Triangle),
    ensures
        r == shapes_intersect(*a, ka, *b, kb),
{
    match (ka, kb) {
        (CollisionType::Circle, CollisionType::Circle) => {
            check_collision_circles(&Circle::from_rect(a), &Circle::from_rect(b))
        },
        (CollisionType::Circle, CollisionType::Rectangle) => {
            check_collision_circle_rec(&Circle::from_rect(a), &b.to_doubled())
        },
        (CollisionType::Circle, CollisionType::Triangle) => {
            check_collision_circle_triangle(&Circle::from_rect(a), &Triangle::from_rect(b))
        },
        (CollisionType::Rectangle, CollisionType::Circle) => {
            check_collision_circle_rec(&Circle::from_rect(b), &a.to_doubled())
        },
        (CollisionType::Rectangle, CollisionType::Rectangle) => check_collision_recs(a, b),
        (CollisionType::Rectangle, CollisionType::Triangle) => {
            check_collision_rect_triangle(&a.to_doubled(), &Triangle::from_rect(b))
        },
        (CollisionType::Triangle, CollisionType::Circle) => {
            check_collision_circle_triangle(&Circle::from_rect(b), &Triangle::from_rect(a))
        },
        (CollisionType::Triangle, CollisionType::Rectangle) => {
            check_collision_rect_triangle(&b.to_doubled(), &Triangle::from_rect(a))
        },
        (CollisionType::Triangle, CollisionType::Triangle) => false,
    }
}

/// The overlap decision does not depend on the order of the two bodies.
pub proof fn lemma_intersects_symmetric(a: Rect, ka: CollisionType, b: Rect, kb: CollisionType)
    requires
        a.wf(),
        b.wf(),
        !(ka == CollisionType::Triangle && kb == CollisionType::Triangle),
    ensures
        shapes_intersect(a, ka, b, kb) == shapes_intersect(b, kb, a, ka),
{
    if ka == CollisionType::Circle && kb == CollisionType::Circle {
        lemma_circles_symmetric(Circle::of_box(a), Circle::of_box(b));
    }
}

/// Whether two circles collide does not depend on their order.
pub proof fn lemma_circles_symmetric(c1: Circle, c2: Circle)
    ensures
        circles_collide(c1, c2) == circles_collide(c2, c1),
{
    lemma_dist_sq_symmetric(c1.center, c2.center);
    assert(c1.radius + c2.radius == c2.radius + c1.radius);
}

pub proof fn lemma_dist_sq_symmetric(p: Point, q: Point)
    ensures
        dist_sq(p, q) == dist_sq(q, p),
{
    assert((p.x - q.x) * (p.x - q.x) == (q.x - p.x) * (q.x - p.x)) by (nonlinear_arith);
    assert((p.y - q.y) * (p.y - q.y) == (q.y - p.y) * (q.y - p.y)) by (nonlinear_arith);
}

} // verus!
