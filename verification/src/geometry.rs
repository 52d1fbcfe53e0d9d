//! Points, segments and circles on the fixed-point grid, and the trimming of a
//! segment to the inside of a circle.
//!
//! A segment is the set of points `start + t * (end - start)` with `t` in
//! `[0, 1]`. Put into the circle's equation this gives the quadratic
//! `a t^2 + 2 h t + c = 0`; its value at `t` is the squared distance of that
//! point from the centre, less the squared radius. All of `a`, `h`, `c` and the
//! quarter discriminant `h^2 - a c` are integers and are computed exactly; only
//! the two points where a clipped segment meets the circle are rounded, to the
//! nearest grid point.

use vstd::prelude::*;
use crate::moves::{PosAndFeed, PosRadiusAndFeed};
use crate::sqrt::{floor_sqrt, is_floor_sqrt, isqrt};

verus! {

/// The largest magnitude of a coordinate that the trimmer accepts.
pub const COORD_LIMIT: i64 = 1_000_000_000;

/// The largest radius that the trimmer accepts.
pub const RADIUS_LIMIT: i64 = 2_000_000_000;

/// A position in the plane.
#[derive(Clone, Copy, Debug, PartialEq, Eq, Structural)]
pub struct Point {
    pub x: i64,
    pub y: i64,
}

/// One edge of a polyline, from `start` to `end`. The two may coincide.
#[derive(Clone, Copy, Debug, PartialEq, Eq, Structural)]
pub struct LineSegment {
    pub start: Point,
    pub end: Point,
}

/// The boundary to trim against.
#[derive(Clone, Copy, Debug, PartialEq, Eq, Structural)]
pub struct Circle {
    pub center: Point,
    pub radius: i64,
}

/// What is left of a segment after trimming.
#[derive(Clone, Copy, Debug, PartialEq, Eq, Structural)]
pub enum TrimResult {
    /// The part of the segment inside the circle; the rest was cut away.
    Trimmed(LineSegment),
    /// The whole segment lies inside or on the circle.
    Unchanged(LineSegment),
    /// No part of the segment is to be cut.
    Eliminated,
}

impl Point {
    /// Both coordinates are within `COORD_LIMIT` of zero.
    pub open spec fn in_range(self) -> bool {
        &&& -COORD_LIMIT <= self.x <= COORD_LIMIT
        &&& -COORD_LIMIT <= self.y <= COORD_LIMIT
    }
}

impl Circle {
    /// The centre is in range and the radius is not negative and not above
    /// `RADIUS_LIMIT`.
    pub open spec fn wf(self) -> bool {
        &&& self.center.in_range()
        &&& 0 <= self.radius <= RADIUS_LIMIT
    }
}

impl LineSegment {
    /// Both ends are in range.
    pub open spec fn in_range(self) -> bool {
        self.start.in_range() && self.end.in_range()
    }

    /// The x component of `end - start`.
    pub open spec fn dx(self) -> int {
        self.end.x - self.start.x
    }

    /// The y component of `end - start`.
    pub open spec fn dy(self) -> int {
        self.end.y - self.start.y
    }

    /// The squared length: the quadratic's `a`.
    pub open spec fn len_sq(self) -> int {
        self.dx() * self.dx() + self.dy() * self.dy()
    }

    /// The point `start + (n / a) * (end - start)`, each coordinate rounded to
    /// the nearest grid point.
    pub open spec fn point_at(self, n: int, a: int) -> Point {
        Point {
            x: (self.start.x + scaled(self.dx(), n, a)) as i64,
            y: (self.start.y + scaled(self.dy(), n, a)) as i64,
        }
    }
}

/// The squared distance from `c` to `p`.
pub open spec fn dist_sq(p: Point, c: Point) -> int {
    (p.x - c.x) * (p.x - c.x) + (p.y - c.y) * (p.y - c.y)
}

/// `p` lies inside or on the circle.
pub open spec fn within(p: Point, circle: Circle) -> bool {
    dist_sq(p, circle.center) <= circle.radius * circle.radius
}

/// The quadratic's `c`: its value at `t = 0`, the start's squared distance from
/// the centre less the squared radius.
pub open spec fn start_excess(line: LineSegment, circle: Circle) -> int {
    dist_sq(line.start, circle.center) - circle.radius * circle.radius
}

/// The quadratic's value at `t = 1`, which is `a + 2 h + c`.
pub open spec fn end_excess(line: LineSegment, circle: Circle) -> int {
    dist_sq(line.end, circle.center) - circle.radius * circle.radius
}

/// The quadratic's `h`, half of its linear coefficient: the dot product of
/// `start - center` and `end - start`.
pub open spec fn half_b(line: LineSegment, circle: Circle) -> int {
    (line.start.x - circle.center.x) * line.dx() + (line.start.y - circle.center.y) * line.dy()
}

/// A quarter of the discriminant: `h^2 - a c`.
pub open spec fn quarter_disc(line: LineSegment, circle: Circle) -> int {
    half_b(line, circle) * half_b(line, circle) - line.len_sq() * start_excess(line, circle)
}

/// The value at the parameter `p / q` of the quadratic, times `q^2`.
pub open spec fn excess_at(line: LineSegment, circle: Circle, p: int, q: int) -> int {
    line.len_sq() * (p * p) + 2 * half_b(line, circle) * (p * q) + start_excess(line, circle) * (q
        * q)
}

/// `d * n / a` rounded to the nearest integer, halves away from zero.
pub open spec fn scaled(d: int, n: int, a: int) -> int {
    if d >= 0 {
        (2 * d * n + a) / (2 * a)
    } else {
        -((2 * (-d) * n + a) / (2 * a))
    }
}

/// The segment has no part to cut.
///
/// A point is kept if it lies inside or on the circle; a segment of no length
/// is such a point. Any other segment is dropped where the quadratic has no
/// two roots (the line misses the circle or touches it), where both roots lie
/// beyond `t = 1` (the smaller one does: the vertex lies beyond 1 and the end
/// is outside) and where both lie before `t = 0` (the larger one does: the
/// vertex lies before 0 and the start is outside).
pub open spec fn eliminated(line: LineSegment, circle: Circle) -> bool {
    let a = line.len_sq();
    let h = half_b(line, circle);
    if a == 0 {
        start_excess(line, circle) > 0
    } else {
        ||| quarter_disc(line, circle) <= 0
        ||| (a + h < 0 && end_excess(line, circle) > 0)
        ||| (h > 0 && start_excess(line, circle) > 0)
    }
}

/// The numerator over `a` of the parameter at which a kept segment of some
/// length begins: nothing where its start lies inside or on the circle, else
/// that of the smaller root, with the floor of the square root.
pub open spec fn entry_numerator(line: LineSegment, circle: Circle) -> int {
    if start_excess(line, circle) <= 0 {
        0
    } else {
        -half_b(line, circle) - floor_sqrt(quarter_disc(line, circle))
    }
}

/// The numerator over `a` of the parameter at which a kept segment of some
/// length stops: `a` where its end lies inside or on the circle, else that of
/// the larger root, with the floor of the square root.
pub open spec fn exit_numerator(line: LineSegment, circle: Circle) -> int {
    if end_excess(line, circle) <= 0 {
        line.len_sq()
    } else {
        -half_b(line, circle) + floor_sqrt(quarter_disc(line, circle))
    }
}

/// Where a kept segment begins: at its start if that lies inside or on the
/// circle, else where it enters the circle, at the smaller root.
pub open spec fn entry_point(line: LineSegment, circle: Circle) -> Point {
    if start_excess(line, circle) <= 0 {
        line.start
    } else {
        line.point_at(entry_numerator(line, circle), line.len_sq())
    }
}

/// Where a kept segment stops: at its end if that lies inside or on the
/// circle, else where it leaves the circle, at the larger root.
pub open spec fn exit_point(line: LineSegment, circle: Circle) -> Point {
    if end_excess(line, circle) <= 0 {
        line.end
    } else {
        line.point_at(exit_numerator(line, circle), line.len_sq())
    }
}

/// The part of `line` inside `circle`.
pub open spec fn trim_spec(line: LineSegment, circle: Circle) -> TrimResult {
    if eliminated(line, circle) {
        TrimResult::Eliminated
    } else if within(line.start, circle) && within(line.end, circle) {
        TrimResult::Unchanged(line)
    } else {
        TrimResult::Trimmed(
            LineSegment { start: entry_point(line, circle), end: exit_point(line, circle) },
        )
    }
}

impl TrimResult {
    /// Nothing of the segment is left.
    pub fn is_none(&self) -> (b: bool)
        ensures
            b == (*self == TrimResult::Eliminated),
    {
        match self {
            TrimResult::Eliminated => true,
            _ => false,
        }
    }

    /// The segment that is left.
    pub fn unwrap(self) -> (seg: LineSegment)
        requires
            self != TrimResult::Eliminated,
        ensures
            self == TrimResult::Trimmed(seg) || self == TrimResult::Unchanged(seg),
    {
        match self {
            TrimResult::Eliminated => vstd::pervasive::unreached(),
            TrimResult::Trimmed(t) => t,
            TrimResult::Unchanged(t) => t,
        }
    }

    /// The segment came through whole.
    pub fn is_unchanged(&self) -> (b: bool)
        ensures
            b == (self is Unchanged),
    {
        match self {
            TrimResult::Unchanged(_) => true,
            _ => false,
        }
    }

    /// A part of the segment was cut away.
    pub fn is_trimmed(&self) -> (b: bool)
        ensures
            b == (self is Trimmed),
    {
        match self {
            TrimResult::Trimmed(_) => true,
            _ => false,
        }
    }
}

impl Point {
    /// Whether both coordinates are within `COORD_LIMIT` of zero.
    pub fn fits(&self) -> (b: bool)
        ensures
            b == self.in_range(),
    {
        -COORD_LIMIT <= self.x && self.x <= COORD_LIMIT && -COORD_LIMIT <= self.y && self.y
            <= COORD_LIMIT
    }
}

impl From<Point> for PosAndFeed {
    /// The move to a point of the plane.
    fn from(p: Point) -> (r: PosAndFeed) {
        PosAndFeed { x: Some(p.x), y: Some(p.y), z: None, a: None, feed: None }
    }
}

impl vstd::std_specs::convert::FromSpecImpl<Point> for PosAndFeed {
    open spec fn obeys_from_spec() -> bool {
        true
    }

    open spec fn from_spec(p: Point) -> PosAndFeed {
        PosAndFeed { x: Some(p.x), y: Some(p.y), z: None, a: None, feed: None }
    }
}

/// The segment between two descriptors.
pub open spec fn segment_of(start: PosAndFeed, end: PosAndFeed) -> LineSegment {
    LineSegment {
        start: Point { x: start.x->0, y: start.y->0 },
        end: Point { x: end.x->0, y: end.y->0 },
    }
}

/// The circle that a descriptor gives.
pub open spec fn boundary_of(c: PosRadiusAndFeed) -> Circle {
    Circle { center: Point { x: c.x->0, y: c.y->0 }, radius: c.r->0 }
}

impl LineSegment {
    /// Whether both ends are in range.
    pub fn fits(&self) -> (b: bool)
        ensures
            b == self.in_range(),
    {
        self.start.fits() && self.end.fits()
    }

    /// The segment between two descriptors.
    pub fn new(start: &PosAndFeed, end: &PosAndFeed) -> (seg: LineSegment)
        requires
            start.x is Some && start.y is Some,
            end.x is Some && end.y is Some,
            start.feed is None && end.feed is None,
            start.z is None,
        ensures
            seg == segment_of(*start, *end),
    {
        LineSegment {
            start: Point { x: start.x.unwrap(), y: start.y.unwrap() },
            end: Point { x: end.x.unwrap(), y: end.y.unwrap() },
        }
    }
}

impl Circle {
    /// Whether the centre is in range and the radius is not negative and not
    /// above `RADIUS_LIMIT`.
    pub fn fits(&self) -> (b: bool)
        ensures
            b == self.wf(),
    {
        self.center.fits() && 0 <= self.radius && self.radius <= RADIUS_LIMIT
    }

    /// The circle that a descriptor gives.
    pub fn new(p: &PosRadiusAndFeed) -> (c: Circle)
        requires
            p.x is Some && p.y is Some && p.r is Some,
            p.feed is None,
        ensures
            c == boundary_of(*p),
    {
        Circle { center: Point { x: p.x.unwrap(), y: p.y.unwrap() }, radius: p.r.unwrap() }
    }
}

/// A product is bounded by the product of its factors' bounds.
proof fn lemma_product_bound(x: int, y: int, bx: int, by: int)
    requires
        -bx <= x <= bx,
        -by <= y <= by,
    ensures
        -(bx * by) <= x * y <= bx * by,
{
    assert(-(bx * by) <= x * y <= bx * by) by (nonlinear_arith)
        requires
            -bx <= x <= bx,
            -by <= y <= by,
    ;
}

/// The quadratic's value at `t = 1` is `a + 2 h + c`.
pub proof fn lemma_end_excess(line: LineSegment, circle: Circle)
    ensures
        end_excess(line, circle) == line.len_sq() + 2 * half_b(line, circle) + start_excess(
            line,
            circle,
        ),
{
    let tx = line.start.x - circle.center.x;
    let ty = line.start.y - circle.center.y;
    let dx = line.dx();
    let dy = line.dy();
    assert((tx + dx) * (tx + dx) == tx * tx + 2 * (tx * dx) + dx * dx) by (nonlinear_arith);
    assert((ty + dy) * (ty + dy) == ty * ty + 2 * (ty * dy) + dy * dy) by (nonlinear_arith);
    assert(line.end.x - circle.center.x == tx + dx);
    assert(line.end.y - circle.center.y == ty + dy);
}

/// Where the start lies outside the circle and the segment is kept, the
/// smaller root lies in `(0, 1]`: its numerator, taken with the floor of the
/// square root, lies in `[1, a]`.
pub proof fn lemma_entry_numerator(a: int, h: int, c: int, e: int, s: int)
    requires
        a > 0,
        e == a + 2 * h + c,
        is_floor_sqrt(h * h - a * c, s),
        c > 0,
        h <= 0,
        a + h >= 0 || e <= 0,
    ensures
        1 <= -h - s <= a,
{
    assert(s < -h) by (nonlinear_arith)
        requires
            a > 0,
            c > 0,
            h <= 0,
            0 <= s,
            s * s <= h * h - a * c,
    ;
    if a + h < 0 {
        assert(-(a + h) <= s) by (nonlinear_arith)
            requires
                a > 0,
                e <= 0,
                e == a + 2 * h + c,
                a + h < 0,
                0 <= s,
                h * h - a * c < (s + 1) * (s + 1),
        ;
    }
}

/// Where the end lies outside the circle and the segment is kept, the larger
/// root lies in `[0, 1)`: its numerator, taken with the floor of the square
/// root, lies in `[0, a)`.
pub proof fn lemma_exit_numerator(a: int, h: int, c: int, e: int, s: int)
    requires
        a > 0,
        e == a + 2 * h + c,
        is_floor_sqrt(h * h - a * c, s),
        e > 0,
        a + h >= 0,
        h <= 0 || c <= 0,
    ensures
        0 <= -h + s < a,
{
    assert(s < a + h) by (nonlinear_arith)
        requires
            a > 0,
            e > 0,
            e == a + 2 * h + c,
            a + h >= 0,
            0 <= s,
            s * s <= h * h - a * c,
    ;
    if h > 0 {
        assert(h <= s) by (nonlinear_arith)
            requires
                a > 0,
                c <= 0,
                h > 0,
                0 <= s,
                h * h - a * c < (s + 1) * (s + 1),
        ;
    }
}

/// `d * n / a` rounded to the nearest integer, halves away from zero.
fn scale_offset(d: i64, n: i128, a: i128) -> (r: i64)
    requires
        -2 * COORD_LIMIT <= d <= 2 * COORD_LIMIT,
        0 <= n <= a,
        0 < a <= 8 * COORD_LIMIT * COORD_LIMIT,
    ensures
        r == scaled(d as int, n as int, a as int),
        d >= 0 ==> 0 <= r <= d,
        d < 0 ==> d <= r <= 0,
{
    let m: u128 = if d >= 0 {
        d as u128
    } else {
        (-d) as u128
    };
    let un: u128 = n as u128;
    let ua: u128 = a as u128;
    proof {
        lemma_product_bound(2 * m as int, un as int, 4_000_000_000, 8_000_000_000_000_000_000);
        assert(0 <= (2 * m) * un) by (nonlinear_arith)
            requires
                0 <= m,
                0 <= un,
        ;
    }
    let num: u128 = 2 * m * un + ua;
    let q: u128 = num / (2 * ua);
    assert(q <= m) by (nonlinear_arith)
        requires
            q == (num as int) / (2 * ua),
            num == 2 * m * un + ua,
            0 <= un <= ua,
            0 < ua,
            0 <= m,
    ;
    if d >= 0 {
        q as i64
    } else {
        -(q as i64)
    }
}

impl LineSegment {
    /// The point `start + (n / a) * (end - start)`, each coordinate rounded to
    /// the nearest grid point.
    fn point_along(&self, n: i128, a: i128) -> (p: Point)
        requires
            self.in_range(),
            0 <= n <= a,
            0 < a <= 8 * COORD_LIMIT * COORD_LIMIT,
        ensures
            p == self.point_at(n as int, a as int),
            p.in_range(),
    {
        let ox = scale_offset(self.end.x - self.start.x, n, a);
        let oy = scale_offset(self.end.y - self.start.y, n, a);
        Point { x: self.start.x + ox, y: self.start.y + oy }
    }
}

/// The part of `line` that lies inside `circle`.
///
/// A line that only touches the circle is dropped, not kept as a segment of
/// no length.
pub fn trim(line: LineSegment, circle: &Circle) -> (r: TrimResult)
    requires
        line.in_range(),
        circle.wf(),
    ensures
        r == trim_spec(line, *circle),
        match r {
            TrimResult::Trimmed(seg) | TrimResult::Unchanged(seg) => seg.in_range(),
            TrimResult::Eliminated => true,
        },
{
    let tsx: i128 = (line.start.x - circle.center.x) as i128;
    let tsy: i128 = (line.start.y - circle.center.y) as i128;
    let tex: i128 = (line.end.x - circle.center.x) as i128;
    let tey: i128 = (line.end.y - circle.center.y) as i128;
    let dx: i128 = (line.end.x - line.start.x) as i128;
    let dy: i128 = (line.end.y - line.start.y) as i128;
    let radius: i128 = circle.radius as i128;
    proof {
        let b: int = 2_000_000_000;
        lemma_product_bound(radius as int, radius as int, b, b);
        lemma_product_bound(dx as int, dx as int, b, b);
        lemma_product_bound(dy as int, dy as int, b, b);
        lemma_product_bound(tsx as int, dx as int, b, b);
        lemma_product_bound(tsy as int, dy as int, b, b);
        lemma_product_bound(tsx as int, tsx as int, b, b);
        lemma_product_bound(tsy as int, tsy as int, b, b);
        lemma_product_bound(tex as int, tex as int, b, b);
        lemma_product_bound(tey as int, tey as int, b, b);
        assert(radius * radius >= 0 && dx * dx >= 0 && dy * dy >= 0 && tsx * tsx >= 0 && tsy * tsy
            >= 0 && tex * tex >= 0 && tey * tey >= 0) by (nonlinear_arith);
    }
    let rr: i128 = radius * radius;
    let a: i128 = dx * dx + dy * dy;
    let h: i128 = tsx * dx + tsy * dy;
    let c: i128 = tsx * tsx + tsy * tsy - rr;
    let e: i128 = tex * tex + tey * tey - rr;
    assert(a == line.len_sq());
    assert(h == half_b(line, *circle));
    assert(c == start_excess(line, *circle));
    assert(e == end_excess(line, *circle));
    if a == 0 {
        assert(dx == 0 && dy == 0) by (nonlinear_arith)
            requires
                dx * dx + dy * dy == 0,
        ;
        assert(line.end == line.start);
        return if c <= 0 {
            TrimResult::Unchanged(line)
        } else {
            TrimResult::Eliminated
        };
    }
    proof {
        let b: int = 8_000_000_000_000_000_000;
        lemma_product_bound(h as int, h as int, b, b);
        lemma_product_bound(a as int, c as int, b, b);
        lemma_end_excess(line, *circle);
    }
    let disc: i128 = h * h - a * c;
    assert(disc == quarter_disc(line, *circle));
    if disc <= 0 {
        return TrimResult::Eliminated;
    }
    if (a + h < 0 && e > 0) || (h > 0 && c > 0) {
        return TrimResult::Eliminated;
    }
    if c <= 0 && e <= 0 {
        return TrimResult::Unchanged(line);
    }
    let s: i128 = isqrt(disc as u128) as i128;
    let entry = if c <= 0 {
        line.start
    } else {
        proof {
            lemma_entry_numerator(a as int, h as int, c as int, e as int, s as int);
        }
        line.point_along(-h - s, a)
    };
    let exit = if e <= 0 {
        line.end
    } else {
        proof {
            lemma_exit_numerator(a as int, h as int, c as int, e as int, s as int);
        }
        line.point_along(-h + s, a)
    };
    TrimResult::Trimmed(LineSegment { start: entry, end: exit })
}

} // verus!
