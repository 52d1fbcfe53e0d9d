//! What holds of every trimming: which segments are dropped, which come
//! through whole, and where the others are cut.

use vstd::prelude::*;
use crate::geometry::{
    dist_sq, eliminated, end_excess, entry_numerator, entry_point, excess_at, exit_numerator,
    exit_point, half_b, lemma_end_excess, lemma_entry_numerator, lemma_exit_numerator,
    quarter_disc, scaled, start_excess, trim_spec, within, Circle, LineSegment, TrimResult,
};
use crate::sqrt::{floor_sqrt, is_floor_sqrt, lemma_floor_sqrt_exists};

verus! {

/// A squared length is not negative, and is zero only where the ends
/// coincide.
pub proof fn lemma_len_sq(line: LineSegment)
    ensures
        line.len_sq() >= 0,
        line.len_sq() == 0 <==> line.start == line.end,
{
    let dx = line.dx();
    let dy = line.dy();
    assert(dx * dx + dy * dy >= 0 && (dx * dx + dy * dy == 0 <==> dx == 0 && dy == 0))
        by (nonlinear_arith);
}

/// A segment that lies outside the circle is eliminated: its ends lie outside,
/// and none of its points, at any parameter `p / q` in `[0, 1]`, lies inside.
pub proof fn lemma_outside_is_eliminated(line: LineSegment, circle: Circle)
    requires
        start_excess(line, circle) > 0,
        end_excess(line, circle) > 0,
        forall|p: int, q: int|
            0 <= p <= q && 0 < q ==> #[trigger] excess_at(line, circle, p, q) >= 0,
    ensures
        trim_spec(line, circle) == TrimResult::Eliminated,
{
    let a = line.len_sq();
    let h = half_b(line, circle);
    let c = start_excess(line, circle);
    let d = quarter_disc(line, circle);
    lemma_len_sq(line);
    if !eliminated(line, circle) {
        assert(0 <= -h <= a && 0 < a);
        assert(excess_at(line, circle, -h, a) >= 0);
        assert(excess_at(line, circle, -h, a) == a * ((-h) * (-h)) + 2 * h * ((-h) * a) + c * (a
            * a));
        assert(a * ((-h) * (-h)) + 2 * h * ((-h) * a) + c * (a * a) < 0) by (nonlinear_arith)
            requires
                a > 0,
                d > 0,
                d == h * h - a * c,
        ;
    }
}

/// A segment whose two ends lie inside or on the circle comes through
/// unchanged, with the ends it had.
pub proof fn lemma_inside_is_unchanged(line: LineSegment, circle: Circle)
    requires
        within(line.start, circle),
        within(line.end, circle),
    ensures
        trim_spec(line, circle) == TrimResult::Unchanged(line),
{
    let a = line.len_sq();
    let h = half_b(line, circle);
    let c = start_excess(line, circle);
    let e = end_excess(line, circle);
    lemma_len_sq(line);
    lemma_end_excess(line, circle);
    if a > 0 {
        assert(h * h - a * c > 0) by (nonlinear_arith)
            requires
                a > 0,
                c <= 0,
                e <= 0,
                e == a + 2 * h + c,
        ;
    }
}

/// Nothing that could be cut is dropped: no point of an eliminated segment,
/// at any parameter `p / q` in `[0, 1]`, lies strictly inside the circle.
pub proof fn lemma_eliminated_has_nothing_inside(
    line: LineSegment,
    circle: Circle,
    p: int,
    q: int,
)
    requires
        trim_spec(line, circle) == TrimResult::Eliminated,
        0 <= p <= q,
        0 < q,
    ensures
        excess_at(line, circle, p, q) >= 0,
{
    let a = line.len_sq();
    let h = half_b(line, circle);
    let c = start_excess(line, circle);
    let e = end_excess(line, circle);
    let d = quarter_disc(line, circle);
    let v = excess_at(line, circle, p, q);
    lemma_len_sq(line);
    lemma_end_excess(line, circle);
    assert(v == a * (p * p) + 2 * h * (p * q) + c * (q * q));
    if a == 0 {
        assert(h == 0) by (nonlinear_arith)
            requires
                line.dx() == 0,
                line.dy() == 0,
                h == (line.start.x - circle.center.x) * line.dx() + (line.start.y
                    - circle.center.y) * line.dy(),
        ;
        assert(v >= 0) by (nonlinear_arith)
            requires
                a == 0,
                h == 0,
                c > 0,
                v == a * (p * p) + 2 * h * (p * q) + c * (q * q),
        ;
    } else if d <= 0 {
        lemma_complete_square(a, h, c, p, q);
        let u = a * p + h * q;
        assert(v >= 0) by (nonlinear_arith)
            requires
                a > 0,
                d <= 0,
                a * v == u * u - d * (q * q),
        ;
    } else if a + h < 0 && e > 0 {
        lemma_excess_falls(a, h, c, p, q);
        assert(v >= 0) by (nonlinear_arith)
            requires
                e > 0,
                v >= e * (q * q),
        ;
    } else {
        assert(v >= 0) by (nonlinear_arith)
            requires
                a > 0,
                h > 0,
                c > 0,
                0 <= p <= q,
                v == a * (p * p) + 2 * h * (p * q) + c * (q * q),
        ;
    }
}

/// A segment that comes through unchanged lies inside or on the circle with
/// every one of its points, at any parameter `p / q` in `[0, 1]`.
pub proof fn lemma_unchanged_lies_inside(line: LineSegment, circle: Circle, p: int, q: int)
    requires
        trim_spec(line, circle) == TrimResult::Unchanged(line),
        0 <= p <= q,
        0 < q,
    ensures
        excess_at(line, circle, p, q) <= 0,
{
    let a = line.len_sq();
    let h = half_b(line, circle);
    let c = start_excess(line, circle);
    let e = end_excess(line, circle);
    let v = excess_at(line, circle, p, q);
    lemma_len_sq(line);
    lemma_end_excess(line, circle);
    assert(v == a * (p * p) + 2 * h * (p * q) + c * (q * q));
    let pp = p * p;
    let pq = p * q;
    let qq = q * q;
    // The chord lies below the line through its ends: the quadratic opens upwards.
    assert(v == c * (qq - pq) + e * pq + a * (pp - pq)) by (nonlinear_arith)
        requires
            v == a * pp + 2 * h * pq + c * qq,
            e == a + 2 * h + c,
    ;
    assert(qq - pq >= 0 && pq >= 0 && pp - pq <= 0) by (nonlinear_arith)
        requires
            0 <= p <= q,
            pp == p * p,
            pq == p * q,
            qq == q * q,
    ;
    assert(c * (qq - pq) <= 0 && e * pq <= 0 && a * (pp - pq) <= 0) by (nonlinear_arith)
        requires
            c <= 0,
            e <= 0,
            a >= 0,
            qq - pq >= 0,
            pq >= 0,
            pp - pq <= 0,
    ;
}

/// A segment that has a point strictly inside the circle, at a parameter
/// `p / q` in `[0, 1]`, and an end outside it crosses the boundary. It is
/// clipped: an end that lies inside or on the circle stays, an end that lies
/// outside is moved to where the segment meets the circle.
pub proof fn lemma_crossing_is_trimmed(line: LineSegment, circle: Circle, p: int, q: int)
    requires
        start_excess(line, circle) > 0 || end_excess(line, circle) > 0,
        0 <= p <= q,
        0 < q,
        excess_at(line, circle, p, q) < 0,
    ensures
        trim_spec(line, circle) == TrimResult::Trimmed(
            LineSegment { start: entry_point(line, circle), end: exit_point(line, circle) },
        ),
        start_excess(line, circle) <= 0 ==> entry_point(line, circle) == line.start,
        end_excess(line, circle) <= 0 ==> exit_point(line, circle) == line.end,
{
    if eliminated(line, circle) {
        lemma_eliminated_has_nothing_inside(line, circle, p, q);
    }
}

/// Completing the square: `a` times the quadratic's value at `p / q`, scaled
/// by `q^2`, is a square less the quarter discriminant times `q^2`.
proof fn lemma_complete_square(a: int, h: int, c: int, p: int, q: int)
    ensures
        a * (a * (p * p) + 2 * h * (p * q) + c * (q * q)) == (a * p + h * q) * (a * p + h * q) - (h
            * h - a * c) * (q * q),
{
    let pp = p * p;
    let pq = p * q;
    let qq = q * q;
    assert((a * p + h * q) * (a * p + h * q) == (a * p) * (a * p) + 2 * ((a * p) * (h * q)) + (h
        * q) * (h * q)) by (nonlinear_arith);
    assert((a * p) * (a * p) == a * (a * pp)) by (nonlinear_arith)
        requires
            pp == p * p,
    ;
    assert((a * p) * (h * q) == a * (h * pq)) by (nonlinear_arith)
        requires
            pq == p * q,
    ;
    assert((h * q) * (h * q) == (h * h) * qq) by (nonlinear_arith)
        requires
            qq == q * q,
    ;
    assert(a * (a * pp + 2 * h * pq + c * qq) == a * (a * pp) + 2 * (a * (h * pq)) + (a * c) * qq)
        by (nonlinear_arith);
    assert((h * h - a * c) * qq == (h * h) * qq - (a * c) * qq) by (nonlinear_arith);
}

/// Where the vertex lies beyond `t = 1`, the quadratic falls on `[0, 1]`: its
/// value at `p / q` is at least its value at 1.
proof fn lemma_excess_falls(a: int, h: int, c: int, p: int, q: int)
    requires
        a > 0,
        a + h < 0,
        0 <= p <= q,
        0 < q,
    ensures
        a * (p * p) + 2 * h * (p * q) + c * (q * q) >= (a + 2 * h + c) * (q * q),
{
    let pp = p * p;
    let pq = p * q;
    let qq = q * q;
    let w = a * (p + q) + 2 * h * q;
    assert(a * pp + 2 * h * pq + c * qq - (a + 2 * h + c) * qq == a * (pp - qq) + 2 * h * (pq - qq))
        by (nonlinear_arith);
    assert(pp - qq == (p - q) * (p + q)) by (nonlinear_arith)
        requires
            pp == p * p,
            qq == q * q,
    ;
    assert(pq - qq == (p - q) * q) by (nonlinear_arith)
        requires
            pq == p * q,
            qq == q * q,
    ;
    assert(a * ((p - q) * (p + q)) + 2 * h * ((p - q) * q) == (p - q) * w) by (nonlinear_arith)
        requires
            w == a * (p + q) + 2 * h * q,
    ;
    assert(w <= 0) by (nonlinear_arith)
        requires
            w == a * (p + q) + 2 * h * q,
            a > 0,
            a + h < 0,
            0 <= p <= q,
            0 < q,
    {
        assert(a * (p + q) <= a * (2 * q));
        assert(a * (2 * q) + 2 * h * q == 2 * q * (a + h));
    }
    assert((p - q) * w >= 0) by (nonlinear_arith)
        requires
            p - q <= 0,
            w <= 0,
    ;
}

/// A line that touches the circle in one point gives no segment, not even one
/// of no length.
pub proof fn lemma_tangent_is_eliminated(line: LineSegment, circle: Circle)
    requires
        line.start != line.end,
        quarter_disc(line, circle) == 0,
    ensures
        trim_spec(line, circle) == TrimResult::Eliminated,
{
    lemma_len_sq(line);
}

/// A segment of no length is kept whole where its point lies inside or on the
/// circle, and is eliminated where it lies outside.
pub proof fn lemma_point_segment(line: LineSegment, circle: Circle)
    requires
        line.start == line.end,
    ensures
        within(line.start, circle) ==> trim_spec(line, circle) == TrimResult::Unchanged(line),
        !within(line.start, circle) ==> trim_spec(line, circle) == TrimResult::Eliminated,
{
    lemma_len_sq(line);
}

/// Scaling by nothing gives nothing, and scaling by the whole gives the
/// whole.
pub proof fn lemma_scaled_ends(d: int, a: int)
    requires
        0 < a,
    ensures
        scaled(d, 0, a) == 0,
        scaled(d, a, a) == d,
{
    let m = if d >= 0 {
        d
    } else {
        -d
    };
    assert(2 * m * 0 + a == a);
    vstd::arithmetic::div_mod::lemma_fundamental_div_mod_converse(a, 2 * a, 0, a);
    assert(2 * m * a + a == m * (2 * a) + a) by (nonlinear_arith);
    vstd::arithmetic::div_mod::lemma_fundamental_div_mod_converse(2 * m * a + a, 2 * a, m, a);
}

/// A segment of some length that is kept is cut between two parameters that
/// lie in order within `[0, 1]`: the clipped segment is a part of the
/// one it was cut from and runs the same way.
pub proof fn lemma_cut_parameters(line: LineSegment, circle: Circle)
    requires
        line.start != line.end,
        !eliminated(line, circle),
    ensures
        0 <= entry_numerator(line, circle) <= exit_numerator(line, circle) <= line.len_sq(),
        entry_point(line, circle) == line.point_at(entry_numerator(line, circle), line.len_sq()),
        exit_point(line, circle) == line.point_at(exit_numerator(line, circle), line.len_sq()),
{
    let a = line.len_sq();
    let h = half_b(line, circle);
    let c = start_excess(line, circle);
    let e = end_excess(line, circle);
    let d = quarter_disc(line, circle);
    let s = floor_sqrt(d);
    lemma_len_sq(line);
    lemma_end_excess(line, circle);
    lemma_floor_sqrt_exists(d);
    lemma_scaled_ends(line.dx(), a);
    lemma_scaled_ends(line.dy(), a);
    if c > 0 {
        lemma_entry_numerator(a, h, c, e, s);
    }
    if e > 0 {
        lemma_exit_numerator(a, h, c, e, s);
    }
}

/// Where an end of the segment lies outside, the segment is cut where it
/// meets the circle: the point at the parameter of the cut, before it is
/// rounded to the grid, lies on or inside the circle, and its squared distance
/// from the centre falls short of the squared radius by less than
/// `(2 s + 1) / a`, with `s` the floor of the square root of the quarter
/// discriminant.
pub proof fn lemma_cut_meets_circle(line: LineSegment, circle: Circle)
    requires
        line.start != line.end,
        !eliminated(line, circle),
    ensures
        start_excess(line, circle) > 0 ==> -(2 * floor_sqrt(quarter_disc(line, circle)) + 1)
            * line.len_sq() < excess_at(
            line,
            circle,
            entry_numerator(line, circle),
            line.len_sq(),
        ) <= 0,
        end_excess(line, circle) > 0 ==> -(2 * floor_sqrt(quarter_disc(line, circle)) + 1)
            * line.len_sq() < excess_at(
            line,
            circle,
            exit_numerator(line, circle),
            line.len_sq(),
        ) <= 0,
{
    let a = line.len_sq();
    let h = half_b(line, circle);
    let c = start_excess(line, circle);
    let d = quarter_disc(line, circle);
    let s = floor_sqrt(d);
    lemma_len_sq(line);
    lemma_floor_sqrt_exists(d);
    lemma_excess_at_root(a, h, c, -h - s, s);
    lemma_excess_at_root(a, h, c, -h + s, s);
}

/// The quadratic's value, times `a^2`, at a parameter `n / a` whose numerator
/// is `s` away from the vertex's, with `s` the floor of the square root of the
/// quarter discriminant.
proof fn lemma_excess_at_root(a: int, h: int, c: int, n: int, s: int)
    requires
        a > 0,
        is_floor_sqrt(h * h - a * c, s),
        n + h == s || n + h == -s,
    ensures
        -(2 * s + 1) * a < a * (n * n) + 2 * h * (n * a) + c * (a * a) <= 0,
{
    let d = h * h - a * c;
    let v = a * (n * n) + 2 * h * (n * a) + c * (a * a);
    assert((n + h) * (n + h) == s * s) by (nonlinear_arith)
        requires
            n + h == s || n + h == -s,
    ;
    assert((n + h) * (n + h) == n * n + 2 * (h * n) + h * h) by (nonlinear_arith);
    assert(v == a * (n * n + 2 * (h * n) + a * c)) by (nonlinear_arith)
        requires
            v == a * (n * n) + 2 * h * (n * a) + c * (a * a),
    ;
    assert(n * n + 2 * (h * n) + a * c == s * s - d);
    assert(-(2 * s + 1) < s * s - d <= 0) by (nonlinear_arith)
        requires
            0 <= s,
            s * s <= d < (s + 1) * (s + 1),
    ;
    assert(-(2 * s + 1) * a < a * (s * s - d) <= 0) by (nonlinear_arith)
        requires
            a > 0,
            -(2 * s + 1) < s * s - d <= 0,
    ;
}

/// Scaling rounds to the nearest integer: the result differs from `d * n / a`
/// by at most a half.
pub proof fn lemma_scaled_is_nearest(d: int, n: int, a: int)
    requires
        0 < a,
        0 <= n,
    ensures
        -a <= 2 * a * scaled(d, n, a) - 2 * d * n <= a,
{
    let m = if d >= 0 {
        d
    } else {
        -d
    };
    let x = 2 * m * n + a;
    let q = x / (2 * a);
    vstd::arithmetic::div_mod::lemma_fundamental_div_mod(x, 2 * a);
    vstd::arithmetic::div_mod::lemma_mod_bound(x, 2 * a);
    assert(2 * a * q == (2 * a) * q) by (nonlinear_arith);
    assert(-a < 2 * a * q - 2 * m * n <= a);
    if d < 0 {
        assert(2 * a * (-q) == -(2 * a * q)) by (nonlinear_arith);
        assert(2 * (-d) * n == -(2 * d * n)) by (nonlinear_arith);
    }
}

/// The square of a sum.
proof fn lemma_square_of_sum(x: int, y: int)
    ensures
        (x + y) * (x + y) == x * x + 2 * (x * y) + y * y,
{
    assert((x + y) * (x + y) == x * x + 2 * (x * y) + y * y) by (nonlinear_arith);
}

/// The square of a product.
proof fn lemma_square_of_product(x: int, y: int)
    ensures
        (x * y) * (x * y) == (x * x) * (y * y),
{
    assert((x * y) * (x * y) == (x * x) * (y * y)) by (nonlinear_arith);
}

/// A product of two products, regrouped.
proof fn lemma_regroup(w: int, x: int, y: int, z: int)
    ensures
        (w * x) * (y * z) == (y * w) * (x * z),
{
    assert((w * x) * (y * z) == (y * w) * (x * z)) by (nonlinear_arith);
}

/// A number whose square is at most the square of a bound is at most the
/// bound in magnitude.
proof fn lemma_bounded_by_square(x: int, b: int)
    requires
        0 <= b,
        x * x <= b * b,
    ensures
        -b <= x <= b,
{
    assert(-b <= x <= b) by (nonlinear_arith)
        requires
            0 <= b,
            x * x <= b * b,
    ;
}

/// The quarter discriminant is at most `a r^2`, by the inequality of Cauchy
/// and Schwarz.
proof fn lemma_disc_bound(tx: int, ty: int, dx: int, dy: int, rr: int)
    ensures
        (tx * dx + ty * dy) * (tx * dx + ty * dy) - (dx * dx + dy * dy) * (tx * tx + ty * ty - rr)
            <= (dx * dx + dy * dy) * rr,
{
    let a = dx * dx + dy * dy;
    let t = tx * tx + ty * ty;
    let h = tx * dx + ty * dy;
    let k = tx * dy - ty * dx;
    lemma_square_of_sum(tx * dx, ty * dy);
    lemma_square_of_sum(tx * dy, -(ty * dx));
    assert(h * h == (tx * dx) * (tx * dx) + 2 * ((tx * dx) * (ty * dy)) + (ty * dy) * (ty * dy));
    assert(k * k == (tx * dy) * (tx * dy) + 2 * ((tx * dy) * (-(ty * dx))) + (-(ty * dx)) * (-(ty
        * dx)));
    assert((tx * dx) * (ty * dy) == -((tx * dy) * (-(ty * dx)))) by (nonlinear_arith);
    assert((-(ty * dx)) * (-(ty * dx)) == (ty * dx) * (ty * dx)) by (nonlinear_arith);
    lemma_square_of_product(tx, dx);
    lemma_square_of_product(ty, dy);
    lemma_square_of_product(tx, dy);
    lemma_square_of_product(ty, dx);
    assert(a * t == (dx * dx) * t + (dy * dy) * t) by (nonlinear_arith)
        requires
            a == dx * dx + dy * dy,
    ;
    assert((dx * dx) * t == (tx * tx) * (dx * dx) + (ty * ty) * (dx * dx)) by (nonlinear_arith)
        requires
            t == tx * tx + ty * ty,
    ;
    assert((dy * dy) * t == (tx * tx) * (dy * dy) + (ty * ty) * (dy * dy)) by (nonlinear_arith)
        requires
            t == tx * tx + ty * ty,
    ;
    assert(h * h + k * k == a * t);
    assert(k * k >= 0) by (nonlinear_arith);
    assert(a * (t - rr) == a * t - a * rr) by (nonlinear_arith);
}

/// A point of the segment that lies, before rounding, on or just inside the
/// circle lies after rounding within a band about the circle: in squared
/// distance from the centre, at most `4 r + 1` short of the squared radius
/// and at most `2 r` beyond it.
proof fn lemma_rounded_near_circle(
    a: int,
    r: int,
    tx: int,
    ty: int,
    dx: int,
    dy: int,
    n: int,
    s: int,
    ox: int,
    oy: int,
)
    requires
        a > 0,
        a == dx * dx + dy * dy,
        0 <= r,
        is_floor_sqrt(
            (tx * dx + ty * dy) * (tx * dx + ty * dy) - a * (tx * tx + ty * ty - r * r),
            s,
        ),
        n + (tx * dx + ty * dy) == s || n + (tx * dx + ty * dy) == -s,
        -a <= 2 * a * ox - 2 * dx * n <= a,
        -a <= 2 * a * oy - 2 * dy * n <= a,
    ensures
        -(4 * r + 1) <= (tx + ox) * (tx + ox) + (ty + oy) * (ty + oy) - r * r <= 2 * r,
{
    let h = tx * dx + ty * dy;
    let c = tx * tx + ty * ty - r * r;
    let d = h * h - a * c;
    let e = a * (n * n) + 2 * h * (n * a) + c * (a * a);
    let wx = a * tx + n * dx;
    let wy = a * ty + n * dy;
    let px = a * ox - n * dx;
    let py = a * oy - n * dy;
    let ar = a * r;
    lemma_excess_at_root(a, h, c, n, s);
    lemma_disc_bound(tx, ty, dx, dy, r * r);
    // The exact point, scaled by `a`, lies on or inside the circle scaled by `a`.
    lemma_square_of_sum(a * tx, n * dx);
    lemma_square_of_sum(a * ty, n * dy);
    assert((a * tx) * (a * tx) + (a * ty) * (a * ty) == (a * a) * (tx * tx + ty * ty))
        by (nonlinear_arith);
    lemma_regroup(a, tx, n, dx);
    lemma_regroup(a, ty, n, dy);
    assert((n * a) * (tx * dx) + (n * a) * (ty * dy) == (n * a) * h) by (nonlinear_arith)
        requires
            h == tx * dx + ty * dy,
    ;
    lemma_square_of_product(n, dx);
    lemma_square_of_product(n, dy);
    assert((n * n) * (dx * dx) + (n * n) * (dy * dy) == a * (n * n)) by (nonlinear_arith)
        requires
            a == dx * dx + dy * dy,
    ;
    assert((a * a) * (tx * tx + ty * ty) == c * (a * a) + ar * ar) by (nonlinear_arith)
        requires
            c == tx * tx + ty * ty - r * r,
            ar == a * r,
    ;
    assert(2 * h * (n * a) == 2 * ((n * a) * h)) by (nonlinear_arith);
    assert(wx * wx + wy * wy == e + ar * ar);
    assert(wx * wx >= 0 && wy * wy >= 0) by (nonlinear_arith);
    assert(0 <= ar) by (nonlinear_arith)
        requires
            ar == a * r,
            a > 0,
            r >= 0,
    ;
    lemma_bounded_by_square(wx, ar);
    lemma_bounded_by_square(wy, ar);
    // The rounded point, scaled by `a`, is the exact one moved by at most `a / 2`.
    assert(a * (tx + ox) == wx + px && a * (ty + oy) == wy + py) by (nonlinear_arith)
        requires
            wx == a * tx + n * dx,
            wy == a * ty + n * dy,
            px == a * ox - n * dx,
            py == a * oy - n * dy,
    ;
    let q = (tx + ox) * (tx + ox) + (ty + oy) * (ty + oy);
    assert((a * a) * q == (wx + px) * (wx + px) + (wy + py) * (wy + py)) by (nonlinear_arith)
        requires
            a * (tx + ox) == wx + px,
            a * (ty + oy) == wy + py,
            q == (tx + ox) * (tx + ox) + (ty + oy) * (ty + oy),
    ;
    lemma_square_of_sum(wx, px);
    lemma_square_of_sum(wy, py);
    assert(2 * a * ox == 2 * (a * ox) && 2 * dx * n == 2 * (n * dx)) by (nonlinear_arith);
    assert(2 * a * oy == 2 * (a * oy) && 2 * dy * n == 2 * (n * dy)) by (nonlinear_arith);
    assert(-a <= 2 * px <= a);
    assert(-a <= 2 * py <= a);
    assert(-(a * ar) <= 2 * (wx * px) <= a * ar) by (nonlinear_arith)
        requires
            -ar <= wx <= ar,
            -a <= 2 * px <= a,
            a > 0,
    ;
    assert(-(a * ar) <= 2 * (wy * py) <= a * ar) by (nonlinear_arith)
        requires
            -ar <= wy <= ar,
            -a <= 2 * py <= a,
            a > 0,
    ;
    assert(0 <= 4 * (px * px) <= a * a) by (nonlinear_arith)
        requires
            -a <= 2 * px <= a,
    ;
    assert(0 <= 4 * (py * py) <= a * a) by (nonlinear_arith)
        requires
            -a <= 2 * py <= a,
    ;
    // The floor of the square root is at most `a r`.
    assert(s <= ar) by (nonlinear_arith)
        requires
            0 <= s,
            s * s <= d,
            d <= a * (r * r),
            ar == a * r,
            a >= 1,
            r >= 0,
    {
        assert(a * (r * r) <= a * (a * (r * r)));
        assert(a * (a * (r * r)) == ar * ar);
    }
    assert((2 * s + 1) * a <= 2 * (a * ar) + a * a) by (nonlinear_arith)
        requires
            0 <= s <= ar,
            a >= 1,
    ;
    assert(a * ar == (a * a) * r) by (nonlinear_arith)
        requires
            ar == a * r,
    ;
    assert(ar * ar == (a * a) * (r * r)) by (nonlinear_arith)
        requires
            ar == a * r,
    ;
    let aa = a * a;
    assert(aa >= 1) by (nonlinear_arith)
        requires
            aa == a * a,
            a >= 1,
    ;
    assert(-(2 * s + 1) * a == -((2 * s + 1) * a)) by (nonlinear_arith);
    assert(2 * (aa * q) <= 2 * (aa * (r * r)) + 4 * (aa * r) + aa);
    assert(aa * q >= aa * (r * r) - 4 * (aa * r) - aa);
    assert(q - r * r <= 2 * r) by (nonlinear_arith)
        requires
            aa >= 1,
            2 * (aa * q) <= 2 * (aa * (r * r)) + 4 * (aa * r) + aa,
    ;
    assert(q - r * r >= -(4 * r + 1)) by (nonlinear_arith)
        requires
            aa >= 1,
            aa * q >= aa * (r * r) - 4 * (aa * r) - aa,
    ;
}

/// Scaling by a part of the whole gives a part of the whole: the result lies
/// between nothing and `d`.
pub proof fn lemma_scaled_within(d: int, n: int, a: int)
    requires
        0 < a,
        0 <= n <= a,
    ensures
        d >= 0 ==> 0 <= scaled(d, n, a) <= d,
        d < 0 ==> d <= scaled(d, n, a) <= 0,
{
    let m = if d >= 0 {
        d
    } else {
        -d
    };
    let q = (2 * m * n + a) / (2 * a);
    assert(0 <= q <= m) by (nonlinear_arith)
        requires
            q == (2 * m * n + a) / (2 * a),
            0 <= n <= a,
            0 < a,
            0 <= m,
    ;
}

/// Where an end of a kept segment lies outside the circle, the segment is
/// clipped to a grid point next to the circle: in squared distance from the
/// centre that point is at most `4 r + 1` short of the squared radius and at
/// most `2 r` beyond it, which is about two grid steps inside the circle and
/// one outside.
pub proof fn lemma_cut_points_near_circle(line: LineSegment, circle: Circle)
    requires
        line.in_range(),
        circle.wf(),
        line.start != line.end,
        !eliminated(line, circle),
    ensures
        start_excess(line, circle) > 0 ==> -(4 * circle.radius + 1) <= dist_sq(
            entry_point(line, circle),
            circle.center,
        ) - circle.radius * circle.radius <= 2 * circle.radius,
        end_excess(line, circle) > 0 ==> -(4 * circle.radius + 1) <= dist_sq(
            exit_point(line, circle),
            circle.center,
        ) - circle.radius * circle.radius <= 2 * circle.radius,
{
    let a = line.len_sq();
    let r = circle.radius as int;
    let tx = line.start.x - circle.center.x;
    let ty = line.start.y - circle.center.y;
    let dx = line.dx();
    let dy = line.dy();
    let s = floor_sqrt(quarter_disc(line, circle));
    lemma_len_sq(line);
    lemma_floor_sqrt_exists(quarter_disc(line, circle));
    lemma_cut_parameters(line, circle);
    if start_excess(line, circle) > 0 {
        let n = entry_numerator(line, circle);
        lemma_scaled_within(dx, n, a);
        lemma_scaled_within(dy, n, a);
        lemma_scaled_is_nearest(dx, n, a);
        lemma_scaled_is_nearest(dy, n, a);
        lemma_rounded_near_circle(a, r, tx, ty, dx, dy, n, s, scaled(dx, n, a), scaled(dy, n, a));
    }
    if end_excess(line, circle) > 0 {
        let n = exit_numerator(line, circle);
        lemma_scaled_within(dx, n, a);
        lemma_scaled_within(dy, n, a);
        lemma_scaled_is_nearest(dx, n, a);
        lemma_scaled_is_nearest(dy, n, a);
        lemma_rounded_near_circle(a, r, tx, ty, dx, dy, n, s, scaled(dx, n, a), scaled(dy, n, a));
    }
}

/// A number between `lo q` and `hi q` has a square of at most `d q^2`, where
/// the squares of `lo` and `hi` are at most `d`.
proof fn lemma_square_between(u: int, lo: int, hi: int, q: int, d: int)
    requires
        0 < q,
        lo * q <= u <= hi * q,
        lo * lo <= d,
        hi * hi <= d,
    ensures
        u * u <= d * (q * q),
{
    if u >= 0 {
        assert(hi >= 0) by (nonlinear_arith)
            requires
                0 < q,
                0 <= u <= hi * q,
        ;
        assert(u * u <= (hi * q) * (hi * q)) by (nonlinear_arith)
            requires
                0 <= u <= hi * q,
        ;
        assert((hi * q) * (hi * q) == (hi * hi) * (q * q)) by (nonlinear_arith);
        assert((hi * hi) * (q * q) <= d * (q * q)) by (nonlinear_arith)
            requires
                hi * hi <= d,
        ;
    } else {
        assert(lo < 0) by (nonlinear_arith)
            requires
                0 < q,
                lo * q <= u < 0,
        ;
        assert(u * u <= (lo * q) * (lo * q)) by (nonlinear_arith)
            requires
                lo * q <= u < 0,
        ;
        assert((lo * q) * (lo * q) == (lo * lo) * (q * q)) by (nonlinear_arith);
        assert((lo * lo) * (q * q) <= d * (q * q)) by (nonlinear_arith)
            requires
                lo * lo <= d,
        ;
    }
}

/// What is kept of a segment lies inside or on the circle: every point of the
/// segment at a parameter `p / q` between the parameters of the cut.
pub proof fn lemma_cut_lies_inside(line: LineSegment, circle: Circle, p: int, q: int)
    requires
        line.start != line.end,
        !eliminated(line, circle),
        0 < q,
        entry_numerator(line, circle) * q <= line.len_sq() * p <= exit_numerator(line, circle) * q,
    ensures
        excess_at(line, circle, p, q) <= 0,
{
    let a = line.len_sq();
    let h = half_b(line, circle);
    let c = start_excess(line, circle);
    let e = end_excess(line, circle);
    let d = quarter_disc(line, circle);
    let s = floor_sqrt(d);
    let v = excess_at(line, circle, p, q);
    let lo = entry_numerator(line, circle) + h;
    let hi = exit_numerator(line, circle) + h;
    let u = a * p + h * q;
    lemma_len_sq(line);
    lemma_end_excess(line, circle);
    lemma_floor_sqrt_exists(d);
    assert(lo * lo <= d) by (nonlinear_arith)
        requires
            a > 0,
            d == h * h - a * c,
            (c <= 0 && lo == h) || (lo == -s && s * s <= d),
    ;
    assert(hi * hi <= d) by (nonlinear_arith)
        requires
            a > 0,
            d == h * h - a * c,
            e == a + 2 * h + c,
            (e <= 0 && hi == a + h) || (hi == s && s * s <= d),
    ;
    assert(lo * q == entry_numerator(line, circle) * q + h * q) by (nonlinear_arith)
        requires
            lo == entry_numerator(line, circle) + h,
    ;
    assert(hi * q == exit_numerator(line, circle) * q + h * q) by (nonlinear_arith)
        requires
            hi == exit_numerator(line, circle) + h,
    ;
    lemma_square_between(u, lo, hi, q, d);
    lemma_complete_square(a, h, c, p, q);
    assert(v <= 0) by (nonlinear_arith)
        requires
            a > 0,
            a * v == u * u - d * (q * q),
            u * u <= d * (q * q),
    ;
}

/// What is cut away lies outside the circle: every point of the segment at a
/// parameter `p / q` that is before the entry parameter or after the exit
/// parameter by `1 / a` or more. So the cut is exact but for less than `1 / a`
/// in the parameter, which is less than a grid step along the segment.
pub proof fn lemma_beyond_cut_lies_outside(line: LineSegment, circle: Circle, p: int, q: int)
    requires
        line.start != line.end,
        !eliminated(line, circle),
        0 < q,
        (start_excess(line, circle) > 0 && line.len_sq() * p <= (entry_numerator(line, circle) - 1)
            * q) || (end_excess(line, circle) > 0 && line.len_sq() * p >= (exit_numerator(
            line,
            circle,
        ) + 1) * q),
    ensures
        excess_at(line, circle, p, q) > 0,
{
    let a = line.len_sq();
    let h = half_b(line, circle);
    let c = start_excess(line, circle);
    let d = quarter_disc(line, circle);
    let s = floor_sqrt(d);
    let v = excess_at(line, circle, p, q);
    let u = a * p + h * q;
    lemma_len_sq(line);
    lemma_floor_sqrt_exists(d);
    lemma_complete_square(a, h, c, p, q);
    let t = (s + 1) * q;
    if start_excess(line, circle) > 0 && a * p <= (entry_numerator(line, circle) - 1) * q {
        assert((entry_numerator(line, circle) - 1) * q + h * q == -t) by (nonlinear_arith)
            requires
                entry_numerator(line, circle) == -h - s,
                t == (s + 1) * q,
        ;
        assert(u <= -t);
    } else {
        assert((exit_numerator(line, circle) + 1) * q + h * q == t) by (nonlinear_arith)
            requires
                exit_numerator(line, circle) == -h + s,
                t == (s + 1) * q,
        ;
        assert(u >= t);
    }
    assert(t > 0) by (nonlinear_arith)
        requires
            t == (s + 1) * q,
            0 <= s,
            0 < q,
    ;
    assert(u * u >= t * t) by (nonlinear_arith)
        requires
            t > 0,
            u <= -t || u >= t,
    ;
    assert(t * t == ((s + 1) * (s + 1)) * (q * q)) by (nonlinear_arith)
        requires
            t == (s + 1) * q,
    ;
    assert(((s + 1) * (s + 1)) * (q * q) > d * (q * q)) by (nonlinear_arith)
        requires
            d < (s + 1) * (s + 1),
            0 < q,
    ;
    assert(v > 0) by (nonlinear_arith)
        requires
            a > 0,
            a * v == u * u - d * (q * q),
            u * u > d * (q * q),
    ;
}

} // verus!
