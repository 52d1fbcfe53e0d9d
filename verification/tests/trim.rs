use gcode::geometry::{trim, Circle, LineSegment, Point, TrimResult};
use gcode::sqrt::isqrt;

const EPSILON: f64 = 1e-10;

/// A number of units on the grid of ten-thousandths.
fn fx(units: f64) -> i64 {
    (units * 10_000.0).round() as i64
}

fn point(x: f64, y: f64) -> Point {
    Point { x: fx(x), y: fx(y) }
}

fn points_equal(p1: Point, p2: Point) -> bool {
    let dx = (p1.x - p2.x) as f64 / 10_000.0;
    let dy = (p1.y - p2.y) as f64 / 10_000.0;
    (dx * dx + dy * dy).sqrt() < EPSILON
}

#[test]
fn test_line_completely_outside_circle() {
    let circle = Circle { center: point(0.0, 0.0), radius: fx(1.0) };
    let line = LineSegment { start: point(2.0, 0.0), end: point(3.0, 0.0) };

    let result = trim(line, &circle);
    println!("Got outside result {:?}", result);
    assert!(result.is_none());
}

#[test]
fn test_line_completely_outside_circle_miss() {
    let circle = Circle { center: point(0.0, 0.0), radius: fx(1.0) };
    let line = LineSegment { start: point(0.0, 2.0), end: point(2.0, 2.0) };

    let result = trim(line, &circle);
    println!("Got outside result {:?}", result);
    assert!(result.is_none());
}

#[test]
fn test_line_completely_inside_circle() {
    let circle = Circle { center: point(0.0, 0.0), radius: fx(2.0) };
    let line = LineSegment { start: point(-0.5, 0.0), end: point(0.5, 0.0) };

    let enum_result = trim(line, &circle);
    assert!(enum_result.is_unchanged());
    let result = enum_result.unwrap();
    assert!(points_equal(result.start, point(-0.5, 0.0)));
    assert!(points_equal(result.end, point(0.5, 0.0)));
}

#[test]
fn test_line_both_ends_outside_passes_through() {
    let circle = Circle { center: point(0.0, 0.0), radius: fx(1.0) };
    let line = LineSegment { start: point(-2.0, 0.0), end: point(2.0, 0.0) };

    let enum_result = trim(line, &circle);
    assert!(enum_result.is_trimmed());
    let result = enum_result.unwrap();
    assert!(points_equal(result.start, point(-1.0, 0.0)));
    assert!(points_equal(result.end, point(1.0, 0.0)));
}

#[test]
fn test_line_one_end_inside_one_outside() {
    let circle = Circle { center: point(0.0, 0.0), radius: fx(1.0) };
    let line = LineSegment { start: point(0.5, 0.0), end: point(2.0, 0.0) };

    let enum_result = trim(line, &circle);
    assert!(enum_result.is_trimmed());
    let result = enum_result.unwrap();
    assert!(points_equal(result.start, point(0.5, 0.0)));
    assert!(points_equal(result.end, point(1.0, 0.0)));
}

#[test]
fn test_line_one_end_outside_one_inside() {
    let circle = Circle { center: point(0.0, 0.0), radius: fx(1.0) };
    let line = LineSegment { start: point(-2.0, 0.0), end: point(0.5, 0.0) };

    let enum_result = trim(line, &circle);
    assert!(enum_result.is_trimmed());
    let result = enum_result.unwrap();
    assert!(points_equal(result.start, point(-1.0, 0.0)));
    assert!(points_equal(result.end, point(0.5, 0.0)));
}

#[test]
fn test_line_tangent_to_circle() {
    let circle = Circle { center: point(0.0, 0.0), radius: fx(1.0) };
    let line = LineSegment { start: point(-1.0, 1.0), end: point(1.0, 1.0) };

    assert!(trim(line, &circle).is_none());
}

#[test]
fn test_zero_length_line_inside_circle() {
    let circle = Circle { center: point(0.0, 0.0), radius: fx(1.0) };
    let line = LineSegment { start: point(0.5, 0.0), end: point(0.5, 0.0) };

    let enum_result = trim(line, &circle);
    assert!(enum_result.is_unchanged());
    let result = enum_result.unwrap();
    assert!(points_equal(result.start, point(0.5, 0.0)));
    assert!(points_equal(result.end, point(0.5, 0.0)));
}

#[test]
fn test_zero_length_line_outside_circle() {
    let circle = Circle { center: point(0.0, 0.0), radius: fx(1.0) };
    let line = LineSegment { start: point(2.0, 0.0), end: point(2.0, 0.0) };

    let enum_result = trim(line, &circle);
    assert!(enum_result.is_none());
}

#[test]
fn test_diagonal_line_intersection() {
    let circle = Circle { center: point(0.0, 0.0), radius: fx(1.0) };
    let line = LineSegment { start: point(-2.0, -2.0), end: point(2.0, 2.0) };

    let result = trim(line, &circle).unwrap();
    // The line y = x meets the unit circle at (±√2/2, ±√2/2).
    let expected_coord = 1.0 / 2.0_f64.sqrt();
    assert!(points_equal(result.start, point(-expected_coord, -expected_coord)));
    assert!(points_equal(result.end, point(expected_coord, expected_coord)));
}

#[test]
fn test_line_misses_circle_parallel() {
    let circle = Circle { center: point(0.0, 0.0), radius: fx(1.0) };
    let line = LineSegment { start: point(-1.0, 2.0), end: point(1.0, 2.0) };

    let result = trim(line, &circle);
    assert!(result.is_none());
}

#[test]
fn diagonal_cut_lands_on_nearest_grid_points() {
    let circle = Circle { center: Point { x: 0, y: 0 }, radius: 10_000 };
    let line =
        LineSegment { start: Point { x: -20_000, y: -20_000 }, end: Point { x: 20_000, y: 20_000 } };
    assert_eq!(
        trim(line, &circle),
        TrimResult::Trimmed(LineSegment {
            start: Point { x: -7_071, y: -7_071 },
            end: Point { x: 7_071, y: 7_071 },
        })
    );
}

#[test]
fn mirrored_segment_gives_mirrored_cut() {
    let circle = Circle { center: Point { x: 0, y: 0 }, radius: 10_000 };
    let line =
        LineSegment { start: Point { x: 20_000, y: 20_000 }, end: Point { x: -20_000, y: -20_000 } };
    assert_eq!(
        trim(line, &circle),
        TrimResult::Trimmed(LineSegment {
            start: Point { x: 7_071, y: 7_071 },
            end: Point { x: -7_071, y: -7_071 },
        })
    );
}

#[test]
fn cut_points_lie_next_to_the_circle() {
    let circle = Circle { center: Point { x: 1_234, y: -4_321 }, radius: 25_000 };
    let line =
        LineSegment { start: Point { x: -90_000, y: 3_000 }, end: Point { x: 80_000, y: -17_000 } };
    let result = trim(line, &circle);
    assert!(result.is_trimmed());
    let seg = result.unwrap();
    let r = circle.radius as i128;
    for p in [seg.start, seg.end] {
        let dx = (p.x - circle.center.x) as i128;
        let dy = (p.y - circle.center.y) as i128;
        let excess = dx * dx + dy * dy - r * r;
        assert!(-(4 * r + 1) <= excess && excess <= 2 * r, "excess {excess}");
    }
    // The cut runs the way the segment runs.
    assert!(seg.start.x < seg.end.x);
    assert!(line.start.x < seg.start.x && seg.end.x < line.end.x);
}

#[test]
fn short_segment_across_a_large_circle_is_cut_at_a_grid_point() {
    let circle = Circle { center: Point { x: 0, y: 0 }, radius: 1_000_000_000 };
    let line = LineSegment {
        start: Point { x: 1_000_000_000, y: 1 },
        end: Point { x: 999_999_999, y: 0 },
    };
    assert_eq!(
        trim(line, &circle),
        TrimResult::Trimmed(LineSegment { start: line.end, end: line.end })
    );
}

#[test]
fn entirely_outside_is_eliminated() {
    let circle = Circle { center: Point { x: 0, y: 0 }, radius: 10_000 };
    // The line crosses the circle, the segment stops short of it.
    let before = LineSegment { start: point(-5.0, 0.0), end: point(-2.0, 0.0) };
    let after = LineSegment { start: point(2.0, 0.0), end: point(5.0, 0.0) };
    assert_eq!(trim(before, &circle), TrimResult::Eliminated);
    assert_eq!(trim(after, &circle), TrimResult::Eliminated);
}

#[test]
fn entirely_inside_is_unchanged() {
    let circle = Circle { center: point(1.0, 1.0), radius: fx(3.0) };
    let line = LineSegment { start: point(0.0, 0.5), end: point(2.5, 1.25) };
    assert_eq!(trim(line, &circle), TrimResult::Unchanged(line));
}

#[test]
fn chord_between_points_on_the_circle_is_unchanged() {
    let circle = Circle { center: point(0.0, 0.0), radius: fx(1.0) };
    let line = LineSegment { start: point(-1.0, 0.0), end: point(0.0, 1.0) };
    assert_eq!(trim(line, &circle), TrimResult::Unchanged(line));
}

#[test]
fn zero_length_on_the_circle_is_unchanged() {
    let circle = Circle { center: point(0.0, 0.0), radius: fx(1.0) };
    let line = LineSegment { start: point(1.0, 0.0), end: point(1.0, 0.0) };
    assert_eq!(trim(line, &circle), TrimResult::Unchanged(line));
}

#[test]
fn segment_that_ends_on_the_circle_from_outside_is_a_point() {
    let circle = Circle { center: point(0.0, 0.0), radius: fx(1.0) };
    let line = LineSegment { start: point(2.0, 0.0), end: point(1.0, 0.0) };
    assert_eq!(
        trim(line, &circle),
        TrimResult::Trimmed(LineSegment { start: point(1.0, 0.0), end: point(1.0, 0.0) })
    );
}

#[test]
fn trim_at_the_limits_of_the_range() {
    let limit = 1_000_000_000;
    let circle = Circle { center: Point { x: limit, y: limit }, radius: 2_000_000_000 };
    let line =
        LineSegment { start: Point { x: -limit, y: -limit }, end: Point { x: limit, y: limit } };
    // The diagonal enters the circle at a distance of the radius from the centre.
    let seg = trim(line, &circle).unwrap();
    assert_eq!(seg.end, line.end);
    assert_eq!(seg.start, Point { x: -414_213_562, y: -414_213_562 });
}

#[test]
fn isqrt_is_the_floor() {
    assert_eq!(isqrt(0), 0);
    assert_eq!(isqrt(1), 1);
    assert_eq!(isqrt(3), 1);
    assert_eq!(isqrt(4), 2);
    assert_eq!(isqrt(99), 9);
    assert_eq!(isqrt(320_000_000_000_000_000), 565_685_424);
    assert_eq!(isqrt(u128::MAX), 18_446_744_073_709_551_615);
}

#[test]
fn trim_result_tells_its_kind() {
    let seg = LineSegment { start: point(0.0, 0.0), end: point(1.0, 0.0) };
    assert!(TrimResult::Eliminated.is_none());
    assert!(!TrimResult::Eliminated.is_trimmed());
    assert!(!TrimResult::Eliminated.is_unchanged());
    assert!(TrimResult::Trimmed(seg).is_trimmed());
    assert!(!TrimResult::Trimmed(seg).is_none());
    assert!(TrimResult::Unchanged(seg).is_unchanged());
    assert_eq!(TrimResult::Trimmed(seg).unwrap(), seg);
    assert_eq!(TrimResult::Unchanged(seg).unwrap(), seg);
}

#[test]
fn ranges_are_checked() {
    assert!(Point { x: 1_000_000_000, y: -1_000_000_000 }.fits());
    assert!(!Point { x: 1_000_000_001, y: 0 }.fits());
    assert!(!Point { x: 0, y: -1_000_000_001 }.fits());
    let inside = Point { x: 0, y: 0 };
    let outside = Point { x: i64::MAX, y: 0 };
    assert!(LineSegment { start: inside, end: inside }.fits());
    assert!(!LineSegment { start: inside, end: outside }.fits());
    assert!(!LineSegment { start: outside, end: inside }.fits());
    assert!(Circle { center: inside, radius: 0 }.fits());
    assert!(Circle { center: inside, radius: 2_000_000_000 }.fits());
    assert!(!Circle { center: inside, radius: -1 }.fits());
    assert!(!Circle { center: inside, radius: 2_000_000_001 }.fits());
    assert!(!Circle { center: outside, radius: 1 }.fits());
}

/// The same trimming in floating point, on grid coordinates: the kind of the
/// result (0 eliminated, 1 unchanged, 2 trimmed) and the two ends of what is
/// kept. `None` where the case is too close to call in floating point.
fn float_trim(line: &LineSegment, circle: &Circle) -> Option<(u8, [f64; 4])> {
    let (sx, sy) = (line.start.x as f64, line.start.y as f64);
    let (ex, ey) = (line.end.x as f64, line.end.y as f64);
    let (tx, ty) = (sx - circle.center.x as f64, sy - circle.center.y as f64);
    let (dx, dy) = (ex - sx, ey - sy);
    let r = circle.radius as f64;
    let a = dx * dx + dy * dy;
    let whole = [sx, sy, ex, ey];
    if a == 0.0 {
        return Some((if tx * tx + ty * ty <= r * r { 1 } else { 0 }, whole));
    }
    let b = 2.0 * (tx * dx + ty * dy);
    let c = tx * tx + ty * ty - r * r;
    let disc = b * b - 4.0 * a * c;
    if disc.abs() <= 1e-6 * (b * b + 1.0) {
        return None;
    }
    if disc <= 0.0 {
        return Some((0, whole));
    }
    let t1 = (-b - disc.sqrt()) / (2.0 * a);
    let t2 = (-b + disc.sqrt()) / (2.0 * a);
    for t in [t1, t2] {
        if t.abs() < 1e-6 || (t - 1.0).abs() < 1e-6 {
            return None;
        }
    }
    if (t1 > 1.0 && t2 > 1.0) || (t1 < 0.0 && t2 < 0.0) {
        return Some((0, whole));
    }
    let t_min = t1.max(0.0).min(1.0);
    let t_max = t2.max(0.0).min(1.0);
    if t_min == 0.0 && t_max == 1.0 {
        Some((1, whole))
    } else {
        Some((2, [sx + t_min * dx, sy + t_min * dy, sx + t_max * dx, sy + t_max * dy]))
    }
}

#[test]
fn trim_agrees_with_floating_point() {
    let mut state: u64 = 0x2545_f491_4f6c_dd1d;
    let mut next = |span: i64| -> i64 {
        state = state.wrapping_mul(6_364_136_223_846_793_005).wrapping_add(1_442_695_040_888_963_407);
        ((state >> 33) as i64) % (2 * span + 1) - span
    };
    let mut compared = [0usize; 3];
    for _ in 0..20_000 {
        let circle = Circle {
            center: Point { x: next(20_000), y: next(20_000) },
            radius: next(15_000).abs() + 5_000,
        };
        let line = LineSegment {
            start: Point { x: next(50_000), y: next(50_000) },
            end: Point { x: next(50_000), y: next(50_000) },
        };
        let Some((kind, ends)) = float_trim(&line, &circle) else {
            continue;
        };
        let result = trim(line, &circle);
        match kind {
            0 => assert_eq!(result, TrimResult::Eliminated, "{line:?} {circle:?}"),
            1 => assert_eq!(result, TrimResult::Unchanged(line), "{line:?} {circle:?}"),
            _ => {
                assert!(result.is_trimmed(), "{line:?} {circle:?}");
                let seg = result.unwrap();
                let got = [seg.start.x, seg.start.y, seg.end.x, seg.end.y];
                for (g, want) in got.iter().zip(ends.iter()) {
                    assert!((*g as f64 - want).abs() <= 1.5, "{line:?} {circle:?}: {got:?} {ends:?}");
                }
            }
        }
        compared[kind as usize] += 1;
    }
    // Every kind of result was met.
    assert!(compared.iter().all(|n| *n > 50), "{compared:?}");
}
