use gcode::arcs::check_cut_circle;
use gcode::fixed::number_string;
use gcode::{
    a, g0, g1, g2, g2_circle, g2_helix, g3, g_move_linear, x, xaf, xf, xy, xyf, xyijf, xyr, xyrf,
    xyz, xyza, xyzf, xyzijf, xyzrf, xzf, yf, z, zaf, zf, InvalidMove, PosAndFeed, PosXYIJ,
};

#[test]
fn whole_numbers_end_in_a_point() {
    assert_eq!(number_string(120_000), "12.");
    assert_eq!(number_string(0), "0.");
    assert_eq!(number_string(-30_000), "-3.");
    assert_eq!(number_string(10_000), "1.");
}

#[test]
fn other_numbers_have_four_decimals() {
    assert_eq!(number_string(12_345), "1.2345");
    assert_eq!(number_string(-5_000), "-0.5000");
    assert_eq!(number_string(5), "0.0005");
    assert_eq!(number_string(-1), "-0.0001");
    assert_eq!(number_string(1_000_001), "100.0001");
    assert_eq!(number_string(7_071), "0.7071");
}

#[test]
fn extreme_numbers_are_written_in_full() {
    assert_eq!(number_string(i64::MAX), "922337203685477.5807");
    assert_eq!(number_string(i64::MIN), "-922337203685477.5808");
}

#[test]
fn builders_set_the_named_axes() {
    let none = PosAndFeed { x: None, y: None, z: None, a: None, feed: None };
    assert_eq!(x(1), PosAndFeed { x: Some(1), ..none });
    assert_eq!(a(2), PosAndFeed { a: Some(2), ..none });
    assert_eq!(z(3), PosAndFeed { z: Some(3), ..none });
    assert_eq!(xaf(1, 2, 3), PosAndFeed { x: Some(1), a: Some(2), feed: Some(3), ..none });
    assert_eq!(xf(1, 2), PosAndFeed { x: Some(1), feed: Some(2), ..none });
    assert_eq!(yf(1, 2), PosAndFeed { y: Some(1), feed: Some(2), ..none });
    assert_eq!(xy(1, 2), PosAndFeed { x: Some(1), y: Some(2), ..none });
    assert_eq!(xyza(1, 2, 3, 4), PosAndFeed { x: Some(1), y: Some(2), z: Some(3), a: Some(4), feed: None });
    assert_eq!(xyz(1, 2, 3), PosAndFeed { x: Some(1), y: Some(2), z: Some(3), ..none });
    assert_eq!(xyf(1, 2, 3), PosAndFeed { x: Some(1), y: Some(2), feed: Some(3), ..none });
    assert_eq!(xyzf(1, 2, 3, 4), PosAndFeed { x: Some(1), y: Some(2), z: Some(3), a: None, feed: Some(4) });
    assert_eq!(xzf(1, 2, 3), PosAndFeed { x: Some(1), z: Some(2), feed: Some(3), ..none });
    assert_eq!(zf(1, 2), PosAndFeed { z: Some(1), feed: Some(2), ..none });
    assert_eq!(zaf(1, 2, 3), PosAndFeed { z: Some(1), a: Some(2), feed: Some(3), ..none });
}

#[test]
fn circle_and_arc_builders_set_their_fields() {
    let c = xyzrf(1, 2, 3, 4, 5);
    assert_eq!((c.x, c.y, c.z, c.r, c.feed), (Some(1), Some(2), Some(3), Some(4), Some(5)));
    let c = xyrf(1, 2, 3, 4);
    assert_eq!((c.x, c.y, c.z, c.r, c.feed), (Some(1), Some(2), None, Some(3), Some(4)));
    let c = xyr(1, 2, 3);
    assert_eq!((c.x, c.y, c.z, c.r, c.feed), (Some(1), Some(2), None, Some(3), None));
    let p = xyijf(1, 2, 3, 4, 5);
    assert_eq!((p.x, p.y, p.i, p.j, p.z, p.feed), (Some(1), Some(2), Some(3), Some(4), None, Some(5)));
    let p = xyzijf(1, 2, 3, 4, 5, 6);
    assert_eq!(
        (p.x, p.y, p.z, p.i, p.j, p.feed),
        (Some(1), Some(2), Some(3), Some(4), Some(5), Some(6))
    );
}

#[test]
fn rapid_move_is_rendered_in_axis_order() {
    assert_eq!(g0(xy(10_000, 25_000)).unwrap(), "G0 X1. Y2.5000\n");
    assert_eq!(g0(xyza(10_000, -25_000, 5_000, 900_000)).unwrap(), "G0 X1. Y-2.5000 Z0.5000 A90.\n");
    assert_eq!(g0(a(1_800_000)).unwrap(), "G0 A180.\n");
}

#[test]
fn feed_move_ends_with_its_feed_rate() {
    assert_eq!(g1(xyf(10_000, 25_000, 1_000_000)).unwrap(), "G1 X1. Y2.5000 F100.\n");
    assert_eq!(g1(zf(-1_000, 605_000)).unwrap(), "G1 Z-0.1000 F60.5000\n");
    assert_eq!(g1(zaf(-1_000, 450_000, 10_000)).unwrap(), "G1 Z-0.1000 A45. F1.\n");
}

#[test]
fn rapid_with_feed_is_refused() {
    assert_eq!(g0(xyf(1, 2, 3)), Err(InvalidMove::UnexpectedFeed));
    // The feed rate is found before the negative depth.
    assert_eq!(g0(zf(-1, 3)), Err(InvalidMove::UnexpectedFeed));
}

#[test]
fn rapid_below_zero_is_refused() {
    assert_eq!(g0(z(-1)), Err(InvalidMove::NegativeDepth));
    assert_eq!(g0(xyz(1, 2, -10_000)), Err(InvalidMove::NegativeDepth));
}

#[test]
fn rapid_to_zero_depth_is_accepted() {
    assert_eq!(g0(z(0)).unwrap(), "G0 Z0.\n");
}

#[test]
fn feed_move_without_feed_is_refused() {
    assert_eq!(g1(xy(1, 2)), Err(InvalidMove::MissingFeed));
    assert_eq!(g1(z(-5)), Err(InvalidMove::MissingFeed));
}

#[test]
fn move_without_axis_is_refused() {
    let none = PosAndFeed { x: None, y: None, z: None, a: None, feed: None };
    assert_eq!(g0(none), Err(InvalidMove::NoAxis));
    assert_eq!(g1(PosAndFeed { feed: Some(10_000), ..none }), Err(InvalidMove::NoAxis));
    assert_eq!(g_move_linear("G1", &none), Err(InvalidMove::NoAxis));
}

#[test]
fn any_command_word_heads_the_line() {
    assert_eq!(g_move_linear("G53 G0", &z(0)).unwrap(), "G53 G0 Z0.\n");
    assert_eq!(g_move_linear("G1", &xyrf(10_000, 20_000, 5_000, 30_000)).unwrap(), "G1 X1. Y2. R0.5000 F3.\n");
    assert_eq!(
        g_move_linear("G1", &xyzrf(10_000, 20_000, -1_000, 5_000, 30_000)).unwrap(),
        "G1 X1. Y2. R0.5000 F3. Z-0.1000\n"
    );
}

#[test]
fn arcs_are_rendered_with_their_offsets() {
    assert_eq!(g2(xyijf(10_000, 0, -10_000, 0, 500_000)).unwrap(), "G2 X1. Y0. I-1. J0. F50.\n");
    assert_eq!(
        g3(xyzijf(10_000, 0, -2_500, -10_000, 0, 500_000)).unwrap(),
        "G3 X1. Y0. I-1. J0. Z-0.2500 F50.\n"
    );
}

#[test]
fn incomplete_arc_is_refused() {
    let arc = xyijf(1, 2, 3, 4, 5);
    assert_eq!(g2(PosXYIJ { feed: None, ..arc }), Err(InvalidMove::IncompleteArc));
    assert_eq!(g2(PosXYIJ { x: None, ..arc }), Err(InvalidMove::IncompleteArc));
    assert_eq!(g3(PosXYIJ { j: None, ..arc }), Err(InvalidMove::IncompleteArc));
    assert_eq!(g3(PosXYIJ { i: None, ..arc }), Err(InvalidMove::IncompleteArc));
    assert_eq!(g3(PosXYIJ { y: None, ..arc }), Err(InvalidMove::IncompleteArc));
}

#[test]
fn full_circle_is_four_lines() {
    let text = g2_circle(xyzrf(0, 0, -5_000, 100_000, 1_000_000), 20_000).unwrap();
    assert_eq!(
        text,
        "G0 X10. Y0. Z2.\nG1 X10. Y0. Z-0.5000 F100.\nG2 X10. Y0. I-10. J0. F100.\nG1 Z2. F100.\n"
    );
}

#[test]
fn helix_is_six_lines() {
    let text = g2_helix(xyzrf(10_000, 20_000, -5_000, 30_000, 1_000_000), 20_000, 1_000).unwrap();
    assert_eq!(
        text,
        "G0 X4. Y2. Z2.\nG1 X4. Y2. Z0.1000 F100.\nG2 X4. Y2. I-2. J2. Z-0.5000 F100.\n\
         G1 X4. Y2. Z-0.5000 F100.\nG2 X4. Y2. I-2. J2. F100.\nG1 Z2. F100.\n"
    );
}

#[test]
fn circle_from_below_zero_is_refused() {
    assert_eq!(
        g2_circle(xyzrf(0, 0, -5_000, 100_000, 1_000_000), -1),
        Err(InvalidMove::NegativeDepth)
    );
    assert_eq!(
        g2_helix(xyzrf(0, 0, -5_000, 100_000, 1_000_000), -1, 0),
        Err(InvalidMove::NegativeDepth)
    );
}

#[test]
fn circles_to_cut_are_checked() {
    assert!(check_cut_circle(&xyzrf(0, 0, -5_000, 100_000, 1_000_000)));
    assert!(!check_cut_circle(&xyrf(0, 0, 100_000, 1_000_000)));
    assert!(!check_cut_circle(&xyr(0, 0, 100_000)));
    assert!(!check_cut_circle(&xyzrf(i64::MAX, 0, -5_000, 1, 1_000_000)));
    assert!(!check_cut_circle(&xyzrf(i64::MIN, 0, -5_000, 1, 1_000_000)));
}

#[test]
fn each_fault_has_its_message() {
    assert_eq!(InvalidMove::NoAxis.message(), "Refusing to make illegal move");
    assert_eq!(InvalidMove::UnexpectedFeed.message(), "g0 moves must not include a feed rate");
    assert_eq!(InvalidMove::MissingFeed.message(), "g1 moves must include a feed rate");
    assert_eq!(InvalidMove::NegativeDepth.message(), "Rapid move at negative z");
    assert_eq!(InvalidMove::IncompleteArc.message(), "Refusing to make illegal G2 move");
}
