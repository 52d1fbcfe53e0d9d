use gcode::{gcode_comment, inv_feed_g93, preamble, standard_feed_g94, tool_change, trailer};

#[test]
fn comment_is_put_in_brackets() {
    assert_eq!(gcode_comment("Writing 'A'"), "(Writing 'A')\n");
    assert_eq!(gcode_comment(""), "()\n");
}

#[test]
fn trailer_stops_the_machine() {
    assert_eq!(trailer(), "G30 (Go Home)\nM9 (Coolant off)\nM5 (Spindle off)\nM30\n");
}

#[test]
fn feed_modes_are_one_line_each() {
    assert_eq!(inv_feed_g93(), "G93\n");
    assert_eq!(standard_feed_g94(), "G94\n");
}

#[test]
fn tool_change_names_the_tool_twice() {
    assert_eq!(
        tool_change(12, 650),
        "M5 (Spindle off)\nG30 (Go Home)\nM0 (stop for tool change)\nT12 G43 H12 M6\nS650 M3\n"
    );
}

#[test]
fn preamble_opens_a_program() {
    let text = preamble(&Some(String::from("gear")), 3, "50mm cutter", 1000, true);
    assert!(text.starts_with("(gear)\n(50mm cutter)\n\nG90 (Absolute)\n"));
    assert!(text.contains("G30 (Go Home Before Starting)\n    \n\nM5 (Spindle off)\n"));
    assert!(text.ends_with("T3 G43 H3 M6\nS1000 M3\nM8\n"));
    let dry = preamble(&None, 3, "50mm cutter", 1000, false);
    assert!(dry.starts_with("(50mm cutter)\n\nG90 (Absolute)\n"));
    assert!(dry.ends_with("S1000 M3\n"));
}
