//! The fixed lines that open and close a program.

use vstd::prelude::*;
use vstd::string::*;
use crate::fixed::{decimal, push_decimal};

verus! {

/// The line of a comment: the text in round brackets.
pub open spec fn comment_text(s: Seq<char>) -> Seq<char> {
    seq!['('] + s + seq![')', '\n']
}

/// A comment line.
pub fn gcode_comment(s: &str) -> (line: String)
    ensures
        line@ == comment_text(s@),
{
    let mut line = String::from_str("(");
    line.append(s);
    line.append(")\n");
    proof {
        reveal_strlit("(");
        reveal_strlit(")\n");
    }
    assert(line@ =~= comment_text(s@));
    line
}

/// The lines that end a program: go home, coolant off, spindle off, stop.
pub fn trailer() -> (lines: String)
    ensures
        lines@ == "G30 (Go Home)\nM9 (Coolant off)\nM5 (Spindle off)\nM30\n"@,
{
    String::from_str("G30 (Go Home)\nM9 (Coolant off)\nM5 (Spindle off)\nM30\n")
}

/// The lines of a tool change: spindle off, go home, stop for the change,
/// select the tool with its length compensation, spindle on at `rpm`.
pub open spec fn tool_change_text(tool: u32, rpm: u32) -> Seq<char> {
    "M5 (Spindle off)\nG30 (Go Home)\nM0 (stop for tool change)\nT"@ + decimal(tool as nat)
        + " G43 H"@ + decimal(tool as nat) + " M6\nS"@ + decimal(rpm as nat) + " M3\n"@
}

/// The lines of a tool change.
pub fn tool_change(tool: u32, rpm: u32) -> (lines: String)
    ensures
        lines@ == tool_change_text(tool, rpm),
{
    let mut lines = String::from_str(
        "M5 (Spindle off)\nG30 (Go Home)\nM0 (stop for tool change)\nT",
    );
    push_decimal(&mut lines, tool as u64);
    lines.append(" G43 H");
    push_decimal(&mut lines, tool as u64);
    lines.append(" M6\nS");
    push_decimal(&mut lines, rpm as u64);
    lines.append(" M3\n");
    assert(lines@ =~= tool_change_text(tool, rpm));
    lines
}

/// The lines that set the machine up, between the comments and the tool
/// change.
pub open spec fn setup_text() -> Seq<char> {
    "\nG90 (Absolute)\nG54 (G54 Datum)\nG17 (X-Y Plane)\nG40 (No cutter compensation)\nG80 (No cycles)\nG94 (Feed per minute)\nG91.1 (Arc absolute mode)\nG49 (No tool length compensation)\nM9 (Coolant off)\n\nG21 (Metric)\n\nG30 (Go Home Before Starting)\n    \n\n"@
}

/// The lines that open a program: the job's name as a comment where it has
/// one, the tool as a comment, the set-up, the tool change, and coolant on
/// where it is asked for.
pub open spec fn preamble_text(
    name: Option<Seq<char>>,
    tool: u32,
    tool_comment: Seq<char>,
    rpm: u32,
    coolant: bool,
) -> Seq<char> {
    let title = match name {
        Some(n) => comment_text(n),
        None => Seq::<char>::empty(),
    };
    let flood = if coolant {
        "M8\n"@
    } else {
        Seq::<char>::empty()
    };
    title + comment_text(tool_comment) + setup_text() + tool_change_text(tool, rpm) + flood
}

/// The lines that open a program.
pub fn preamble(name: &Option<String>, tool: u32, tool_comment: &str, rpm: u32, coolant: bool) -> (lines:
    String)
    ensures
        lines@ == preamble_text(
            match *name {
                Some(n) => Some(n@),
                None => None,
            },
            tool,
            tool_comment@,
            rpm,
            coolant,
        ),
{
    let mut lines = String::new();
    if let Some(n) = name {
        lines.append(gcode_comment(n.as_str()).as_str());
    }
    lines.append(gcode_comment(tool_comment).as_str());
    lines.append(
        "\nG90 (Absolute)\nG54 (G54 Datum)\nG17 (X-Y Plane)\nG40 (No cutter compensation)\nG80 (No cycles)\nG94 (Feed per minute)\nG91.1 (Arc absolute mode)\nG49 (No tool length compensation)\nM9 (Coolant off)\n\nG21 (Metric)\n\nG30 (Go Home Before Starting)\n    \n\n",
    );
    lines.append(tool_change(tool, rpm).as_str());
    if coolant {
        lines.append("M8\n");
    }
    assert(lines@ =~= preamble_text(
        match *name {
            Some(n) => Some(n@),
            None => None,
        },
        tool,
        tool_comment@,
        rpm,
        coolant,
    ));
    lines
}

/// The line that turns inverse-time feed on: every feed move then carries an
/// `F` word, read as one over the minutes that the move is to take.
pub fn inv_feed_g93() -> (line: String)
    ensures
        line@ == "G93\n"@,
{
    String::from_str("G93\n")
}

/// The line that turns units-per-minute feed on.
pub fn standard_feed_g94() -> (line: String)
    ensures
        line@ == "G94\n"@,
{
    String::from_str("G94\n")
}

} // verus!
