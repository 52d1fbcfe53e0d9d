//! Move descriptors and their text.
//!
//! A descriptor names the axes that a move sets, and the feed rate if it has
//! one. Its text is one word per value that is present, each a space, the
//! word's letter and the number, in an order that the descriptor's type fixes.
//! A rapid move (`G0`) carries no feed rate and never goes below zero in z; a
//! feed move (`G1`) always carries a feed rate; both set at least one axis.

use vstd::prelude::*;
use vstd::string::*;
use crate::fixed::{number_text, push_number};

verus! {

/// Why a descriptor cannot be written as the move that was asked for.
#[derive(Clone, Copy, Debug, PartialEq, Eq, Structural)]
pub enum InvalidMove {
    /// The descriptor sets no axis.
    NoAxis,
    /// A rapid move carries a feed rate.
    UnexpectedFeed,
    /// A feed move carries no feed rate.
    MissingFeed,
    /// A rapid move goes below zero in z.
    NegativeDepth,
    /// An arc lacks its end point, its centre offset or its feed rate.
    IncompleteArc,
}

/// What is said of a move that is refused.
pub open spec fn fault_text(fault: InvalidMove) -> Seq<char> {
    match fault {
        InvalidMove::NoAxis => "Refusing to make illegal move"@,
        InvalidMove::UnexpectedFeed => "g0 moves must not include a feed rate"@,
        InvalidMove::MissingFeed => "g1 moves must include a feed rate"@,
        InvalidMove::NegativeDepth => "Rapid move at negative z"@,
        InvalidMove::IncompleteArc => "Refusing to make illegal G2 move"@,
    }
}

impl InvalidMove {
    /// What is said of a move that is refused.
    pub fn message(&self) -> (text: String)
        ensures
            text@ == fault_text(*self),
    {
        match self {
            InvalidMove::NoAxis => String::from_str("Refusing to make illegal move"),
            InvalidMove::UnexpectedFeed => String::from_str("g0 moves must not include a feed rate"),
            InvalidMove::MissingFeed => String::from_str("g1 moves must include a feed rate"),
            InvalidMove::NegativeDepth => String::from_str("Rapid move at negative z"),
            InvalidMove::IncompleteArc => String::from_str("Refusing to make illegal G2 move"),
        }
    }
}

/// A linear move: targets on the axes x, y, z and the rotary axis a, and a
/// feed rate.
#[derive(Clone, Copy, Debug, PartialEq, Eq)]
pub struct PosAndFeed {
    pub x: Option<i64>,
    pub y: Option<i64>,
    pub z: Option<i64>,
    pub a: Option<i64>,
    pub feed: Option<i64>,
}

/// A circle in the plane: centre, radius, and for a cut its depth and feed
/// rate.
#[derive(Clone, Copy, Debug, PartialEq, Eq)]
pub struct PosRadiusAndFeed {
    pub x: Option<i64>,
    pub y: Option<i64>,
    pub r: Option<i64>,
    pub feed: Option<i64>,
    pub z: Option<i64>,
}

/// An arc move: the end point, the offset from the start to the arc's centre,
/// and a feed rate.
#[derive(Clone, Copy, Debug, PartialEq, Eq)]
pub struct PosXYIJ {
    pub x: Option<i64>,
    pub y: Option<i64>,
    pub i: Option<i64>,
    pub j: Option<i64>,
    pub z: Option<i64>,
    pub feed: Option<i64>,
}

/// The word for one value: nothing where the value is absent.
pub open spec fn word_text(name: Seq<char>, ov: Option<i64>) -> Seq<char> {
    match ov {
        Some(v) => seq![' '] + name + number_text(v as int),
        None => Seq::<char>::empty(),
    }
}

/// One line of a program: the command, the words, a newline.
pub open spec fn line_text(command: Seq<char>, words: Seq<char>) -> Seq<char> {
    command + words + seq!['\n']
}

/// What can be written as the words of a move.
pub trait AsGVals {
    /// The descriptor names a target.
    spec fn has_target(&self) -> bool;

    /// The words, in the descriptor's order.
    spec fn gvals_text(&self) -> Seq<char>;

    /// Appends the words to `out`, or refuses a descriptor without a target
    /// and leaves `out` as it was.
    fn as_gvals(&self, out: &mut String) -> (r: Result<(), InvalidMove>)
        ensures
            self.has_target() ==> r is Ok && final(out)@ == old(out)@ + self.gvals_text(),
            !self.has_target() ==> r == Err::<(), InvalidMove>(InvalidMove::NoAxis) && final(out)@
                == old(out)@,
    ;
}

/// Appends the word for one value to `out`.
pub fn g_val(out: &mut String, name: &str, ov: Option<i64>)
    ensures
        final(out)@ == old(out)@ + word_text(name@, ov),
{
    if let Some(v) = ov {
        out.append(" ");
        out.append(name);
        push_number(out, v);
        proof {
            reveal_strlit(" ");
        }
        assert(final(out)@ =~= old(out)@ + word_text(name@, ov));
    } else {
        assert(final(out)@ =~= old(out)@ + word_text(name@, ov));
    }
}

impl AsGVals for PosAndFeed {
    open spec fn has_target(&self) -> bool {
        self.x is Some || self.y is Some || self.z is Some || self.a is Some
    }

    open spec fn gvals_text(&self) -> Seq<char> {
        word_text(seq!['X'], self.x) + word_text(seq!['Y'], self.y) + word_text(seq!['Z'], self.z)
            + word_text(seq!['A'], self.a) + word_text(seq!['F'], self.feed)
    }

    fn as_gvals(&self, out: &mut String) -> (r: Result<(), InvalidMove>) {
        if self.x.is_none() && self.y.is_none() && self.z.is_none() && self.a.is_none() {
            return Err(InvalidMove::NoAxis);
        }
        proof {
            reveal_strlit("X");
            reveal_strlit("Y");
            reveal_strlit("Z");
            reveal_strlit("A");
            reveal_strlit("F");
            assert("X"@ =~= seq!['X'] && "Y"@ =~= seq!['Y'] && "Z"@ =~= seq!['Z'] && "A"@ =~= seq![
                'A',
            ] && "F"@ =~= seq!['F']);
        }
        g_val(out, "X", self.x);
        g_val(out, "Y", self.y);
        assert(out@ =~= old(out)@ + (word_text(seq!['X'], self.x) + word_text(seq!['Y'], self.y)));
        g_val(out, "Z", self.z);
        assert(out@ =~= old(out)@ + (word_text(seq!['X'], self.x) + word_text(seq!['Y'], self.y) + word_text(seq!['Z'], self.z)));
        g_val(out, "A", self.a);
        assert(out@ =~= old(out)@ + (word_text(seq!['X'], self.x) + word_text(seq!['Y'], self.y) + word_text(seq!['Z'], self.z) + word_text(seq!['A'], self.a)));
        g_val(out, "F", self.feed);
        assert(final(out)@ =~= old(out)@ + self.gvals_text());
        Ok(())
    }
}

impl AsGVals for PosRadiusAndFeed {
    open spec fn has_target(&self) -> bool {
        true
    }

    open spec fn gvals_text(&self) -> Seq<char> {
        word_text(seq!['X'], self.x) + word_text(seq!['Y'], self.y) + word_text(seq!['R'], self.r)
            + word_text(seq!['F'], self.feed) + word_text(seq!['Z'], self.z)
    }

    fn as_gvals(&self, out: &mut String) -> (r: Result<(), InvalidMove>) {
        proof {
            reveal_strlit("X");
            reveal_strlit("Y");
            reveal_strlit("R");
            reveal_strlit("F");
            reveal_strlit("Z");
            assert("X"@ =~= seq!['X'] && "Y"@ =~= seq!['Y'] && "R"@ =~= seq!['R'] && "F"@ =~= seq![
                'F',
            ] && "Z"@ =~= seq!['Z']);
        }
        g_val(out, "X", self.x);
        g_val(out, "Y", self.y);
        assert(out@ =~= old(out)@ + (word_text(seq!['X'], self.x) + word_text(seq!['Y'], self.y)));
        g_val(out, "R", self.r);
        assert(out@ =~= old(out)@ + (word_text(seq!['X'], self.x) + word_text(seq!['Y'], self.y) + word_text(seq!['R'], self.r)));
        g_val(out, "F", self.feed);
        assert(out@ =~= old(out)@ + (word_text(seq!['X'], self.x) + word_text(seq!['Y'], self.y) + word_text(seq!['R'], self.r) + word_text(seq!['F'], self.feed)));
        g_val(out, "Z", self.z);
        assert(final(out)@ =~= old(out)@ + self.gvals_text());
        Ok(())
    }
}

impl AsGVals for PosXYIJ {
    open spec fn has_target(&self) -> bool {
        true
    }

    open spec fn gvals_text(&self) -> Seq<char> {
        word_text(seq!['X'], self.x) + word_text(seq!['Y'], self.y) + word_text(seq!['I'], self.i)
            + word_text(seq!['J'], self.j) + word_text(seq!['Z'], self.z) + word_text(
            seq!['F'],
            self.feed,
        )
    }

    fn as_gvals(&self, out: &mut String) -> (r: Result<(), InvalidMove>) {
        proof {
            reveal_strlit("X");
            reveal_strlit("Y");
            reveal_strlit("I");
            reveal_strlit("J");
            reveal_strlit("Z");
            reveal_strlit("F");
            assert("X"@ =~= seq!['X'] && "Y"@ =~= seq!['Y'] && "I"@ =~= seq!['I'] && "J"@ =~= seq![
                'J',
            ] && "Z"@ =~= seq!['Z'] && "F"@ =~= seq!['F']);
        }
        g_val(out, "X", self.x);
        g_val(out, "Y", self.y);
        assert(out@ =~= old(out)@ + (word_text(seq!['X'], self.x) + word_text(seq!['Y'], self.y)));
        g_val(out, "I", self.i);
        assert(out@ =~= old(out)@ + (word_text(seq!['X'], self.x) + word_text(seq!['Y'], self.y) + word_text(seq!['I'], self.i)));
        g_val(out, "J", self.j);
        assert(out@ =~= old(out)@ + (word_text(seq!['X'], self.x) + word_text(seq!['Y'], self.y) + word_text(seq!['I'], self.i) + word_text(seq!['J'], self.j)));
        g_val(out, "Z", self.z);
        assert(out@ =~= old(out)@ + (word_text(seq!['X'], self.x) + word_text(seq!['Y'], self.y) + word_text(seq!['I'], self.i) + word_text(seq!['J'], self.j) + word_text(seq!['Z'], self.z)));
        g_val(out, "F", self.feed);
        assert(final(out)@ =~= old(out)@ + self.gvals_text());
        Ok(())
    }
}

/// One line: the command `g`, the words of `p`, a newline.
pub fn g_move_linear<P: AsGVals>(g: &str, p: &P) -> (r: Result<String, InvalidMove>)
    ensures
        match r {
            Ok(s) => p.has_target() && s@ == line_text(g@, p.gvals_text()),
            Err(e) => !p.has_target() && e == InvalidMove::NoAxis,
        },
{
    let mut out = String::from_str(g);
    match p.as_gvals(&mut out) {
        Ok(()) => {
            out.append("\n");
            proof {
                reveal_strlit("\n");
            }
            assert(out@ =~= line_text(g@, p.gvals_text()));
            Ok(out)
        },
        Err(e) => Err(e),
    }
}

/// The command of a rapid move.
pub open spec fn rapid_word() -> Seq<char> {
    seq!['G', '0']
}

/// The command of a feed move.
pub open spec fn feed_word() -> Seq<char> {
    seq!['G', '1']
}

/// What is wrong with `p` as a rapid move, if anything: a feed rate, else a
/// negative z, else no axis at all.
pub open spec fn rapid_fault(p: PosAndFeed) -> Option<InvalidMove> {
    if p.feed is Some {
        Some(InvalidMove::UnexpectedFeed)
    } else if p.z is Some && p.z->0 < 0 {
        Some(InvalidMove::NegativeDepth)
    } else if !p.has_target() {
        Some(InvalidMove::NoAxis)
    } else {
        None
    }
}

/// What is wrong with `p` as a feed move, if anything: no feed rate, else no
/// axis at all.
pub open spec fn feed_fault(p: PosAndFeed) -> Option<InvalidMove> {
    if p.feed is None {
        Some(InvalidMove::MissingFeed)
    } else if !p.has_target() {
        Some(InvalidMove::NoAxis)
    } else {
        None
    }
}

/// The line of the rapid move `p`.
pub fn g0(p: PosAndFeed) -> (r: Result<String, InvalidMove>)
    ensures
        match r {
            Ok(s) => rapid_fault(p) is None && s@ == line_text(rapid_word(), p.gvals_text()),
            Err(e) => rapid_fault(p) == Some(e),
        },
{
    if p.feed.is_some() {
        return Err(InvalidMove::UnexpectedFeed);
    }
    if let Some(z) = p.z {
        if z < 0 {
            return Err(InvalidMove::NegativeDepth);
        }
    }
    proof {
        reveal_strlit("G0");
        assert("G0"@ =~= rapid_word());
    }
    g_move_linear("G0", &p)
}

/// The line of the feed move `p`.
pub fn g1(p: PosAndFeed) -> (r: Result<String, InvalidMove>)
    ensures
        match r {
            Ok(s) => feed_fault(p) is None && s@ == line_text(feed_word(), p.gvals_text()),
            Err(e) => feed_fault(p) == Some(e),
        },
{
    if p.feed.is_none() {
        return Err(InvalidMove::MissingFeed);
    }
    proof {
        reveal_strlit("G1");
        assert("G1"@ =~= feed_word());
    }
    g_move_linear("G1", &p)
}

/// A move that sets x.
pub fn x(to: i64) -> (p: PosAndFeed)
    ensures
        p == (PosAndFeed { x: Some(to), y: None, z: None, a: None, feed: None }),
{
    PosAndFeed { x: Some(to), y: None, z: None, a: None, feed: None }
}

/// A move that sets the rotary axis.
pub fn a(to: i64) -> (p: PosAndFeed)
    ensures
        p == (PosAndFeed { x: None, y: None, z: None, a: Some(to), feed: None }),
{
    PosAndFeed { x: None, y: None, z: None, a: Some(to), feed: None }
}

/// A move that sets x, the rotary axis and a feed rate.
pub fn xaf(x: i64, a: i64, feed: i64) -> (p: PosAndFeed)
    ensures
        p == (PosAndFeed { x: Some(x), y: None, z: None, a: Some(a), feed: Some(feed) }),
{
    PosAndFeed { x: Some(x), y: None, z: None, a: Some(a), feed: Some(feed) }
}

/// A move that sets x and a feed rate.
pub fn xf(x: i64, feed: i64) -> (p: PosAndFeed)
    ensures
        p == (PosAndFeed { x: Some(x), y: None, z: None, a: None, feed: Some(feed) }),
{
    PosAndFeed { x: Some(x), y: None, z: None, a: None, feed: Some(feed) }
}

/// A move that sets y and a feed rate.
pub fn yf(y: i64, feed: i64) -> (p: PosAndFeed)
    ensures
        p == (PosAndFeed { x: None, y: Some(y), z: None, a: None, feed: Some(feed) }),
{
    PosAndFeed { x: None, y: Some(y), z: None, a: None, feed: Some(feed) }
}

/// A move that sets x and y.
pub fn xy(x: i64, y: i64) -> (p: PosAndFeed)
    ensures
        p == (PosAndFeed { x: Some(x), y: Some(y), z: None, a: None, feed: None }),
{
    PosAndFeed { x: Some(x), y: Some(y), z: None, a: None, feed: None }
}

/// A move that sets x, y, z and the rotary axis.
pub fn xyza(x: i64, y: i64, z: i64, a: i64) -> (p: PosAndFeed)
    ensures
        p == (PosAndFeed { x: Some(x), y: Some(y), z: Some(z), a: Some(a), feed: None }),
{
    PosAndFeed { x: Some(x), y: Some(y), z: Some(z), a: Some(a), feed: None }
}

/// A move that sets x, y and z.
pub fn xyz(x: i64, y: i64, z: i64) -> (p: PosAndFeed)
    ensures
        p == (PosAndFeed { x: Some(x), y: Some(y), z: Some(z), a: None, feed: None }),
{
    PosAndFeed { x: Some(x), y: Some(y), z: Some(z), a: None, feed: None }
}

/// A move that sets x, y and a feed rate.
pub fn xyf(x: i64, y: i64, feed: i64) -> (p: PosAndFeed)
    ensures
        p == (PosAndFeed { x: Some(x), y: Some(y), z: None, a: None, feed: Some(feed) }),
{
    PosAndFeed { x: Some(x), y: Some(y), z: None, a: None, feed: Some(feed) }
}

/// A move that sets x, y, z and a feed rate.
pub fn xyzf(x: i64, y: i64, z: i64, feed: i64) -> (p: PosAndFeed)
    ensures
        p == (PosAndFeed { x: Some(x), y: Some(y), z: Some(z), a: None, feed: Some(feed) }),
{
    PosAndFeed { x: Some(x), y: Some(y), z: Some(z), a: None, feed: Some(feed) }
}

/// A move that sets x, z and a feed rate.
pub fn xzf(x: i64, z: i64, feed: i64) -> (p: PosAndFeed)
    ensures
        p == (PosAndFeed { x: Some(x), y: None, z: Some(z), a: None, feed: Some(feed) }),
{
    PosAndFeed { x: Some(x), y: None, z: Some(z), a: None, feed: Some(feed) }
}

/// A move that sets z.
pub fn z(to: i64) -> (p: PosAndFeed)
    ensures
        p == (PosAndFeed { x: None, y: None, z: Some(to), a: None, feed: None }),
{
    PosAndFeed { x: None, y: None, z: Some(to), a: None, feed: None }
}

/// A move that sets z and a feed rate.
pub fn zf(z: i64, feed: i64) -> (p: PosAndFeed)
    ensures
        p == (PosAndFeed { x: None, y: None, z: Some(z), a: None, feed: Some(feed) }),
{
    PosAndFeed { x: None, y: None, z: Some(z), a: None, feed: Some(feed) }
}

/// A move that sets z, the rotary axis and a feed rate.
pub fn zaf(z: i64, a: i64, feed: i64) -> (p: PosAndFeed)
    ensures
        p == (PosAndFeed { x: None, y: None, z: Some(z), a: Some(a), feed: Some(feed) }),
{
    PosAndFeed { x: None, y: None, z: Some(z), a: Some(a), feed: Some(feed) }
}

/// A circle with a feed rate.
pub fn xyrf(x: i64, y: i64, r: i64, feed: i64) -> (p: PosRadiusAndFeed)
    ensures
        p == (PosRadiusAndFeed { x: Some(x), y: Some(y), r: Some(r), feed: Some(feed), z: None }),
{
    PosRadiusAndFeed { x: Some(x), y: Some(y), r: Some(r), feed: Some(feed), z: None }
}

/// A circle.
pub fn xyr(x: i64, y: i64, r: i64) -> (p: PosRadiusAndFeed)
    ensures
        p == (PosRadiusAndFeed { x: Some(x), y: Some(y), r: Some(r), feed: None, z: None }),
{
    PosRadiusAndFeed { x: Some(x), y: Some(y), r: Some(r), feed: None, z: None }
}

/// A circle with a depth and a feed rate.
pub fn xyzrf(x: i64, y: i64, z: i64, r: i64, feed: i64) -> (p: PosRadiusAndFeed)
    ensures
        p == (PosRadiusAndFeed { x: Some(x), y: Some(y), r: Some(r), feed: Some(feed), z: Some(z) }),
{
    PosRadiusAndFeed { x: Some(x), y: Some(y), r: Some(r), feed: Some(feed), z: Some(z) }
}

/// An arc in the plane.
pub fn xyijf(x: i64, y: i64, i: i64, j: i64, feed: i64) -> (p: PosXYIJ)
    ensures
        p == (PosXYIJ { x: Some(x), y: Some(y), i: Some(i), j: Some(j), z: None, feed: Some(feed) }),
{
    PosXYIJ { x: Some(x), y: Some(y), i: Some(i), j: Some(j), z: None, feed: Some(feed) }
}

/// An arc that also moves in z.
pub fn xyzijf(x: i64, y: i64, z: i64, i: i64, j: i64, feed: i64) -> (p: PosXYIJ)
    ensures
        p == (PosXYIJ { x: Some(x), y: Some(y), i: Some(i), j: Some(j), z: Some(z), feed: Some(feed) }),
{
    PosXYIJ { x: Some(x), y: Some(y), i: Some(i), j: Some(j), z: Some(z), feed: Some(feed) }
}

} // verus!
