//! Arc moves, and the full circle and the helix that are made of them.

use vstd::prelude::*;
use vstd::string::*;
use crate::moves::{
    feed_word, g0, g1, g_move_linear, line_text, rapid_word, xyijf, xyz, xyzf, xyzijf, zf, AsGVals,
    InvalidMove, PosAndFeed, PosRadiusAndFeed, PosXYIJ,
};

verus! {

/// The command of a clockwise arc.
pub open spec fn clockwise_word() -> Seq<char> {
    seq!['G', '2']
}

/// The command of a counter-clockwise arc.
pub open spec fn counter_clockwise_word() -> Seq<char> {
    seq!['G', '3']
}

/// The arc has its end point, its centre offset and its feed rate.
pub open spec fn is_arc(p: PosXYIJ) -> bool {
    p.x is Some && p.y is Some && p.i is Some && p.j is Some && p.feed is Some
}

/// The line of the clockwise arc `p`: x and y are its end point, i and j the
/// offset from its start to its centre.
pub fn g2(p: PosXYIJ) -> (r: Result<String, InvalidMove>)
    ensures
        match r {
            Ok(s) => is_arc(p) && s@ == line_text(clockwise_word(), p.gvals_text()),
            Err(e) => !is_arc(p) && e == InvalidMove::IncompleteArc,
        },
{
    if p.x.is_none() || p.y.is_none() || p.i.is_none() || p.j.is_none() || p.feed.is_none() {
        return Err(InvalidMove::IncompleteArc);
    }
    proof {
        reveal_strlit("G2");
        assert("G2"@ =~= clockwise_word());
    }
    g_move_linear("G2", &p)
}

/// The line of the counter-clockwise arc `p`: x and y are its end point, i
/// and j the offset from its start to its centre.
pub fn g3(p: PosXYIJ) -> (r: Result<String, InvalidMove>)
    ensures
        match r {
            Ok(s) => is_arc(p) && s@ == line_text(counter_clockwise_word(), p.gvals_text()),
            Err(e) => !is_arc(p) && e == InvalidMove::IncompleteArc,
        },
{
    if p.x.is_none() || p.y.is_none() || p.i.is_none() || p.j.is_none() || p.feed.is_none() {
        return Err(InvalidMove::IncompleteArc);
    }
    proof {
        reveal_strlit("G3");
        assert("G3"@ =~= counter_clockwise_word());
    }
    g_move_linear("G3", &p)
}

/// The descriptor gives a circle to cut: centre, radius, depth and feed rate,
/// with its leftmost and rightmost points on the number line of `i64`.
pub open spec fn is_cut_circle(c: PosRadiusAndFeed) -> bool {
    &&& c.x is Some && c.y is Some && c.r is Some && c.feed is Some && c.z is Some
    &&& i64::MIN <= c.x->0 - c.r->0 <= i64::MAX
    &&& i64::MIN <= c.x->0 + c.r->0 <= i64::MAX
}

/// Whether the descriptor gives a circle to cut.
pub fn check_cut_circle(c: &PosRadiusAndFeed) -> (b: bool)
    ensures
        b == is_cut_circle(*c),
{
    match (c.x, c.y, c.r, c.feed, c.z) {
        (Some(x), Some(_), Some(r), Some(_), Some(_)) => x.checked_add(r).is_some()
            && x.checked_sub(r).is_some(),
        _ => false,
    }
}

/// The lines of a full circle: rapid to its rightmost point at `safe_z`, feed
/// down to its depth, one arc, feed up.
pub open spec fn circle_text(c: PosRadiusAndFeed, safe_z: i64) -> Seq<char> {
    let x0 = (c.x->0 + c.r->0) as i64;
    let x1 = (c.x->0 - c.r->0) as i64;
    let y = c.y->0;
    let feed = c.feed->0;
    line_text(
        rapid_word(),
        (PosAndFeed { x: Some(x0), y: Some(y), z: Some(safe_z), a: None, feed: None }).gvals_text(),
    ) + line_text(
        feed_word(),
        (PosAndFeed { x: Some(x0), y: Some(y), z: c.z, a: None, feed: Some(feed) }).gvals_text(),
    ) + line_text(
        clockwise_word(),
        (PosXYIJ {
            x: Some(x0),
            y: Some(y),
            i: Some(x1),
            j: Some(y),
            z: None,
            feed: Some(feed),
        }).gvals_text(),
    ) + line_text(
        feed_word(),
        (PosAndFeed { x: None, y: None, z: Some(safe_z), a: None, feed: Some(feed) }).gvals_text(),
    )
}

/// The lines of a helix: rapid to the circle's rightmost point at `safe_z`,
/// feed down to `helix_start_z`, one arc that sinks to the circle's depth, one
/// arc at that depth, feed up.
pub open spec fn helix_text(c: PosRadiusAndFeed, safe_z: i64, helix_start_z: i64) -> Seq<char> {
    let x0 = (c.x->0 + c.r->0) as i64;
    let x1 = (c.x->0 - c.r->0) as i64;
    let y = c.y->0;
    let feed = c.feed->0;
    line_text(
        rapid_word(),
        (PosAndFeed { x: Some(x0), y: Some(y), z: Some(safe_z), a: None, feed: None }).gvals_text(),
    ) + line_text(
        feed_word(),
        (PosAndFeed {
            x: Some(x0),
            y: Some(y),
            z: Some(helix_start_z),
            a: None,
            feed: Some(feed),
        }).gvals_text(),
    ) + line_text(
        clockwise_word(),
        (PosXYIJ {
            x: Some(x0),
            y: Some(y),
            i: Some(x1),
            j: Some(y),
            z: c.z,
            feed: Some(feed),
        }).gvals_text(),
    ) + line_text(
        feed_word(),
        (PosAndFeed { x: Some(x0), y: Some(y), z: c.z, a: None, feed: Some(feed) }).gvals_text(),
    ) + line_text(
        clockwise_word(),
        (PosXYIJ {
            x: Some(x0),
            y: Some(y),
            i: Some(x1),
            j: Some(y),
            z: None,
            feed: Some(feed),
        }).gvals_text(),
    ) + line_text(
        feed_word(),
        (PosAndFeed { x: None, y: None, z: Some(safe_z), a: None, feed: Some(feed) }).gvals_text(),
    )
}

/// Appends a line that was written, or hands on why it was not.
fn push_line(out: &mut String, line: Result<String, InvalidMove>) -> (r: Result<(), InvalidMove>)
    ensures
        match line {
            Ok(s) => r is Ok && final(out)@ == old(out)@ + s@,
            Err(e) => r == Err::<(), InvalidMove>(e) && final(out)@ == old(out)@,
        },
{
    match line {
        Ok(s) => {
            out.append(s.as_str());
            Ok(())
        },
        Err(e) => Err(e),
    }
}

/// The program of a full circle at the depth of `center`, the cutter at
/// `safe_z` before and after. A `safe_z` below zero cannot be reached by a
/// rapid move, and no program is written.
pub fn g2_circle(center: PosRadiusAndFeed, safe_z: i64) -> (r: Result<String, InvalidMove>)
    requires
        is_cut_circle(center),
    ensures
        match r {
            Ok(s) => safe_z >= 0 && s@ == circle_text(center, safe_z),
            Err(e) => safe_z < 0 && e == InvalidMove::NegativeDepth,
        },
{
    let x0 = center.x.unwrap() + center.r.unwrap();
    let x1 = center.x.unwrap() - center.r.unwrap();
    let y = center.y.unwrap();
    let feed = center.feed.unwrap();
    let mut out = String::new();
    match push_line(&mut out, g0(xyz(x0, y, safe_z))) {
        Err(e) => return Err(e),
        Ok(()) => {},
    }
    match push_line(&mut out, g1(xyzf(x0, y, center.z.unwrap(), feed))) {
        Err(e) => return Err(e),
        Ok(()) => {},
    }
    match push_line(&mut out, g2(xyijf(x0, y, x1, y, feed))) {
        Err(e) => return Err(e),
        Ok(()) => {},
    }
    match push_line(&mut out, g1(zf(safe_z, feed))) {
        Err(e) => return Err(e),
        Ok(()) => {},
    }
    assert(out@ =~= circle_text(center, safe_z));
    Ok(out)
}

/// The program of a helix down to the depth of `center`, the cutter at
/// `safe_z` before and after. A `safe_z` below zero cannot be reached by a
/// rapid move, and no program is written.
pub fn g2_helix(center: PosRadiusAndFeed, safe_z: i64, helix_start_z: i64) -> (r: Result<
    String,
    InvalidMove,
>)
    requires
        is_cut_circle(center),
    ensures
        match r {
            Ok(s) => safe_z >= 0 && s@ == helix_text(center, safe_z, helix_start_z),
            Err(e) => safe_z < 0 && e == InvalidMove::NegativeDepth,
        },
{
    let x0 = center.x.unwrap() + center.r.unwrap();
    let x1 = center.x.unwrap() - center.r.unwrap();
    let y = center.y.unwrap();
    let feed = center.feed.unwrap();
    let mut out = String::new();
    match push_line(&mut out, g0(xyz(x0, y, safe_z))) {
        Err(e) => return Err(e),
        Ok(()) => {},
    }
    match push_line(&mut out, g1(xyzf(x0, y, helix_start_z, feed))) {
        Err(e) => return Err(e),
        Ok(()) => {},
    }
    match push_line(&mut out, g2(xyzijf(x0, y, center.z.unwrap(), x1, y, feed))) {
        Err(e) => return Err(e),
        Ok(()) => {},
    }
    match push_line(&mut out, g1(xyzf(x0, y, center.z.unwrap(), feed))) {
        Err(e) => return Err(e),
        Ok(()) => {},
    }
    match push_line(&mut out, g2(xyijf(x0, y, x1, y, feed))) {
        Err(e) => return Err(e),
        Ok(()) => {},
    }
    match push_line(&mut out, g1(zf(safe_z, feed))) {
        Err(e) => return Err(e),
        Ok(()) => {},
    }
    assert(out@ =~= helix_text(center, safe_z, helix_start_z));
    Ok(out)
}

} // verus!
