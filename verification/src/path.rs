//! Walking a polyline and cutting only what lies inside a circle.
//!
//! The walk is a machine with two states, cutter retracted and cutter
//! engaged. Each segment of the path is trimmed; a segment of which something
//! is left is cut, after an approach and a plunge where the cutter was up; a
//! segment of which nothing is left raises a cutter that was down. The cutter
//! starts up and ends up.

use vstd::prelude::*;
use vstd::string::*;
use crate::geometry::{
    boundary_of, segment_of, trim, trim_spec, Circle, LineSegment, Point, TrimResult,
};
use crate::moves::{
    feed_word, g0, g1, line_text, rapid_word, xy, xyf, z, zf, AsGVals, InvalidMove, PosAndFeed,
    PosRadiusAndFeed,
};

verus! {

/// One move of a walk.
#[derive(Clone, Copy, Debug, PartialEq, Eq, Structural)]
pub enum PathStep {
    /// Rapid to the safe height, before anything else.
    Raise,
    /// Rapid, at the safe height, to where a cut begins.
    Approach(Point),
    /// Feed down to the cutting depth.
    Plunge,
    /// Feed, at the cutting depth, to a point.
    Cut(Point),
    /// Feed up to the safe height.
    Retract,
}

/// Two descriptors can be joined by a segment: both give x and y in range,
/// neither has a feed rate, and the first has no z.
pub open spec fn joinable(start: PosAndFeed, end: PosAndFeed) -> bool {
    &&& start.x is Some && start.y is Some
    &&& end.x is Some && end.y is Some
    &&& start.feed is None && end.feed is None
    &&& start.z is None
    &&& segment_of(start, end).in_range()
}

/// Every descriptor of the path can be joined to the next.
pub open spec fn is_path(path: Seq<PosAndFeed>) -> bool {
    forall|i: int| 0 <= i && i + 1 < path.len() ==> joinable(#[trigger] path[i], path[i + 1])
}

/// The descriptor gives a circle to trim against: centre and radius, no feed
/// rate.
pub open spec fn is_boundary(c: PosRadiusAndFeed) -> bool {
    &&& c.x is Some && c.y is Some && c.r is Some
    &&& c.feed is None
    &&& boundary_of(c).wf()
}

/// What trimming leaves of each segment of the path, in path order.
pub open spec fn outcomes(path: Seq<PosAndFeed>, circle: Circle) -> Seq<TrimResult> {
    Seq::new(
        if path.len() < 2 {
            0nat
        } else {
            (path.len() - 1) as nat
        },
        |i: int| trim_spec(segment_of(path[i], path[i + 1]), circle),
    )
}

/// Something of the segment is left to cut.
pub open spec fn kept(outcome: TrimResult) -> bool {
    !(outcome is Eliminated)
}

/// The steps for one segment, with the cutter `engaged` or not before it.
pub open spec fn segment_steps(engaged: bool, outcome: TrimResult) -> Seq<PathStep> {
    match outcome {
        TrimResult::Eliminated => if engaged {
            seq![PathStep::Retract]
        } else {
            Seq::<PathStep>::empty()
        },
        TrimResult::Trimmed(seg) | TrimResult::Unchanged(seg) => if engaged {
            seq![PathStep::Cut(seg.end)]
        } else {
            seq![PathStep::Approach(seg.start), PathStep::Plunge, PathStep::Cut(seg.end)]
        },
    }
}

/// The steps from segment `i` on, with the cutter `engaged` or not before it,
/// and the last retract.
pub open spec fn walk_from(outs: Seq<TrimResult>, i: int, engaged: bool) -> Seq<PathStep>
    decreases outs.len() - i,
{
    if 0 <= i < outs.len() {
        segment_steps(engaged, outs[i]) + walk_from(outs, i + 1, kept(outs[i]))
    } else if engaged {
        seq![PathStep::Retract]
    } else {
        Seq::<PathStep>::empty()
    }
}

/// The steps of a whole walk: none for a path of fewer than two points, else
/// the cutter is raised and the segments are walked.
pub open spec fn path_steps(path: Seq<PosAndFeed>, circle: Circle) -> Seq<PathStep> {
    if path.len() < 2 {
        Seq::<PathStep>::empty()
    } else {
        seq![PathStep::Raise] + walk_from(outcomes(path, circle), 0, false)
    }
}

/// A rapid step, as opposed to a feed step.
pub open spec fn is_rapid(step: PathStep) -> bool {
    step is Raise || step is Approach
}

/// The descriptor of a step.
pub open spec fn step_move(step: PathStep, z_safe: i64, z_cut: i64, feed: i64) -> PosAndFeed {
    match step {
        PathStep::Raise => PosAndFeed { x: None, y: None, z: Some(z_safe), a: None, feed: None },
        PathStep::Approach(p) => PosAndFeed {
            x: Some(p.x),
            y: Some(p.y),
            z: None,
            a: None,
            feed: None,
        },
        PathStep::Plunge => PosAndFeed {
            x: None,
            y: None,
            z: Some(z_cut),
            a: None,
            feed: Some(feed),
        },
        PathStep::Cut(p) => PosAndFeed {
            x: Some(p.x),
            y: Some(p.y),
            z: None,
            a: None,
            feed: Some(feed),
        },
        PathStep::Retract => PosAndFeed {
            x: None,
            y: None,
            z: Some(z_safe),
            a: None,
            feed: Some(feed),
        },
    }
}

/// The line of a step.
pub open spec fn step_text(step: PathStep, z_safe: i64, z_cut: i64, feed: i64) -> Seq<char> {
    line_text(
        if is_rapid(step) {
            rapid_word()
        } else {
            feed_word()
        },
        step_move(step, z_safe, z_cut, feed).gvals_text(),
    )
}

/// The lines of the steps, in order.
pub open spec fn steps_text(steps: Seq<PathStep>, z_safe: i64, z_cut: i64, feed: i64) -> Seq<char>
    decreases steps.len(),
{
    if steps.len() == 0 {
        Seq::<char>::empty()
    } else {
        steps_text(steps.drop_last(), z_safe, z_cut, feed) + step_text(
            steps.last(),
            z_safe,
            z_cut,
            feed,
        )
    }
}

/// Whether two descriptors can be joined by a segment.
pub fn check_joinable(start: &PosAndFeed, end: &PosAndFeed) -> (b: bool)
    ensures
        b == joinable(*start, *end),
{
    match (start.x, start.y, end.x, end.y) {
        (Some(sx), Some(sy), Some(ex), Some(ey)) => {
            let seg = LineSegment { start: Point { x: sx, y: sy }, end: Point { x: ex, y: ey } };
            start.feed.is_none() && end.feed.is_none() && start.z.is_none() && seg.fits()
        },
        _ => false,
    }
}

/// Whether every descriptor of the path can be joined to the next.
pub fn check_path(path: &[PosAndFeed]) -> (b: bool)
    ensures
        b == is_path(path@),
{
    if path.len() < 2 {
        return true;
    }
    let mut i: usize = 0;
    while i < path.len() - 1
        invariant
            path.len() >= 2,
            i <= path.len() - 1,
            forall|j: int| 0 <= j < i ==> joinable(#[trigger] path@[j], path@[j + 1]),
        decreases path.len() - i,
    {
        if !check_joinable(&path[i], &path[i + 1]) {
            return false;
        }
        i += 1;
    }
    true
}

/// Whether the descriptor gives a circle to trim against.
pub fn check_boundary(c: &PosRadiusAndFeed) -> (b: bool)
    ensures
        b == is_boundary(*c),
{
    match (c.x, c.y, c.r) {
        (Some(x), Some(y), Some(r)) => {
            let circle = Circle { center: Point { x, y }, radius: r };
            c.feed.is_none() && circle.fits()
        },
        _ => false,
    }
}

/// Appends the steps for one segment and says whether the cutter is engaged
/// after it.
pub fn walk_segment(engaged: bool, outcome: TrimResult, steps: &mut Vec<PathStep>) -> (now: bool)
    ensures
        final(steps)@ == old(steps)@ + segment_steps(engaged, outcome),
        now == kept(outcome),
{
    match outcome {
        TrimResult::Eliminated => {
            if engaged {
                steps.push(PathStep::Retract);
            }
            assert(final(steps)@ =~= old(steps)@ + segment_steps(engaged, outcome));
            false
        },
        TrimResult::Trimmed(seg) | TrimResult::Unchanged(seg) => {
            if !engaged {
                steps.push(PathStep::Approach(seg.start));
                steps.push(PathStep::Plunge);
            }
            steps.push(PathStep::Cut(seg.end));
            assert(final(steps)@ =~= old(steps)@ + segment_steps(engaged, outcome));
            true
        },
    }
}

/// The steps that cut the part of `path` inside `circle`.
pub fn trimmed_path_steps(path: &[PosAndFeed], circle: &PosRadiusAndFeed) -> (steps: Vec<PathStep>)
    requires
        is_path(path@),
        is_boundary(*circle),
    ensures
        steps@ == path_steps(path@, boundary_of(*circle)),
{
    let mut steps: Vec<PathStep> = Vec::new();
    if path.len() < 2 {
        return steps;
    }
    steps.push(PathStep::Raise);
    let trimmer = Circle::new(circle);
    let ghost outs = outcomes(path@, trimmer);
    let mut engaged = false;
    let mut i: usize = 0;
    while i < path.len() - 1
        invariant
            path.len() >= 2,
            0 <= i <= path.len() - 1,
            is_path(path@),
            trimmer.wf(),
            outs == outcomes(path@, trimmer),
            steps@ + walk_from(outs, i as int, engaged) == path_steps(path@, trimmer),
        decreases path.len() - i,
    {
        assert(joinable(path@[i as int], path@[i + 1]));
        let outcome = trim(LineSegment::new(&path[i], &path[i + 1]), &trimmer);
        assert(outcome == outs[i as int]);
        let ghost before = steps@;
        let ghost was = engaged;
        engaged = walk_segment(engaged, outcome, &mut steps);
        assert(steps@ + walk_from(outs, i + 1, engaged) =~= before + walk_from(
            outs,
            i as int,
            was,
        ));
        i += 1;
    }
    if engaged {
        steps.push(PathStep::Retract);
    }
    steps
}

/// Whether a step cannot be written: only the first rapid can fail, where the
/// safe height is below zero.
pub open spec fn step_fails(step: PathStep, z_safe: i64) -> bool {
    step is Raise && z_safe < 0
}

/// The line of one step.
pub fn step_line(step: PathStep, z_safe: i64, z_cut: i64, feed: i64) -> (r: Result<
    String,
    InvalidMove,
>)
    ensures
        match r {
            Ok(s) => !step_fails(step, z_safe) && s@ == step_text(step, z_safe, z_cut, feed),
            Err(e) => step_fails(step, z_safe) && e == InvalidMove::NegativeDepth,
        },
{
    match step {
        PathStep::Raise => g0(z(z_safe)),
        PathStep::Approach(p) => g0(xy(p.x, p.y)),
        PathStep::Plunge => g1(zf(z_cut, feed)),
        PathStep::Cut(p) => g1(xyf(p.x, p.y, feed)),
        PathStep::Retract => g1(zf(z_safe, feed)),
    }
}

/// The lines of the steps, in order; the first step that cannot be written
/// ends the work.
pub fn render_steps(steps: &Vec<PathStep>, z_safe: i64, z_cut: i64, feed: i64) -> (r: Result<
    String,
    InvalidMove,
>)
    ensures
        match r {
            Ok(s) => (z_safe >= 0 || !steps@.contains(PathStep::Raise)) && s@ == steps_text(
                steps@,
                z_safe,
                z_cut,
                feed,
            ),
            Err(e) => z_safe < 0 && steps@.contains(PathStep::Raise) && e
                == InvalidMove::NegativeDepth,
        },
{
    let mut out = String::new();
    let mut i: usize = 0;
    while i < steps.len()
        invariant
            0 <= i <= steps.len(),
            out@ == steps_text(steps@.take(i as int), z_safe, z_cut, feed),
            forall|j: int| 0 <= j < i ==> !step_fails(#[trigger] steps@[j], z_safe),
        decreases steps.len() - i,
    {
        match step_line(steps[i], z_safe, z_cut, feed) {
            Ok(line) => {
                out.append(line.as_str());
                assert(steps@.take(i + 1).drop_last() =~= steps@.take(i as int));
            },
            Err(e) => {
                assert(steps@[i as int] == PathStep::Raise);
                return Err(e);
            },
        }
        i += 1;
    }
    assert(steps@.take(i as int) =~= steps@);
    Ok(out)
}

/// What a walk returns: the safe height's fault where the path has a segment
/// and the safe height is below zero, else the lines of the walk's steps.
pub open spec fn program(
    z_safe: i64,
    z_cut: i64,
    feed: i64,
    path: Seq<PosAndFeed>,
    circle: Circle,
) -> Result<Seq<char>, InvalidMove> {
    if path.len() >= 2 && z_safe < 0 {
        Err(InvalidMove::NegativeDepth)
    } else {
        Ok(steps_text(path_steps(path, circle), z_safe, z_cut, feed))
    }
}

/// `r` is what the walk returns.
pub open spec fn is_program(
    r: Result<String, InvalidMove>,
    z_safe: i64,
    z_cut: i64,
    feed: i64,
    path: Seq<PosAndFeed>,
    circle: Circle,
) -> bool {
    match r {
        Ok(s) => program(z_safe, z_cut, feed, path, circle) == Ok::<Seq<char>, InvalidMove>(s@),
        Err(e) => program(z_safe, z_cut, feed, path, circle) == Err::<Seq<char>, InvalidMove>(e),
    }
}

/// The program that cuts the part of `path` inside `circle`: at `z_cut`, at the
/// feed rate `feed`, with the cutter at `z_safe` wherever it does not cut.
///
/// A path of fewer than two points gives no move. A safe height below zero
/// cannot be reached by a rapid move, and no program is written.
pub fn trimmed_g1_path(
    z_safe: i64,
    z_cut: i64,
    feed: i64,
    path: &[PosAndFeed],
    circle: &PosRadiusAndFeed,
) -> (r: Result<String, InvalidMove>)
    requires
        is_path(path@),
        is_boundary(*circle),
    ensures
        is_program(r, z_safe, z_cut, feed, path@, boundary_of(*circle)),
{
    let steps = trimmed_path_steps(path, circle);
    proof {
        if path@.len() >= 2 {
            assert(steps@[0] == PathStep::Raise);
        }
    }
    render_steps(&steps, z_safe, z_cut, feed)
}

/// A walk keeps no state: two walks of the same path against the same
/// boundary, with the same heights and feed rate, end alike, and where they
/// give a program it is the same text.
pub proof fn lemma_walk_repeats(
    first: Result<String, InvalidMove>,
    second: Result<String, InvalidMove>,
    z_safe: i64,
    z_cut: i64,
    feed: i64,
    path: Seq<PosAndFeed>,
    circle: Circle,
)
    requires
        is_program(first, z_safe, z_cut, feed, path, circle),
        is_program(second, z_safe, z_cut, feed, path, circle),
    ensures
        first is Ok <==> second is Ok,
        first is Ok ==> first->Ok_0@ == second->Ok_0@,
        first is Err ==> first->Err_0 == second->Err_0,
{
}

/// The number of runs from segment `i` on: of segments that are kept and
/// follow one that is not, the cutter being `engaged` before segment `i` where
/// the one before it was kept.
pub open spec fn runs_from(outs: Seq<TrimResult>, i: int, engaged: bool) -> nat
    decreases outs.len() - i,
{
    if 0 <= i < outs.len() {
        let here: nat = if kept(outs[i]) && !engaged {
            1
        } else {
            0
        };
        here + runs_from(outs, i + 1, kept(outs[i]))
    } else {
        0
    }
}

/// The number of maximal runs of consecutive segments that are kept.
pub open spec fn runs(outs: Seq<TrimResult>) -> nat {
    runs_from(outs, 0, false)
}

/// The number of places where the cutter is retracted and the next step
/// approaches a new cut.
pub open spec fn replunges(steps: Seq<PathStep>) -> nat
    decreases steps.len(),
{
    if steps.len() < 2 {
        0
    } else {
        let here: nat = if steps[0] == PathStep::Retract && steps[1] is Approach {
            1
        } else {
            0
        };
        here + replunges(steps.skip(1))
    }
}

/// Whether `first` ends retracted and `second` begins with an approach.
pub open spec fn joint(first: Seq<PathStep>, second: Seq<PathStep>) -> nat {
    if first.len() > 0 && second.len() > 0 && first.last() == PathStep::Retract
        && second[0] is Approach {
        1
    } else {
        0
    }
}

/// Counting across a joint of two sequences of steps.
proof fn lemma_replunges_concat(first: Seq<PathStep>, second: Seq<PathStep>)
    ensures
        replunges(first + second) == replunges(first) + replunges(second) + joint(first, second),
    decreases first.len(),
{
    let both = first + second;
    if first.len() == 0 {
        assert(both =~= second);
    } else if second.len() == 0 {
        assert(both =~= first);
    } else if first.len() == 1 {
        assert(both.skip(1) =~= second);
    } else {
        assert(both.skip(1) =~= first.skip(1) + second);
        lemma_replunges_concat(first.skip(1), second);
    }
}

/// What the walk from segment `i` on begins with, and how often it retracts
/// to approach again.
proof fn lemma_walk_replunges(outs: Seq<TrimResult>, i: int, engaged: bool)
    requires
        0 <= i,
    ensures
        ({
            let w = walk_from(outs, i, engaged);
            let n = runs_from(outs, i, engaged);
            if engaged {
                w.len() > 0 && !(w[0] is Approach) && replunges(w) == n
            } else {
                &&& w.len() == 0 <==> n == 0
                &&& w.len() > 0 ==> w[0] is Approach
                &&& n > 0 ==> replunges(w) == n - 1
            }
        }),
    decreases outs.len() - i,
{
    if i < outs.len() {
        let first = segment_steps(engaged, outs[i]);
        let rest = walk_from(outs, i + 1, kept(outs[i]));
        lemma_walk_replunges(outs, i + 1, kept(outs[i]));
        lemma_replunges_concat(first, rest);
        if kept(outs[i]) && !engaged {
            assert(first.skip(1).skip(1).len() == 1);
            assert(replunges(first.skip(1).skip(1)) == 0);
            assert(replunges(first.skip(1)) == 0);
            assert(replunges(first) == 0);
        }
    }
}

/// Between its first plunge and its last retract a walk retracts the cutter
/// and approaches a new cut once for every run of kept segments after the
/// first: no retract is missing and none is redundant.
pub proof fn lemma_one_replunge_between_runs(path: Seq<PosAndFeed>, circle: Circle)
    ensures
        ({
            let n = runs(outcomes(path, circle));
            replunges(path_steps(path, circle)) == if n == 0 {
                0
            } else {
                n - 1
            }
        }),
{
    let outs = outcomes(path, circle);
    if path.len() >= 2 {
        lemma_walk_replunges(outs, 0, false);
        lemma_replunges_concat(seq![PathStep::Raise], walk_from(outs, 0, false));
    }
}

/// How often `step` occurs among `steps`.
pub open spec fn occurrences(steps: Seq<PathStep>, step: PathStep) -> nat
    decreases steps.len(),
{
    if steps.len() == 0 {
        0
    } else {
        let here: nat = if steps.last() == step {
            1
        } else {
            0
        };
        occurrences(steps.drop_last(), step) + here
    }
}

/// Counting in two sequences of steps, one after the other.
proof fn lemma_occurrences_concat(first: Seq<PathStep>, second: Seq<PathStep>, step: PathStep)
    ensures
        occurrences(first + second, step) == occurrences(first, step) + occurrences(second, step),
    decreases second.len(),
{
    if second.len() == 0 {
        assert(first + second =~= first);
    } else {
        assert((first + second).drop_last() =~= first + second.drop_last());
        lemma_occurrences_concat(first, second.drop_last(), step);
    }
}

/// Counting in the steps of one segment.
proof fn lemma_segment_occurrences(engaged: bool, outcome: TrimResult)
    ensures
        occurrences(segment_steps(engaged, outcome), PathStep::Plunge) == if kept(outcome)
            && !engaged {
            1nat
        } else {
            0nat
        },
        occurrences(segment_steps(engaged, outcome), PathStep::Retract) == if !kept(outcome)
            && engaged {
            1nat
        } else {
            0nat
        },
{
    reveal_with_fuel(occurrences, 4);
    let steps = segment_steps(engaged, outcome);
    if steps.len() == 3 {
        let two = steps.drop_last();
        let one = two.drop_last();
        assert(one.drop_last().len() == 0);
    } else if steps.len() == 1 {
        assert(steps.drop_last().len() == 0);
    }
}

/// From segment `i` on the walk plunges once for every run, and retracts
/// once for every run and once more where the cutter was down before.
proof fn lemma_walk_occurrences(outs: Seq<TrimResult>, i: int, engaged: bool)
    requires
        0 <= i,
    ensures
        occurrences(walk_from(outs, i, engaged), PathStep::Plunge) == runs_from(outs, i, engaged),
        occurrences(walk_from(outs, i, engaged), PathStep::Retract) == runs_from(outs, i, engaged)
            + if engaged {
            1nat
        } else {
            0nat
        },
    decreases outs.len() - i,
{
    reveal_with_fuel(occurrences, 2);
    let w = walk_from(outs, i, engaged);
    if i < outs.len() {
        let first = segment_steps(engaged, outs[i]);
        let rest = walk_from(outs, i + 1, kept(outs[i]));
        lemma_walk_occurrences(outs, i + 1, kept(outs[i]));
        lemma_segment_occurrences(engaged, outs[i]);
        lemma_occurrences_concat(first, rest, PathStep::Plunge);
        lemma_occurrences_concat(first, rest, PathStep::Retract);
    } else if engaged {
        assert(w.drop_last().len() == 0);
    }
}

/// A walk lowers the cutter once for every run of kept segments and raises
/// it once after every run.
pub proof fn lemma_one_plunge_and_retract_per_run(path: Seq<PosAndFeed>, circle: Circle)
    ensures
        occurrences(path_steps(path, circle), PathStep::Plunge) == runs(outcomes(path, circle)),
        occurrences(path_steps(path, circle), PathStep::Retract) == runs(outcomes(path, circle)),
{
    reveal_with_fuel(occurrences, 2);
    let outs = outcomes(path, circle);
    if path.len() >= 2 {
        let first = seq![PathStep::Raise];
        assert(first.drop_last().len() == 0);
        lemma_walk_occurrences(outs, 0, false);
        lemma_occurrences_concat(first, walk_from(outs, 0, false), PathStep::Plunge);
        lemma_occurrences_concat(first, walk_from(outs, 0, false), PathStep::Retract);
    }
}

} // verus!
