//! Step sequence of the polyline stroke tessellator.
//!
//! A stroke expands an ordered point list into triangles: one quad of two
//! triangles per segment, a round fan of one triangle per arc step at
//! every join and cap. Which quads, joins and caps are emitted, in what
//! order, and over which points is a pure function of the point count
//! and the closed flag; this module computes that step sequence and
//! proves the closed-form triangle counts it guarantees. The caller
//! walks the sequence and does the floating-point vertex math for each
//! step.

use vstd::prelude::*;

verus! {

/// One unit of work in a stroke expansion. All indices point into the
/// polyline's point list.
#[derive(PartialEq, Eq, Structural, Debug, Clone, Copy)]
pub enum StrokeStep {
    /// Expand the segment from point `from` to point `to` into a quad of
    /// two triangles.
    Quad { from: usize, to: usize },
    /// Fill the corner at point `center` with a round fan, between the
    /// segment arriving there (`in_from` to `in_to`) and the segment
    /// leaving it (`out_from` to `out_to`).
    Join { center: usize, in_from: usize, in_to: usize, out_from: usize, out_to: usize },
    /// Close the free end at point `center` with a round half-turn fan;
    /// the end's segment runs from `dir_from` to `dir_to`, and `at_start`
    /// tells which of the two ends this is, so the fan bulges away from
    /// the line.
    Cap { center: usize, dir_from: usize, dir_to: usize, at_start: bool },
}

/// Index of the point that follows point `i`, wrapping past the last
/// point back to the first.
pub open spec fn spec_next_index(n: int, i: int) -> int {
    if i + 1 < n {
        i + 1
    } else {
        0
    }
}

/// How many segments a stroke over `n` points expands: every consecutive
/// pair, plus the wrap-around segment when the polyline is closed.
pub open spec fn spec_line_count(n: int, closed: bool) -> int {
    if closed {
        n
    } else {
        n - 1
    }
}

/// Whether a round join directly follows segment `i`'s quad. Every
/// interior vertex gets one; the wrap-around vertex of a closed polyline
/// gets its join after the last quad instead.
pub open spec fn spec_has_join_after(n: int, closed: bool, i: int) -> bool {
    i < n - 2 || (closed && i < n - 1)
}

/// The join emitted right after segment `i`'s quad: centered on the
/// vertex that segment `i` and the following segment share.
pub open spec fn spec_mid_join(n: int, i: int) -> StrokeStep {
    let c = spec_next_index(n, i);
    StrokeStep::Join {
        center: c as usize,
        in_from: i as usize,
        in_to: c as usize,
        out_from: c as usize,
        out_to: spec_next_index(n, c) as usize,
    }
}

/// The steps segment `i` contributes: its quad, then its join when one
/// directly follows.
pub open spec fn spec_edge_steps(n: int, closed: bool, i: int) -> Seq<StrokeStep> {
    let quad = StrokeStep::Quad { from: i as usize, to: spec_next_index(n, i) as usize };
    if spec_has_join_after(n, closed, i) {
        seq![quad, spec_mid_join(n, i)]
    } else {
        seq![quad]
    }
}

/// The steps of the first `upto` segments, in emission order.
pub open spec fn spec_plan_body(n: int, closed: bool, upto: int) -> Seq<StrokeStep>
    decreases upto,
{
    if upto <= 0 {
        Seq::empty()
    } else {
        spec_plan_body(n, closed, upto - 1) + spec_edge_steps(n, closed, upto - 1)
    }
}

/// The steps that finish the stroke: the wrap-around join of a closed
/// polyline, or the two round caps of an open one.
pub open spec fn spec_tail_steps(n: int, closed: bool) -> Seq<StrokeStep> {
    if closed {
        seq![
            StrokeStep::Join {
                center: 0usize,
                in_from: (n - 1) as usize,
                in_to: 0usize,
                out_from: 0usize,
                out_to: 1usize,
            },
        ]
    } else {
        seq![
            StrokeStep::Cap { center: 0usize, dir_from: 0usize, dir_to: 1usize, at_start: true },
            StrokeStep::Cap {
                center: (n - 1) as usize,
                dir_from: (n - 2) as usize,
                dir_to: (n - 1) as usize,
                at_start: false,
            },
        ]
    }
}

/// The full step sequence of a stroke over `n` points. Fewer than two
/// points expand to nothing.
pub open spec fn spec_stroke_plan(n: int, closed: bool) -> Seq<StrokeStep> {
    if n < 2 {
        Seq::empty()
    } else {
        spec_plan_body(n, closed, spec_line_count(n, closed)) + spec_tail_steps(n, closed)
    }
}

/// Computes the step sequence of a stroke over `point_count` points, in
/// the exact order the steps are to be emitted.
pub fn stroke_plan(point_count: usize, closed: bool) -> (plan: Vec<StrokeStep>)
    ensures
        plan@ == spec_stroke_plan(point_count as int, closed),
{
    let mut plan: Vec<StrokeStep> = Vec::new();
    if point_count < 2 {
        return plan;
    }
    let n = point_count;
    let line_count = if closed {
        n
    } else {
        n - 1
    };
    let mut i: usize = 0;
    while i < line_count
        invariant
            2 <= n <= usize::MAX,
            line_count == spec_line_count(n as int, closed),
            i <= line_count,
            plan@ == spec_plan_body(n as int, closed, i as int),
        decreases line_count - i,
    {
        let to = if i + 1 < n {
            i + 1
        } else {
            0
        };
        plan.push(StrokeStep::Quad { from: i, to });
        if i < n - 2 || (closed && i < n - 1) {
            let out_to = if to + 1 < n {
                to + 1
            } else {
                0
            };
            plan.push(StrokeStep::Join { center: to, in_from: i, in_to: to, out_from: to, out_to });
        }
        proof {
            assert(plan@ =~= spec_plan_body(n as int, closed, i as int + 1));
        }
        i = i + 1;
    }
    if closed {
        plan.push(StrokeStep::Join { center: 0, in_from: n - 1, in_to: 0, out_from: 0, out_to: 1 });
    } else {
        plan.push(StrokeStep::Cap { center: 0, dir_from: 0, dir_to: 1, at_start: true });
        plan.push(StrokeStep::Cap { center: n - 1, dir_from: n - 2, dir_to: n - 1, at_start: false });
    }
    proof {
        assert(plan@ =~= spec_stroke_plan(n as int, closed));
    }
    plan
}

/// Triangles one step expands to: a quad is two triangles, a join or a
/// cap fans out one triangle per arc segment.
pub open spec fn spec_step_triangles(step: StrokeStep, arc_segments: int) -> int {
    match step {
        StrokeStep::Quad { .. } => 2,
        StrokeStep::Join { .. } => arc_segments,
        StrokeStep::Cap { .. } => arc_segments,
    }
}

/// Total triangles a step sequence expands to.
pub open spec fn spec_plan_triangles(plan: Seq<StrokeStep>, arc_segments: int) -> int
    decreases plan.len(),
{
    if plan.len() == 0 {
        0
    } else {
        spec_plan_triangles(plan.drop_last(), arc_segments)
            + spec_step_triangles(plan.last(), arc_segments)
    }
}

/// Closed-form triangle count of a stroke: one quad per segment, one arc
/// fan per join, and for an open stroke one arc fan per cap. Open and
/// closed alike this comes to one fan per point.
pub open spec fn spec_triangle_count(n: int, arc_segments: int, closed: bool) -> int {
    if n < 2 {
        0
    } else if closed {
        2 * n + n * arc_segments
    } else {
        2 * (n - 1) + n * arc_segments
    }
}

proof fn lemma_plan_triangles_push(s: Seq<StrokeStep>, x: StrokeStep, arc_segments: int)
    ensures
        spec_plan_triangles(s.push(x), arc_segments) == spec_plan_triangles(s, arc_segments)
            + spec_step_triangles(x, arc_segments),
{
    assert(s.push(x).drop_last() =~= s);
    assert(s.push(x).last() == x);
}

/// Segments whose quad a join directly follows: all of them up to this
/// bound.
pub open spec fn spec_join_bound(n: int, closed: bool) -> int {
    if closed {
        n - 1
    } else {
        n - 2
    }
}

proof fn lemma_plan_body_triangles(n: int, closed: bool, upto: int, arc_segments: int)
    requires
        n >= 2,
        upto >= 0,
    ensures
        spec_plan_triangles(spec_plan_body(n, closed, upto), arc_segments) == 2 * upto + (
        if upto <= spec_join_bound(n, closed) {
            upto
        } else {
            spec_join_bound(n, closed)
        }) * arc_segments,
    decreases upto,
{
    if upto > 0 {
        lemma_plan_body_triangles(n, closed, upto - 1, arc_segments);
        let prev = spec_plan_body(n, closed, upto - 1);
        let quad = StrokeStep::Quad {
            from: (upto - 1) as usize,
            to: spec_next_index(n, upto - 1) as usize,
        };
        if spec_has_join_after(n, closed, upto - 1) {
            let join = spec_mid_join(n, upto - 1);
            assert(spec_plan_body(n, closed, upto) =~= prev.push(quad).push(join));
            lemma_plan_triangles_push(prev, quad, arc_segments);
            lemma_plan_triangles_push(prev.push(quad), join, arc_segments);
            assert((upto - 1) * arc_segments + arc_segments == upto * arc_segments)
                by (nonlinear_arith);
        } else {
            assert(spec_plan_body(n, closed, upto) =~= prev.push(quad));
            lemma_plan_triangles_push(prev, quad, arc_segments);
        }
    }
}

/// The step sequence of a stroke expands to exactly the closed-form
/// triangle count.
pub proof fn lemma_stroke_plan_triangles(n: int, arc_segments: int, closed: bool)
    ensures
        spec_plan_triangles(spec_stroke_plan(n, closed), arc_segments) == spec_triangle_count(
            n,
            arc_segments,
            closed,
        ),
{
    if n >= 2 {
        let lc = spec_line_count(n, closed);
        lemma_plan_body_triangles(n, closed, lc, arc_segments);
        let body = spec_plan_body(n, closed, lc);
        if closed {
            let join = StrokeStep::Join {
                center: 0usize,
                in_from: (n - 1) as usize,
                in_to: 0usize,
                out_from: 0usize,
                out_to: 1usize,
            };
            assert(spec_stroke_plan(n, closed) =~= body.push(join));
            lemma_plan_triangles_push(body, join, arc_segments);
            assert((n - 1) * arc_segments + arc_segments == n * arc_segments)
                by (nonlinear_arith);
        } else {
            let cap_start = StrokeStep::Cap {
                center: 0usize,
                dir_from: 0usize,
                dir_to: 1usize,
                at_start: true,
            };
            let cap_end = StrokeStep::Cap {
                center: (n - 1) as usize,
                dir_from: (n - 2) as usize,
                dir_to: (n - 1) as usize,
                at_start: false,
            };
            assert(spec_stroke_plan(n, closed) =~= body.push(cap_start).push(cap_end));
            lemma_plan_triangles_push(body, cap_start, arc_segments);
            lemma_plan_triangles_push(body.push(cap_start), cap_end, arc_segments);
            assert((n - 2) * arc_segments + arc_segments + arc_segments == n * arc_segments)
                by (nonlinear_arith);
        }
    }
}

/// An open stroke of exactly two points expands to one quad and two
/// caps: `2 + 2 * arc_segments` triangles, with no joins.
pub proof fn lemma_open_pair_triangles(arc_segments: int)
    ensures
        spec_plan_triangles(spec_stroke_plan(2, false), arc_segments) == 2 + 2 * arc_segments,
{
    lemma_stroke_plan_triangles(2, arc_segments, false);
}

/// A closed polyline of at least three points expands to one quad per
/// edge and one join per vertex, and no caps: `2 * n + n * arc_segments`
/// triangles.
pub proof fn lemma_closed_polyline_triangles(n: int, arc_segments: int)
    requires
        n >= 3,
    ensures
        spec_plan_triangles(spec_stroke_plan(n, true), arc_segments) == 2 * n + n * arc_segments,
{
    lemma_stroke_plan_triangles(n, arc_segments, true);
}

/// Computes the exact number of triangles a stroke over `point_count`
/// points expands to, or `None` when that count does not fit in `usize`.
pub fn triangle_count(point_count: usize, arc_segments: usize, closed: bool) -> (count: Option<
    usize,
>)
    ensures
        match count {
            Some(c) => c as int == spec_triangle_count(
                point_count as int,
                arc_segments as int,
                closed,
            ),
            None => spec_triangle_count(point_count as int, arc_segments as int, closed)
                > usize::MAX,
        },
{
    if point_count < 2 {
        return Some(0);
    }
    let n: u128 = point_count as u128;
    let arc: u128 = arc_segments as u128;
    let quads: u128 = if closed {
        n
    } else {
        n - 1
    };
    proof {
        assert(n * arc <= 0xFFFF_FFFF_FFFF_FFFF * 0xFFFF_FFFF_FFFF_FFFF) by (nonlinear_arith)
            requires
                n <= 0xFFFF_FFFF_FFFF_FFFF,
                arc <= 0xFFFF_FFFF_FFFF_FFFF,
        ;
    }
    let total: u128 = 2 * quads + n * arc;
    if total <= usize::MAX as u128 {
        Some(total as usize)
    } else {
        None
    }
}

/// How the raw signed angle between a join's start and end normals is
/// folded so the arc sweeps the short way around the outside of the
/// corner: a left turn whose raw angle came out negative gains one full
/// turn, a right turn whose raw angle came out positive loses one, and
/// nothing else changes.
pub open spec fn spec_sweep_correction(
    turn_left: bool,
    raw_negative: bool,
    raw_positive: bool,
) -> int {
    if turn_left && raw_negative {
        1
    } else if !turn_left && raw_positive {
        -1
    } else {
        0
    }
}

/// Decides how many full turns to add to a join's raw sweep angle:
/// `turn_left` is the sign of the cross product of the incoming and
/// outgoing segment directions, and the two flags give the sign of the
/// raw angle between the arc's start and end normals.
pub fn sweep_correction(turn_left: bool, raw_negative: bool, raw_positive: bool) -> (full_turns:
    i8)
    ensures
        full_turns as int == spec_sweep_correction(turn_left, raw_negative, raw_positive),
{
    if turn_left && raw_negative {
        1
    } else if !turn_left && raw_positive {
        -1
    } else {
        0
    }
}

/// The corrected sweep always turns with the join. Measured in any whole
/// number of units per full turn, with the raw angle strictly inside one
/// turn either way: a left turn sweeps a non-negative angle, a right
/// turn a non-positive one, and neither sweeps more than one full turn.
pub proof fn lemma_sweep_sign_matches_turn(turn_left: bool, raw: int, full_turn: int)
    requires
        full_turn > 0,
        -full_turn < raw < full_turn,
    ensures
        ({
            let sweep = raw + spec_sweep_correction(turn_left, raw < 0, raw > 0) * full_turn;
            &&& turn_left ==> sweep >= 0
            &&& !turn_left ==> sweep <= 0
            &&& -full_turn <= sweep <= full_turn
        }),
{
}

/// The quads a plain segment list expands to: points are taken two at a
/// time, each disjoint pair becoming one quad, and a trailing odd point
/// is ignored.
pub open spec fn spec_segment_plan(n: int) -> Seq<StrokeStep> {
    Seq::new(
        (n / 2) as nat,
        |k: int| StrokeStep::Quad { from: (2 * k) as usize, to: (2 * k + 1) as usize },
    )
}

/// Computes the quad sequence of a plain segment list, where consecutive
/// point pairs are free-standing segments rather than a connected
/// polyline.
pub fn segment_plan(point_count: usize) -> (plan: Vec<StrokeStep>)
    ensures
        plan@ == spec_segment_plan(point_count as int),
{
    let mut plan: Vec<StrokeStep> = Vec::new();
    let pairs = point_count / 2;
    let mut k: usize = 0;
    while k < pairs
        invariant
            pairs == point_count as int / 2,
            pairs <= usize::MAX,
            k <= pairs,
            plan@.len() == k,
            forall|j: int|
                0 <= j < k ==> plan@[j] == (StrokeStep::Quad {
                    from: (2 * j) as usize,
                    to: (2 * j + 1) as usize,
                }),
        decreases pairs - k,
    {
        plan.push(StrokeStep::Quad { from: 2 * k, to: 2 * k + 1 });
        k = k + 1;
    }
    proof {
        assert(plan@ =~= spec_segment_plan(point_count as int));
    }
    plan
}

/// A plain segment list of `n` points expands to exactly two triangles
/// per point pair, joins and caps playing no part.
pub proof fn lemma_segment_plan_triangles(n: int, arc_segments: int)
    requires
        n >= 0,
    ensures
        spec_plan_triangles(spec_segment_plan(n), arc_segments) == 2 * (n / 2),
    decreases n,
{
    if n < 2 {
        assert(spec_segment_plan(n) =~= Seq::empty());
    } else {
        lemma_segment_plan_triangles(n - 2, arc_segments);
        let s = spec_segment_plan(n);
        assert(s.drop_last() =~= spec_segment_plan(n - 2));
    }
}

} // verus!
