//! The frame-exact parts of compiling a shot into guidance: its temporal
//! phases, the phrases and prohibitions it carries, and its place on the
//! edit.
use vstd::prelude::*;

use crate::model::{Beat, CameraOperation, ContinuityBridge, Easing, EditClip, Frame, FrameRange, Prohibition, Scene,
    Shot, ShotPhrase, ShotPurpose, ShotRelation, ShotRelationKind, Take, TargetRef, TimedCameraOperation, TransitionSpec};
use crate::order::{edit_order, edit_order_of};
use crate::solve::{solve_error_text, SolveError};
use crate::timeline::{shot_order, shots_in_edit_order};
use crate::order::{increasing, lemma_increasing_unique, strict_total_order};
use crate::text::{decimal, owned, push_decimal, push_str, string_views};

verus! {

broadcast use vstd::seq_lib::group_seq_properties;

/// What the camera does during a phase.
#[derive(Debug, Clone, Copy, PartialEq, Eq, Structural)]
pub enum PhaseKind {
    Hold,
    Motion,
    Focus,
    Reveal,
    Settle,
    Mixed,
}

pub open spec fn phase_kind_text(kind: PhaseKind) -> Seq<char> {
    match kind {
        PhaseKind::Hold => "hold"@,
        PhaseKind::Motion => "motion"@,
        PhaseKind::Focus => "focus"@,
        PhaseKind::Reveal => "reveal"@,
        PhaseKind::Settle => "settle"@,
        PhaseKind::Mixed => "mixed"@,
    }
}

/// The lower-case name used in phase ids.
pub fn phase_kind_name(kind: PhaseKind) -> (s: &'static str)
    ensures
        s@ == phase_kind_text(kind),
{
    match kind {
        PhaseKind::Hold => "hold",
        PhaseKind::Motion => "motion",
        PhaseKind::Focus => "focus",
        PhaseKind::Reveal => "reveal",
        PhaseKind::Settle => "settle",
        PhaseKind::Mixed => "mixed",
    }
}

/// One temporal phase of a shot: a shot-local range, the same range on the
/// edit, the camera operations active in it and the beats it overlaps.
#[derive(Debug, Clone)]
pub struct CompiledPhase {
    pub id: String,
    pub local_range: FrameRange,
    pub edit_range: FrameRange,
    pub kind: PhaseKind,
    pub operation_indices: Vec<usize>,
    pub beat_ids: Vec<String>,
}

/// Requested direction of change of a measured quantity over a range.
#[derive(Debug, Clone, Copy, PartialEq, Eq, Structural)]
pub enum Trend {
    Increasing,
    Decreasing,
    Stable,
}

/// Outcome of checking one compiled constraint against the solved shot.
#[derive(Debug, Clone, Copy, PartialEq, Eq, Structural)]
pub enum ConstraintStatus {
    Pass,
    Fail,
    Indeterminate,
}

// ----------------------------------------------------------------------
// Phase kinds
// ----------------------------------------------------------------------

/// The kind of a phase whose active operations are `ops`; `after_motion`
/// tells whether it starts once every operation has ended.
pub open spec fn phase_kind_of(ops: Seq<CameraOperation>, after_motion: bool) -> PhaseKind {
    if forall|i: int| 0 <= i < ops.len() ==> #[trigger] ops[i] is Hold {
        if after_motion { PhaseKind::Settle } else { PhaseKind::Hold }
    } else if ops.len() == 1 {
        if ops[0] is RackFocus {
            PhaseKind::Focus
        } else if ops[0] is Reveal {
            PhaseKind::Reveal
        } else {
            PhaseKind::Motion
        }
    } else {
        PhaseKind::Mixed
    }
}

/// Classifies a phase by the operations active in it.
pub fn phase_kind(ops: &Vec<&CameraOperation>, after_motion: bool) -> (kind: PhaseKind)
    ensures
        kind == phase_kind_of(ops@.map_values(|op: &CameraOperation| *op), after_motion),
{
    let ghost seen = ops@.map_values(|op: &CameraOperation| *op);
    let mut all_hold = true;
    let mut i: usize = 0;
    while i < ops.len()
        invariant
            i <= ops.len(),
            seen == ops@.map_values(|op: &CameraOperation| *op),
            all_hold == (forall|k: int| 0 <= k < i ==> #[trigger] seen[k] is Hold),
        decreases ops.len() - i,
    {
        assert(seen[i as int] == *ops@[i as int]);
        let hold = match ops[i] {
            CameraOperation::Hold => true,
            _ => false,
        };
        if !hold {
            all_hold = false;
        }
        i = i + 1;
    }
    if all_hold {
        return if after_motion { PhaseKind::Settle } else { PhaseKind::Hold };
    }
    if ops.len() == 1 {
        match ops[0] {
            CameraOperation::RackFocus { .. } => PhaseKind::Focus,
            CameraOperation::Reveal { .. } => PhaseKind::Reveal,
            _ => PhaseKind::Motion,
        }
    } else {
        PhaseKind::Mixed
    }
}

// ----------------------------------------------------------------------
// Phase boundaries
// ----------------------------------------------------------------------

/// Half-open ranges `a` and `b` share a frame.
pub open spec fn overlaps(a: FrameRange, b: FrameRange) -> bool {
    a.start < b.end && b.start < a.end
}

pub open spec fn min_frame(a: Frame, b: Frame) -> Frame {
    if a <= b { a } else { b }
}

/// Shot length in frames (zero for an empty or reversed range).
pub open spec fn shot_length(shot: Shot) -> Frame {
    if shot.range.start < shot.range.end { (shot.range.end - shot.range.start) as Frame } else { 0 }
}

/// Every beat that overlaps the shot ends (within the shot) no earlier than
/// the shot starts, so its shot-local end frame exists. This fails only for
/// a reversed shot range that some beat overlaps.
pub open spec fn beat_ends_defined(scene: Scene, shot: Shot) -> bool {
    forall|b: int| 0 <= b < scene.beats@.len() && overlaps(#[trigger] scene.beats@[b].range, shot.range)
        ==> min_frame(scene.beats@[b].range.end, shot.range.end) >= shot.range.start
}

/// Shot-local frame where beat `beat` starts (zero when before the shot).
pub open spec fn beat_local_start(beat: FrameRange, shot: Shot) -> Frame {
    if beat.start >= shot.range.start { (beat.start - shot.range.start) as Frame } else { 0 }
}

/// Shot-local frame where beat `beat` ends (clipped to the shot).
pub open spec fn beat_local_end(beat: FrameRange, shot: Shot) -> Frame {
    (min_frame(beat.end, shot.range.end) - shot.range.start) as Frame
}

/// `p` is a clipped end of one of the first `n` operations.
pub open spec fn operation_boundary(shot: Shot, n: int, p: Frame) -> bool {
    let d = shot_length(shot);
    let ops = shot.camera.operations@;
    exists|i: int| 0 <= i < n && (p == min_frame(#[trigger] ops[i].range.start, d) || p == min_frame(ops[i].range.end, d))
}

/// `p` is a shot-local end of one of the first `n` beats that overlap the
/// shot.
pub open spec fn beat_boundary(scene: Scene, shot: Shot, n: int, p: Frame) -> bool {
    let beats = scene.beats@;
    exists|b: int| 0 <= b < n && overlaps(#[trigger] beats[b].range, shot.range) && (p == beat_local_start(
        beats[b].range,
        shot,
    ) || p == beat_local_end(beats[b].range, shot))
}

/// `p` is a phase boundary contributed by the first `n_ops` operations or
/// the first `n_beats` beats, or is one of the shot's ends.
pub open spec fn boundary_from(scene: Scene, shot: Shot, n_ops: int, n_beats: int, p: Frame) -> bool {
    ||| p == 0
    ||| p == shot_length(shot)
    ||| operation_boundary(shot, n_ops, p)
    ||| beat_boundary(scene, shot, n_beats, p)
}

/// `p` is a phase boundary of the shot.
pub open spec fn is_boundary(scene: Scene, shot: Shot, p: Frame) -> bool {
    boundary_from(scene, shot, shot.camera.operations@.len() as int, scene.beats@.len() as int, p)
}

pub open spec fn frames_increasing(s: Seq<Frame>) -> bool {
    forall|i: int, j: int| 0 <= i < j < s.len() ==> #[trigger] s[i] < #[trigger] s[j]
}

/// The phase boundaries of the shot, in increasing order.
pub open spec fn phase_points(scene: Scene, shot: Shot) -> Seq<Frame> {
    choose|p: Seq<Frame>| frames_increasing(p) && (forall|x: Frame| p.contains(x) <==> is_boundary(scene, shot, x))
}

proof fn lemma_frame_order()
    ensures
        strict_total_order(|a: Frame, b: Frame| a < b),
{
}

/// Any increasing sequence holding exactly the boundaries is the one.
proof fn lemma_phase_points_unique(p: Seq<Frame>, scene: Scene, shot: Shot)
    requires
        frames_increasing(p),
        forall|x: Frame| p.contains(x) <==> is_boundary(scene, shot, x),
    ensures
        phase_points(scene, shot) == p,
{
    let q = phase_points(scene, shot);
    let lt = |a: Frame, b: Frame| a < b;
    assert(frames_increasing(q) && (forall|x: Frame| q.contains(x) <==> is_boundary(scene, shot, x)));
    lemma_frame_order();
    assert(increasing(p, lt)) by {
        assert forall|i: int, j: int| 0 <= i < j < p.len() implies lt(#[trigger] p[i], #[trigger] p[j]) by {
            assert(p[i] < p[j]);
        }
    }
    assert(increasing(q, lt)) by {
        assert forall|i: int, j: int| 0 <= i < j < q.len() implies lt(#[trigger] q[i], #[trigger] q[j]) by {
            assert(q[i] < q[j]);
        }
    }
    lemma_increasing_unique(q, p, lt);
}

/// Adds `p` to the increasing sequence `points`, unless it is there.
#[verifier::spinoff_prover]
fn insert_point(points: &mut Vec<Frame>, p: Frame)
    requires
        frames_increasing(old(points)@),
    ensures
        frames_increasing(final(points)@),
        forall|x: Frame| final(points)@.contains(x) <==> (old(points)@.contains(x) || x == p),
{
    let mut pos: usize = 0;
    let mut go = pos < points.len() && points[pos] < p;
    while go
        invariant
            pos <= points.len(),
            points@ == old(points)@,
            go == (pos < points.len() && points@[pos as int] < p),
            forall|k: int| 0 <= k < pos ==> #[trigger] points@[k] < p,
        decreases points.len() - pos,
    {
        pos = pos + 1;
        go = pos < points.len() && points[pos] < p;
    }
    if pos < points.len() && points[pos] == p {
        return;
    }
    let ghost before = points@;
    points.insert(pos, p);
    let ghost after = points@;
    assert(after =~= before.insert(pos as int, p));
    assert forall|i: int, j: int| 0 <= i < j < after.len() implies #[trigger] after[i] < #[trigger] after[j] by {
        if j < pos {
        } else if j == pos {
        } else if i < pos {
            assert(after[j] == before[j - 1]);
        } else if i == pos {
            assert(after[j] == before[j - 1]);
            if j - 1 > pos {
                assert(before[pos as int] < before[j - 1]);
            }
        } else {
            assert(after[i] == before[i - 1]);
            assert(after[j] == before[j - 1]);
        }
    }
    assert forall|x: Frame| after.contains(x) <==> (before.contains(x) || x == p) by {
        if after.contains(x) {
            let w = choose|w: int| 0 <= w < after.len() && after[w] == x;
            if w < pos {
                assert(before[w] == x);
            } else if w > pos {
                assert(before[w - 1] == x);
            }
        }
        if before.contains(x) {
            let w = choose|w: int| 0 <= w < before.len() && before[w] == x;
            if w < pos {
                assert(after[w] == x);
            } else {
                assert(after[w + 1] == x);
            }
        }
        if x == p {
            assert(after[pos as int] == p);
        }
    }
}

/// Admitting operation `i` adds its two clipped ends as boundaries.
proof fn lemma_operation_step(shot: Shot, i: int)
    requires
        0 <= i < shot.camera.operations@.len(),
    ensures
        forall|x: Frame| #[trigger] operation_boundary(shot, i + 1, x) <==> (operation_boundary(shot, i, x) || x
            == min_frame(shot.camera.operations@[i].range.start, shot_length(shot)) || x == min_frame(
            shot.camera.operations@[i].range.end,
            shot_length(shot),
        )),
{
    let ops = shot.camera.operations@;
    let d = shot_length(shot);
    assert forall|x: Frame| #[trigger] operation_boundary(shot, i + 1, x) implies (operation_boundary(shot, i, x) || x
        == min_frame(ops[i].range.start, d) || x == min_frame(ops[i].range.end, d)) by {
        let k = choose|k: int| 0 <= k < i + 1 && (x == min_frame(#[trigger] ops[k].range.start, d) || x == min_frame(
            ops[k].range.end,
            d,
        ));
        if k < i {
            assert(0 <= k < i && (x == min_frame(ops[k].range.start, d) || x == min_frame(ops[k].range.end, d)));
        }
    }
    assert forall|x: Frame| operation_boundary(shot, i, x) implies #[trigger] operation_boundary(shot, i + 1, x) by {
        let k = choose|k: int| 0 <= k < i && (x == min_frame(#[trigger] ops[k].range.start, d) || x == min_frame(
            ops[k].range.end,
            d,
        ));
        assert(0 <= k < i + 1 && (x == min_frame(ops[k].range.start, d) || x == min_frame(ops[k].range.end, d)));
    }
    assert forall|x: Frame| x == min_frame(ops[i].range.start, d) || x == min_frame(ops[i].range.end, d) implies
        #[trigger] operation_boundary(shot, i + 1, x) by {
        assert(0 <= i < i + 1 && (x == min_frame(ops[i].range.start, d) || x == min_frame(ops[i].range.end, d)));
    }
}

/// Admitting beat `b` adds its shot-local ends when it overlaps the shot.
proof fn lemma_beat_step(scene: Scene, shot: Shot, b: int)
    requires
        0 <= b < scene.beats@.len(),
    ensures
        forall|x: Frame| #[trigger] beat_boundary(scene, shot, b + 1, x) <==> (beat_boundary(scene, shot, b, x) || (
        overlaps(scene.beats@[b].range, shot.range) && (x == beat_local_start(scene.beats@[b].range, shot) || x
            == beat_local_end(scene.beats@[b].range, shot)))),
{
    let beats = scene.beats@;
    assert forall|x: Frame| #[trigger] beat_boundary(scene, shot, b + 1, x) implies (beat_boundary(scene, shot, b, x)
        || (overlaps(beats[b].range, shot.range) && (x == beat_local_start(beats[b].range, shot) || x
        == beat_local_end(beats[b].range, shot)))) by {
        let k = choose|k: int| 0 <= k < b + 1 && overlaps(#[trigger] beats[k].range, shot.range) && (x
            == beat_local_start(beats[k].range, shot) || x == beat_local_end(beats[k].range, shot));
        if k < b {
            assert(0 <= k < b && overlaps(beats[k].range, shot.range) && (x == beat_local_start(beats[k].range, shot)
                || x == beat_local_end(beats[k].range, shot)));
        }
    }
    assert forall|x: Frame| beat_boundary(scene, shot, b, x) implies #[trigger] beat_boundary(scene, shot, b + 1, x) by {
        let k = choose|k: int| 0 <= k < b && overlaps(#[trigger] beats[k].range, shot.range) && (x == beat_local_start(
            beats[k].range,
            shot,
        ) || x == beat_local_end(beats[k].range, shot));
        assert(0 <= k < b + 1 && overlaps(beats[k].range, shot.range) && (x == beat_local_start(beats[k].range, shot)
            || x == beat_local_end(beats[k].range, shot)));
    }
    assert forall|x: Frame| overlaps(beats[b].range, shot.range) && (x == beat_local_start(beats[b].range, shot) || x
        == beat_local_end(beats[b].range, shot)) implies #[trigger] beat_boundary(scene, shot, b + 1, x) by {
        assert(0 <= b < b + 1 && overlaps(beats[b].range, shot.range) && (x == beat_local_start(beats[b].range, shot)
            || x == beat_local_end(beats[b].range, shot)));
    }
}

fn min_u64(a: Frame, b: Frame) -> (m: Frame)
    ensures
        m == min_frame(a, b),
{
    if a <= b { a } else { b }
}

/// The phase boundaries of the shot, in increasing order.
pub fn compute_phase_points(scene: &Scene, shot: &Shot) -> (points: Vec<Frame>)
    requires
        beat_ends_defined(*scene, *shot),
    ensures
        points@ == phase_points(*scene, *shot),
        frames_increasing(points@),
        forall|x: Frame| points@.contains(x) <==> is_boundary(*scene, *shot, x),
{
    let d = shot.duration_frames();
    let mut points: Vec<Frame> = Vec::new();
    points.push(0);
    insert_point(&mut points, d);
    let ghost ops = shot.camera.operations@;
    let ghost beats = scene.beats@;
    let mut i: usize = 0;
    while i < shot.camera.operations.len()
        invariant
            i <= shot.camera.operations.len(),
            d == shot_length(*shot),
            ops == shot.camera.operations@,
            frames_increasing(points@),
            forall|x: Frame| points@.contains(x) <==> boundary_from(*scene, *shot, i as int, 0, x),
        decreases shot.camera.operations.len() - i,
    {
        let range = shot.camera.operations[i].range;
        let ghost before = points@;
        insert_point(&mut points, min_u64(range.start, d));
        insert_point(&mut points, min_u64(range.end, d));
        proof { lemma_operation_step(*shot, i as int); }
        i = i + 1;
    }
    let mut b: usize = 0;
    while b < scene.beats.len()
        invariant
            b <= scene.beats.len(),
            d == shot_length(*shot),
            beats == scene.beats@,
            ops == shot.camera.operations@,
            beat_ends_defined(*scene, *shot),
            frames_increasing(points@),
            forall|x: Frame| points@.contains(x) <==> boundary_from(*scene, *shot, ops.len() as int, b as int, x),
        decreases scene.beats.len() - b,
    {
        let range = scene.beats[b].range;
        let ghost before = points@;
        if range.start < shot.range.end && shot.range.start < range.end {
            assert(overlaps(beats[b as int].range, shot.range));
            let local_start = if range.start >= shot.range.start { range.start - shot.range.start } else { 0 };
            insert_point(&mut points, local_start);
            insert_point(&mut points, min_u64(range.end, shot.range.end) - shot.range.start);
        }
        proof { lemma_beat_step(*scene, *shot, b as int); }
        b = b + 1;
    }
    proof {
        lemma_phase_points_unique(points@, *scene, *shot);
    }
    points
}

/// Every boundary lies within the shot: `0 <= p <= shot_length(shot)`.
pub proof fn lemma_boundary_within_shot(scene: Scene, shot: Shot, p: Frame)
    requires
        beat_ends_defined(scene, shot),
        is_boundary(scene, shot, p),
    ensures
        p <= shot_length(shot),
{
    let ops = shot.camera.operations@;
    let beats = scene.beats@;
    let d = shot_length(shot);
    if !(p == 0 || p == d) {
        if exists|i: int| 0 <= i < ops.len() && (p == min_frame(#[trigger] ops[i].range.start, d) || p == min_frame(
            ops[i].range.end,
            d,
        )) {
        } else {
            let b = choose|b: int| 0 <= b < beats.len() && overlaps(#[trigger] beats[b].range, shot.range) && (p
                == beat_local_start(beats[b].range, shot) || p == beat_local_end(beats[b].range, shot));
            assert(min_frame(beats[b].range.end, shot.range.end) >= shot.range.start);
        }
    }
}

// ----------------------------------------------------------------------
// Phases
// ----------------------------------------------------------------------

/// Indices of the first `n` operations active somewhere in `r`, in order.
pub open spec fn active_indices(ops: Seq<TimedCameraOperation>, r: FrameRange, n: nat) -> Seq<usize>
    decreases n,
{
    if n == 0 {
        Seq::empty()
    } else {
        active_indices(ops, r, (n - 1) as nat) + if ops[n - 1].range.start < r.end && r.start < ops[n - 1].range.end {
            seq![(n - 1) as usize]
        } else {
            Seq::empty()
        }
    }
}

/// Ids of the first `n` beats that overlap `r`, in order.
pub open spec fn overlapping_beats(beats: Seq<Beat>, r: FrameRange, n: nat) -> Seq<Seq<char>>
    decreases n,
{
    if n == 0 {
        Seq::empty()
    } else {
        overlapping_beats(beats, r, (n - 1) as nat) + if beats[n - 1].range.start < r.end && r.start < beats[n
            - 1].range.end {
            seq![beats[n - 1].id@]
        } else {
            Seq::empty()
        }
    }
}

/// The latest end among the first `n` operations (0 when there are none).
pub open spec fn last_operation_end(ops: Seq<TimedCameraOperation>, n: nat) -> Frame
    decreases n,
{
    if n == 0 {
        0
    } else {
        let rest = last_operation_end(ops, (n - 1) as nat);
        if ops[n - 1].range.end > rest { ops[n - 1].range.end } else { rest }
    }
}

/// The operations at `indices`.
pub open spec fn operations_at(ops: Seq<TimedCameraOperation>, indices: Seq<usize>) -> Seq<CameraOperation> {
    indices.map_values(|j: usize| ops[j as int].operation)
}

/// Number of phases between `n` boundaries.
pub open spec fn gap_count(n: nat) -> nat {
    if n > 0 { (n - 1) as nat } else { 0 }
}

/// `phase` is phase `i` of the shot: the range between boundaries `i` and
/// `i + 1`, with the operations and beats that overlap it.
pub open spec fn is_phase(phase: CompiledPhase, scene: Scene, shot: Shot, i: int) -> bool {
    let points = phase_points(scene, shot);
    let ops = shot.camera.operations@;
    let local = FrameRange { start: points[i], end: points[i + 1] };
    let edit = FrameRange {
        start: (shot.range.start + points[i]) as Frame,
        end: (shot.range.start + points[i + 1]) as Frame,
    };
    let indices = active_indices(ops, local, ops.len());
    let kind = phase_kind_of(operations_at(ops, indices), local.start >= last_operation_end(ops, ops.len()));
    &&& phase.id@ == "phase_"@ + decimal(i as nat) + "_"@ + phase_kind_text(kind)
    &&& phase.local_range == local
    &&& phase.edit_range == edit
    &&& phase.kind == kind
    &&& phase.operation_indices@ == indices
    &&& string_views(phase.beat_ids@) == overlapping_beats(scene.beats@, edit, scene.beats@.len())
}

fn active_operations(ops: &Vec<TimedCameraOperation>, r: FrameRange) -> (indices: Vec<usize>)
    ensures
        indices@ == active_indices(ops@, r, ops@.len()),
        forall|k: int| 0 <= k < indices.len() ==> #[trigger] indices@[k] < ops.len(),
{
    let mut indices: Vec<usize> = Vec::new();
    let mut j: usize = 0;
    while j < ops.len()
        invariant
            j <= ops.len(),
            indices@ == active_indices(ops@, r, j as nat),
            forall|k: int| 0 <= k < indices.len() ==> #[trigger] indices@[k] < j,
        decreases ops.len() - j,
    {
        if ops[j].range.start < r.end && r.start < ops[j].range.end {
            indices.push(j);
        }
        j = j + 1;
    }
    indices
}

fn beats_overlapping(beats: &Vec<Beat>, r: FrameRange) -> (ids: Vec<String>)
    ensures
        string_views(ids@) == overlapping_beats(beats@, r, beats@.len()),
{
    let mut ids: Vec<String> = Vec::new();
    let mut b: usize = 0;
    while b < beats.len()
        invariant
            b <= beats.len(),
            string_views(ids@) == overlapping_beats(beats@, r, b as nat),
        decreases beats.len() - b,
    {
        let ghost before = ids@;
        if beats[b].range.start < r.end && r.start < beats[b].range.end {
            ids.push(beats[b].id.clone());
            assert(string_views(ids@) =~= string_views(before).push(beats@[b as int].id@));
        }
        b = b + 1;
    }
    ids
}

fn last_end(ops: &Vec<TimedCameraOperation>) -> (end: Frame)
    ensures
        end == last_operation_end(ops@, ops@.len()),
{
    let mut end: Frame = 0;
    let mut j: usize = 0;
    while j < ops.len()
        invariant
            j <= ops.len(),
            end == last_operation_end(ops@, j as nat),
        decreases ops.len() - j,
    {
        if ops[j].range.end > end {
            end = ops[j].range.end;
        }
        j = j + 1;
    }
    end
}

fn phase_id(i: usize, kind: PhaseKind) -> (id: String)
    ensures
        id@ == "phase_"@ + decimal(i as nat) + "_"@ + phase_kind_text(kind),
{
    let mut id = owned("phase_");
    push_decimal(&mut id, i as u64);
    push_str(&mut id, "_");
    push_str(&mut id, phase_kind_name(kind));
    id
}

fn build_phase(scene: &Scene, shot: &Shot, points: &Vec<Frame>, i: usize, after: Frame) -> (phase: CompiledPhase)
    requires
        points@ == phase_points(*scene, *shot),
        i + 1 < points.len(),
        after == last_operation_end(shot.camera.operations@, shot.camera.operations@.len()),
        shot.range.start + points@[i + 1] <= Frame::MAX,
        points@[i as int] < points@[i + 1],
    ensures
        is_phase(phase, *scene, *shot, i as int),
{
    let local = FrameRange { start: points[i], end: points[i + 1] };
    let edit = FrameRange { start: shot.range.start + local.start, end: shot.range.start + local.end };
    let indices = active_operations(&shot.camera.operations, local);
    let mut active: Vec<&CameraOperation> = Vec::new();
    let mut k: usize = 0;
    while k < indices.len()
        invariant
            k <= indices.len(),
            forall|m: int| 0 <= m < indices.len() ==> #[trigger] indices@[m] < shot.camera.operations.len(),
            active@.map_values(|op: &CameraOperation| *op) == operations_at(
                shot.camera.operations@,
                indices@.take(k as int),
            ),
        decreases indices.len() - k,
    {
        let ghost before = active@;
        active.push(&shot.camera.operations[indices[k]].operation);
        assert(active@.map_values(|op: &CameraOperation| *op) =~= before.map_values(|op: &CameraOperation| *op).push(
            shot.camera.operations@[indices@[k as int] as int].operation,
        ));
        assert(operations_at(shot.camera.operations@, indices@.take(k + 1)) =~= operations_at(
            shot.camera.operations@,
            indices@.take(k as int),
        ).push(shot.camera.operations@[indices@[k as int] as int].operation));
        k = k + 1;
    }
    assert(indices@.take(indices.len() as int) =~= indices@);
    let kind = phase_kind(&active, local.start >= after);
    CompiledPhase {
        id: phase_id(i, kind),
        local_range: local,
        edit_range: edit,
        kind,
        operation_indices: indices,
        beat_ids: beats_overlapping(&scene.beats, edit),
    }
}

/// The temporal phases of `shot`: its frames cut at every operation start
/// and end and every overlapping beat's start and end, one phase per gap
/// between consecutive boundaries.
pub fn compile_phases(scene: &Scene, shot: &Shot) -> (phases: Vec<CompiledPhase>)
    requires
        beat_ends_defined(*scene, *shot),
    ensures
        phases.len() == gap_count(phase_points(*scene, *shot).len()),
        forall|i: int| 0 <= i < phases.len() ==> is_phase(#[trigger] phases@[i], *scene, *shot, i),
{
    let points = compute_phase_points(scene, shot);
    let after = last_end(&shot.camera.operations);
    let mut phases: Vec<CompiledPhase> = Vec::new();
    let gaps: usize = if points.len() > 0 { points.len() - 1 } else { 0 };
    let mut i: usize = 0;
    while i < gaps
        invariant
            gaps == gap_count(points@.len()),
            i <= gaps,
            points@ == phase_points(*scene, *shot),
            beat_ends_defined(*scene, *shot),
            frames_increasing(points@),
            forall|x: Frame| points@.contains(x) <==> is_boundary(*scene, *shot, x),
            after == last_operation_end(shot.camera.operations@, shot.camera.operations@.len()),
            phases.len() == i,
            forall|k: int| 0 <= k < phases.len() ==> is_phase(#[trigger] phases@[k], *scene, *shot, k),
        decreases points.len() - i,
    {
        proof {
            assert(points@.contains(points@[i + 1]));
            lemma_boundary_within_shot(*scene, *shot, points@[i + 1]);
            if shot.range.start >= shot.range.end {
                assert(points@[i + 1] == 0);
                assert(points@.contains(points@[i as int]));
                lemma_boundary_within_shot(*scene, *shot, points@[i as int]);
            }
        }
        let phase = build_phase(scene, shot, &points, i, after);
        phases.push(phase);
        i = i + 1;
    }
    phases
}

/// The boundaries below `n`, in increasing order.
pub open spec fn boundaries_below(scene: Scene, shot: Shot, n: nat) -> Seq<Frame>
    decreases n,
{
    if n == 0 {
        Seq::empty()
    } else {
        boundaries_below(scene, shot, (n - 1) as nat) + if is_boundary(scene, shot, (n - 1) as Frame) {
            seq![(n - 1) as Frame]
        } else {
            Seq::empty()
        }
    }
}

proof fn lemma_boundaries_below(scene: Scene, shot: Shot, n: nat)
    requires
        n <= Frame::MAX + 1,
    ensures
        frames_increasing(boundaries_below(scene, shot, n)),
        forall|i: int| 0 <= i < boundaries_below(scene, shot, n).len() ==> #[trigger] boundaries_below(
            scene,
            shot,
            n,
        )[i] < n,
        forall|x: Frame| boundaries_below(scene, shot, n).contains(x) <==> (x < n && is_boundary(scene, shot, x)),
    decreases n,
{
    if n > 0 {
        let m = (n - 1) as nat;
        lemma_boundaries_below(scene, shot, m);
        let prev = boundaries_below(scene, shot, m);
        let cur = boundaries_below(scene, shot, n);
        if is_boundary(scene, shot, m as Frame) {
            assert(cur =~= prev.push(m as Frame));
            assert forall|x: Frame| cur.contains(x) <==> (x < n && is_boundary(scene, shot, x)) by {
                if x == m {
                    assert(cur[cur.len() - 1] == x);
                } else if cur.contains(x) {
                    let w = choose|w: int| 0 <= w < cur.len() && cur[w] == x;
                    assert(w < prev.len());
                    assert(prev[w] == x);
                } else if x < n && is_boundary(scene, shot, x) {
                    assert(prev.contains(x));
                    let w = choose|w: int| 0 <= w < prev.len() && prev[w] == x;
                    assert(cur[w] == x);
                }
            }
        } else {
            assert(cur =~= prev);
        }
    }
}

/// The increasing sequence of boundaries exists.
proof fn lemma_phase_points_exist(scene: Scene, shot: Shot)
    requires
        beat_ends_defined(scene, shot),
    ensures
        frames_increasing(phase_points(scene, shot)),
        forall|x: Frame| phase_points(scene, shot).contains(x) <==> is_boundary(scene, shot, x),
{
    let n = (shot_length(shot) + 1) as nat;
    lemma_boundaries_below(scene, shot, n);
    let witness = boundaries_below(scene, shot, n);
    assert forall|x: Frame| witness.contains(x) <==> is_boundary(scene, shot, x) by {
        if is_boundary(scene, shot, x) {
            lemma_boundary_within_shot(scene, shot, x);
        }
    }
    assert(frames_increasing(witness) && (forall|x: Frame| witness.contains(x) <==> is_boundary(scene, shot, x)));
}

/// The phases of a shot tile its frames: a shot of `d > 0` frames gets
/// phases that start at frame 0, end at frame `d`, are each non-empty and
/// follow one another without gap or overlap; an empty shot gets none.
pub proof fn lemma_phases_tile_shot(scene: Scene, shot: Shot, phases: Seq<CompiledPhase>)
    requires
        beat_ends_defined(scene, shot),
        phases.len() == gap_count(phase_points(scene, shot).len()),
        forall|i: int| 0 <= i < phases.len() ==> is_phase(#[trigger] phases[i], scene, shot, i),
    ensures
        shot_length(shot) == 0 ==> phases.len() == 0,
        shot_length(shot) > 0 ==> {
            &&& phases.len() >= 1
            &&& phases[0].local_range.start == 0
            &&& phases.last().local_range.end == shot_length(shot)
        },
        forall|i: int| 0 <= i < phases.len() ==> #[trigger] phases[i].local_range.start < phases[i].local_range.end,
        forall|i: int| 0 <= i < phases.len() - 1 ==> #[trigger] phases[i].local_range.end == phases[i
            + 1].local_range.start,
{
    let d = shot_length(shot);
    lemma_phase_points_exist(scene, shot);
    let points = phase_points(scene, shot);
    assert(frames_increasing(points));
    assert(is_boundary(scene, shot, 0));
    assert(is_boundary(scene, shot, d));
    assert(points.contains(0));
    assert(points.contains(d));
    let z = choose|k: int| 0 <= k < points.len() && points[k] == 0;
    let e = choose|k: int| 0 <= k < points.len() && points[k] == d;
    if z > 0 {
        assert(points[0] < points[z]);
    }
    let last = points.len() - 1;
    assert(points.contains(points[last]));
    lemma_boundary_within_shot(scene, shot, points[last]);
    if e < last {
        assert(points[e] < points[last]);
    }
    if d == 0 {
        assert(points.len() == 1) by {
            if points.len() > 1 {
                assert(points[0] < points[1]);
                assert(points.contains(points[1]));
                lemma_boundary_within_shot(scene, shot, points[1]);
            }
        }
    }
    assert forall|i: int| 0 <= i < phases.len() implies #[trigger] phases[i].local_range.start
        < phases[i].local_range.end by {
        assert(is_phase(phases[i], scene, shot, i));
        assert(points[i] < points[i + 1]);
    }
    assert forall|i: int| 0 <= i < phases.len() - 1 implies #[trigger] phases[i].local_range.end == phases[i
        + 1].local_range.start by {
        assert(is_phase(phases[i], scene, shot, i));
        assert(is_phase(phases[i + 1], scene, shot, i + 1));
    }
    if d > 0 {
        assert(is_phase(phases[0], scene, shot, 0));
        assert(is_phase(phases[phases.len() - 1], scene, shot, phases.len() - 1));
    }
}

// ----------------------------------------------------------------------
// Phrases
// ----------------------------------------------------------------------

/// Declaration (and sort) position of a phrase.
pub open spec fn phrase_rank(p: ShotPhrase) -> nat {
    match p {
        ShotPhrase::PressurePushIn => 0,
        ShotPhrase::SubjectLockDollyZoom => 1,
        ShotPhrase::ForegroundParallaxReveal => 2,
        ShotPhrase::VisibleAxisCross => 3,
        ShotPhrase::RackFocusReveal => 4,
        ShotPhrase::ReactionHold => 5,
        ShotPhrase::WalkAndTalkFollow => 6,
        ShotPhrase::OrbitRelationshipShift => 7,
    }
}

fn phrase_at(k: usize) -> (p: ShotPhrase)
    requires
        k < 8,
    ensures
        phrase_rank(p) == k,
{
    if k == 0 {
        ShotPhrase::PressurePushIn
    } else if k == 1 {
        ShotPhrase::SubjectLockDollyZoom
    } else if k == 2 {
        ShotPhrase::ForegroundParallaxReveal
    } else if k == 3 {
        ShotPhrase::VisibleAxisCross
    } else if k == 4 {
        ShotPhrase::RackFocusReveal
    } else if k == 5 {
        ShotPhrase::ReactionHold
    } else if k == 6 {
        ShotPhrase::WalkAndTalkFollow
    } else {
        ShotPhrase::OrbitRelationshipShift
    }
}

/// The phrase a camera operation implies, if any.
pub open spec fn operation_phrase(op: CameraOperation) -> Option<ShotPhrase> {
    match op {
        CameraOperation::Dolly { distance_m } => if distance_m.spec_is_positive() {
            Some(ShotPhrase::PressurePushIn)
        } else {
            None
        },
        CameraOperation::DollyZoom { .. } => Some(ShotPhrase::SubjectLockDollyZoom),
        CameraOperation::Reveal { .. } => Some(ShotPhrase::ForegroundParallaxReveal),
        CameraOperation::RackFocus { .. } => Some(ShotPhrase::RackFocusReveal),
        CameraOperation::Follow { .. } => Some(ShotPhrase::WalkAndTalkFollow),
        CameraOperation::Orbit { .. } => Some(ShotPhrase::OrbitRelationshipShift),
        _ => None,
    }
}

fn operation_phrase_exec(op: &CameraOperation) -> (p: Option<ShotPhrase>)
    ensures
        p == operation_phrase(*op),
{
    match op {
        CameraOperation::Dolly { distance_m } => if distance_m.is_positive() {
            Some(ShotPhrase::PressurePushIn)
        } else {
            None
        },
        CameraOperation::DollyZoom { .. } => Some(ShotPhrase::SubjectLockDollyZoom),
        CameraOperation::Reveal { .. } => Some(ShotPhrase::ForegroundParallaxReveal),
        CameraOperation::RackFocus { .. } => Some(ShotPhrase::RackFocusReveal),
        CameraOperation::Follow { .. } => Some(ShotPhrase::WalkAndTalkFollow),
        CameraOperation::Orbit { .. } => Some(ShotPhrase::OrbitRelationshipShift),
        _ => None,
    }
}

/// Every camera operation of the shot is a hold.
pub open spec fn only_holds(shot: Shot) -> bool {
    forall|i: int| 0 <= i < shot.camera.operations@.len() ==> #[trigger] shot.camera.operations@[i].operation is Hold
}

/// The shot declares or shows a visible crossing of the axis.
pub open spec fn crosses_axis_visibly(shot: Shot) -> bool {
    ||| exists|i: int| 0 <= i < shot.relations@.len() && #[trigger] shot.relations@[i].kind == ShotRelationKind::CrossesAxisFrom
    ||| shot.continuity.bridge == Some(ContinuityBridge::VisibleAxisCross)
}

/// `p` is among the shot's compiled phrases: authored, or implied by a
/// reaction hold, a visible axis cross, or one of its operations.
pub open spec fn phrase_wanted(shot: Shot, p: ShotPhrase) -> bool {
    ||| shot.phrases@.contains(p)
    ||| (p == ShotPhrase::ReactionHold && shot.purpose@.contains(ShotPurpose::Reaction) && only_holds(shot))
    ||| (p == ShotPhrase::VisibleAxisCross && crosses_axis_visibly(shot))
    ||| exists|i: int| 0 <= i < shot.camera.operations@.len() && operation_phrase(
        #[trigger] shot.camera.operations@[i].operation,
    ) == Some(p)
}

/// What each kind of operation implies of a shot's phrases: a forward
/// dolly is a pressure push-in, a dolly zoom locks its subject, a reveal is
/// a foreground-parallax reveal, a rack focus a rack-focus reveal, a follow
/// a walk-and-talk, an orbit a relationship shift; and a reaction shot that
/// only holds is a reaction hold. A shot that declares nothing and only
/// holds, without being a reaction or crossing the axis, has no phrase.
pub proof fn lemma_operations_imply_phrases(shot: Shot, i: int)
    requires
        0 <= i < shot.camera.operations@.len(),
    ensures
        (shot.camera.operations@[i].operation matches CameraOperation::Dolly { distance_m } && (distance_m is PositiveFraction
            || distance_m is One || distance_m is UpTo360 || distance_m is Above360 || distance_m is PositiveInfinity))
            ==> phrase_wanted(shot, ShotPhrase::PressurePushIn),
        shot.camera.operations@[i].operation is DollyZoom ==> phrase_wanted(shot, ShotPhrase::SubjectLockDollyZoom),
        shot.camera.operations@[i].operation is Reveal ==> phrase_wanted(shot, ShotPhrase::ForegroundParallaxReveal),
        shot.camera.operations@[i].operation is RackFocus ==> phrase_wanted(shot, ShotPhrase::RackFocusReveal),
        shot.camera.operations@[i].operation is Follow ==> phrase_wanted(shot, ShotPhrase::WalkAndTalkFollow),
        shot.camera.operations@[i].operation is Orbit ==> phrase_wanted(shot, ShotPhrase::OrbitRelationshipShift),
{
    let op = shot.camera.operations@[i].operation;
    if operation_phrase(op) is Some {
        assert(operation_phrase(shot.camera.operations@[i].operation) == operation_phrase(op));
    }
}

/// A reaction shot that only holds is a reaction hold; a shot that declares
/// no phrase, only holds, is no reaction and crosses no axis has none.
pub proof fn lemma_holding_shots_phrases(shot: Shot, p: ShotPhrase)
    ensures
        shot.purpose@.contains(ShotPurpose::Reaction) && only_holds(shot) ==> phrase_wanted(
            shot,
            ShotPhrase::ReactionHold,
        ),
        shot.phrases@.len() == 0 && only_holds(shot) && !shot.purpose@.contains(ShotPurpose::Reaction)
            && !crosses_axis_visibly(shot) ==> !phrase_wanted(shot, p),
{
    if only_holds(shot) {
        assert forall|i: int| 0 <= i < shot.camera.operations@.len() implies operation_phrase(
            #[trigger] shot.camera.operations@[i].operation,
        ) is None by {
            assert(shot.camera.operations@[i].operation is Hold);
        }
    }
}

fn only_holds_exec(shot: &Shot) -> (b: bool)
    ensures
        b == only_holds(*shot),
{
    let mut i: usize = 0;
    while i < shot.camera.operations.len()
        invariant
            i <= shot.camera.operations.len(),
            forall|k: int| 0 <= k < i ==> #[trigger] shot.camera.operations@[k].operation is Hold,
        decreases shot.camera.operations.len() - i,
    {
        match &shot.camera.operations[i].operation {
            CameraOperation::Hold => {},
            _ => {
                return false;
            },
        }
        i = i + 1;
    }
    true
}

fn crosses_axis_visibly_exec(shot: &Shot) -> (b: bool)
    ensures
        b == crosses_axis_visibly(*shot),
{
    let mut i: usize = 0;
    while i < shot.relations.len()
        invariant
            i <= shot.relations.len(),
            forall|k: int| 0 <= k < i ==> #[trigger] shot.relations@[k].kind != ShotRelationKind::CrossesAxisFrom,
        decreases shot.relations.len() - i,
    {
        if shot.relations[i].kind == ShotRelationKind::CrossesAxisFrom {
            return true;
        }
        i = i + 1;
    }
    match shot.continuity.bridge {
        Some(bridge) => bridge == ContinuityBridge::VisibleAxisCross,
        None => false,
    }
}

fn phrase_wanted_exec(shot: &Shot, p: ShotPhrase) -> (b: bool)
    ensures
        b == phrase_wanted(*shot, p),
{
    let mut i: usize = 0;
    while i < shot.phrases.len()
        invariant
            i <= shot.phrases.len(),
            forall|k: int| 0 <= k < i ==> #[trigger] shot.phrases@[k] != p,
        decreases shot.phrases.len() - i,
    {
        if shot.phrases[i] == p {
            assert(shot.phrases@[i as int] == p);
            return true;
        }
        i = i + 1;
    }
    if p == ShotPhrase::ReactionHold {
        let mut reaction = false;
        let mut j: usize = 0;
        while j < shot.purpose.len()
            invariant
                j <= shot.purpose.len(),
                reaction == (exists|k: int| 0 <= k < j && #[trigger] shot.purpose@[k] == ShotPurpose::Reaction),
            decreases shot.purpose.len() - j,
        {
            if shot.purpose[j] == ShotPurpose::Reaction {
                reaction = true;
            }
            j = j + 1;
        }
        if reaction && only_holds_exec(shot) {
            return true;
        }
    }
    if p == ShotPhrase::VisibleAxisCross && crosses_axis_visibly_exec(shot) {
        return true;
    }
    let mut k: usize = 0;
    while k < shot.camera.operations.len()
        invariant
            k <= shot.camera.operations.len(),
            forall|m: int| 0 <= m < k ==> operation_phrase(#[trigger] shot.camera.operations@[m].operation) != Some(p),
        decreases shot.camera.operations.len() - k,
    {
        if operation_phrase_exec(&shot.camera.operations[k].operation) == Some(p) {
            return true;
        }
        k = k + 1;
    }
    false
}

/// The shot's phrases as compiled: its authored phrases plus those its
/// purpose, relations, bridge and operations imply, each once, in
/// declaration order.
pub fn compiled_phrases(shot: &Shot) -> (phrases: Vec<ShotPhrase>)
    ensures
        forall|i: int, j: int| 0 <= i < j < phrases.len() ==> phrase_rank(#[trigger] phrases@[i]) < phrase_rank(
            #[trigger] phrases@[j],
        ),
        forall|p: ShotPhrase| phrases@.contains(p) <==> phrase_wanted(*shot, p),
{
    let mut phrases: Vec<ShotPhrase> = Vec::new();
    let mut k: usize = 0;
    while k < 8
        invariant
            k <= 8,
            forall|i: int, j: int| 0 <= i < j < phrases.len() ==> phrase_rank(#[trigger] phrases@[i]) < phrase_rank(
                #[trigger] phrases@[j],
            ),
            forall|i: int| 0 <= i < phrases.len() ==> phrase_rank(#[trigger] phrases@[i]) < k,
            forall|p: ShotPhrase| phrases@.contains(p) <==> (phrase_wanted(*shot, p) && phrase_rank(p) < k),
        decreases 8 - k,
    {
        let p = phrase_at(k);
        let ghost before = phrases@;
        if phrase_wanted_exec(shot, p) {
            phrases.push(p);
            assert forall|q: ShotPhrase| phrases@.contains(q) <==> (phrase_wanted(*shot, q) && phrase_rank(q) < k + 1) by {
                if phrases@.contains(q) && q != p {
                    let w = choose|w: int| 0 <= w < phrases.len() && phrases@[w] == q;
                    assert(before[w] == q);
                }
                if phrase_wanted(*shot, q) && phrase_rank(q) < k + 1 {
                    if q == p {
                        assert(phrases@[phrases.len() - 1] == q);
                    } else {
                        assert(phrase_rank(q) != k);
                        assert(before.contains(q));
                        let w = choose|w: int| 0 <= w < before.len() && before[w] == q;
                        assert(phrases@[w] == q);
                    }
                }
            }
        } else {
            assert forall|q: ShotPhrase| phrases@.contains(q) <==> (phrase_wanted(*shot, q) && phrase_rank(q) < k + 1) by {
                if phrase_rank(q) == k {
                    assert(q == p);
                }
            }
        }
        k = k + 1;
    }
    phrases
}

// ----------------------------------------------------------------------
// Prohibitions
// ----------------------------------------------------------------------

/// Declaration (and sort) position of a prohibition.
pub open spec fn prohibition_rank(p: Prohibition) -> nat {
    match p {
        Prohibition::ActorTranslationAsCameraSubstitute => 0,
        Prohibition::DigitalCropAsDollySubstitute => 1,
        Prohibition::BackgroundDeformationAsParallaxSubstitute => 2,
        Prohibition::GlobalBlurAsRackFocusSubstitute => 3,
        Prohibition::HandheldMotion => 4,
        Prohibition::UnplannedCut => 5,
    }
}

fn prohibition_at(k: usize) -> (p: Prohibition)
    requires
        k < 6,
    ensures
        prohibition_rank(p) == k,
{
    if k == 0 {
        Prohibition::ActorTranslationAsCameraSubstitute
    } else if k == 1 {
        Prohibition::DigitalCropAsDollySubstitute
    } else if k == 2 {
        Prohibition::BackgroundDeformationAsParallaxSubstitute
    } else if k == 3 {
        Prohibition::GlobalBlurAsRackFocusSubstitute
    } else if k == 4 {
        Prohibition::HandheldMotion
    } else {
        Prohibition::UnplannedCut
    }
}

/// The operation forbids the shortcut `p`: a dolly zoom forbids actor
/// translation, digital crop, handheld motion and an unplanned cut; a reveal
/// forbids background deformation; a rack focus forbids global blur.
pub open spec fn operation_forbids(op: CameraOperation, p: Prohibition) -> bool {
    match op {
        CameraOperation::DollyZoom { .. } => p == Prohibition::ActorTranslationAsCameraSubstitute || p
            == Prohibition::DigitalCropAsDollySubstitute || p == Prohibition::HandheldMotion || p
            == Prohibition::UnplannedCut,
        CameraOperation::Reveal { .. } => p == Prohibition::BackgroundDeformationAsParallaxSubstitute,
        CameraOperation::RackFocus { .. } => p == Prohibition::GlobalBlurAsRackFocusSubstitute,
        _ => false,
    }
}

fn operation_forbids_exec(op: &CameraOperation, p: Prohibition) -> (b: bool)
    ensures
        b == operation_forbids(*op, p),
{
    match op {
        CameraOperation::DollyZoom { .. } => p == Prohibition::ActorTranslationAsCameraSubstitute || p
            == Prohibition::DigitalCropAsDollySubstitute || p == Prohibition::HandheldMotion || p
            == Prohibition::UnplannedCut,
        CameraOperation::Reveal { .. } => p == Prohibition::BackgroundDeformationAsParallaxSubstitute,
        CameraOperation::RackFocus { .. } => p == Prohibition::GlobalBlurAsRackFocusSubstitute,
        _ => false,
    }
}

/// `p` applies to the shot: authored, or forbidden by one of its operations.
pub open spec fn prohibition_applies(shot: Shot, p: Prohibition) -> bool {
    ||| shot.prohibit@.contains(p)
    ||| exists|i: int| 0 <= i < shot.camera.operations@.len() && operation_forbids(
        #[trigger] shot.camera.operations@[i].operation,
        p,
    )
}

/// What each kind of operation forbids: a rack focus forbids a global blur
/// in its place; a reveal forbids background deformation faking parallax;
/// a dolly zoom forbids actor translation, a digital crop, handheld motion
/// and an unplanned cut. A shot with such an operation carries these among
/// its compiled prohibitions (`compiled_prohibitions` lists exactly the
/// prohibitions that apply).
pub proof fn lemma_operations_imply_prohibitions(shot: Shot, i: int)
    requires
        0 <= i < shot.camera.operations@.len(),
    ensures
        shot.camera.operations@[i].operation is RackFocus ==> prohibition_applies(
            shot,
            Prohibition::GlobalBlurAsRackFocusSubstitute,
        ),
        shot.camera.operations@[i].operation is Reveal ==> prohibition_applies(
            shot,
            Prohibition::BackgroundDeformationAsParallaxSubstitute,
        ),
        shot.camera.operations@[i].operation is DollyZoom ==> prohibition_applies(
            shot,
            Prohibition::ActorTranslationAsCameraSubstitute,
        ) && prohibition_applies(shot, Prohibition::DigitalCropAsDollySubstitute) && prohibition_applies(
            shot,
            Prohibition::HandheldMotion,
        ) && prohibition_applies(shot, Prohibition::UnplannedCut),
{
    let op = shot.camera.operations@[i].operation;
    if op is RackFocus {
        assert(operation_forbids(shot.camera.operations@[i].operation, Prohibition::GlobalBlurAsRackFocusSubstitute));
    }
    if op is Reveal {
        assert(operation_forbids(
            shot.camera.operations@[i].operation,
            Prohibition::BackgroundDeformationAsParallaxSubstitute,
        ));
    }
    if op is DollyZoom {
        assert(operation_forbids(shot.camera.operations@[i].operation, Prohibition::ActorTranslationAsCameraSubstitute));
        assert(operation_forbids(shot.camera.operations@[i].operation, Prohibition::DigitalCropAsDollySubstitute));
        assert(operation_forbids(shot.camera.operations@[i].operation, Prohibition::HandheldMotion));
        assert(operation_forbids(shot.camera.operations@[i].operation, Prohibition::UnplannedCut));
    }
}

fn prohibition_applies_exec(shot: &Shot, p: Prohibition) -> (b: bool)
    ensures
        b == prohibition_applies(*shot, p),
{
    let mut i: usize = 0;
    while i < shot.prohibit.len()
        invariant
            i <= shot.prohibit.len(),
            forall|k: int| 0 <= k < i ==> #[trigger] shot.prohibit@[k] != p,
        decreases shot.prohibit.len() - i,
    {
        if shot.prohibit[i] == p {
            assert(shot.prohibit@[i as int] == p);
            return true;
        }
        i = i + 1;
    }
    let mut k: usize = 0;
    while k < shot.camera.operations.len()
        invariant
            k <= shot.camera.operations.len(),
            forall|m: int| 0 <= m < k ==> !operation_forbids(#[trigger] shot.camera.operations@[m].operation, p),
        decreases shot.camera.operations.len() - k,
    {
        if operation_forbids_exec(&shot.camera.operations[k].operation, p) {
            return true;
        }
        k = k + 1;
    }
    false
}

/// The shot's prohibitions as compiled: authored ones plus those its
/// operations imply, each once, in declaration order.
pub fn compiled_prohibitions(shot: &Shot) -> (prohibitions: Vec<Prohibition>)
    ensures
        forall|i: int, j: int| 0 <= i < j < prohibitions.len() ==> prohibition_rank(#[trigger] prohibitions@[i])
            < prohibition_rank(#[trigger] prohibitions@[j]),
        forall|p: Prohibition| prohibitions@.contains(p) <==> prohibition_applies(*shot, p),
{
    let mut prohibitions: Vec<Prohibition> = Vec::new();
    let mut k: usize = 0;
    while k < 6
        invariant
            k <= 6,
            forall|i: int, j: int| 0 <= i < j < prohibitions.len() ==> prohibition_rank(#[trigger] prohibitions@[i])
                < prohibition_rank(#[trigger] prohibitions@[j]),
            forall|i: int| 0 <= i < prohibitions.len() ==> prohibition_rank(#[trigger] prohibitions@[i]) < k,
            forall|p: Prohibition| prohibitions@.contains(p) <==> (prohibition_applies(*shot, p) && prohibition_rank(p)
                < k),
        decreases 6 - k,
    {
        let p = prohibition_at(k);
        let ghost before = prohibitions@;
        if prohibition_applies_exec(shot, p) {
            prohibitions.push(p);
            assert forall|q: Prohibition| prohibitions@.contains(q) <==> (prohibition_applies(*shot, q)
                && prohibition_rank(q) < k + 1) by {
                if prohibitions@.contains(q) && q != p {
                    let w = choose|w: int| 0 <= w < prohibitions.len() && prohibitions@[w] == q;
                    assert(before[w] == q);
                }
                if prohibition_applies(*shot, q) && prohibition_rank(q) < k + 1 {
                    if q == p {
                        assert(prohibitions@[prohibitions.len() - 1] == q);
                    } else {
                        assert(prohibition_rank(q) != k);
                        assert(before.contains(q));
                        let w = choose|w: int| 0 <= w < before.len() && before[w] == q;
                        assert(prohibitions@[w] == q);
                    }
                }
            }
        } else {
            assert forall|q: Prohibition| prohibitions@.contains(q) <==> (prohibition_applies(*shot, q)
                && prohibition_rank(q) < k + 1) by {
                if prohibition_rank(q) == k {
                    assert(q == p);
                }
            }
        }
        k = k + 1;
    }
    prohibitions
}

// ----------------------------------------------------------------------
// The edit
// ----------------------------------------------------------------------

/// The shot's transition in: its rich transition when it has one, else an
/// instantaneous transition of its `transition_in` kind.
pub open spec fn rich_transition_of(shot: Shot) -> TransitionSpec {
    match shot.transition {
        Some(t) => t,
        None => TransitionSpec {
            kind: shot.transition_in,
            duration_frames: 0,
            curve: Easing::Hold,
            match_anchor: None,
            direction: None,
        },
    }
}

pub fn rich_transition(shot: &Shot) -> (t: TransitionSpec)
    ensures
        t == rich_transition_of(*shot),
{
    match &shot.transition {
        Some(t) => t.duplicate(),
        None => TransitionSpec::cut(shot.transition_in),
    }
}

/// The edit ranges of `clips`, in declaration order.
pub open spec fn clip_ranges(clips: Seq<EditClip>) -> Seq<FrameRange> {
    clips.map_values(|c: EditClip| c.edit_range)
}

/// The clips in edit order.
pub open spec fn clips_in_edit_order(clips: Seq<EditClip>) -> Seq<EditClip> {
    edit_order_of(clip_ranges(clips)).map_values(|i: usize| clips[i as int])
}

/// The ids on the scene's edit in order: its shots when it has any, else
/// its edit clips.
pub open spec fn ordered_edit_id_views(scene: Scene) -> Seq<Seq<char>> {
    if scene.shots@.len() == 0 {
        clips_in_edit_order(scene.edit_timeline@).map_values(|c: EditClip| c.id@)
    } else {
        shots_in_edit_order(scene.shots@).map_values(|s: Shot| s.id@)
    }
}

/// Indices of `clips` in edit order.
pub fn clip_order(clips: &Vec<EditClip>) -> (order: Vec<usize>)
    ensures
        order@ == edit_order_of(clip_ranges(clips@)),
        order.len() == clips.len(),
        forall|k: int| 0 <= k < order.len() ==> #[trigger] order@[k] < clips.len() && clips_in_edit_order(
            clips@,
        )[k] == clips@[order@[k] as int],
{
    let mut ranges: Vec<FrameRange> = Vec::new();
    let mut i: usize = 0;
    while i < clips.len()
        invariant
            i <= clips.len(),
            ranges@ == clip_ranges(clips@.take(i as int)),
        decreases clips.len() - i,
    {
        ranges.push(clips[i].edit_range);
        assert(clip_ranges(clips@.take(i + 1)) =~= clip_ranges(clips@.take(i as int)).push(clips@[i as int].edit_range));
        i = i + 1;
    }
    assert(clips@.take(clips.len() as int) =~= clips@);
    let order = edit_order(&ranges);
    assert forall|k: int| 0 <= k < order.len() implies #[trigger] order@[k] < clips.len() && clips_in_edit_order(
        clips@,
    )[k] == clips@[order@[k] as int] by {
        assert(order@[k] < ranges@.len());
    }
    order
}

/// The ids on the scene's edit, in edit order.
pub fn ordered_edit_ids(scene: &Scene) -> (ids: Vec<String>)
    ensures
        string_views(ids@) == ordered_edit_id_views(*scene),
{
    let mut ids: Vec<String> = Vec::new();
    if scene.shots.len() == 0 {
        let order = clip_order(&scene.edit_timeline);
        let ghost sorted = clips_in_edit_order(scene.edit_timeline@);
        let mut k: usize = 0;
        while k < order.len()
            invariant
                k <= order.len(),
                order.len() == scene.edit_timeline.len(),
                sorted == clips_in_edit_order(scene.edit_timeline@),
                sorted.len() == order.len(),
                forall|j: int| 0 <= j < order.len() ==> #[trigger] order@[j] < scene.edit_timeline.len() && sorted[j]
                    == scene.edit_timeline@[order@[j] as int],
                string_views(ids@) == sorted.take(k as int).map_values(|c: EditClip| c.id@),
            decreases order.len() - k,
        {
            let ghost before = ids@;
            ids.push(scene.edit_timeline[order[k]].id.clone());
            assert(sorted.take(k + 1).map_values(|c: EditClip| c.id@) =~= sorted.take(k as int).map_values(
                |c: EditClip| c.id@,
            ).push(sorted[k as int].id@));
            assert(string_views(ids@) =~= string_views(before).push(sorted[k as int].id@));
            k = k + 1;
        }
        assert(sorted.take(order.len() as int) =~= sorted);
    } else {
        let order = shot_order(&scene.shots);
        let ghost sorted = shots_in_edit_order(scene.shots@);
        let mut k: usize = 0;
        while k < order.len()
            invariant
                k <= order.len(),
                order.len() == scene.shots.len(),
                sorted == shots_in_edit_order(scene.shots@),
                sorted.len() == order.len(),
                forall|j: int| 0 <= j < order.len() ==> #[trigger] order@[j] < scene.shots.len() && sorted[j]
                    == scene.shots@[order@[j] as int],
                string_views(ids@) == sorted.take(k as int).map_values(|s: Shot| s.id@),
            decreases order.len() - k,
        {
            let ghost before = ids@;
            ids.push(scene.shots[order[k]].id.clone());
            assert(sorted.take(k + 1).map_values(|s: Shot| s.id@) =~= sorted.take(k as int).map_values(
                |s: Shot| s.id@,
            ).push(sorted[k as int].id@));
            assert(string_views(ids@) =~= string_views(before).push(sorted[k as int].id@));
            k = k + 1;
        }
        assert(sorted.take(order.len() as int) =~= sorted);
    }
    ids
}

/// Where a compiled shot sits on the edit: its neighbours' ids, its
/// transition in, and its authored relations.
#[derive(Debug, Clone)]
pub struct EditRelation {
    pub previous_shot_id: Option<String>,
    pub next_shot_id: Option<String>,
    pub transition_in: TransitionSpec,
    pub relations: Vec<ShotRelation>,
}

pub open spec fn option_view(s: Option<String>) -> Option<Seq<char>> {
    match s {
        Some(t) => Some(t@),
        None => None,
    }
}

/// The edit relation of `shot`, the `index`-th entry of the scene's edit.
pub fn edit_relation(scene: &Scene, shot: &Shot, index: usize) -> (relation: EditRelation)
    requires
        index < ordered_edit_id_views(*scene).len(),
    ensures
        option_view(relation.previous_shot_id) == (if index > 0 {
            Some(ordered_edit_id_views(*scene)[index - 1])
        } else {
            None
        }),
        option_view(relation.next_shot_id) == (if index + 1 < ordered_edit_id_views(*scene).len() {
            Some(ordered_edit_id_views(*scene)[index + 1])
        } else {
            None
        }),
        relation.transition_in == rich_transition_of(*shot),
        relation.relations@ == shot.relations@,
{
    let ids = ordered_edit_ids(scene);
    let previous_shot_id = if index > 0 { Some(ids[index - 1].clone()) } else { None };
    let next_shot_id = if index + 1 < ids.len() { Some(ids[index + 1].clone()) } else { None };
    let mut relations: Vec<ShotRelation> = Vec::new();
    let mut i: usize = 0;
    while i < shot.relations.len()
        invariant
            i <= shot.relations.len(),
            relations@ == shot.relations@.take(i as int),
        decreases shot.relations.len() - i,
    {
        relations.push(shot.relations[i].duplicate());
        assert(shot.relations@.take(i + 1) =~= shot.relations@.take(i as int).push(shot.relations@[i as int]));
        i = i + 1;
    }
    assert(shot.relations@.take(shot.relations.len() as int) =~= shot.relations@);
    EditRelation { previous_shot_id, next_shot_id, transition_in: rich_transition(shot), relations }
}

// ----------------------------------------------------------------------
// Slicing a take's camera program to a clip
// ----------------------------------------------------------------------

pub open spec fn saturating_sub(a: Frame, b: Frame) -> Frame {
    if a >= b { (a - b) as Frame } else { 0 }
}

pub open spec fn max_frame(a: Frame, b: Frame) -> Frame {
    if a >= b { a } else { b }
}

/// Operation `op` cut to the clip frames `[clip_start, clip_end)` of the
/// take and moved to start at the clip's first frame, if any of it remains.
pub open spec fn sliced_operation(op: TimedCameraOperation, clip_start: Frame, clip_end: Frame) -> Option<
    TimedCameraOperation,
> {
    let start = max_frame(op.range.start, clip_start);
    let end = min_frame(op.range.end, clip_end);
    if start < end {
        Some(
            TimedCameraOperation {
                range: FrameRange { start: (start - clip_start) as Frame, end: (end - clip_start) as Frame },
                ..op
            },
        )
    } else {
        None
    }
}

/// The first `n` operations sliced to the clip, dropping those outside it.
pub open spec fn sliced_operations(ops: Seq<TimedCameraOperation>, clip_start: Frame, clip_end: Frame, n: nat) -> Seq<
    TimedCameraOperation,
>
    decreases n,
{
    if n == 0 {
        Seq::empty()
    } else {
        sliced_operations(ops, clip_start, clip_end, (n - 1) as nat) + match sliced_operation(
            ops[n - 1],
            clip_start,
            clip_end,
        ) {
            Some(op) => seq![op],
            None => Seq::empty(),
        }
    }
}

/// The camera operations of a take that fall inside the clip's source
/// range, in the clip's own frames.
pub fn slice_operations(
    operations: &Vec<TimedCameraOperation>,
    performance_range: FrameRange,
    source_range: FrameRange,
) -> (sliced: Vec<TimedCameraOperation>)
    ensures
        sliced@ == sliced_operations(
            operations@,
            saturating_sub(source_range.start, performance_range.start),
            saturating_sub(source_range.end, performance_range.start),
            operations@.len(),
        ),
{
    let clip_start = if source_range.start >= performance_range.start {
        source_range.start - performance_range.start
    } else {
        0
    };
    let clip_end = if source_range.end >= performance_range.start {
        source_range.end - performance_range.start
    } else {
        0
    };
    let mut sliced: Vec<TimedCameraOperation> = Vec::new();
    let mut i: usize = 0;
    while i < operations.len()
        invariant
            i <= operations.len(),
            clip_start == saturating_sub(source_range.start, performance_range.start),
            clip_end == saturating_sub(source_range.end, performance_range.start),
            sliced@ == sliced_operations(operations@, clip_start, clip_end, i as nat),
        decreases operations.len() - i,
    {
        let timed = &operations[i];
        let start = if timed.range.start >= clip_start { timed.range.start } else { clip_start };
        let end = if timed.range.end <= clip_end { timed.range.end } else { clip_end };
        if start < end {
            let mut value = timed.duplicate();
            value.range = FrameRange { start: start - clip_start, end: end - clip_start };
            sliced.push(value);
        }
        i = i + 1;
    }
    sliced
}

// ----------------------------------------------------------------------
// Errors and the clip check
// ----------------------------------------------------------------------

/// Why compiling failed.
#[derive(Debug, Clone)]
pub enum CompileError {
    Solve(SolveError),
    InvalidOptions(String),
    MissingSolvedScene(String),
    MissingSolvedShot(String),
    MissingTake(String),
    InvalidEdit(String),
}

impl CompileError {
    /// The error as a sentence.
    pub fn message(&self) -> (text: String)
        ensures
            text@ == compile_error_text(*self),
    {
        match self {
            CompileError::Solve(error) => error.message(),
            CompileError::InvalidOptions(message) => {
                let mut text = owned("invalid compile options: ");
                push_str(&mut text, message.as_str());
                text
            },
            CompileError::MissingSolvedScene(id) => {
                let mut text = owned("solver did not produce scene '");
                push_str(&mut text, id.as_str());
                push_str(&mut text, "'");
                text
            },
            CompileError::MissingSolvedShot(id) => {
                let mut text = owned("solver did not produce shot '");
                push_str(&mut text, id.as_str());
                push_str(&mut text, "'");
                text
            },
            CompileError::MissingTake(id) => {
                let mut text = owned("edit timeline references unknown take '");
                push_str(&mut text, id.as_str());
                push_str(&mut text, "'");
                text
            },
            CompileError::InvalidEdit(message) => {
                let mut text = owned("invalid edit timeline: ");
                push_str(&mut text, message.as_str());
                text
            },
        }
    }
}

pub open spec fn compile_error_text(e: CompileError) -> Seq<char> {
    match e {
        CompileError::Solve(error) => solve_error_text(error),
        CompileError::InvalidOptions(message) => "invalid compile options: "@ + message@,
        CompileError::MissingSolvedScene(id) => "solver did not produce scene '"@ + id@ + "'"@,
        CompileError::MissingSolvedShot(id) => "solver did not produce shot '"@ + id@ + "'"@,
        CompileError::MissingTake(id) => "edit timeline references unknown take '"@ + id@ + "'"@,
        CompileError::InvalidEdit(message) => "invalid edit timeline: "@ + message@,
    }
}

/// Index of the first of the first `n` takes with id `id`.
pub open spec fn first_take(takes: Seq<Take>, id: Seq<char>, n: nat) -> Option<int>
    decreases n,
{
    if n == 0 {
        None
    } else {
        match first_take(takes, id, (n - 1) as nat) {
            Some(i) => Some(i),
            None => if takes[n - 1].id@ == id { Some(n - 1) } else { None },
        }
    }
}

pub open spec fn range_length(r: FrameRange) -> Frame {
    if r.start < r.end { (r.end - r.start) as Frame } else { 0 }
}

/// The clip selects frames inside the take's performance, as many as it
/// occupies on the edit.
pub open spec fn clip_fits_take(clip: EditClip, take: Take) -> bool {
    &&& clip.source_range.start >= take.performance_range.start
    &&& clip.source_range.end <= take.performance_range.end
    &&& range_length(clip.source_range) == range_length(clip.edit_range)
}

/// What is wrong with `clip`: its take is unknown (`true`, the take id) or
/// it does not fit its take (`false`, the explanation).
pub open spec fn clip_problem(takes: Seq<Take>, clip: EditClip) -> Option<(bool, Seq<char>)> {
    match first_take(takes, clip.take_id@, takes.len()) {
        None => Some((true, clip.take_id@)),
        Some(t) => if clip_fits_take(clip, takes[t]) {
            None
        } else {
            Some(
                (
                    false,
                    "clip '"@ + clip.id@ + "' must select an in-take source range with the same duration as edit_range"@,
                ),
            )
        },
    }
}

/// The first problem among `clips[k..]`.
pub open spec fn first_clip_problem(takes: Seq<Take>, clips: Seq<EditClip>, k: int) -> Option<(bool, Seq<char>)>
    decreases clips.len() - k,
{
    if k < 0 || k >= clips.len() {
        None
    } else {
        match clip_problem(takes, clips[k]) {
            Some(p) => Some(p),
            None => first_clip_problem(takes, clips, k + 1),
        }
    }
}

pub open spec fn clip_error_parts(e: CompileError) -> Option<(bool, Seq<char>)> {
    match e {
        CompileError::MissingTake(id) => Some((true, id@)),
        CompileError::InvalidEdit(message) => Some((false, message@)),
        _ => None,
    }
}

proof fn lemma_first_take_stable(takes: Seq<Take>, id: Seq<char>, m: nat, n: nat)
    requires
        m <= n <= takes.len(),
        first_take(takes, id, m) is Some,
    ensures
        first_take(takes, id, n) == first_take(takes, id, m),
    decreases n - m,
{
    if n > m {
        lemma_first_take_stable(takes, id, m, (n - 1) as nat);
    }
}

fn find_take(takes: &Vec<Take>, id: &String) -> (index: Option<usize>)
    ensures
        match index {
            Some(i) => first_take(takes@, id@, takes@.len()) == Some(i as int) && i < takes.len(),
            None => first_take(takes@, id@, takes@.len()) is None,
        },
{
    let mut i: usize = 0;
    while i < takes.len()
        invariant
            i <= takes.len(),
            first_take(takes@, id@, i as nat) is None,
        decreases takes.len() - i,
    {
        if takes[i].id == *id {
            proof { lemma_first_take_stable(takes@, id@, (i + 1) as nat, takes@.len()); }
            return Some(i);
        }
        i = i + 1;
    }
    None
}

fn range_length_exec(r: FrameRange) -> (n: Frame)
    ensures
        n == range_length(r),
{
    if r.start < r.end { r.end - r.start } else { 0 }
}

/// Checks the scene's edit clips in edit order and finds each one's take:
/// the index of the take of every clip, or the first clip whose take is
/// unknown or that does not fit its take.
pub fn resolve_edit_clips(scene: &Scene) -> (result: Result<Vec<usize>, CompileError>)
    ensures
        result is Ok <==> first_clip_problem(scene.takes@, clips_in_edit_order(scene.edit_timeline@), 0) is None,
        match result {
            Ok(takes) => takes.len() == scene.edit_timeline.len() && forall|k: int| 0 <= k < takes.len() ==> first_take(
                scene.takes@,
                #[trigger] clips_in_edit_order(scene.edit_timeline@)[k].take_id@,
                scene.takes@.len(),
            ) == Some(takes@[k] as int),
            Err(e) => clip_error_parts(e) == first_clip_problem(
                scene.takes@,
                clips_in_edit_order(scene.edit_timeline@),
                0,
            ),
        },
{
    let order = clip_order(&scene.edit_timeline);
    let ghost sorted = clips_in_edit_order(scene.edit_timeline@);
    let ghost takes_view = scene.takes@;
    let mut found: Vec<usize> = Vec::new();
    let mut k: usize = 0;
    while k < order.len()
        invariant
            k <= order.len(),
            order.len() == scene.edit_timeline.len(),
            sorted == clips_in_edit_order(scene.edit_timeline@),
            sorted.len() == order.len(),
            takes_view == scene.takes@,
            forall|j: int| 0 <= j < order.len() ==> #[trigger] order@[j] < scene.edit_timeline.len() && sorted[j]
                == scene.edit_timeline@[order@[j] as int],
            found.len() == k,
            forall|j: int| 0 <= j < k ==> clip_problem(takes_view, #[trigger] sorted[j]) is None,
            forall|j: int| 0 <= j < k ==> first_take(takes_view, #[trigger] sorted[j].take_id@, takes_view.len())
                == Some(found@[j] as int),
            first_clip_problem(takes_view, sorted, 0) == first_clip_problem(takes_view, sorted, k as int),
        decreases order.len() - k,
    {
        let clip = &scene.edit_timeline[order[k]];
        assert(sorted[k as int] == *clip);
        match find_take(&scene.takes, &clip.take_id) {
            None => {
                return Err(CompileError::MissingTake(clip.take_id.clone()));
            },
            Some(t) => {
                let take = &scene.takes[t];
                if clip.source_range.start < take.performance_range.start || clip.source_range.end
                    > take.performance_range.end || range_length_exec(clip.source_range) != range_length_exec(
                    clip.edit_range,
                ) {
                    let mut message = owned("clip '");
                    push_str(&mut message, clip.id.as_str());
                    push_str(
                        &mut message,
                        "' must select an in-take source range with the same duration as edit_range",
                    );
                    return Err(CompileError::InvalidEdit(message));
                }
                found.push(t);
            },
        }
        k = k + 1;
    }
    Ok(found)
}

// ----------------------------------------------------------------------
// The edit timeline of a scene
// ----------------------------------------------------------------------

/// The clip a shot stands for when a scene has no edit timeline of its own:
/// cut from the take of the same name over the shot's own range.
pub open spec fn is_implied_clip(clip: EditClip, shot: Shot) -> bool {
    &&& clip.id@ == shot.id@
    &&& clip.take_id@ == shot.id@
    &&& clip.source_range == shot.range
    &&& clip.edit_range == shot.range
    &&& clip.transition_in == rich_transition_of(shot)
}

/// Two clips agree in every field.
pub open spec fn same_clip(a: EditClip, b: EditClip) -> bool {
    &&& a.id@ == b.id@
    &&& a.take_id@ == b.take_id@
    &&& a.source_range == b.source_range
    &&& a.edit_range == b.edit_range
    &&& a.transition_in == b.transition_in
}

fn copy_clip(clip: &EditClip) -> (c: EditClip)
    ensures
        same_clip(c, *clip),
{
    EditClip {
        id: clip.id.clone(),
        take_id: clip.take_id.clone(),
        source_range: clip.source_range,
        edit_range: clip.edit_range,
        transition_in: clip.transition_in.duplicate(),
    }
}

/// A scene's edit timeline: its own clips when it has any; otherwise one
/// clip per shot, in edit order, each its shot's implied clip.
pub fn scene_edit_timeline(scene: &Scene) -> (clips: Vec<EditClip>)
    ensures
        scene.edit_timeline.len() > 0 ==> clips.len() == scene.edit_timeline.len() && forall|k: int|
            0 <= k < clips.len() ==> same_clip(#[trigger] clips@[k], scene.edit_timeline@[k]),
        scene.edit_timeline.len() == 0 ==> clips.len() == scene.shots.len() && forall|k: int|
            0 <= k < clips.len() ==> is_implied_clip(#[trigger] clips@[k], shots_in_edit_order(scene.shots@)[k]),
{
    let mut clips: Vec<EditClip> = Vec::new();
    if scene.edit_timeline.len() > 0 {
        let mut i: usize = 0;
        while i < scene.edit_timeline.len()
            invariant
                i <= scene.edit_timeline.len(),
                clips.len() == i,
                forall|k: int| 0 <= k < i ==> same_clip(#[trigger] clips@[k], scene.edit_timeline@[k]),
            decreases scene.edit_timeline.len() - i,
        {
            clips.push(copy_clip(&scene.edit_timeline[i]));
            i = i + 1;
        }
    } else {
        let order = shot_order(&scene.shots);
        let mut i: usize = 0;
        while i < order.len()
            invariant
                i <= order.len(),
                order.len() == scene.shots.len(),
                forall|k: int| 0 <= k < order.len() ==> #[trigger] order@[k] < scene.shots.len()
                    && shots_in_edit_order(scene.shots@)[k] == scene.shots@[order@[k] as int],
                clips.len() == i,
                forall|k: int| 0 <= k < i ==> is_implied_clip(#[trigger] clips@[k], shots_in_edit_order(scene.shots@)[k]),
            decreases order.len() - i,
        {
            let shot = &scene.shots[order[i]];
            assert(shots_in_edit_order(scene.shots@)[i as int] == scene.shots@[order@[i as int] as int]);
            clips.push(
                EditClip {
                    id: shot.id.clone(),
                    take_id: shot.id.clone(),
                    source_range: shot.range,
                    edit_range: shot.range,
                    transition_in: rich_transition(shot),
                },
            );
            i = i + 1;
        }
    }
    clips
}

/// The take frame shown at an edit frame: inside the clip's edit range the
/// matching frame of its source range, elsewhere the source's first frame.
pub open spec fn source_frame_at(clip: EditClip, edit_frame: Frame) -> int {
    if clip.edit_range.start <= edit_frame < clip.edit_range.end {
        clip.source_range.start + (edit_frame - clip.edit_range.start)
    } else {
        clip.source_range.start as int
    }
}

/// Maps an edit frame to the frame of the clip's take it shows.
pub fn clip_source_frame(clip: &EditClip, edit_frame: Frame) -> (frame: Frame)
    requires
        source_frame_at(*clip, edit_frame) <= u64::MAX,
    ensures
        frame == source_frame_at(*clip, edit_frame),
{
    if edit_frame >= clip.edit_range.start && edit_frame < clip.edit_range.end {
        clip.source_range.start + (edit_frame - clip.edit_range.start)
    } else {
        clip.source_range.start
    }
}

/// Where a shot compiled from a clip comes from, as its intent records it.
pub open spec fn clip_source_path_text(scene_id: Seq<char>, clip_id: Seq<char>, take_id: Seq<char>) -> Seq<char> {
    "scenes["@ + scene_id + "].edit_timeline["@ + clip_id + "] -> takes["@ + take_id + "]"@
}

pub fn clip_source_path(scene_id: &str, clip_id: &str, take_id: &str) -> (path: String)
    ensures
        path@ == clip_source_path_text(scene_id@, clip_id@, take_id@),
{
    let mut path = owned("scenes[");
    push_str(&mut path, scene_id);
    push_str(&mut path, "].edit_timeline[");
    push_str(&mut path, clip_id);
    push_str(&mut path, "] -> takes[");
    push_str(&mut path, take_id);
    push_str(&mut path, "]");
    path
}

// ----------------------------------------------------------------------
// Which constraints a shot carries
// ----------------------------------------------------------------------

/// Where a constraint of a shot comes from and when it applies: its id,
/// the source path of what it checks, and its edit-frame range. (What it
/// measures and its tolerance are real numbers, not carried here.)
#[derive(Debug, Clone)]
pub struct ConstraintSlot {
    pub id: String,
    pub source_path: String,
    pub range: FrameRange,
}

pub open spec fn slot_view(s: ConstraintSlot) -> (Seq<char>, Seq<char>, FrameRange) {
    (s.id@, s.source_path@, s.range)
}

pub open spec fn slot_views(s: Seq<ConstraintSlot>) -> Seq<(Seq<char>, Seq<char>, FrameRange)> {
    s.map_values(|x: ConstraintSlot| slot_view(x))
}

/// What the measured tracks say of one camera operation: whether its
/// subject has a screen position where it starts, and whether it asks to
/// keep its subject's screen height.
#[derive(Debug, Clone, Copy)]
pub struct OperationMeasures {
    pub screen_center_known: bool,
    pub screen_y_kept: bool,
}

/// `scenes[<scene>].shots[<shot>]`.
pub open spec fn shot_base(scene_id: Seq<char>, shot_id: Seq<char>) -> Seq<char> {
    "scenes["@ + scene_id + "].shots["@ + shot_id + "]"@
}

/// The frames a shot's transition in is checked over: from the shot's
/// start for the transition's length (at least one frame), within the shot.
pub open spec fn transition_range(shot: Shot) -> FrameRange {
    let d = rich_transition_of(shot).duration_frames;
    let end = shot.range.start + (if d == 0 { 1 } else { d });
    FrameRange { start: shot.range.start, end: if end < shot.range.end { end as u64 } else { shot.range.end } }
}

/// The constraints every shot carries, all over the whole shot but the
/// transition's.
pub open spec fn fixed_slots(base: Seq<char>, shot: Shot) -> Seq<(Seq<char>, Seq<char>, FrameRange)> {
    let r = shot.range;
    seq![
        ("framing.shot_size"@, base + ".framing.shot_size"@, r),
        ("framing.horizontal_angle"@, base + ".framing.horizontal_angle"@, r),
        ("framing.vertical_angle"@, base + ".framing.vertical_angle"@, r),
        ("framing.composition"@, base + ".framing.composition"@, r),
        ("framing.depth_layers"@, base + ".framing.composition.depth_layers"@, r),
        ("framing.horizon"@, base + ".framing.roll_deg"@, r),
        ("camera.rig"@, base + ".camera.rig"@, r),
        ("camera.anamorphic_squeeze"@, base + ".camera.initial_state.lens.anamorphic_squeeze"@, r),
        ("camera.exposure"@, base + ".camera.initial_state.exposure"@, r),
        ("lighting.setup"@, base + ".lighting_setup_id"@, r),
        ("edit.transition_in"@, base + ".transition"@, transition_range(shot)),
    ]
}

/// The axis constraint, when the shot observes the axis.
pub open spec fn axis_slots(base: Seq<char>, shot: Shot) -> Seq<(Seq<char>, Seq<char>, FrameRange)> {
    if shot.continuity.axis_observations.len() > 0 {
        seq![("continuity.axis"@, base + ".continuity.axis_observations"@, shot.range)]
    } else {
        Seq::empty()
    }
}

/// A held or settling phase asks for no camera motion.
pub open spec fn phase_slot(base: Seq<char>, phase: CompiledPhase) -> Seq<(Seq<char>, Seq<char>, FrameRange)> {
    if phase.kind is Hold || phase.kind is Settle {
        seq![(phase.id@ + ".no_camera_motion"@, base + ".camera.operations"@, phase.edit_range)]
    } else {
        Seq::empty()
    }
}

/// The subjects of the shot's background depth layers, in order.
pub open spec fn background_ids(layers: Seq<crate::model::DepthLayer>) -> Seq<Seq<char>>
    decreases layers.len(),
{
    if layers.len() == 0 {
        Seq::empty()
    } else {
        background_ids(layers.drop_last()) + if layers.last().role is Background {
            string_views(layers.last().subject_ids@)
        } else {
            Seq::empty()
        }
    }
}

/// The edit frames of operation `i` of a shot.
pub open spec fn operation_range(shot: Shot, i: int) -> FrameRange {
    let t = shot.camera.operations@[i];
    FrameRange { start: (shot.range.start + t.range.start) as u64, end: (shot.range.start + t.range.end) as u64 }
}

/// The constraints camera operation `i` adds: a hold asks for no motion; a
/// dolly zoom on a subject keeps its frame height, and its screen centre
/// when that is known, and spreads a background pair when there is one; a
/// reveal of a subject checks its visibility, and its screen height when
/// kept; a rack focus checks the focus handoff.
pub open spec fn operation_slots(base: Seq<char>, shot: Shot, i: int, m: OperationMeasures) -> Seq<
    (Seq<char>, Seq<char>, FrameRange),
> {
    let range = operation_range(shot, i);
    let path = base + ".camera.operations["@ + decimal(i as nat) + "]"@;
    let pre = "operation_"@ + decimal(i as nat);
    match shot.camera.operations@[i].operation {
        CameraOperation::Hold => seq![(pre + ".hold"@, path, range)],
        CameraOperation::DollyZoom { target: TargetRef::Subject { .. }, .. } => seq![
            (pre + ".subject_bbox_height"@, path + ".keep_subject_frame_fraction"@, range),
        ] + (if m.screen_center_known {
            seq![(pre + ".subject_screen_center"@, path, range)]
        } else {
            Seq::empty()
        }) + (if background_ids(shot.framing.composition.depth_layers@).len() >= 2 {
            seq![(pre + ".background_pair_separation"@, path, range)]
        } else {
            Seq::empty()
        }),
        CameraOperation::Reveal { target: TargetRef::Subject { .. }, .. } => seq![
            (pre + ".reveal_visibility"@, path, range),
        ] + (if m.screen_y_kept {
            seq![
                (
                    pre + ".target_screen_y"@,
                    shot.id@ + ".camera.operations["@ + decimal(i as nat) + "].preserve.target_screen_y"@,
                    range,
                ),
            ]
        } else {
            Seq::empty()
        }),
        CameraOperation::RackFocus { .. } => seq![(pre + ".focus_handoff"@, path, range)],
        _ => Seq::empty(),
    }
}

/// The constraints a shot carries, in order: the fixed ones, the axis,
/// the held phases, then each camera operation's.
pub open spec fn constraint_slots_of(
    scene_id: Seq<char>,
    shot: Shot,
    phases: Seq<CompiledPhase>,
    measures: Seq<OperationMeasures>,
) -> Seq<(Seq<char>, Seq<char>, FrameRange)> {
    let base = shot_base(scene_id, shot.id@);
    fixed_slots(base, shot) + axis_slots(base, shot) + crate::diagnostic::flatten(
        Seq::new(phases.len(), |k: int| phase_slot(base, phases[k])),
    ) + crate::diagnostic::flatten(
        Seq::new(
            shot.camera.operations@.len(),
            |i: int| operation_slots(base, shot, i, measures[i]),
        ),
    )
}

fn push_slot(out: &mut Vec<ConstraintSlot>, id: String, source_path: String, range: FrameRange)
    ensures
        slot_views(final(out)@) == slot_views(old(out)@).push((id@, source_path@, range)),
{
    out.push(ConstraintSlot { id, source_path, range });
    assert(slot_views(out@) =~= slot_views(old(out)@).push((id@, source_path@, range)));
}

fn suffixed(base: &str, suffix: &str) -> (s: String)
    ensures
        s@ == base@ + suffix@,
{
    let mut s = owned(base);
    push_str(&mut s, suffix);
    s
}

fn two_background_subjects(layers: &Vec<crate::model::DepthLayer>) -> (b: bool)
    ensures
        b == (background_ids(layers@).len() >= 2),
{
    let mut count: usize = 0;
    let mut i: usize = 0;
    while i < layers.len()
        invariant
            i <= layers.len(),
            count == (if background_ids(layers@.take(i as int)).len() >= 2 {
                2
            } else {
                background_ids(layers@.take(i as int)).len()
            }),
        decreases layers.len() - i,
    {
        assert(layers@.take(i + 1).drop_last() =~= layers@.take(i as int));
        if layers[i].role == crate::model::DepthRole::Background {
            let n = layers[i].subject_ids.len();
            count = if n >= 2 || count + n >= 2 { 2 } else { count + n };
        }
        i = i + 1;
    }
    assert(layers@.take(layers.len() as int) =~= layers@);
    count >= 2
}

fn add_operation_slots(
    out: &mut Vec<ConstraintSlot>,
    base: &String,
    shot: &Shot,
    i: usize,
    m: OperationMeasures,
    two_background: bool,
)
    requires
        i < shot.camera.operations.len(),
        two_background == (background_ids(shot.framing.composition.depth_layers@).len() >= 2),
        shot.range.start + shot.camera.operations@[i as int].range.start <= u64::MAX,
        shot.range.start + shot.camera.operations@[i as int].range.end <= u64::MAX,
    ensures
        slot_views(final(out)@) == slot_views(old(out)@) + operation_slots(base@, *shot, i as int, m),
{
    let t = &shot.camera.operations[i];
    let range = FrameRange { start: shot.range.start + t.range.start, end: shot.range.start + t.range.end };
    let mut path = suffixed(base.as_str(), ".camera.operations[");
    push_decimal(&mut path, i as u64);
    push_str(&mut path, "]");
    let mut pre = owned("operation_");
    push_decimal(&mut pre, i as u64);
    let ghost before = slot_views(out@);
    match &t.operation {
        CameraOperation::Hold => {
            push_slot(out, suffixed(pre.as_str(), ".hold"), path, range);
        },
        CameraOperation::DollyZoom { target: TargetRef::Subject { .. }, .. } => {
            push_slot(
                out,
                suffixed(pre.as_str(), ".subject_bbox_height"),
                suffixed(path.as_str(), ".keep_subject_frame_fraction"),
                range,
            );
            if m.screen_center_known {
                push_slot(out, suffixed(pre.as_str(), ".subject_screen_center"), path.clone(), range);
            }
            if two_background {
                push_slot(out, suffixed(pre.as_str(), ".background_pair_separation"), path.clone(), range);
            }
        },
        CameraOperation::Reveal { target: TargetRef::Subject { .. }, .. } => {
            push_slot(out, suffixed(pre.as_str(), ".reveal_visibility"), path, range);
            if m.screen_y_kept {
                let mut y_path = suffixed(shot.id.as_str(), ".camera.operations[");
                push_decimal(&mut y_path, i as u64);
                push_str(&mut y_path, "].preserve.target_screen_y");
                push_slot(out, suffixed(pre.as_str(), ".target_screen_y"), y_path, range);
            }
        },
        CameraOperation::RackFocus { .. } => {
            push_slot(out, suffixed(pre.as_str(), ".focus_handoff"), path, range);
        },
        _ => {},
    }
    assert(slot_views(out@) =~= before + operation_slots(base@, *shot, i as int, m));
}

/// The constraints a shot carries, where they come from and when they
/// apply; `measures[i]` says what the measured tracks show of operation
/// `i`.
pub fn constraint_slots(
    scene_id: &str,
    shot: &Shot,
    phases: &Vec<CompiledPhase>,
    measures: &Vec<OperationMeasures>,
) -> (slots: Vec<ConstraintSlot>)
    requires
        measures.len() == shot.camera.operations.len(),
        shot.range.start + (if rich_transition_of(*shot).duration_frames == 0 {
            1
        } else {
            rich_transition_of(*shot).duration_frames
        }) <= u64::MAX,
        forall|i: int|
            0 <= i < shot.camera.operations.len() ==> shot.range.start + #[trigger] shot.camera.operations@[i].range.start
                <= u64::MAX && shot.range.start + shot.camera.operations@[i].range.end <= u64::MAX,
    ensures
        slot_views(slots@) == constraint_slots_of(scene_id@, *shot, phases@, measures@),
{
    let mut base = owned("scenes[");
    push_str(&mut base, scene_id);
    push_str(&mut base, "].shots[");
    push_str(&mut base, shot.id.as_str());
    push_str(&mut base, "]");
    let r = shot.range;
    let mut out: Vec<ConstraintSlot> = Vec::new();
    push_slot(&mut out, owned("framing.shot_size"), suffixed(base.as_str(), ".framing.shot_size"), r);
    push_slot(&mut out, owned("framing.horizontal_angle"), suffixed(base.as_str(), ".framing.horizontal_angle"), r);
    push_slot(&mut out, owned("framing.vertical_angle"), suffixed(base.as_str(), ".framing.vertical_angle"), r);
    push_slot(&mut out, owned("framing.composition"), suffixed(base.as_str(), ".framing.composition"), r);
    push_slot(
        &mut out,
        owned("framing.depth_layers"),
        suffixed(base.as_str(), ".framing.composition.depth_layers"),
        r,
    );
    push_slot(&mut out, owned("framing.horizon"), suffixed(base.as_str(), ".framing.roll_deg"), r);
    push_slot(&mut out, owned("camera.rig"), suffixed(base.as_str(), ".camera.rig"), r);
    push_slot(
        &mut out,
        owned("camera.anamorphic_squeeze"),
        suffixed(base.as_str(), ".camera.initial_state.lens.anamorphic_squeeze"),
        r,
    );
    push_slot(&mut out, owned("camera.exposure"), suffixed(base.as_str(), ".camera.initial_state.exposure"), r);
    push_slot(&mut out, owned("lighting.setup"), suffixed(base.as_str(), ".lighting_setup_id"), r);
    let transition = rich_transition(shot);
    let length: u64 = if transition.duration_frames == 0 { 1 } else { transition.duration_frames };
    let end: u64 = if r.start + length < r.end { r.start + length } else { r.end };
    push_slot(
        &mut out,
        owned("edit.transition_in"),
        suffixed(base.as_str(), ".transition"),
        FrameRange { start: r.start, end },
    );
    assert(slot_views(out@) =~= fixed_slots(base@, *shot));
    if shot.continuity.axis_observations.len() > 0 {
        push_slot(
            &mut out,
            owned("continuity.axis"),
            suffixed(base.as_str(), ".continuity.axis_observations"),
            r,
        );
    }
    let ghost head = fixed_slots(base@, *shot) + axis_slots(base@, *shot);
    assert(slot_views(out@) =~= head);
    let ghost fp = |k: int| phase_slot(base@, phases@[k]);
    let mut k: usize = 0;
    while k < phases.len()
        invariant
            k <= phases.len(),
            fp == (|k: int| phase_slot(base@, phases@[k])),
            slot_views(out@) == head + crate::diagnostic::flatten(Seq::new(k as nat, fp)),
        decreases phases.len() - k,
    {
        let ghost before = slot_views(out@);
        let phase = &phases[k];
        if matches!(phase.kind, PhaseKind::Hold | PhaseKind::Settle) {
            push_slot(
                &mut out,
                suffixed(phase.id.as_str(), ".no_camera_motion"),
                suffixed(base.as_str(), ".camera.operations"),
                phase.edit_range,
            );
        }
        proof {
            crate::diagnostic::lemma_flatten_new_step(k as nat, fp);
            assert(slot_views(out@) =~= before + fp(k as int));
        }
        k = k + 1;
    }
    let ghost mid = head + crate::diagnostic::flatten(Seq::new(phases@.len(), fp));
    let two_background = two_background_subjects(&shot.framing.composition.depth_layers);
    let ghost fo = |i: int| operation_slots(base@, *shot, i, measures@[i]);
    let mut i: usize = 0;
    while i < shot.camera.operations.len()
        invariant
            i <= shot.camera.operations.len(),
            measures.len() == shot.camera.operations.len(),
            two_background == (background_ids(shot.framing.composition.depth_layers@).len() >= 2),
            forall|i: int|
                0 <= i < shot.camera.operations.len() ==> shot.range.start
                    + #[trigger] shot.camera.operations@[i].range.start <= u64::MAX && shot.range.start
                    + shot.camera.operations@[i].range.end <= u64::MAX,
            fo == (|i: int| operation_slots(base@, *shot, i, measures@[i])),
            slot_views(out@) == mid + crate::diagnostic::flatten(Seq::new(i as nat, fo)),
        decreases shot.camera.operations.len() - i,
    {
        let ghost before = slot_views(out@);
        add_operation_slots(&mut out, &base, shot, i, measures[i], two_background);
        proof {
            crate::diagnostic::lemma_flatten_new_step(i as nat, fo);
        }
        i = i + 1;
    }
    proof {
        assert(Seq::new(phases@.len(), fp) =~= Seq::new(phases@.len(), |k: int| phase_slot(base@, phases@[k])));
        assert(Seq::new(shot.camera.operations@.len(), fo) =~= Seq::new(
            shot.camera.operations@.len(),
            |i: int| operation_slots(base@, *shot, i, measures@[i]),
        ));
    }
    out
}

} // verus!
