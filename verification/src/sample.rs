//! Time sampling: which scene frames of a compiled timeline become panels,
//! each labelled with its shot and a caption, listed in frame order with at
//! most one panel per frame and shot.
use vstd::prelude::*;

use crate::compiled::{CompiledPhase, PhaseKind};
use crate::diagnostic::{flatten, lemma_flatten_new_step};
use crate::model::{Beat, Frame, FrameRange, FrameRate, Scene, Shot};
use crate::order::{edit_order, edit_order_of, increasing, lemma_increasing_unique, strict_total_order};
use crate::timeline::{shot_order, shots_in_edit_order};
use crate::text::{owned, push_str};
use crate::text::{chars_less, chars_of, lemma_text_less_asymmetric, lemma_text_less_irreflexive, lemma_text_less_total, lemma_text_less_transitive, text_less};

verus! {

broadcast use vstd::seq_lib::group_seq_properties;

/// Which moments of a scene get a panel.
#[derive(Debug, Clone, Copy, PartialEq, Eq, Structural)]
pub enum Sampling {
    /// One panel per shot, at the shot's first frame.
    PerShot,
    /// One panel per beat, at the beat's first frame.
    PerBeat,
    /// A panel at every camera-operation start and end, plus shot starts.
    OperationEndpoints,
    /// A panel every `n` scene frames.
    EveryNFrames(u64),
    /// Every frame, subsampled to roughly `fps` frames per second.
    Continuous { fps: u32 },
    /// Operation boundaries, velocity midpoints, focus/reveal milestones,
    /// beat apices, and both sides of cuts.
    SemanticEvents,
    /// Start, midpoint, and last active frame of every compiled phase.
    PhaseKeyframes,
    /// Frames where observable constraint signals reach their extrema.
    ConstraintExtrema,
    /// Last frame before and first frame after every edit.
    CutPairs,
}

#[derive(Debug, Clone)]
pub struct SamplePoint {
    pub scene_frame: Frame,
    pub shot_id: String,
    /// Human-facing caption (shot id, beat id, ...).
    pub label: String,
}


/// A panel's moment as plain values.
pub struct PointView {
    pub frame: Frame,
    pub shot: Seq<char>,
    pub label: Seq<char>,
}

impl View for SamplePoint {
    type V = PointView;

    open spec fn view(&self) -> PointView {
        PointView { frame: self.scene_frame, shot: self.shot_id@, label: self.label@ }
    }
}

pub open spec fn point_views(points: Seq<SamplePoint>) -> Seq<PointView> {
    points.map_values(|p: SamplePoint| p@)
}

/// `a` comes before `b`: an earlier frame, or the same frame and a shot id
/// earlier in text order.
pub open spec fn key_less(a: PointView, b: PointView) -> bool {
    a.frame < b.frame || (a.frame == b.frame && text_less(a.shot, b.shot))
}

pub open spec fn same_key(a: PointView, b: PointView) -> bool {
    a.frame == b.frame && a.shot == b.shot
}

pub open spec fn label_at_most(a: PointView, b: PointView) -> bool {
    a.label == b.label || text_less(a.label, b.label)
}

/// `out` is the panel list of the candidate moments `raw`: strictly
/// increasing by (frame, shot id), drawn from `raw`, and holding for every
/// candidate one moment at its frame and shot whose caption is no later in
/// text order. Ordering by (frame, shot id, caption) and keeping the first
/// moment of each frame and shot gives exactly this list.
pub open spec fn is_panel_list(out: Seq<PointView>, raw: Seq<PointView>) -> bool {
    &&& forall|i: int, j: int| 0 <= i < j < out.len() ==> key_less(#[trigger] out[i], #[trigger] out[j])
    &&& forall|i: int| 0 <= i < out.len() ==> raw.contains(#[trigger] out[i])
    &&& forall|k: int| 0 <= k < raw.len() ==> #[trigger] covered(out, raw[k])
}

/// Some moment of `out` is at `p`'s frame and shot, captioned no later.
pub open spec fn covered(out: Seq<PointView>, p: PointView) -> bool {
    exists|i: int| 0 <= i < out.len() && same_key(#[trigger] out[i], p) && label_at_most(out[i], p)
}

proof fn lemma_key_less_transitive(a: PointView, b: PointView, c: PointView)
    requires
        key_less(a, b),
        key_less(b, c),
    ensures
        key_less(a, c),
{
    if a.frame == b.frame && b.frame == c.frame {
        lemma_text_less_transitive(a.shot, b.shot, c.shot);
    }
}

proof fn lemma_key_less_total(a: PointView, b: PointView)
    requires
        !same_key(a, b),
    ensures
        key_less(a, b) || key_less(b, a),
{
    if a.frame == b.frame {
        lemma_text_less_total(a.shot, b.shot);
    }
}

proof fn lemma_key_less_irreflexive(a: PointView, b: PointView)
    requires
        same_key(a, b),
    ensures
        !key_less(a, b),
{
    lemma_text_less_irreflexive(a.shot);
}

/// The full order of moments: by frame, shot id, then caption.
pub open spec fn view_less(a: PointView, b: PointView) -> bool {
    key_less(a, b) || (same_key(a, b) && text_less(a.label, b.label))
}

proof fn lemma_view_order()
    ensures
        strict_total_order(|a: PointView, b: PointView| view_less(a, b)),
{
    assert forall|x: PointView| !#[trigger] view_less(x, x) by {
        lemma_key_less_irreflexive(x, x);
        lemma_text_less_irreflexive(x.label);
    }
    assert forall|x: PointView, y: PointView, z: PointView| #[trigger] view_less(x, y) && #[trigger] view_less(y, z) implies view_less(x, z) by {
        if key_less(x, y) && key_less(y, z) {
            lemma_key_less_transitive(x, y, z);
        } else if key_less(x, y) {
            if x.frame == y.frame {
                assert(text_less(x.shot, y.shot));
            }
        } else if key_less(y, z) {
        } else {
            lemma_text_less_transitive(x.label, y.label, z.label);
        }
    }
    assert forall|x: PointView, y: PointView| x != y implies #[trigger] view_less(x, y) || view_less(y, x) by {
        if !same_key(x, y) {
            lemma_key_less_total(x, y);
        } else {
            assert(x.label != y.label);
            lemma_text_less_total(x.label, y.label);
        }
    }
}

/// A moment of a panel list is the only one at its frame and shot.
proof fn lemma_panel_key_unique(out: Seq<PointView>, raw: Seq<PointView>, i: int, j: int)
    requires
        is_panel_list(out, raw),
        0 <= i < out.len(),
        0 <= j < out.len(),
        same_key(out[i], out[j]),
    ensures
        i == j,
{
    if i < j {
        assert(key_less(out[i], out[j]));
        lemma_key_less_irreflexive(out[i], out[j]);
    } else if j < i {
        assert(key_less(out[j], out[i]));
        lemma_key_less_irreflexive(out[j], out[i]);
    }
}

proof fn lemma_panel_member(a: Seq<PointView>, b: Seq<PointView>, raw: Seq<PointView>, x: PointView)
    requires
        is_panel_list(a, raw),
        is_panel_list(b, raw),
        a.contains(x),
    ensures
        b.contains(x),
{
    let ia = choose|i: int| 0 <= i < a.len() && a[i] == x;
    assert(raw.contains(a[ia]));
    let k = choose|k: int| 0 <= k < raw.len() && raw[k] == x;
    assert(covered(b, raw[k]));
    let ib = choose|i: int| 0 <= i < b.len() && same_key(#[trigger] b[i], raw[k]) && label_at_most(b[i], raw[k]);
    let y = b[ib];
    assert(raw.contains(b[ib]));
    let m = choose|m: int| 0 <= m < raw.len() && raw[m] == y;
    assert(covered(a, raw[m]));
    let iz = choose|i: int| 0 <= i < a.len() && same_key(#[trigger] a[i], raw[m]) && label_at_most(a[i], raw[m]);
    lemma_panel_key_unique(a, raw, iz, ia);
    if x.label != y.label {
        assert(text_less(y.label, x.label));
        assert(text_less(x.label, y.label));
        lemma_text_less_asymmetric(x.label, y.label);
    }
    assert(y == x);
}

/// The panel list of a set of candidate moments is unique: any two lists
/// with the defining properties are equal.
pub proof fn lemma_panel_list_unique(a: Seq<PointView>, b: Seq<PointView>, raw: Seq<PointView>)
    requires
        is_panel_list(a, raw),
        is_panel_list(b, raw),
    ensures
        a == b,
{
    lemma_view_order();
    assert forall|x: PointView| a.contains(x) <==> b.contains(x) by {
        if a.contains(x) {
            lemma_panel_member(a, b, raw, x);
        }
        if b.contains(x) {
            lemma_panel_member(b, a, raw, x);
        }
    }
    let lt = |x: PointView, y: PointView| view_less(x, y);
    assert(increasing(a, lt));
    assert(increasing(b, lt));
    lemma_increasing_unique(a, b, lt);
}

/// A panel list is its own panel list: listing panels again changes
/// nothing.
pub proof fn lemma_panel_list_idempotent(out: Seq<PointView>, raw: Seq<PointView>)
    requires
        is_panel_list(out, raw),
    ensures
        is_panel_list(out, out),
{
    assert forall|k: int| 0 <= k < out.len() implies #[trigger] covered(out, out[k]) by {
        assert(same_key(out[k], out[k]) && label_at_most(out[k], out[k]));
    }
}

fn point_key_less(a: &SamplePoint, b: &SamplePoint) -> (r: bool)
    ensures
        r == key_less(a@, b@),
{
    if a.scene_frame < b.scene_frame {
        true
    } else if a.scene_frame > b.scene_frame {
        false
    } else {
        chars_less(&chars_of(a.shot_id.as_str()), &chars_of(b.shot_id.as_str()))
    }
}

fn point_same_key(a: &SamplePoint, b: &SamplePoint) -> (r: bool)
    ensures
        r == same_key(a@, b@),
{
    a.scene_frame == b.scene_frame && a.shot_id == b.shot_id
}

fn copy_point(p: &SamplePoint) -> (c: SamplePoint)
    ensures
        c@ == p@,
{
    SamplePoint { scene_frame: p.scene_frame, shot_id: p.shot_id.clone(), label: p.label.clone() }
}

/// The panel list of the candidate moments `raw`, in frame order, one per
/// frame and shot, keeping the caption first in text order.
pub fn panel_list(raw: &Vec<SamplePoint>) -> (out: Vec<SamplePoint>)
    ensures
        is_panel_list(point_views(out@), point_views(raw@)),
{
    let ghost rv = point_views(raw@);
    let mut out: Vec<SamplePoint> = Vec::new();
    let mut n: usize = 0;
    while n < raw.len()
        invariant
            n <= raw.len(),
            rv == point_views(raw@),
            is_panel_list(point_views(out@), rv.take(n as int)),
        decreases raw.len() - n,
    {
        let p = &raw[n];
        let ghost before = point_views(out@);
        let ghost seen = rv.take(n as int);
        assert(rv.take(n + 1) =~= seen.push(p@));
        let mut pos: usize = 0;
        while pos < out.len() && point_key_less(&out[pos], p)
            invariant
                pos <= out.len(),
                before == point_views(out@),
                forall|j: int| 0 <= j < pos ==> key_less(#[trigger] before[j], p@),
            decreases out.len() - pos,
        {
            pos = pos + 1;
        }
        if pos < out.len() && point_same_key(&out[pos], p) {
            let replace = chars_less(&chars_of(p.label.as_str()), &chars_of(out[pos].label.as_str()));
            if replace {
                out.set(pos, copy_point(p));
                let ghost after = point_views(out@);
                assert(after =~= before.update(pos as int, p@));
                proof { self::lemma_replace_keeps_panel_list(before, seen, p@, pos as int); }
            } else {
                proof {
                    if before[pos as int].label != p@.label {
                        lemma_text_less_total(before[pos as int].label, p@.label);
                    }
                    self::lemma_skip_keeps_panel_list(before, seen, p@, pos as int);
                }
            }
        } else {
            proof {
                if pos < out.len() {
                    lemma_key_less_total(before[pos as int], p@);
                }
            }
            out.insert(pos, copy_point(p));
            let ghost after = point_views(out@);
            assert(after =~= before.insert(pos as int, p@));
            proof { self::lemma_insert_keeps_panel_list(before, seen, p@, pos as int); }
        }
        n = n + 1;
    }
    assert(rv.take(raw.len() as int) =~= rv);
    out
}

proof fn lemma_replace_keeps_panel_list(out: Seq<PointView>, raw: Seq<PointView>, p: PointView, pos: int)
    requires
        is_panel_list(out, raw),
        0 <= pos < out.len(),
        same_key(out[pos], p),
        text_less(p.label, out[pos].label),
    ensures
        is_panel_list(out.update(pos, p), raw.push(p)),
{
    let after = out.update(pos, p);
    let whole = raw.push(p);
    assert forall|i: int, j: int| 0 <= i < j < after.len() implies key_less(#[trigger] after[i], #[trigger] after[j]) by {
        assert(key_less(out[i], out[j]));
    }
    assert forall|i: int| 0 <= i < after.len() implies whole.contains(#[trigger] after[i]) by {
        if i == pos {
            assert(whole[raw.len() as int] == p);
        } else {
            let w = choose|w: int| 0 <= w < raw.len() && raw[w] == out[i];
            assert(whole[w] == out[i]);
        }
    }
    assert forall|k: int| 0 <= k < whole.len() implies #[trigger] covered(after, whole[k]) by {
        if k == raw.len() {
            assert(same_key(after[pos], whole[k]) && label_at_most(after[pos], whole[k]));
        } else {
            assert(whole[k] == raw[k]);
            assert(covered(out, raw[k]));
            let i = choose|i: int| 0 <= i < out.len() && same_key(#[trigger] out[i], raw[k]) && label_at_most(out[i], raw[k]);
            if i == pos {
                if out[pos].label != raw[k].label {
                    lemma_text_less_transitive(p.label, out[pos].label, raw[k].label);
                }
                assert(same_key(after[pos], whole[k]) && label_at_most(after[pos], whole[k]));
            } else {
                assert(same_key(after[i], whole[k]) && label_at_most(after[i], whole[k]));
            }
        }
    }
}

proof fn lemma_skip_keeps_panel_list(out: Seq<PointView>, raw: Seq<PointView>, p: PointView, pos: int)
    requires
        is_panel_list(out, raw),
        0 <= pos < out.len(),
        same_key(out[pos], p),
        label_at_most(out[pos], p),
    ensures
        is_panel_list(out, raw.push(p)),
{
    let whole = raw.push(p);
    assert forall|i: int| 0 <= i < out.len() implies whole.contains(#[trigger] out[i]) by {
        let w = choose|w: int| 0 <= w < raw.len() && raw[w] == out[i];
        assert(whole[w] == out[i]);
    }
    assert forall|k: int| 0 <= k < whole.len() implies #[trigger] covered(out, whole[k]) by {
        if k == raw.len() {
            assert(same_key(out[pos], whole[k]) && label_at_most(out[pos], whole[k]));
        } else {
            assert(whole[k] == raw[k]);
        }
    }
}

proof fn lemma_insert_keeps_order(out: Seq<PointView>, p: PointView, pos: int)
    requires
        forall|i: int, j: int| 0 <= i < j < out.len() ==> key_less(#[trigger] out[i], #[trigger] out[j]),
        0 <= pos <= out.len(),
        forall|j: int| 0 <= j < pos ==> key_less(#[trigger] out[j], p),
        pos < out.len() ==> key_less(p, out[pos]),
    ensures
        forall|i: int, j: int| 0 <= i < j < out.insert(pos, p).len() ==> key_less(
            #[trigger] out.insert(pos, p)[i],
            #[trigger] out.insert(pos, p)[j],
        ),
{
    let after = out.insert(pos, p);
    assert forall|i: int, j: int| 0 <= i < j < after.len() implies key_less(#[trigger] after[i], #[trigger] after[j]) by {
        if j < pos {
            assert(after[i] == out[i] && after[j] == out[j]);
        } else if j == pos {
            assert(after[i] == out[i]);
        } else {
            assert(after[j] == out[j - 1]);
            // p sorts before every entry from `pos` on.
            if j - 1 > pos {
                assert(key_less(out[pos], out[j - 1]));
                lemma_key_less_transitive(p, out[pos], out[j - 1]);
            }
            if i < pos {
                assert(after[i] == out[i]);
                lemma_key_less_transitive(out[i], p, out[j - 1]);
            } else if i > pos {
                assert(after[i] == out[i - 1]);
                assert(key_less(out[i - 1], out[j - 1]));
            }
        }
    }
}

proof fn lemma_insert_keeps_panel_list(out: Seq<PointView>, raw: Seq<PointView>, p: PointView, pos: int)
    requires
        is_panel_list(out, raw),
        0 <= pos <= out.len(),
        forall|j: int| 0 <= j < pos ==> key_less(#[trigger] out[j], p),
        pos < out.len() ==> key_less(p, out[pos]),
    ensures
        is_panel_list(out.insert(pos, p), raw.push(p)),
{
    let after = out.insert(pos, p);
    let whole = raw.push(p);
    lemma_insert_keeps_order(out, p, pos);
    assert forall|i: int| 0 <= i < after.len() implies whole.contains(#[trigger] after[i]) by {
        if i == pos {
            assert(whole[raw.len() as int] == p);
        } else {
            let o = if i < pos { i } else { i - 1 };
            assert(after[i] == out[o]);
            assert(raw.contains(out[o]));
            let w = choose|w: int| 0 <= w < raw.len() && raw[w] == out[o];
            assert(whole[w] == out[o]);
        }
    }
    assert forall|k: int| 0 <= k < whole.len() implies #[trigger] covered(after, whole[k]) by {
        if k == raw.len() {
            assert(same_key(after[pos], whole[k]) && label_at_most(after[pos], whole[k]));
        } else {
            assert(whole[k] == raw[k]);
            assert(covered(out, raw[k]));
            let i = choose|i: int| 0 <= i < out.len() && same_key(#[trigger] out[i], raw[k]) && label_at_most(out[i], raw[k]);
            if i < pos {
                assert(after[i] == out[i]);
                assert(same_key(after[i], whole[k]) && label_at_most(after[i], whole[k]));
            } else {
                assert(after[i + 1] == out[i]);
                assert(same_key(after[i + 1], whole[k]) && label_at_most(after[i + 1], whole[k]));
            }
        }
    }
}

// ----------------------------------------------------------------------
// The compiled timeline as sampling reads it
// ----------------------------------------------------------------------

/// What sampling reads of a compiled shot: its id, its range on the edit,
/// its phases, and the frames where its observable constraint signals
/// reach their extrema (measured on its screen tracks).
#[derive(Debug, Clone)]
pub struct TimelineShot {
    pub id: String,
    pub edit_range: FrameRange,
    pub phases: Vec<CompiledPhase>,
    pub extrema_frames: Vec<Frame>,
}

/// What sampling reads of a compiled scene.
#[derive(Debug, Clone)]
pub struct TimelineScene {
    pub duration_frames: Frame,
    pub beats: Vec<Beat>,
    pub shots: Vec<TimelineShot>,
}

pub open spec fn point(frame: Frame, shot: Seq<char>, label: Seq<char>) -> PointView {
    PointView { frame, shot, label }
}

/// The last frame of `r` (`end - 1`, saturating at zero).
pub open spec fn last_frame(r: FrameRange) -> Frame {
    if r.end > 0 { (r.end - 1) as Frame } else { 0 }
}

/// Number of frames of `r`; zero when it is empty or reversed.
pub open spec fn span(r: FrameRange) -> int {
    if r.start < r.end { r.end - r.start } else { 0 }
}

/// `x`, but no later than `cap`.
pub open spec fn capped(x: int, cap: Frame) -> Frame {
    if x < cap { x as Frame } else { cap }
}

/// Per shot: its first frame.
pub open spec fn shot_start_points(s: TimelineShot) -> Seq<PointView> {
    seq![point(s.edit_range.start, s.id@, s.id@)]
}

/// Per phase: its first and last frames.
pub open spec fn phase_endpoint_points(id: Seq<char>, p: CompiledPhase) -> Seq<PointView> {
    seq![point(p.edit_range.start, id, p.id@ + " start"@), point(last_frame(p.edit_range), id, p.id@ + " end"@)]
}

/// Operation endpoints of a shot: its first frame, then its phases' ends.
pub open spec fn endpoint_points(s: TimelineShot) -> Seq<PointView> {
    shot_start_points(s) + flatten(Seq::new(s.phases@.len(), |j: int| phase_endpoint_points(s.id@, s.phases@[j])))
}

/// Per phase: start, midpoint and last frame (`settle` for a settling phase).
pub open spec fn phase_keyframe_points(id: Seq<char>, p: CompiledPhase) -> Seq<PointView> {
    let start = p.edit_range.start;
    let end = last_frame(p.edit_range);
    seq![
        point(start, id, p.id@ + " start"@),
        point(capped(start + span(p.edit_range) / 2, end), id, p.id@ + " mid"@),
        point(end, id, p.id@ + if p.kind == PhaseKind::Settle { " settle"@ } else { " end"@ }),
    ]
}

pub open spec fn keyframe_points(s: TimelineShot) -> Seq<PointView> {
    flatten(Seq::new(s.phases@.len(), |j: int| phase_keyframe_points(s.id@, s.phases@[j])))
}

/// The frame `q` quarters into phase `p`, no later than its last frame.
pub open spec fn quarter_point(id: Seq<char>, p: CompiledPhase, q: int, suffix: Seq<char>) -> PointView {
    point(capped(p.edit_range.start + span(p.edit_range) * q / 4, last_frame(p.edit_range)), id, p.id@ + suffix)
}

/// Per phase: its start; its apex unless it holds or settles; its
/// quarters if it reveals; its last frame.
pub open spec fn phase_event_points(id: Seq<char>, p: CompiledPhase) -> Seq<PointView> {
    let start = p.edit_range.start;
    let end = last_frame(p.edit_range);
    seq![point(start, id, p.id@ + " start"@)] + (if p.kind != PhaseKind::Hold && p.kind != PhaseKind::Settle {
        seq![point(capped(start + span(p.edit_range) / 2, end), id, p.id@ + " apex"@)]
    } else {
        Seq::empty()
    }) + (if p.kind == PhaseKind::Reveal {
        seq![quarter_point(id, p, 1, " 25%"@), quarter_point(id, p, 2, " 50%"@), quarter_point(id, p, 3, " 75%"@)]
    } else {
        Seq::empty()
    }) + seq![point(end, id, p.id@ + " end"@)]
}

pub open spec fn event_points(s: TimelineShot) -> Seq<PointView> {
    flatten(Seq::new(s.phases@.len(), |j: int| phase_event_points(s.id@, s.phases@[j])))
}

/// Per shot: its first and last frames and its constraint extrema.
pub open spec fn extrema_points(s: TimelineShot) -> Seq<PointView> {
    let label = s.id@ + " constraint"@;
    seq![point(s.edit_range.start, s.id@, label), point(last_frame(s.edit_range), s.id@, label)] + Seq::new(
        s.extrema_frames@.len(),
        |k: int| point(s.extrema_frames@[k], s.id@, label),
    )
}

pub open spec fn edit_ranges(shots: Seq<TimelineShot>) -> Seq<FrameRange> {
    shots.map_values(|s: TimelineShot| s.edit_range)
}

/// Both sides of one cut: the last frame before it and the first after.
pub open spec fn cut_pair_points(previous: TimelineShot, next: TimelineShot) -> Seq<PointView> {
    seq![
        point(last_frame(previous.edit_range), previous.id@, "cut out "@ + previous.id@),
        point(next.edit_range.start, next.id@, "cut in "@ + next.id@),
    ]
}

/// Both sides of every cut between shots adjacent in edit order.
pub open spec fn cut_points(shots: Seq<TimelineShot>) -> Seq<PointView> {
    let order = edit_order_of(edit_ranges(shots));
    flatten(
        Seq::new(
            if shots.len() > 0 { (shots.len() - 1) as nat } else { 0 },
            |k: int| cut_pair_points(shots[order[k] as int], shots[order[k + 1] as int]),
        ),
    )
}

/// Index of the first of the first `n` shots whose edit range holds `frame`.
pub open spec fn shot_at(shots: Seq<TimelineShot>, frame: Frame, n: nat) -> Option<int>
    decreases n,
{
    if n == 0 {
        None
    } else {
        match shot_at(shots, frame, (n - 1) as nat) {
            Some(i) => Some(i),
            None => if shots[n - 1].edit_range.start <= frame < shots[n - 1].edit_range.end {
                Some(n - 1)
            } else {
                None
            },
        }
    }
}

/// Per beat: its first frame, when a shot is on the edit there.
pub open spec fn beat_points(shots: Seq<TimelineShot>, b: Beat) -> Seq<PointView> {
    match shot_at(shots, b.range.start, shots.len()) {
        Some(i) => seq![point(b.range.start, shots[i].id@, b.id@)],
        None => Seq::empty(),
    }
}

/// `frame`, when a shot is on the edit there.
pub open spec fn frame_points(shots: Seq<TimelineShot>, frame: Frame) -> Seq<PointView> {
    match shot_at(shots, frame, shots.len()) {
        Some(i) => seq![point(frame, shots[i].id@, shots[i].id@)],
        None => Seq::empty(),
    }
}

/// Number of multiples of `step` below `duration`.
pub open spec fn stride_count(duration: Frame, step: nat) -> nat {
    (duration as nat / step + if duration as nat % step == 0 { 0nat } else { 1nat }) as nat
}

/// Every `step`-th frame below `duration`, from frame 0, when a shot is on
/// the edit there.
pub open spec fn every_points(shots: Seq<TimelineShot>, duration: Frame, step: nat) -> Seq<PointView> {
    flatten(Seq::new(stride_count(duration, step), |k: int| frame_points(shots, (k * step) as Frame)))
}

/// Frames per panel for continuous sampling at `fps`: the project rate
/// (`numerator / denominator` frames per second) over `fps`, rounded half
/// away from zero and at least 1; 1 when `fps` is zero or the rate has a
/// zero term.
pub open spec fn continuous_step(rate: FrameRate, fps: u32) -> nat {
    if fps == 0 || rate.numerator == 0 || rate.denominator == 0 {
        1
    } else {
        let b = rate.denominator * fps;
        let q = (2 * rate.numerator + b) / (2 * b);
        if q >= 1 { q as nat } else { 1 }
    }
}

/// The candidate moments of `scene` under `sampling`, in the order the
/// timeline is walked.
pub open spec fn candidate_points(scene: TimelineScene, sampling: Sampling, rate: FrameRate) -> Seq<PointView> {
    let shots = scene.shots@;
    match sampling {
        Sampling::PerShot => flatten(Seq::new(shots.len(), |i: int| shot_start_points(shots[i]))),
        Sampling::PerBeat => flatten(Seq::new(scene.beats@.len(), |i: int| beat_points(shots, scene.beats@[i]))),
        Sampling::OperationEndpoints => flatten(Seq::new(shots.len(), |i: int| endpoint_points(shots[i]))),
        Sampling::PhaseKeyframes => flatten(Seq::new(shots.len(), |i: int| keyframe_points(shots[i]))),
        Sampling::SemanticEvents => flatten(Seq::new(shots.len(), |i: int| event_points(shots[i]))) + cut_points(
            shots,
        ),
        Sampling::ConstraintExtrema => flatten(Seq::new(shots.len(), |i: int| extrema_points(shots[i]))),
        Sampling::CutPairs => cut_points(shots),
        Sampling::EveryNFrames(n) => every_points(shots, scene.duration_frames, if n == 0 { 1 } else { n as nat }),
        Sampling::Continuous { fps } => every_points(shots, scene.duration_frames, continuous_step(rate, fps)),
    }
}

// ----------------------------------------------------------------------
// Building the candidates
// ----------------------------------------------------------------------

fn push_point(out: &mut Vec<SamplePoint>, frame: Frame, shot: &String, label: String)
    ensures
        point_views(final(out)@) == point_views(old(out)@).push(point(frame, shot@, label@)),
{
    let ghost before = out@;
    out.push(SamplePoint { scene_frame: frame, shot_id: shot.clone(), label });
    assert(point_views(out@) =~= point_views(before).push(point(frame, shot@, label@)));
}

fn suffixed(base: &String, suffix: &str) -> (s: String)
    ensures
        s@ == base@ + suffix@,
{
    let mut s = base.clone();
    push_str(&mut s, suffix);
    s
}

fn prefixed(prefix: &str, base: &String) -> (s: String)
    ensures
        s@ == prefix@ + base@,
{
    let mut s = owned(prefix);
    push_str(&mut s, base.as_str());
    s
}

fn last_frame_of(r: FrameRange) -> (f: Frame)
    ensures
        f == last_frame(r),
{
    if r.end > 0 { r.end - 1 } else { 0 }
}

fn span_of(r: FrameRange) -> (d: Frame)
    ensures
        d == span(r),
        r.start + d <= u64::MAX,
{
    if r.start < r.end { r.end - r.start } else { 0 }
}

fn capped_at(x: Frame, cap: Frame) -> (f: Frame)
    ensures
        f == capped(x as int, cap),
{
    if x < cap { x } else { cap }
}

/// `start + d * q / 4` for `q` in `1..=3`, without overflow.
fn quarter_frame(start: Frame, d: Frame, q: u64) -> (f: Frame)
    requires
        1 <= q <= 3,
        start + d <= u64::MAX,
    ensures
        f == start + d * q / 4,
{
    proof {
        vstd::arithmetic::div_mod::lemma_fundamental_div_mod(d as int, 4);
        assert((d / 4) * q <= d && (d % 4) * q <= 12) by (nonlinear_arith)
            requires
                1 <= q <= 3,
                d == 4 * (d / 4) + d % 4,
                0 <= d % 4 < 4,
        ;
        assert(d * q / 4 == (d / 4) * q + ((d % 4) * q) / 4 && (d / 4) * q + ((d % 4) * q) / 4 <= d) by (nonlinear_arith)
            requires
                1 <= q <= 3,
                d == 4 * (d / 4) + d % 4,
                0 <= d % 4 < 4,
        ;
    }
    let whole = (d / 4) * q;
    let part = ((d % 4) * q) / 4;
    start + whole + part
}

fn add_endpoints(out: &mut Vec<SamplePoint>, s: &TimelineShot)
    ensures
        point_views(final(out)@) == point_views(old(out)@) + endpoint_points(*s),
{
    push_point(out, s.edit_range.start, &s.id, s.id.clone());
    let ghost head = point_views(out@);
    let ghost f = |j: int| phase_endpoint_points(s.id@, s.phases@[j]);
    let mut j: usize = 0;
    while j < s.phases.len()
        invariant
            j <= s.phases.len(),
            f == (|j: int| phase_endpoint_points(s.id@, s.phases@[j])),
            point_views(out@) == head + flatten(Seq::new(j as nat, f)),
        decreases s.phases.len() - j,
    {
        let p = &s.phases[j];
        push_point(out, p.edit_range.start, &s.id, suffixed(&p.id, " start"));
        push_point(out, last_frame_of(p.edit_range), &s.id, suffixed(&p.id, " end"));
        proof { lemma_flatten_new_step(j as nat, f); }
        j = j + 1;
    }
    assert(point_views(out@) =~= point_views(old(out)@) + endpoint_points(*s));
}

fn add_keyframes(out: &mut Vec<SamplePoint>, s: &TimelineShot)
    ensures
        point_views(final(out)@) == point_views(old(out)@) + keyframe_points(*s),
{
    let ghost head = point_views(out@);
    let ghost f = |j: int| phase_keyframe_points(s.id@, s.phases@[j]);
    let mut j: usize = 0;
    while j < s.phases.len()
        invariant
            j <= s.phases.len(),
            f == (|j: int| phase_keyframe_points(s.id@, s.phases@[j])),
            point_views(out@) == head + flatten(Seq::new(j as nat, f)),
        decreases s.phases.len() - j,
    {
        let p = &s.phases[j];
        let start = p.edit_range.start;
        let end = last_frame_of(p.edit_range);
        let d = span_of(p.edit_range);
        push_point(out, start, &s.id, suffixed(&p.id, " start"));
        push_point(out, capped_at(start + d / 2, end), &s.id, suffixed(&p.id, " mid"));
        let last = if p.kind == PhaseKind::Settle { " settle" } else { " end" };
        push_point(out, end, &s.id, suffixed(&p.id, last));
        proof { lemma_flatten_new_step(j as nat, f); }
        j = j + 1;
    }
}

fn add_events(out: &mut Vec<SamplePoint>, s: &TimelineShot)
    ensures
        point_views(final(out)@) == point_views(old(out)@) + event_points(*s),
{
    let ghost head = point_views(out@);
    let ghost f = |j: int| phase_event_points(s.id@, s.phases@[j]);
    let mut j: usize = 0;
    while j < s.phases.len()
        invariant
            j <= s.phases.len(),
            f == (|j: int| phase_event_points(s.id@, s.phases@[j])),
            point_views(out@) == head + flatten(Seq::new(j as nat, f)),
        decreases s.phases.len() - j,
    {
        let p = &s.phases[j];
        let ghost before = point_views(out@);
        let start = p.edit_range.start;
        let end = last_frame_of(p.edit_range);
        let d = span_of(p.edit_range);
        push_point(out, start, &s.id, suffixed(&p.id, " start"));
        if p.kind != PhaseKind::Hold && p.kind != PhaseKind::Settle {
            push_point(out, capped_at(start + d / 2, end), &s.id, suffixed(&p.id, " apex"));
        }
        if p.kind == PhaseKind::Reveal {
            push_point(out, capped_at(quarter_frame(start, d, 1), end), &s.id, suffixed(&p.id, " 25%"));
            push_point(out, capped_at(quarter_frame(start, d, 2), end), &s.id, suffixed(&p.id, " 50%"));
            push_point(out, capped_at(quarter_frame(start, d, 3), end), &s.id, suffixed(&p.id, " 75%"));
        }
        push_point(out, end, &s.id, suffixed(&p.id, " end"));
        assert(point_views(out@) =~= before + phase_event_points(s.id@, *p));
        proof { lemma_flatten_new_step(j as nat, f); }
        j = j + 1;
    }
}

fn add_extrema(out: &mut Vec<SamplePoint>, s: &TimelineShot)
    ensures
        point_views(final(out)@) == point_views(old(out)@) + extrema_points(*s),
{
    let ghost before = point_views(out@);
    let label = suffixed(&s.id, " constraint");
    push_point(out, s.edit_range.start, &s.id, label.clone());
    push_point(out, last_frame_of(s.edit_range), &s.id, label.clone());
    let ghost head = point_views(out@);
    let mut k: usize = 0;
    while k < s.extrema_frames.len()
        invariant
            k <= s.extrema_frames.len(),
            label@ == s.id@ + " constraint"@,
            point_views(out@) == head + Seq::new(k as nat, |m: int| point(s.extrema_frames@[m], s.id@, label@)),
        decreases s.extrema_frames.len() - k,
    {
        push_point(out, s.extrema_frames[k], &s.id, label.clone());
        assert(Seq::new((k + 1) as nat, |m: int| point(s.extrema_frames@[m], s.id@, label@)) =~= Seq::new(
            k as nat,
            |m: int| point(s.extrema_frames@[m], s.id@, label@),
        ).push(point(s.extrema_frames@[k as int], s.id@, label@)));
        k = k + 1;
    }
    assert(point_views(out@) =~= before + extrema_points(*s));
}

proof fn lemma_shot_at_stable(shots: Seq<TimelineShot>, frame: Frame, m: nat, n: nat)
    requires
        m <= n <= shots.len(),
        shot_at(shots, frame, m) is Some,
    ensures
        shot_at(shots, frame, n) == shot_at(shots, frame, m),
    decreases n - m,
{
    if n > m {
        lemma_shot_at_stable(shots, frame, m, (n - 1) as nat);
    }
}

proof fn lemma_shot_at_bounded(shots: Seq<TimelineShot>, frame: Frame, n: nat)
    requires
        n <= shots.len(),
    ensures
        match shot_at(shots, frame, n) {
            Some(i) => 0 <= i < n,
            None => true,
        },
    decreases n,
{
    if n > 0 {
        lemma_shot_at_bounded(shots, frame, (n - 1) as nat);
    }
}

/// The first shot on the edit at `frame`.
fn find_shot_at(shots: &Vec<TimelineShot>, frame: Frame) -> (index: Option<usize>)
    ensures
        match index {
            Some(i) => shot_at(shots@, frame, shots@.len()) == Some(i as int) && i < shots.len(),
            None => shot_at(shots@, frame, shots@.len()) is None,
        },
{
    let mut i: usize = 0;
    while i < shots.len()
        invariant
            i <= shots.len(),
            shot_at(shots@, frame, i as nat) is None,
        decreases shots.len() - i,
    {
        if shots[i].edit_range.start <= frame && frame < shots[i].edit_range.end {
            proof { lemma_shot_at_stable(shots@, frame, (i + 1) as nat, shots@.len()); }
            return Some(i);
        }
        i = i + 1;
    }
    None
}

fn add_frame(out: &mut Vec<SamplePoint>, shots: &Vec<TimelineShot>, frame: Frame)
    ensures
        point_views(final(out)@) == point_views(old(out)@) + frame_points(shots@, frame),
{
    match find_shot_at(shots, frame) {
        Some(i) => {
            push_point(out, frame, &shots[i].id, shots[i].id.clone());
            assert(point_views(out@) =~= point_views(old(out)@) + frame_points(shots@, frame));
        },
        None => {
            assert(point_views(out@) =~= point_views(old(out)@) + frame_points(shots@, frame));
        },
    }
}

fn add_beat(out: &mut Vec<SamplePoint>, shots: &Vec<TimelineShot>, b: &Beat)
    ensures
        point_views(final(out)@) == point_views(old(out)@) + beat_points(shots@, *b),
{
    match find_shot_at(shots, b.range.start) {
        Some(i) => {
            push_point(out, b.range.start, &shots[i].id, b.id.clone());
            assert(point_views(out@) =~= point_views(old(out)@) + beat_points(shots@, *b));
        },
        None => {
            assert(point_views(out@) =~= point_views(old(out)@) + beat_points(shots@, *b));
        },
    }
}

fn add_cut_pairs(out: &mut Vec<SamplePoint>, shots: &Vec<TimelineShot>)
    ensures
        point_views(final(out)@) == point_views(old(out)@) + cut_points(shots@),
{
    let mut ranges: Vec<FrameRange> = Vec::new();
    let mut i: usize = 0;
    while i < shots.len()
        invariant
            i <= shots.len(),
            ranges@ == edit_ranges(shots@.take(i as int)),
        decreases shots.len() - i,
    {
        ranges.push(shots[i].edit_range);
        assert(edit_ranges(shots@.take(i + 1)) =~= edit_ranges(shots@.take(i as int)).push(shots@[i as int].edit_range));
        i = i + 1;
    }
    assert(shots@.take(shots.len() as int) =~= shots@);
    let order = edit_order(&ranges);
    let ghost head = point_views(out@);
    let ghost f = |k: int| cut_pair_points(shots@[order@[k] as int], shots@[order@[k + 1] as int]);
    let pairs: usize = if shots.len() > 0 { shots.len() - 1 } else { 0 };
    let mut k: usize = 0;
    while k < pairs
        invariant
            k <= pairs,
            pairs == (if shots.len() > 0 { (shots.len() - 1) as nat } else { 0 }),
            order.len() == shots.len(),
            forall|m: int| 0 <= m < order.len() ==> #[trigger] order@[m] < shots.len(),
            order@ == edit_order_of(edit_ranges(shots@)),
            f == (|k: int| cut_pair_points(shots@[order@[k] as int], shots@[order@[k + 1] as int])),
            point_views(out@) == head + flatten(Seq::new(k as nat, f)),
        decreases pairs - k,
    {
        let previous = &shots[order[k]];
        let next = &shots[order[k + 1]];
        push_point(out, last_frame_of(previous.edit_range), &previous.id, prefixed("cut out ", &previous.id));
        push_point(out, next.edit_range.start, &next.id, prefixed("cut in ", &next.id));
        proof { lemma_flatten_new_step(k as nat, f); }
        k = k + 1;
    }
}

proof fn lemma_stride_below(duration: Frame, step: nat, k: nat)
    requires
        step >= 1,
        k < stride_count(duration, step),
    ensures
        k * step < duration,
{
    let d = duration as nat;
    vstd::arithmetic::div_mod::lemma_fundamental_div_mod(d as int, step as int);
    assert(k * step < duration) by (nonlinear_arith)
        requires
            step >= 1,
            k < d / step + if d % step == 0 { 0nat } else { 1nat },
            d == step * (d / step) + d % step,
            0 <= d % step < step,
            d == duration,
    ;
}

fn add_every(out: &mut Vec<SamplePoint>, shots: &Vec<TimelineShot>, duration: Frame, step: u64)
    requires
        step >= 1,
    ensures
        point_views(final(out)@) == point_views(old(out)@) + every_points(shots@, duration, step as nat),
{
    proof {
        if step == 1 {
            assert(duration % step == 0);
        } else {
            assert(duration / step <= duration / 2) by {
                vstd::arithmetic::div_mod::lemma_div_is_ordered_by_denominator(duration as int, 2, step as int);
            }
        }
    }
    let count: u64 = duration / step + if duration % step == 0 { 0 } else { 1 };
    let ghost head = point_views(out@);
    let ghost f = |k: int| frame_points(shots@, (k * step) as Frame);
    let mut k: u64 = 0;
    let mut frame: u64 = 0;
    while k < count
        invariant
            step >= 1,
            count == stride_count(duration, step as nat),
            k <= count,
            k < count ==> frame == k * step,
            f == (|k: int| frame_points(shots@, (k * step) as Frame)),
            point_views(out@) == head + flatten(Seq::new(k as nat, f)),
        decreases count - k,
    {
        proof { lemma_stride_below(duration, step as nat, k as nat); }
        add_frame(out, shots, frame);
        proof { lemma_flatten_new_step(k as nat, f); }
        k = k + 1;
        if k < count {
            proof {
                lemma_stride_below(duration, step as nat, k as nat);
                assert(k * step == (k - 1) * step + step) by (nonlinear_arith);
            }
            frame = frame + step;
        }
    }
}

/// Frames per panel for continuous sampling.
pub fn continuous_frame_step(rate: FrameRate, fps: u32) -> (step: u64)
    ensures
        step == continuous_step(rate, fps),
        step >= 1,
{
    if fps == 0 || rate.numerator == 0 || rate.denominator == 0 {
        return 1;
    }
    proof {
        assert((rate.denominator as u64) * (fps as u64) <= 0xffff_fffe_0000_0001) by (nonlinear_arith)
            requires
                rate.denominator <= 0xffff_ffff,
                fps <= 0xffff_ffff,
        ;
    }
    let b: u64 = (rate.denominator as u64) * (fps as u64);
    let twice: u64 = 2 * (rate.numerator as u64);
    proof {
        assert(b <= 0xffff_ffff * 0xffff_ffff) by (nonlinear_arith)
            requires
                b == rate.denominator * fps,
                rate.denominator <= 0xffff_ffff,
                fps <= 0xffff_ffff,
        ;
        assert(b >= 1) by (nonlinear_arith)
            requires
                b == rate.denominator * fps,
                rate.denominator >= 1,
                fps >= 1,
        ;
    }
    let q: u128 = ((twice as u128) + (b as u128)) / (2 * (b as u128));
    proof {
        assert(q <= twice + b) by (nonlinear_arith)
            requires
                q == ((twice as int) + (b as int)) / (2 * (b as int)),
                b >= 1,
        ;
    }
    if q >= 1 { q as u64 } else { 1 }
}

/// The candidate moments of `scene` under `sampling`, in timeline order.
pub fn candidate_sample_points(scene: &TimelineScene, sampling: &Sampling, rate: FrameRate) -> (points: Vec<SamplePoint>)
    ensures
        point_views(points@) == candidate_points(*scene, *sampling, rate),
{
    let shots = &scene.shots;
    let mut out: Vec<SamplePoint> = Vec::new();
    assert(point_views(out@) =~= Seq::<PointView>::empty());
    match sampling {
        Sampling::PerShot => {
            let ghost f = |i: int| shot_start_points(shots@[i]);
            let mut i: usize = 0;
            while i < shots.len()
                invariant
                    i <= shots.len(),
                    f == (|i: int| shot_start_points(shots@[i])),
                    point_views(out@) == flatten(Seq::new(i as nat, f)),
                decreases shots.len() - i,
            {
                push_point(&mut out, shots[i].edit_range.start, &shots[i].id, shots[i].id.clone());
                proof { lemma_flatten_new_step(i as nat, f); }
                i = i + 1;
            }
        },
        Sampling::PerBeat => {
            let ghost f = |i: int| beat_points(shots@, scene.beats@[i]);
            let mut i: usize = 0;
            while i < scene.beats.len()
                invariant
                    i <= scene.beats.len(),
                    f == (|i: int| beat_points(shots@, scene.beats@[i])),
                    point_views(out@) == flatten(Seq::new(i as nat, f)),
                decreases scene.beats.len() - i,
            {
                add_beat(&mut out, shots, &scene.beats[i]);
                proof { lemma_flatten_new_step(i as nat, f); }
                i = i + 1;
            }
        },
        Sampling::OperationEndpoints => {
            let ghost f = |i: int| endpoint_points(shots@[i]);
            let mut i: usize = 0;
            while i < shots.len()
                invariant
                    i <= shots.len(),
                    f == (|i: int| endpoint_points(shots@[i])),
                    point_views(out@) == flatten(Seq::new(i as nat, f)),
                decreases shots.len() - i,
            {
                add_endpoints(&mut out, &shots[i]);
                proof { lemma_flatten_new_step(i as nat, f); }
                i = i + 1;
            }
        },
        Sampling::PhaseKeyframes => {
            let ghost f = |i: int| keyframe_points(shots@[i]);
            let mut i: usize = 0;
            while i < shots.len()
                invariant
                    i <= shots.len(),
                    f == (|i: int| keyframe_points(shots@[i])),
                    point_views(out@) == flatten(Seq::new(i as nat, f)),
                decreases shots.len() - i,
            {
                add_keyframes(&mut out, &shots[i]);
                proof { lemma_flatten_new_step(i as nat, f); }
                i = i + 1;
            }
        },
        Sampling::SemanticEvents => {
            let ghost f = |i: int| event_points(shots@[i]);
            let mut i: usize = 0;
            while i < shots.len()
                invariant
                    i <= shots.len(),
                    f == (|i: int| event_points(shots@[i])),
                    point_views(out@) == flatten(Seq::new(i as nat, f)),
                decreases shots.len() - i,
            {
                add_events(&mut out, &shots[i]);
                proof { lemma_flatten_new_step(i as nat, f); }
                i = i + 1;
            }
            add_cut_pairs(&mut out, shots);
        },
        Sampling::ConstraintExtrema => {
            let ghost f = |i: int| extrema_points(shots@[i]);
            let mut i: usize = 0;
            while i < shots.len()
                invariant
                    i <= shots.len(),
                    f == (|i: int| extrema_points(shots@[i])),
                    point_views(out@) == flatten(Seq::new(i as nat, f)),
                decreases shots.len() - i,
            {
                add_extrema(&mut out, &shots[i]);
                proof { lemma_flatten_new_step(i as nat, f); }
                i = i + 1;
            }
        },
        Sampling::CutPairs => {
            add_cut_pairs(&mut out, shots);
        },
        Sampling::EveryNFrames(n) => {
            let step: u64 = if *n == 0 { 1 } else { *n };
            add_every(&mut out, shots, scene.duration_frames, step);
        },
        Sampling::Continuous { fps } => {
            let step = continuous_frame_step(rate, *fps);
            add_every(&mut out, shots, scene.duration_frames, step);
        },
    }
    out
}

/// The panels of `scene` under `sampling`: its candidate moments in frame
/// order, one per frame and shot (the caption first in text order). `rate`
/// is the project frame rate, which paces continuous sampling.
pub fn sample_compiled_points(scene: &TimelineScene, sampling: &Sampling, rate: FrameRate) -> (points: Vec<SamplePoint>)
    ensures
        is_panel_list(point_views(points@), candidate_points(*scene, *sampling, rate)),
{
    let candidates = candidate_sample_points(scene, sampling, rate);
    panel_list(&candidates)
}

// ----------------------------------------------------------------------
// Sampling the source shots
// ----------------------------------------------------------------------

/// The beats in edit order.
pub open spec fn beats_in_edit_order(beats: Seq<Beat>) -> Seq<Beat> {
    edit_order_of(beats.map_values(|b: Beat| b.range)).map_values(|i: usize| beats[i as int])
}

/// `out` lists the frames of `frames`, each once, in increasing order.
pub open spec fn is_frame_set(out: Seq<Frame>, frames: Seq<Frame>) -> bool {
    &&& increasing(out, |a: Frame, b: Frame| a < b)
    &&& forall|x: Frame| out.contains(x) <==> frames.contains(x)
}

/// The frames of `frames`, each once, in increasing order.
pub open spec fn sorted_frames(frames: Seq<Frame>) -> Seq<Frame> {
    choose|out: Seq<Frame>| is_frame_set(out, frames)
}

/// Where a camera operation of `shot` starts and where it is last active,
/// in scene frames (the latter no later than the shot's last frame).
pub open spec fn operation_frames(shot: Shot, j: int) -> Seq<Frame> {
    let start = shot.range.start;
    let op = shot.camera.operations@[j].range;
    seq![(start + op.start) as Frame, capped(start + last_frame(op), last_frame(shot.range))]
}

/// A shot's first frame and its operations' start and last active frames.
pub open spec fn endpoint_frames(shot: Shot) -> Seq<Frame> {
    seq![shot.range.start] + flatten(Seq::new(shot.camera.operations@.len(), |j: int| operation_frames(shot, j)))
}

/// Operation frames of every shot fit in a frame number.
pub open spec fn endpoints_fit(shots: Seq<Shot>) -> bool {
    forall|i: int, j: int|
        0 <= i < shots.len() && 0 <= j < shots[i].camera.operations@.len() ==> shots[i].range.start
            + (#[trigger] shots[i].camera.operations@[j]).range.start <= u64::MAX && shots[i].range.start
            + shots[i].camera.operations@[j].range.end <= u64::MAX
}

pub open spec fn shot_endpoint_points(shot: Shot) -> Seq<PointView> {
    let frames = sorted_frames(endpoint_frames(shot));
    Seq::new(frames.len(), |m: int| point(frames[m], shot.id@, shot.id@))
}

/// The moments of `scene` under `sampling`, with `on_edit` the shots as
/// placed on the edit: per shot or per beat in edit order, each shot's
/// distinct operation endpoints in increasing order, or every n-th frame;
/// the other samplings need a compiled timeline and give nothing here.
pub open spec fn source_points(scene: Scene, on_edit: Seq<TimelineShot>, sampling: Sampling, rate: FrameRate) -> Seq<
    PointView,
> {
    let sorted = shots_in_edit_order(scene.shots@);
    match sampling {
        Sampling::PerShot => Seq::new(sorted.len(), |k: int| point(sorted[k].range.start, sorted[k].id@, sorted[k].id@)),
        Sampling::PerBeat => {
            let beats = beats_in_edit_order(scene.beats@);
            flatten(Seq::new(beats.len(), |k: int| beat_points(on_edit, beats[k])))
        },
        Sampling::OperationEndpoints => flatten(Seq::new(sorted.len(), |k: int| shot_endpoint_points(sorted[k]))),
        Sampling::EveryNFrames(n) => every_points(on_edit, scene.duration_frames, if n == 0 { 1 } else { n as nat }),
        Sampling::Continuous { fps } => every_points(on_edit, scene.duration_frames, continuous_step(rate, fps)),
        _ => Seq::empty(),
    }
}

proof fn lemma_frame_order()
    ensures
        strict_total_order(|a: Frame, b: Frame| a < b),
{
}

/// Adds `x` to the increasing list `set` unless it is there.
fn insert_frame(set: &mut Vec<Frame>, x: Frame)
    requires
        increasing(old(set)@, |a: Frame, b: Frame| a < b),
    ensures
        increasing(final(set)@, |a: Frame, b: Frame| a < b),
        forall|y: Frame| final(set)@.contains(y) <==> (old(set)@.contains(y) || y == x),
{
    let ghost before = set@;
    let mut pos: usize = 0;
    while pos < set.len() && set[pos] < x
        invariant
            pos <= set.len(),
            set@ == before,
            forall|j: int| 0 <= j < pos ==> #[trigger] set@[j] < x,
        decreases set.len() - pos,
    {
        pos = pos + 1;
    }
    if pos < set.len() && set[pos] == x {
        return;
    }
    set.insert(pos, x);
    let ghost after = set@;
    assert(after =~= before.insert(pos as int, x));
    assert forall|i: int, j: int| 0 <= i < j < after.len() implies #[trigger] after[i] < #[trigger] after[j] by {
        if j < pos {
            assert(before[i] < before[j]);
        } else if j == pos {
        } else if i < pos {
            assert(after[j] == before[j - 1]);
            if j - 1 > pos {
                assert(before[pos as int] < before[j - 1]);
            }
        } else if i == pos {
            assert(after[j] == before[j - 1]);
            if j - 1 > pos {
                assert(before[pos as int] < before[j - 1]);
            }
        } else {
            assert(before[i - 1] < before[j - 1]);
        }
    }
    assert forall|y: Frame| after.contains(y) <==> (before.contains(y) || y == x) by {
        if after.contains(y) {
            let w = choose|w: int| 0 <= w < after.len() && after[w] == y;
            if w < pos {
                assert(before[w] == y);
            } else if w > pos {
                assert(before[w - 1] == y);
            }
        }
        if before.contains(y) {
            let w = choose|w: int| 0 <= w < before.len() && before[w] == y;
            if w < pos {
                assert(after[w] == y);
            } else {
                assert(after[w + 1] == y);
            }
        }
        if y == x {
            assert(after[pos as int] == x);
        }
    }
}

/// A shot's distinct operation endpoints, in increasing order.
fn endpoint_frame_set(shot: &Shot) -> (set: Vec<Frame>)
    requires
        forall|j: int| 0 <= j < shot.camera.operations@.len() ==> shot.range.start
            + (#[trigger] shot.camera.operations@[j]).range.start <= u64::MAX && shot.range.start
            + shot.camera.operations@[j].range.end <= u64::MAX,
    ensures
        set@ == sorted_frames(endpoint_frames(*shot)),
{
    let start = shot.range.start;
    let shot_last = last_frame_of(shot.range);
    let ghost f = |j: int| operation_frames(*shot, j);
    let mut set: Vec<Frame> = Vec::new();
    insert_frame(&mut set, start);
    let ghost mut seen: Seq<Frame> = seq![start];
    let mut j: usize = 0;
    while j < shot.camera.operations.len()
        invariant
            j <= shot.camera.operations.len(),
            start == shot.range.start,
            shot_last == last_frame(shot.range),
            forall|j: int| 0 <= j < shot.camera.operations@.len() ==> shot.range.start
                + (#[trigger] shot.camera.operations@[j]).range.start <= u64::MAX && shot.range.start
                + shot.camera.operations@[j].range.end <= u64::MAX,
            f == (|j: int| operation_frames(*shot, j)),
            seen == seq![start] + flatten(Seq::new(j as nat, f)),
            increasing(set@, |a: Frame, b: Frame| a < b),
            forall|x: Frame| set@.contains(x) <==> seen.contains(x),
        decreases shot.camera.operations.len() - j,
    {
        let op = shot.camera.operations[j].range;
        assert(shot.camera.operations@[j as int].range == op);
        let first = start + op.start;
        let last = capped_at(start + last_frame_of(op), shot_last);
        insert_frame(&mut set, first);
        insert_frame(&mut set, last);
        proof {
            lemma_flatten_new_step(j as nat, f);
            assert(f(j as int) == seq![first, last]);
            let next = seq![start] + flatten(Seq::new((j + 1) as nat, f));
            assert(next =~= seen + seq![first, last]);
            assert forall|x: Frame| set@.contains(x) <==> next.contains(x) by {
                if next.contains(x) {
                    let w = choose|w: int| 0 <= w < next.len() && next[w] == x;
                    if w < seen.len() {
                        assert(seen[w] == x);
                    }
                }
                if seen.contains(x) {
                    let w = choose|w: int| 0 <= w < seen.len() && seen[w] == x;
                    assert(next[w] == x);
                }
                if x == first {
                    assert(next[seen.len() as int] == x);
                }
                if x == last {
                    assert(next[seen.len() as int + 1] == x);
                }
            }
            seen = next;
        }
        j = j + 1;
    }
    proof {
        assert(is_frame_set(set@, endpoint_frames(*shot)));
        let other = sorted_frames(endpoint_frames(*shot));
        assert(is_frame_set(other, endpoint_frames(*shot)));
        lemma_frame_order();
        lemma_increasing_unique(other, set@, |a: Frame, b: Frame| a < b);
    }
    set
}

/// The moments of `scene` under `sampling`, without a compiled timeline:
/// `on_edit` are the shots as placed on the edit and `rate` the project
/// frame rate, which paces continuous sampling.
pub fn sample_points(scene: &Scene, on_edit: &Vec<TimelineShot>, sampling: &Sampling, rate: FrameRate) -> (points: Vec<SamplePoint>)
    requires
        endpoints_fit(scene.shots@),
    ensures
        point_views(points@) == source_points(*scene, on_edit@, *sampling, rate),
{
    let mut out: Vec<SamplePoint> = Vec::new();
    assert(point_views(out@) =~= Seq::<PointView>::empty());
    match sampling {
        Sampling::PerShot => {
            let order = shot_order(&scene.shots);
            let ghost sorted = shots_in_edit_order(scene.shots@);
            let mut k: usize = 0;
            while k < order.len()
                invariant
                    k <= order.len(),
                    order.len() == scene.shots.len(),
                    sorted == shots_in_edit_order(scene.shots@),
                    sorted.len() == order.len(),
                    forall|m: int| 0 <= m < order.len() ==> #[trigger] order@[m] < scene.shots.len() && sorted[m]
                        == scene.shots@[order@[m] as int],
                    point_views(out@) == Seq::new(k as nat, |m: int| point(sorted[m].range.start, sorted[m].id@, sorted[m].id@)),
                decreases order.len() - k,
            {
                let shot = &scene.shots[order[k]];
                push_point(&mut out, shot.range.start, &shot.id, shot.id.clone());
                assert(point_views(out@) =~= Seq::new((k + 1) as nat, |m: int| point(sorted[m].range.start, sorted[m].id@, sorted[m].id@)));
                k = k + 1;
            }
        },
        Sampling::PerBeat => {
            let mut ranges: Vec<FrameRange> = Vec::new();
            let mut i: usize = 0;
            while i < scene.beats.len()
                invariant
                    i <= scene.beats.len(),
                    ranges@ == scene.beats@.take(i as int).map_values(|b: Beat| b.range),
                decreases scene.beats.len() - i,
            {
                ranges.push(scene.beats[i].range);
                assert(scene.beats@.take(i + 1).map_values(|b: Beat| b.range) =~= scene.beats@.take(i as int).map_values(|b: Beat| b.range).push(scene.beats@[i as int].range));
                i = i + 1;
            }
            assert(scene.beats@.take(scene.beats.len() as int) =~= scene.beats@);
            let order = edit_order(&ranges);
            let ghost beats = beats_in_edit_order(scene.beats@);
            let ghost f = |k: int| beat_points(on_edit@, beats[k]);
            let mut k: usize = 0;
            while k < order.len()
                invariant
                    k <= order.len(),
                    order.len() == scene.beats.len(),
                    order@ == edit_order_of(scene.beats@.map_values(|b: Beat| b.range)),
                    forall|m: int| 0 <= m < order.len() ==> #[trigger] order@[m] < scene.beats.len(),
                    beats == beats_in_edit_order(scene.beats@),
                    f == (|k: int| beat_points(on_edit@, beats[k])),
                    point_views(out@) == flatten(Seq::new(k as nat, f)),
                decreases order.len() - k,
            {
                assert(beats[k as int] == scene.beats@[order@[k as int] as int]);
                add_beat(&mut out, on_edit, &scene.beats[order[k]]);
                proof { lemma_flatten_new_step(k as nat, f); }
                k = k + 1;
            }
        },
        Sampling::OperationEndpoints => {
            let order = shot_order(&scene.shots);
            let ghost sorted = shots_in_edit_order(scene.shots@);
            let ghost f = |k: int| shot_endpoint_points(sorted[k]);
            let mut k: usize = 0;
            while k < order.len()
                invariant
                    k <= order.len(),
                    order.len() == scene.shots.len(),
                    endpoints_fit(scene.shots@),
                    sorted == shots_in_edit_order(scene.shots@),
                    forall|m: int| 0 <= m < order.len() ==> #[trigger] order@[m] < scene.shots.len() && sorted[m]
                        == scene.shots@[order@[m] as int],
                    f == (|k: int| shot_endpoint_points(sorted[k])),
                    point_views(out@) == flatten(Seq::new(k as nat, f)),
                decreases order.len() - k,
            {
                let shot = &scene.shots[order[k]];
                assert(sorted[k as int] == *shot);
                assert forall|j: int| 0 <= j < shot.camera.operations@.len() implies shot.range.start
                    + (#[trigger] shot.camera.operations@[j]).range.start <= u64::MAX && shot.range.start
                    + shot.camera.operations@[j].range.end <= u64::MAX by {
                    assert(scene.shots@[order@[k as int] as int] == *shot);
                }
                let frames = endpoint_frame_set(shot);
                let ghost head = point_views(out@);
                let mut m: usize = 0;
                while m < frames.len()
                    invariant
                        m <= frames.len(),
                        point_views(out@) == head + Seq::new(m as nat, |n: int| point(frames@[n], shot.id@, shot.id@)),
                    decreases frames.len() - m,
                {
                    push_point(&mut out, frames[m], &shot.id, shot.id.clone());
                    assert(Seq::new((m + 1) as nat, |n: int| point(frames@[n], shot.id@, shot.id@)) =~= Seq::new(
                        m as nat,
                        |n: int| point(frames@[n], shot.id@, shot.id@),
                    ).push(point(frames@[m as int], shot.id@, shot.id@)));
                    m = m + 1;
                }
                assert(Seq::new(frames.len() as nat, |n: int| point(frames@[n], shot.id@, shot.id@)) =~= shot_endpoint_points(*shot));
                proof { lemma_flatten_new_step(k as nat, f); }
                k = k + 1;
            }
        },
        Sampling::EveryNFrames(n) => {
            let step: u64 = if *n == 0 { 1 } else { *n };
            add_every(&mut out, on_edit, scene.duration_frames, step);
        },
        Sampling::Continuous { fps } => {
            let step = continuous_frame_step(rate, *fps);
            add_every(&mut out, on_edit, scene.duration_frames, step);
        },
        _ => {},
    }
    out
}

} // verus!
