//! The edit timeline of a scene: its shots in edit order must cover
//! `[0, duration)` without overlap or gap.
use vstd::prelude::*;

use crate::diagnostic::{error_at, flatten, lemma_flatten_empty_iff, lemma_flatten_new_step, warning_at, Diagnostic, DiagnosticView,
    ValidationReport};
use crate::model::{Frame, FrameRange, Scene, Shot};
use crate::order::{edit_order, edit_order_of, is_edit_order};
use crate::text::{decimal, owned, push_decimal, push_str};

verus! {

broadcast use {vstd::seq_lib::group_seq_properties, crate::diagnostic::lemma_concat_regroup};

/// The frame ranges of `shots`, in declaration order.
pub open spec fn shot_ranges(shots: Seq<Shot>) -> Seq<FrameRange> {
    shots.map_values(|s: Shot| s.range)
}

/// The shots in edit order.
pub open spec fn shots_in_edit_order(shots: Seq<Shot>) -> Seq<Shot> {
    edit_order_of(shot_ranges(shots)).map_values(|i: usize| shots[i as int])
}

/// `<base>.shots[<previous id>-><next id>]`
pub open spec fn pair_path(base: Seq<char>, previous: Shot, next: Shot) -> Seq<char> {
    base + ".shots["@ + previous.id@ + "->"@ + next.id@ + "]"@
}

/// What two shots adjacent in edit order contribute: an overlap error or a
/// gap warning.
pub open spec fn pair_diags(previous: Shot, next: Shot, base: Seq<char>) -> Seq<DiagnosticView> {
    if next.range.start < previous.range.end {
        seq![error_at(
            "EDIT_TIMELINE_OVERLAP"@,
            pair_path(base, previous, next),
            "shots overlap by "@ + decimal((previous.range.end - next.range.start) as nat) + " frame(s)"@,
        )]
    } else if next.range.start > previous.range.end {
        seq![warning_at(
            "EDIT_TIMELINE_GAP"@,
            pair_path(base, previous, next),
            decimal((next.range.start - previous.range.end) as nat) + " frame(s) are uncovered on the edit timeline"@,
        )]
    } else {
        Seq::empty()
    }
}

/// A warning when the first shot in edit order starts after frame 0.
pub open spec fn start_gap_diags(sorted: Seq<Shot>, base: Seq<char>) -> Seq<DiagnosticView> {
    if sorted.len() > 0 && sorted[0].range.start > 0 {
        seq![warning_at(
            "EDIT_TIMELINE_START_GAP"@,
            base + ".shots"@,
            "edit timeline starts at frame "@ + decimal(sorted[0].range.start as nat) + ", not frame 0"@,
        )]
    } else {
        Seq::empty()
    }
}

/// A warning when the last shot in edit order ends before the scene does.
pub open spec fn end_gap_diags(sorted: Seq<Shot>, duration: Frame, base: Seq<char>) -> Seq<DiagnosticView> {
    if sorted.len() > 0 && sorted.last().range.end < duration {
        seq![warning_at(
            "EDIT_TIMELINE_END_GAP"@,
            base + ".shots"@,
            "edit timeline ends at frame "@ + decimal(sorted.last().range.end as nat) + ", before scene duration "@
                + decimal(duration as nat),
        )]
    } else {
        Seq::empty()
    }
}

/// The adjacent pairs of `sorted`, checked in order.
pub open spec fn pairs_diags(sorted: Seq<Shot>, base: Seq<char>) -> Seq<DiagnosticView> {
    flatten(Seq::new(
        if sorted.len() > 0 { (sorted.len() - 1) as nat } else { 0 },
        |k: int| pair_diags(sorted[k], sorted[k + 1], base),
    ))
}

/// Everything the edit-timeline check reports for `scene`.
pub open spec fn timeline_diags(scene: Scene, base: Seq<char>) -> Seq<DiagnosticView> {
    let sorted = shots_in_edit_order(scene.shots@);
    start_gap_diags(sorted, base) + pairs_diags(sorted, base) + end_gap_diags(sorted, scene.duration_frames, base)
}

/// The ranges of `shots`.
fn collect_ranges(shots: &Vec<Shot>) -> (ranges: Vec<FrameRange>)
    ensures
        ranges@ == shot_ranges(shots@),
{
    let mut ranges: Vec<FrameRange> = Vec::new();
    let mut i: usize = 0;
    while i < shots.len()
        invariant
            i <= shots.len(),
            ranges@ == shot_ranges(shots@.take(i as int)),
        decreases shots.len() - i,
    {
        ranges.push(shots[i].range);
        assert(shot_ranges(shots@.take(i + 1)) =~= shot_ranges(shots@.take(i as int)).push(shots@[i as int].range));
        i = i + 1;
    }
    assert(shots@.take(shots.len() as int) =~= shots@);
    ranges
}

/// Indices of `shots` in edit order.
pub fn shot_order(shots: &Vec<Shot>) -> (order: Vec<usize>)
    ensures
        order@ == edit_order_of(shot_ranges(shots@)),
        is_edit_order(order@, shot_ranges(shots@)),
        order.len() == shots.len(),
        forall|k: int| 0 <= k < order.len() ==> #[trigger] order@[k] < shots.len()
            && shots_in_edit_order(shots@)[k] == shots@[order@[k] as int],
{
    let ranges = collect_ranges(shots);
    let order = edit_order(&ranges);
    assert forall|k: int| 0 <= k < order.len() implies #[trigger] order@[k] < shots.len()
        && shots_in_edit_order(shots@)[k] == shots@[order@[k] as int] by {
        assert(order@[k] < ranges@.len());
    }
    order
}

fn pair_path_exec(base: &String, previous: &Shot, next: &Shot) -> (s: String)
    ensures
        s@ == pair_path(base@, *previous, *next),
{
    let mut s = base.clone();
    push_str(&mut s, ".shots[");
    push_str(&mut s, previous.id.as_str());
    push_str(&mut s, "->");
    push_str(&mut s, next.id.as_str());
    push_str(&mut s, "]");
    s
}

fn report_pair(previous: &Shot, next: &Shot, base: &String, report: &mut ValidationReport)
    ensures
        final(report)@ == old(report)@ + pair_diags(*previous, *next, base@),
{
    if next.range.start < previous.range.end {
        let mut message = owned("shots overlap by ");
        push_decimal(&mut message, previous.range.end - next.range.start);
        push_str(&mut message, " frame(s)");
        report.push(Diagnostic::error("EDIT_TIMELINE_OVERLAP", pair_path_exec(base, previous, next), message));
    } else if next.range.start > previous.range.end {
        let mut message = String::new();
        push_decimal(&mut message, next.range.start - previous.range.end);
        push_str(&mut message, " frame(s) are uncovered on the edit timeline");
        assert(message@ =~= decimal((next.range.start - previous.range.end) as nat)
            + " frame(s) are uncovered on the edit timeline"@);
        report.push(Diagnostic::warning("EDIT_TIMELINE_GAP", pair_path_exec(base, previous, next), message));
    }
    assert(report@ =~= old(report)@ + pair_diags(*previous, *next, base@));
}

fn shots_path(base: &String) -> (s: String)
    ensures
        s@ == base@ + ".shots"@,
{
    let mut s = base.clone();
    push_str(&mut s, ".shots");
    s
}

/// Reports where the shots, in edit order, leave the scene's frames
/// uncovered or cover them twice.
pub fn validate_shot_timeline(scene: &Scene, base: &String, report: &mut ValidationReport)
    ensures
        final(report)@ == old(report)@ + timeline_diags(*scene, base@),
{
    let order = shot_order(&scene.shots);
    let ghost sorted = shots_in_edit_order(scene.shots@);
    let n = order.len();
    assert(sorted.len() == n);
    assert forall|k: int| 0 <= k < n implies #[trigger] sorted[k] == scene.shots@[order@[k] as int]
        && order@[k] < scene.shots.len() by {
        assert(order@[k] < scene.shots.len());
    }

    if n > 0 {
        let first = &scene.shots[order[0]];
        if first.range.start > 0 {
            let mut message = owned("edit timeline starts at frame ");
            push_decimal(&mut message, first.range.start);
            push_str(&mut message, ", not frame 0");
            report.push(Diagnostic::warning("EDIT_TIMELINE_START_GAP", shots_path(base), message));
        }
    }
    assert(report@ =~= old(report)@ + start_gap_diags(sorted, base@));
    let ghost after_start = report@;

    let ghost f = |k: int| pair_diags(sorted[k], sorted[k + 1], base@);
    let mut k: usize = 1;
    while k < n
        invariant
            1 <= k,
            n > 0 ==> k <= n,
            n == 0 ==> k == 1,
            n == order.len(),
            n == scene.shots.len(),
            sorted.len() == n,
            forall|j: int| 0 <= j < n ==> #[trigger] sorted[j] == scene.shots@[order@[j] as int]
                && order@[j] < scene.shots.len(),
            f == (|k: int| pair_diags(sorted[k], sorted[k + 1], base@)),
            report@ == after_start + flatten(Seq::new((k - 1) as nat, f)),
        decreases n - k,
    {
        proof { lemma_flatten_new_step((k - 1) as nat, f); }
        let previous = &scene.shots[order[k - 1]];
        let next = &scene.shots[order[k]];
        assert(sorted[k - 1] == *previous);
        assert(sorted[k as int] == *next);
        report_pair(previous, next, base, report);
        k = k + 1;
    }
    proof {
        let len: nat = if sorted.len() > 0 { (sorted.len() - 1) as nat } else { 0 };
        assert((k - 1) as nat == len);
        assert(Seq::new((k - 1) as nat, f) =~= Seq::new(len, |j: int| pair_diags(sorted[j], sorted[j + 1], base@)));
        assert(report@ == after_start + pairs_diags(sorted, base@));
    }
    let ghost after_pairs = report@;

    if n > 0 {
        let last = &scene.shots[order[n - 1]];
        assert(sorted.last() == *last);
        if last.range.end < scene.duration_frames {
            let mut message = owned("edit timeline ends at frame ");
            push_decimal(&mut message, last.range.end);
            push_str(&mut message, ", before scene duration ");
            push_decimal(&mut message, scene.duration_frames);
            report.push(Diagnostic::warning("EDIT_TIMELINE_END_GAP", shots_path(base), message));
        }
    }
    assert(report@ =~= after_pairs + end_gap_diags(sorted, scene.duration_frames, base@));
}

/// In edit order, the shots start at frame 0, each starts exactly where the
/// previous one ends, and the last ends no earlier than the scene.
pub open spec fn tiles_scene(sorted: Seq<Shot>, duration: Frame) -> bool {
    sorted.len() > 0 ==> {
        &&& sorted[0].range.start == 0
        &&& forall|k: int| 0 <= k < sorted.len() - 1 ==> #[trigger] sorted[k + 1].range.start == sorted[k].range.end
        &&& sorted.last().range.end >= duration
    }
}

/// The edit-timeline check is silent exactly when the shots tile the scene
/// from frame 0 without gap or overlap.
pub proof fn lemma_timeline_silent_iff_tiled(scene: Scene, base: Seq<char>)
    ensures
        timeline_diags(scene, base).len() == 0 <==> tiles_scene(
            shots_in_edit_order(scene.shots@),
            scene.duration_frames,
        ),
{
    let sorted = shots_in_edit_order(scene.shots@);
    let parts = Seq::new(
        if sorted.len() > 0 { (sorted.len() - 1) as nat } else { 0 },
        |k: int| pair_diags(sorted[k], sorted[k + 1], base),
    );
    lemma_flatten_empty_iff(parts);
    if timeline_diags(scene, base).len() == 0 && sorted.len() > 0 {
        assert forall|k: int| 0 <= k < sorted.len() - 1 implies #[trigger] sorted[k + 1].range.start
            == sorted[k].range.end by {
            assert(parts[k].len() == 0);
        }
    }
    if tiles_scene(sorted, scene.duration_frames) {
        assert forall|k: int| 0 <= k < parts.len() implies (#[trigger] parts[k]).len() == 0 by {
            assert(sorted[k + 1].range.start == sorted[k].range.end);
        }
    }
}

} // verus!
