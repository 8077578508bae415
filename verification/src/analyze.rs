//! Continuity analysis across cuts: for each pair of shots adjacent in edit
//! order, the 180-degree axis, screen direction, the 30-degree rule and
//! reciprocal eyelines.
//!
//! Every finding is a warning and is suppressed when either shot of the cut
//! declares a continuity bridge or a spatial reset.
use vstd::prelude::*;

use crate::diagnostic::{flatten, hinted, lemma_flatten_all, lemma_flatten_empty_parts, lemma_flatten_new_step,
    warning_at, Diagnostic, DiagnosticView, Severity, ValidationReport};
use crate::model::{AxisObservation, AxisSide, EyelineObservation, HorizontalDirection, Scene, ScreenDirection,
    ScreenDirectionObservation, Shot, TargetRef, Transition};
use crate::text::{owned, push_str, string_views};
use crate::timeline::{shot_order, shots_in_edit_order};
use crate::validate::contains_text;

verus! {

broadcast use {vstd::seq_lib::group_seq_properties, crate::diagnostic::lemma_concat_regroup};

/// Either shot of the cut declares a bridge or a spatial reset.
pub open spec fn has_bridge(previous: Shot, next: Shot) -> bool {
    ||| previous.continuity.spatial_reset
    ||| next.continuity.spatial_reset
    ||| previous.continuity.bridge is Some
    ||| next.continuity.bridge is Some
}

fn has_bridge_exec(previous: &Shot, next: &Shot) -> (b: bool)
    ensures
        b == has_bridge(*previous, *next),
{
    previous.continuity.spatial_reset || next.continuity.spatial_reset || previous.continuity.bridge.is_some()
        || next.continuity.bridge.is_some()
}

/// `scenes[<scene id>].shots[<previous id>-><next id>]`
pub open spec fn cut_path(scene_id: Seq<char>, previous: Shot, next: Shot) -> Seq<char> {
    "scenes["@ + scene_id + "].shots["@ + previous.id@ + "->"@ + next.id@ + "]"@
}

fn cut_path_exec(scene_id: &String, previous: &Shot, next: &Shot) -> (s: String)
    ensures
        s@ == cut_path(scene_id@, *previous, *next),
{
    let mut s = owned("scenes[");
    push_str(&mut s, scene_id.as_str());
    push_str(&mut s, "].shots[");
    push_str(&mut s, previous.id.as_str());
    push_str(&mut s, "->");
    push_str(&mut s, next.id.as_str());
    push_str(&mut s, "]");
    s
}

// ----------------------------------------------------------------------
// Names as the diagnostics print them
// ----------------------------------------------------------------------

pub open spec fn side_name(side: AxisSide) -> Seq<char> {
    match side {
        AxisSide::Positive => "Positive"@,
        AxisSide::Negative => "Negative"@,
        AxisSide::OnAxis => "OnAxis"@,
    }
}

fn side_name_exec(side: AxisSide) -> (s: &'static str)
    ensures
        s@ == side_name(side),
{
    match side {
        AxisSide::Positive => "Positive",
        AxisSide::Negative => "Negative",
        AxisSide::OnAxis => "OnAxis",
    }
}

pub open spec fn direction_name(direction: ScreenDirection) -> Seq<char> {
    match direction {
        ScreenDirection::Left => "Left"@,
        ScreenDirection::Right => "Right"@,
        ScreenDirection::Stationary => "Stationary"@,
        ScreenDirection::TowardCamera => "TowardCamera"@,
        ScreenDirection::AwayFromCamera => "AwayFromCamera"@,
    }
}

fn direction_name_exec(direction: ScreenDirection) -> (s: &'static str)
    ensures
        s@ == direction_name(direction),
{
    match direction {
        ScreenDirection::Left => "Left",
        ScreenDirection::Right => "Right",
        ScreenDirection::Stationary => "Stationary",
        ScreenDirection::TowardCamera => "TowardCamera",
        ScreenDirection::AwayFromCamera => "AwayFromCamera",
    }
}

pub open spec fn horizontal_name(direction: HorizontalDirection) -> Seq<char> {
    match direction {
        HorizontalDirection::Left => "Left"@,
        HorizontalDirection::Right => "Right"@,
        HorizontalDirection::Center => "Center"@,
    }
}

fn horizontal_name_exec(direction: HorizontalDirection) -> (s: &'static str)
    ensures
        s@ == horizontal_name(direction),
{
    match direction {
        HorizontalDirection::Left => "Left",
        HorizontalDirection::Right => "Right",
        HorizontalDirection::Center => "Center",
    }
}

// ----------------------------------------------------------------------
// 180-degree axis
// ----------------------------------------------------------------------

/// The side recorded by the last observation of `axis_id` in `observations`.
pub open spec fn last_side(observations: Seq<AxisObservation>, axis_id: Seq<char>) -> Option<AxisSide>
    decreases observations.len(),
{
    if observations.len() == 0 {
        None
    } else if observations.last().axis_id@ == axis_id {
        Some(observations.last().side)
    } else {
        last_side(observations.drop_last(), axis_id)
    }
}

pub open spec fn lateral_side(side: AxisSide) -> bool {
    side is Positive || side is Negative
}

/// What the `j`-th axis observation of `next` contributes.
pub open spec fn axis_cross_diag(scene_id: Seq<char>, previous: Shot, next: Shot, j: int) -> Seq<DiagnosticView> {
    let observation = next.continuity.axis_observations@[j];
    match last_side(previous.continuity.axis_observations@, observation.axis_id@) {
        Some(previous_side) => if lateral_side(previous_side) && lateral_side(observation.side)
            && previous_side != observation.side && !has_bridge(previous, next) {
            seq![hinted(
                warning_at(
                    "CONTINUITY_AXIS_CROSS"@,
                    cut_path(scene_id, previous, next),
                    "camera side for axis '"@ + observation.axis_id@ + "' changes from "@ + side_name(previous_side)
                        + " to "@ + side_name(observation.side) + " without an explicit bridge"@,
                ),
                "Declare a visible crossing, on-axis shot, neutral insert, re-establishing shot, character reblocking, or deliberate disorientation."@,
            )]
        } else {
            Seq::empty()
        },
        None => Seq::empty(),
    }
}

/// The side a shot is taken from for an axis is its latest observation of
/// that axis: a new observation of the axis decides it, and one of another
/// axis leaves it as it was.
pub proof fn lemma_last_side_push(observations: Seq<AxisObservation>, o: AxisObservation, axis_id: Seq<char>)
    ensures
        last_side(observations.push(o), o.axis_id@) == Some(o.side),
        o.axis_id@ != axis_id ==> last_side(observations.push(o), axis_id) == last_side(observations, axis_id),
{
    assert(observations.push(o).drop_last() =~= observations);
}

/// Crossing the axis: when the previous shot was taken from one side of an
/// axis and the next observes the other side, with no bridge, the cut is
/// flagged with one `CONTINUITY_AXIS_CROSS` warning; staying on the same
/// side, or either shot on the axis, is not flagged.
pub proof fn lemma_axis_cross(scene_id: Seq<char>, previous: Shot, next: Shot, j: int)
    requires
        0 <= j < next.continuity.axis_observations@.len(),
        !has_bridge(previous, next),
    ensures
        ({
            let o = next.continuity.axis_observations@[j];
            let d = axis_cross_diag(scene_id, previous, next, j);
            match last_side(previous.continuity.axis_observations@, o.axis_id@) {
                Some(before) => {
                    &&& ((before is Positive && o.side is Negative) || (before is Negative && o.side is Positive))
                        ==> d.len() == 1 && d[0].code == "CONTINUITY_AXIS_CROSS"@ && d[0].severity == Severity::Warning
                    &&& (before == o.side || before is OnAxis || o.side is OnAxis) ==> d.len() == 0
                },
                None => d.len() == 0,
            }
        }),
{
}

pub open spec fn axis_cross_diags(scene_id: Seq<char>, previous: Shot, next: Shot) -> Seq<DiagnosticView> {
    flatten(Seq::new(
        next.continuity.axis_observations@.len(),
        |j: int| axis_cross_diag(scene_id, previous, next, j),
    ))
}

fn find_side(observations: &Vec<AxisObservation>, axis_id: &String) -> (side: Option<AxisSide>)
    ensures
        side == last_side(observations@, axis_id@),
{
    let mut found: Option<AxisSide> = None;
    let mut i: usize = 0;
    while i < observations.len()
        invariant
            i <= observations.len(),
            found == last_side(observations@.take(i as int), axis_id@),
        decreases observations.len() - i,
    {
        assert(observations@.take(i + 1).drop_last() =~= observations@.take(i as int));
        if observations[i].axis_id == *axis_id {
            found = Some(observations[i].side);
        }
        i = i + 1;
    }
    assert(observations@.take(observations.len() as int) =~= observations@);
    found
}

fn analyze_axis_cross(scene_id: &String, previous: &Shot, next: &Shot, report: &mut ValidationReport)
    ensures
        final(report)@ == old(report)@ + axis_cross_diags(scene_id@, *previous, *next),
{
    let ghost f = |j: int| axis_cross_diag(scene_id@, *previous, *next, j);
    let bridged = has_bridge_exec(previous, next);
    let mut j: usize = 0;
    while j < next.continuity.axis_observations.len()
        invariant
            j <= next.continuity.axis_observations.len(),
            bridged == has_bridge(*previous, *next),
            f == (|j: int| axis_cross_diag(scene_id@, *previous, *next, j)),
            report@ == old(report)@ + flatten(Seq::new(j as nat, f)),
        decreases next.continuity.axis_observations.len() - j,
    {
        proof { lemma_flatten_new_step(j as nat, f); }
        let ghost before = report@;
        let observation = &next.continuity.axis_observations[j];
        match find_side(&previous.continuity.axis_observations, &observation.axis_id) {
            Some(previous_side) => {
                let lateral_before = previous_side == AxisSide::Positive || previous_side == AxisSide::Negative;
                let lateral_after = observation.side == AxisSide::Positive || observation.side == AxisSide::Negative;
                if lateral_before && lateral_after && previous_side != observation.side && !bridged {
                    let mut message = owned("camera side for axis '");
                    push_str(&mut message, observation.axis_id.as_str());
                    push_str(&mut message, "' changes from ");
                    push_str(&mut message, side_name_exec(previous_side));
                    push_str(&mut message, " to ");
                    push_str(&mut message, side_name_exec(observation.side));
                    push_str(&mut message, " without an explicit bridge");
                    report.push(
                        Diagnostic::warning("CONTINUITY_AXIS_CROSS", cut_path_exec(scene_id, previous, next), message)
                            .with_hint(
                            "Declare a visible crossing, on-axis shot, neutral insert, re-establishing shot, character reblocking, or deliberate disorientation.",
                        ),
                    );
                }
            },
            None => {},
        }
        assert(report@ =~= before + f(j as int));
        j = j + 1;
    }
}

// ----------------------------------------------------------------------
// Screen direction
// ----------------------------------------------------------------------

/// The direction recorded by the last observation of `subject_id`.
pub open spec fn last_direction(observations: Seq<ScreenDirectionObservation>, subject_id: Seq<char>) -> Option<
    ScreenDirection,
>
    decreases observations.len(),
{
    if observations.len() == 0 {
        None
    } else if observations.last().subject_id@ == subject_id {
        Some(observations.last().direction)
    } else {
        last_direction(observations.drop_last(), subject_id)
    }
}

pub open spec fn lateral_direction(direction: ScreenDirection) -> bool {
    direction is Left || direction is Right
}

/// What the `j`-th screen-direction observation of `next` contributes.
pub open spec fn direction_flip_diag(scene_id: Seq<char>, previous: Shot, next: Shot, j: int) -> Seq<
    DiagnosticView,
> {
    let observation = next.continuity.screen_directions@[j];
    match last_direction(previous.continuity.screen_directions@, observation.subject_id@) {
        Some(previous_direction) => if lateral_direction(previous_direction) && lateral_direction(
            observation.direction,
        ) && previous_direction != observation.direction && !previous.continuity.direction_change_visible
            && !next.continuity.direction_change_visible && !has_bridge(previous, next) {
            seq![hinted(
                warning_at(
                    "CONTINUITY_SCREEN_DIRECTION_FLIP"@,
                    cut_path(scene_id, previous, next),
                    "subject '"@ + observation.subject_id@ + "' reverses screen direction from "@ + direction_name(
                        previous_direction,
                    ) + " to "@ + direction_name(observation.direction) + " without a visible turn"@,
                ),
                "Show the turn/reblocking, use a neutral or re-establishing shot, or mark the reversal as deliberate."@,
            )]
        } else {
            Seq::empty()
        },
        None => Seq::empty(),
    }
}

/// A subject's screen direction in a shot is its latest observation there.
pub proof fn lemma_last_direction_push(
    observations: Seq<ScreenDirectionObservation>,
    o: ScreenDirectionObservation,
    subject_id: Seq<char>,
)
    ensures
        last_direction(observations.push(o), o.subject_id@) == Some(o.direction),
        o.subject_id@ != subject_id ==> last_direction(observations.push(o), subject_id) == last_direction(
            observations,
            subject_id,
        ),
{
    assert(observations.push(o).drop_last() =~= observations);
}

/// Screen direction across a cut: a subject moving left in one shot and
/// right in the next (or the reverse), with no bridge and no visible turn,
/// raises one `CONTINUITY_SCREEN_DIRECTION_FLIP` warning; keeping its
/// direction, or either direction not lateral, raises nothing.
pub proof fn lemma_direction_flip(scene_id: Seq<char>, previous: Shot, next: Shot, j: int)
    requires
        0 <= j < next.continuity.screen_directions@.len(),
        !has_bridge(previous, next),
        !previous.continuity.direction_change_visible,
        !next.continuity.direction_change_visible,
    ensures
        ({
            let o = next.continuity.screen_directions@[j];
            let d = direction_flip_diag(scene_id, previous, next, j);
            match last_direction(previous.continuity.screen_directions@, o.subject_id@) {
                Some(before) => {
                    &&& ((before is Left && o.direction is Right) || (before is Right && o.direction is Left))
                        ==> d.len() == 1 && d[0].code == "CONTINUITY_SCREEN_DIRECTION_FLIP"@ && d[0].severity
                        == Severity::Warning
                    &&& (before == o.direction || !(before is Left || before is Right) || !(o.direction is Left
                        || o.direction is Right)) ==> d.len() == 0
                },
                None => d.len() == 0,
            }
        }),
{
}

pub open spec fn direction_flip_diags(scene_id: Seq<char>, previous: Shot, next: Shot) -> Seq<DiagnosticView> {
    flatten(Seq::new(
        next.continuity.screen_directions@.len(),
        |j: int| direction_flip_diag(scene_id, previous, next, j),
    ))
}

fn find_direction(observations: &Vec<ScreenDirectionObservation>, subject_id: &String) -> (direction: Option<
    ScreenDirection,
>)
    ensures
        direction == last_direction(observations@, subject_id@),
{
    let mut found: Option<ScreenDirection> = None;
    let mut i: usize = 0;
    while i < observations.len()
        invariant
            i <= observations.len(),
            found == last_direction(observations@.take(i as int), subject_id@),
        decreases observations.len() - i,
    {
        assert(observations@.take(i + 1).drop_last() =~= observations@.take(i as int));
        if observations[i].subject_id == *subject_id {
            found = Some(observations[i].direction);
        }
        i = i + 1;
    }
    assert(observations@.take(observations.len() as int) =~= observations@);
    found
}

fn analyze_screen_direction(scene_id: &String, previous: &Shot, next: &Shot, report: &mut ValidationReport)
    ensures
        final(report)@ == old(report)@ + direction_flip_diags(scene_id@, *previous, *next),
{
    let ghost f = |j: int| direction_flip_diag(scene_id@, *previous, *next, j);
    let quiet = has_bridge_exec(previous, next) || previous.continuity.direction_change_visible
        || next.continuity.direction_change_visible;
    let mut j: usize = 0;
    while j < next.continuity.screen_directions.len()
        invariant
            j <= next.continuity.screen_directions.len(),
            quiet == (has_bridge(*previous, *next) || previous.continuity.direction_change_visible
                || next.continuity.direction_change_visible),
            f == (|j: int| direction_flip_diag(scene_id@, *previous, *next, j)),
            report@ == old(report)@ + flatten(Seq::new(j as nat, f)),
        decreases next.continuity.screen_directions.len() - j,
    {
        proof { lemma_flatten_new_step(j as nat, f); }
        let ghost before = report@;
        let observation = &next.continuity.screen_directions[j];
        match find_direction(&previous.continuity.screen_directions, &observation.subject_id) {
            Some(previous_direction) => {
                let lateral_before = previous_direction == ScreenDirection::Left || previous_direction
                    == ScreenDirection::Right;
                let lateral_after = observation.direction == ScreenDirection::Left || observation.direction
                    == ScreenDirection::Right;
                if lateral_before && lateral_after && previous_direction != observation.direction && !quiet {
                    let mut message = owned("subject '");
                    push_str(&mut message, observation.subject_id.as_str());
                    push_str(&mut message, "' reverses screen direction from ");
                    push_str(&mut message, direction_name_exec(previous_direction));
                    push_str(&mut message, " to ");
                    push_str(&mut message, direction_name_exec(observation.direction));
                    push_str(&mut message, " without a visible turn");
                    report.push(
                        Diagnostic::warning(
                            "CONTINUITY_SCREEN_DIRECTION_FLIP",
                            cut_path_exec(scene_id, previous, next),
                            message,
                        ).with_hint(
                            "Show the turn/reblocking, use a neutral or re-establishing shot, or mark the reversal as deliberate.",
                        ),
                    );
                }
            },
            None => {},
        }
        assert(report@ =~= before + f(j as int));
        j = j + 1;
    }
}

// ----------------------------------------------------------------------
// 30-degree rule
// ----------------------------------------------------------------------

/// Some subject framed by `previous` is framed by `next` too.
pub open spec fn shares_subject(previous: Shot, next: Shot) -> bool {
    let ours = string_views(previous.framing.subject_ids@);
    let theirs = string_views(next.framing.subject_ids@);
    exists|i: int| 0 <= i < ours.len() && theirs.contains(#[trigger] ours[i])
}

fn shares_subject_exec(previous: &Shot, next: &Shot) -> (b: bool)
    ensures
        b == shares_subject(*previous, *next),
{
    let ghost ours = string_views(previous.framing.subject_ids@);
    let ghost theirs = string_views(next.framing.subject_ids@);
    let mut i: usize = 0;
    while i < previous.framing.subject_ids.len()
        invariant
            i <= previous.framing.subject_ids.len(),
            ours == string_views(previous.framing.subject_ids@),
            theirs == string_views(next.framing.subject_ids@),
            forall|k: int| 0 <= k < i ==> !theirs.contains(#[trigger] ours[k]),
        decreases previous.framing.subject_ids.len() - i,
    {
        if contains_text(&next.framing.subject_ids, &previous.framing.subject_ids[i]) {
            assert(theirs.contains(ours[i as int]));
            return true;
        }
        i = i + 1;
    }
    false
}

/// The 30-degree rule: two shots of one subject at one shot size, cut
/// together without a jump cut, need their camera azimuths to differ by at
/// least 30 degrees. `small_angle` is the printed azimuth change when it is
/// under 30 degrees (`None` when it is not, or is unknown).
pub open spec fn small_angle_diags(
    scene_id: Seq<char>,
    previous: Shot,
    next: Shot,
    small_angle: Option<Seq<char>>,
) -> Seq<DiagnosticView> {
    if previous.transition_in is JumpCut || next.transition_in is JumpCut {
        Seq::empty()
    } else if previous.continuity.camera_azimuth_deg is None || next.continuity.camera_azimuth_deg is None {
        Seq::empty()
    } else if previous.framing.shot_size != next.framing.shot_size || !shares_subject(previous, next) {
        Seq::empty()
    } else {
        match small_angle {
            Some(delta) => if !has_bridge(previous, next) {
                seq![hinted(
                    warning_at(
                        "CONTINUITY_SMALL_ANGLE_CUT"@,
                        cut_path(scene_id, previous, next),
                        "cut changes camera azimuth by only "@ + delta + "\u{b0} while keeping shot size and subject"@,
                    ),
                    "Change the angle, shot size, or composition more substantially, or declare a jump cut."@,
                )]
            } else {
                Seq::empty()
            },
            None => Seq::empty(),
        }
    }
}

fn analyze_thirty_degree_rule(
    scene_id: &String,
    previous: &Shot,
    next: &Shot,
    small_angle: &Option<String>,
    report: &mut ValidationReport,
)
    ensures
        final(report)@ == old(report)@ + small_angle_diags(
            scene_id@,
            *previous,
            *next,
            match small_angle {
                Some(t) => Some(t@),
                None => None,
            },
        ),
{
    let ghost angle = match small_angle {
        Some(t) => Some(t@),
        None => None::<Seq<char>>,
    };
    if previous.transition_in == Transition::JumpCut || next.transition_in == Transition::JumpCut {
        assert(report@ =~= old(report)@ + small_angle_diags(scene_id@, *previous, *next, angle));
        return;
    }
    if previous.continuity.camera_azimuth_deg.is_none() || next.continuity.camera_azimuth_deg.is_none() {
        assert(report@ =~= old(report)@ + small_angle_diags(scene_id@, *previous, *next, angle));
        return;
    }
    if previous.framing.shot_size != next.framing.shot_size || !shares_subject_exec(previous, next) {
        assert(report@ =~= old(report)@ + small_angle_diags(scene_id@, *previous, *next, angle));
        return;
    }
    match small_angle {
        Some(delta) => {
            if !has_bridge_exec(previous, next) {
                let mut message = owned("cut changes camera azimuth by only ");
                push_str(&mut message, delta.as_str());
                push_str(&mut message, "\u{b0} while keeping shot size and subject");
                report.push(
                    Diagnostic::warning("CONTINUITY_SMALL_ANGLE_CUT", cut_path_exec(scene_id, previous, next), message)
                        .with_hint("Change the angle, shot size, or composition more substantially, or declare a jump cut."),
                );
            }
        },
        None => {},
    }
    assert(report@ =~= old(report)@ + small_angle_diags(scene_id@, *previous, *next, angle));
}

// ----------------------------------------------------------------------
// Reciprocal eyelines
// ----------------------------------------------------------------------

/// Eyeline `first` of the previous shot and `second` of the next look at
/// each other yet point the same way on screen.
pub open spec fn eyeline_pair_diags(
    scene_id: Seq<char>,
    previous: Shot,
    next: Shot,
    first: EyelineObservation,
    second: EyelineObservation,
) -> Seq<DiagnosticView> {
    match (first.target, second.target) {
        (TargetRef::Subject { id: first_target }, TargetRef::Subject { id: second_target }) => {
            if first.subject_id@ == second_target@ && first_target@ == second.subject_id@
                && first.screen_direction == second.screen_direction && (first.screen_direction is Left
                || first.screen_direction is Right) && !has_bridge(previous, next) {
                seq![hinted(
                    warning_at(
                        "CONTINUITY_EYELINE_MISMATCH"@,
                        cut_path(scene_id, previous, next),
                        "reciprocal eyelines '"@ + first.subject_id@ + "'\u{2192}'"@ + first_target@ + "' and '"@
                            + second.subject_id@ + "'\u{2192}'"@ + second_target@ + "' both point "@
                            + horizontal_name(first.screen_direction) + " on screen"@,
                    ),
                    "Conventional shot/reverse-shot coverage normally gives reciprocal eyelines opposite screen directions."@,
                )]
            } else {
                Seq::empty()
            }
        },
        _ => Seq::empty(),
    }
}

/// Reciprocal eyelines across a cut with no bridge: shot/reverse-shot
/// eyelines pointing opposite ways (left then right, or right then left)
/// raise nothing; pointing the same lateral way they raise exactly one
/// `CONTINUITY_EYELINE_MISMATCH` warning.
pub proof fn lemma_reciprocal_eyelines(
    scene_id: Seq<char>,
    previous: Shot,
    next: Shot,
    first: EyelineObservation,
    second: EyelineObservation,
)
    requires
        first.target matches TargetRef::Subject { id: a } && a@ == second.subject_id@,
        second.target matches TargetRef::Subject { id: b } && b@ == first.subject_id@,
        !has_bridge(previous, next),
    ensures
        (first.screen_direction is Left && second.screen_direction is Right) || (first.screen_direction is Right
            && second.screen_direction is Left) ==> eyeline_pair_diags(scene_id, previous, next, first, second).len()
            == 0,
        first.screen_direction == second.screen_direction && (first.screen_direction is Left
            || first.screen_direction is Right) ==> ({
            let d = eyeline_pair_diags(scene_id, previous, next, first, second);
            &&& d.len() == 1
            &&& d[0].code == "CONTINUITY_EYELINE_MISMATCH"@
            &&& d[0].severity == Severity::Warning
        }),
        first.screen_direction is Center || second.screen_direction is Center ==> eyeline_pair_diags(
            scene_id,
            previous,
            next,
            first,
            second,
        ).len() == 0,
{
}

/// Eyeline `i` of the previous shot against every eyeline of the next.
pub open spec fn eyeline_row_diags(scene_id: Seq<char>, previous: Shot, next: Shot, i: int) -> Seq<DiagnosticView> {
    flatten(Seq::new(
        next.continuity.eyelines@.len(),
        |j: int| eyeline_pair_diags(
            scene_id,
            previous,
            next,
            previous.continuity.eyelines@[i],
            next.continuity.eyelines@[j],
        ),
    ))
}

pub open spec fn eyeline_mismatch_diags(scene_id: Seq<char>, previous: Shot, next: Shot) -> Seq<DiagnosticView> {
    flatten(Seq::new(
        previous.continuity.eyelines@.len(),
        |i: int| eyeline_row_diags(scene_id, previous, next, i),
    ))
}

fn analyze_eyeline_pair(
    scene_id: &String,
    previous: &Shot,
    next: &Shot,
    first: &EyelineObservation,
    second: &EyelineObservation,
    bridged: bool,
    report: &mut ValidationReport,
)
    requires
        bridged == has_bridge(*previous, *next),
    ensures
        final(report)@ == old(report)@ + eyeline_pair_diags(scene_id@, *previous, *next, *first, *second),
{
    match (first.target.subject_id(), second.target.subject_id()) {
        (Some(first_target), Some(second_target)) => {
            let reciprocal = first.subject_id == *second_target && *first_target == second.subject_id;
            let same_direction = first.screen_direction == second.screen_direction && (first.screen_direction
                == HorizontalDirection::Left || first.screen_direction == HorizontalDirection::Right);
            if reciprocal && same_direction && !bridged {
                let mut message = owned("reciprocal eyelines '");
                push_str(&mut message, first.subject_id.as_str());
                push_str(&mut message, "'\u{2192}'");
                push_str(&mut message, first_target.as_str());
                push_str(&mut message, "' and '");
                push_str(&mut message, second.subject_id.as_str());
                push_str(&mut message, "'\u{2192}'");
                push_str(&mut message, second_target.as_str());
                push_str(&mut message, "' both point ");
                push_str(&mut message, horizontal_name_exec(first.screen_direction));
                push_str(&mut message, " on screen");
                report.push(
                    Diagnostic::warning("CONTINUITY_EYELINE_MISMATCH", cut_path_exec(scene_id, previous, next), message)
                        .with_hint(
                        "Conventional shot/reverse-shot coverage normally gives reciprocal eyelines opposite screen directions.",
                    ),
                );
            }
        },
        _ => {},
    }
    assert(report@ =~= old(report)@ + eyeline_pair_diags(scene_id@, *previous, *next, *first, *second));
}

fn analyze_eyeline_row(scene_id: &String, previous: &Shot, next: &Shot, i: usize, bridged: bool, report: &mut ValidationReport)
    requires
        i < previous.continuity.eyelines.len(),
        bridged == has_bridge(*previous, *next),
    ensures
        final(report)@ == old(report)@ + eyeline_row_diags(scene_id@, *previous, *next, i as int),
{
    let first = &previous.continuity.eyelines[i];
    let ghost f = |j: int| eyeline_pair_diags(
        scene_id@,
        *previous,
        *next,
        previous.continuity.eyelines@[i as int],
        next.continuity.eyelines@[j],
    );
    let mut j: usize = 0;
    while j < next.continuity.eyelines.len()
        invariant
            j <= next.continuity.eyelines.len(),
            i < previous.continuity.eyelines.len(),
            *first == previous.continuity.eyelines@[i as int],
            bridged == has_bridge(*previous, *next),
            f == (|j: int| eyeline_pair_diags(
                scene_id@,
                *previous,
                *next,
                previous.continuity.eyelines@[i as int],
                next.continuity.eyelines@[j],
            )),
            report@ == old(report)@ + flatten(Seq::new(j as nat, f)),
        decreases next.continuity.eyelines.len() - j,
    {
        proof { lemma_flatten_new_step(j as nat, f); }
        analyze_eyeline_pair(scene_id, previous, next, first, &next.continuity.eyelines[j], bridged, report);
        j = j + 1;
    }
}

fn analyze_reciprocal_eyeline(scene_id: &String, previous: &Shot, next: &Shot, report: &mut ValidationReport)
    ensures
        final(report)@ == old(report)@ + eyeline_mismatch_diags(scene_id@, *previous, *next),
{
    let bridged = has_bridge_exec(previous, next);
    let ghost f = |i: int| eyeline_row_diags(scene_id@, *previous, *next, i);
    let mut i: usize = 0;
    while i < previous.continuity.eyelines.len()
        invariant
            i <= previous.continuity.eyelines.len(),
            bridged == has_bridge(*previous, *next),
            f == (|i: int| eyeline_row_diags(scene_id@, *previous, *next, i)),
            report@ == old(report)@ + flatten(Seq::new(i as nat, f)),
        decreases previous.continuity.eyelines.len() - i,
    {
        proof { lemma_flatten_new_step(i as nat, f); }
        analyze_eyeline_row(scene_id, previous, next, i, bridged, report);
        i = i + 1;
    }
}

// ----------------------------------------------------------------------
// The analysis
// ----------------------------------------------------------------------

/// The printed azimuth change of cut `k`, where one was given.
pub open spec fn angle_at(small_angles: Seq<Option<String>>, k: int) -> Option<Seq<char>> {
    if 0 <= k < small_angles.len() {
        match small_angles[k] {
            Some(t) => Some(t@),
            None => None,
        }
    } else {
        None
    }
}

/// Everything the analysis reports for the cut from `previous` to `next`,
/// in the order the rules are checked.
pub open spec fn cut_diags(scene_id: Seq<char>, previous: Shot, next: Shot, small_angle: Option<Seq<char>>) -> Seq<
    DiagnosticView,
> {
    axis_cross_diags(scene_id, previous, next) + direction_flip_diags(scene_id, previous, next) + small_angle_diags(
        scene_id,
        previous,
        next,
        small_angle,
    ) + eyeline_mismatch_diags(scene_id, previous, next)
}

/// Number of cuts between `n` shots.
pub open spec fn cut_count(n: nat) -> nat {
    if n > 0 { (n - 1) as nat } else { 0 }
}

/// The continuity findings of `scene`, cut by cut in edit order.
#[verifier::opaque]
pub open spec fn continuity_diags(scene: Scene, small_angles: Seq<Option<String>>) -> Seq<DiagnosticView> {
    let sorted = shots_in_edit_order(scene.shots@);
    flatten(Seq::new(
        cut_count(sorted.len()),
        |k: int| cut_diags(scene.id@, sorted[k], sorted[k + 1], angle_at(small_angles, k)),
    ))
}

fn analyze_cut(scene_id: &String, previous: &Shot, next: &Shot, small_angle: &Option<String>, report: &mut ValidationReport)
    ensures
        final(report)@ == old(report)@ + cut_diags(
            scene_id@,
            *previous,
            *next,
            match small_angle {
                Some(t) => Some(t@),
                None => None,
            },
        ),
{
    analyze_axis_cross(scene_id, previous, next, report);
    analyze_screen_direction(scene_id, previous, next, report);
    analyze_thirty_degree_rule(scene_id, previous, next, small_angle, report);
    analyze_reciprocal_eyeline(scene_id, previous, next, report);
}

/// Continuity analysis of `scene`: every pair of shots adjacent in edit
/// order is checked for an axis cross, a screen-direction flip, a cut under
/// 30 degrees and a reciprocal-eyeline mismatch.
///
/// Entry `k` of `small_angles` concerns the `k`-th cut in edit order: the
/// printed change of camera azimuth (to one decimal) when it is under 30
/// degrees, `None` otherwise; a missing entry counts as `None`.
pub fn analyze_continuity(scene: &Scene, small_angles: &Vec<Option<String>>) -> (report: ValidationReport)
    ensures
        report@ == continuity_diags(*scene, small_angles@),
{
    let mut report = ValidationReport::new();
    let order = shot_order(&scene.shots);
    let ghost sorted = shots_in_edit_order(scene.shots@);
    let n = order.len();
    let ghost f = |k: int| cut_diags(scene.id@, sorted[k], sorted[k + 1], angle_at(small_angles@, k));
    let mut k: usize = 1;
    while k < n
        invariant
            1 <= k,
            n > 0 ==> k <= n,
            n == 0 ==> k == 1,
            n == order.len(),
            n == scene.shots.len(),
            sorted == shots_in_edit_order(scene.shots@),
            sorted.len() == n,
            forall|j: int| 0 <= j < n ==> #[trigger] order@[j] < scene.shots.len() && sorted[j]
                == scene.shots@[order@[j] as int],
            f == (|k: int| cut_diags(scene.id@, sorted[k], sorted[k + 1], angle_at(small_angles@, k))),
            report@ == flatten(Seq::new((k - 1) as nat, f)),
        decreases n - k,
    {
        proof { lemma_flatten_new_step((k - 1) as nat, f); }
        let previous = &scene.shots[order[k - 1]];
        let next = &scene.shots[order[k]];
        let none: Option<String> = None;
        let small_angle = if k - 1 < small_angles.len() { &small_angles[k - 1] } else { &none };
        assert(sorted[k - 1] == *previous);
        assert(sorted[k as int] == *next);
        analyze_cut(&scene.id, previous, next, small_angle, &mut report);
        k = k + 1;
    }
    proof {
        reveal(continuity_diags);
        assert(Seq::new((k - 1) as nat, f) =~= Seq::new(
            cut_count(sorted.len()),
            |k: int| cut_diags(scene.id@, sorted[k], sorted[k + 1], angle_at(small_angles@, k)),
        ));
    }
    report
}

// ----------------------------------------------------------------------
// Laws
// ----------------------------------------------------------------------

/// A declared bridge or spatial reset on either shot of a cut silences every
/// continuity finding for that cut.
pub proof fn lemma_bridge_silences_cut(scene_id: Seq<char>, previous: Shot, next: Shot, small_angle: Option<Seq<char>>)
    requires
        has_bridge(previous, next),
    ensures
        cut_diags(scene_id, previous, next, small_angle).len() == 0,
{
    let axis = Seq::new(
        next.continuity.axis_observations@.len(),
        |j: int| axis_cross_diag(scene_id, previous, next, j),
    );
    lemma_flatten_empty_parts(axis);
    let flips = Seq::new(
        next.continuity.screen_directions@.len(),
        |j: int| direction_flip_diag(scene_id, previous, next, j),
    );
    lemma_flatten_empty_parts(flips);
    let rows = Seq::new(
        previous.continuity.eyelines@.len(),
        |i: int| eyeline_row_diags(scene_id, previous, next, i),
    );
    assert forall|i: int| 0 <= i < rows.len() implies (#[trigger] rows[i]).len() == 0 by {
        let pairs = Seq::new(
            next.continuity.eyelines@.len(),
            |j: int| eyeline_pair_diags(
                scene_id,
                previous,
                next,
                previous.continuity.eyelines@[i],
                next.continuity.eyelines@[j],
            ),
        );
        lemma_flatten_empty_parts(pairs);
    }
    lemma_flatten_empty_parts(rows);
}

/// A visible turn declared on either shot exempts the cut from the
/// screen-direction check.
pub proof fn lemma_visible_turn_exempts_direction(scene_id: Seq<char>, previous: Shot, next: Shot)
    requires
        previous.continuity.direction_change_visible || next.continuity.direction_change_visible,
    ensures
        direction_flip_diags(scene_id, previous, next).len() == 0,
{
    let flips = Seq::new(
        next.continuity.screen_directions@.len(),
        |j: int| direction_flip_diag(scene_id, previous, next, j),
    );
    lemma_flatten_empty_parts(flips);
}

/// A jump cut on either side exempts the cut from the 30-degree rule.
pub proof fn lemma_jump_cut_exempts_small_angle(
    scene_id: Seq<char>,
    previous: Shot,
    next: Shot,
    small_angle: Option<Seq<char>>,
)
    requires
        previous.transition_in is JumpCut || next.transition_in is JumpCut,
    ensures
        small_angle_diags(scene_id, previous, next, small_angle).len() == 0,
{
}

/// Continuity analysis only ever warns.
pub proof fn lemma_continuity_only_warns(scene: Scene, small_angles: Seq<Option<String>>)
    ensures
        forall|k: int| 0 <= k < continuity_diags(scene, small_angles).len() ==> (#[trigger] continuity_diags(
            scene,
            small_angles,
        )[k]).severity == Severity::Warning,
{
    reveal(continuity_diags);
    let warning = |d: DiagnosticView| d.severity == Severity::Warning;
    let sorted = shots_in_edit_order(scene.shots@);
    let cuts = Seq::new(
        cut_count(sorted.len()),
        |k: int| cut_diags(scene.id@, sorted[k], sorted[k + 1], angle_at(small_angles, k)),
    );
    assert forall|i: int, j: int| 0 <= i < cuts.len() && 0 <= j < cuts[i].len() implies warning(#[trigger] cuts[i][j]) by {
        lemma_cut_only_warns(scene.id@, sorted[i], sorted[i + 1], angle_at(small_angles, i));
    }
    lemma_flatten_all(cuts, warning);
}

proof fn lemma_cut_only_warns(scene_id: Seq<char>, previous: Shot, next: Shot, small_angle: Option<Seq<char>>)
    ensures
        forall|k: int| 0 <= k < cut_diags(scene_id, previous, next, small_angle).len() ==> (
        #[trigger] cut_diags(scene_id, previous, next, small_angle)[k]).severity == Severity::Warning,
{
    let warning = |d: DiagnosticView| d.severity == Severity::Warning;
    let axis = Seq::new(
        next.continuity.axis_observations@.len(),
        |j: int| axis_cross_diag(scene_id, previous, next, j),
    );
    lemma_flatten_all(axis, warning);
    let flips = Seq::new(
        next.continuity.screen_directions@.len(),
        |j: int| direction_flip_diag(scene_id, previous, next, j),
    );
    lemma_flatten_all(flips, warning);
    let rows = Seq::new(
        previous.continuity.eyelines@.len(),
        |i: int| eyeline_row_diags(scene_id, previous, next, i),
    );
    assert forall|i: int, j: int| 0 <= i < rows.len() && 0 <= j < rows[i].len() implies warning(#[trigger] rows[i][j]) by {
        let pairs = Seq::new(
            next.continuity.eyelines@.len(),
            |m: int| eyeline_pair_diags(
                scene_id,
                previous,
                next,
                previous.continuity.eyelines@[i],
                next.continuity.eyelines@[m],
            ),
        );
        lemma_flatten_all(pairs, warning);
    }
    lemma_flatten_all(rows, warning);
    let all = cut_diags(scene_id, previous, next, small_angle);
    let small = small_angle_diags(scene_id, previous, next, small_angle);
    assert forall|k: int| 0 <= k < all.len() implies warning(#[trigger] all[k]) by {
        let a = axis_cross_diags(scene_id, previous, next);
        let f = direction_flip_diags(scene_id, previous, next);
        let e = eyeline_mismatch_diags(scene_id, previous, next);
        if k < a.len() {
            assert(all[k] == a[k]);
        } else if k < a.len() + f.len() {
            assert(all[k] == f[k - a.len()]);
        } else if k < a.len() + f.len() + small.len() {
            assert(all[k] == small[k - a.len() - f.len()]);
        } else {
            assert(all[k] == e[k - a.len() - f.len() - small.len()]);
        }
    }
}

} // verus!
