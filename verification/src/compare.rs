//! Comparison of an estimated camera trajectory with the solved intent: the
//! alignment choices and the frame-exact event timing.
use vstd::prelude::*;

use crate::compiled::{CompiledPhase, PhaseKind};
use crate::diagnostic::{flatten, lemma_flatten_new_step};
use crate::model::Frame;
use crate::sample::last_frame;
use crate::text::{owned, push_str};

verus! {

/// How estimated positions are brought into the intent's frame.
#[derive(Debug, Clone, Copy, PartialEq, Eq, Structural)]
pub enum Alignment {
    /// Compare raw coordinates.
    Raw,
    /// Remove the centroid offset (estimators rarely share the world origin).
    Translation,
    /// Full Sim(3): remove centroid offset, global rotation, and uniform
    /// scale (monocular estimators rarely share world coordinates).
    Similarity,
}

/// How estimated frames are matched to intended ones.
#[derive(Debug, Clone, Copy, PartialEq, Eq, Structural)]
pub enum TemporalAlignment {
    /// Match frames by their declared scene-frame number.
    Exact,
    /// Match camera progress with dynamic time warping; phase and cut
    /// timing is still reported against the unwarped estimate.
    DynamicTimeWarping,
}

/// `|a - b|`.
pub open spec fn frame_distance(a: Frame, b: Frame) -> int {
    if a >= b { a - b } else { b - a }
}

/// Index of the first of the first `n` actual frames nearest `expected`.
pub open spec fn nearest_index(actual: Seq<Frame>, expected: Frame, n: nat) -> int
    decreases n,
{
    if n <= 1 {
        0
    } else {
        let best = nearest_index(actual, expected, (n - 1) as nat);
        if frame_distance(actual[n - 1], expected) < frame_distance(actual[best], expected) {
            n - 1
        } else {
            best
        }
    }
}

/// For every expected event frame, the signed offset of the nearest actual
/// event (the first such on ties); nothing when no event was observed.
pub open spec fn event_offsets(expected: Seq<Frame>, actual: Seq<Frame>) -> Seq<i64> {
    if actual.len() == 0 {
        Seq::empty()
    } else {
        expected.map_values(
            |e: Frame| (actual[nearest_index(actual, e, actual.len())] - e) as i64,
        )
    }
}

fn nearest(actual: &Vec<Frame>, expected: Frame) -> (k: usize)
    requires
        actual.len() > 0,
    ensures
        k == nearest_index(actual@, expected, actual@.len()),
        k < actual.len(),
{
    let mut best: usize = 0;
    let mut best_distance: Frame = if actual[0] >= expected { actual[0] - expected } else { expected - actual[0] };
    let mut i: usize = 1;
    while i < actual.len()
        invariant
            1 <= i <= actual.len(),
            best == nearest_index(actual@, expected, i as nat),
            best < i,
            best_distance == frame_distance(actual@[best as int], expected),
        decreases actual.len() - i,
    {
        let distance = if actual[i] >= expected { actual[i] - expected } else { expected - actual[i] };
        if distance < best_distance {
            best = i;
            best_distance = distance;
        }
        i = i + 1;
    }
    best
}

/// Signed frame offsets from each expected event to its nearest observed
/// event.
pub fn align_event_frames(expected: &Vec<Frame>, actual: &Vec<Frame>) -> (offsets: Vec<i64>)
    requires
        forall|i: int| 0 <= i < expected.len() ==> expected@[i] <= i64::MAX,
        forall|i: int| 0 <= i < actual.len() ==> actual@[i] <= i64::MAX,
    ensures
        offsets@ == event_offsets(expected@, actual@),
{
    let mut offsets: Vec<i64> = Vec::new();
    if actual.len() == 0 {
        return offsets;
    }
    let mut i: usize = 0;
    while i < expected.len()
        invariant
            i <= expected.len(),
            actual.len() > 0,
            forall|k: int| 0 <= k < expected.len() ==> expected@[k] <= i64::MAX,
            forall|k: int| 0 <= k < actual.len() ==> actual@[k] <= i64::MAX,
            offsets@ == event_offsets(expected@.take(i as int), actual@),
        decreases expected.len() - i,
    {
        let e = expected[i];
        let k = nearest(actual, e);
        let offset = actual[k] as i64 - e as i64;
        offsets.push(offset);
        assert(event_offsets(expected@.take(i + 1), actual@) =~= event_offsets(expected@.take(i as int), actual@).push(
            (actual@[k as int] - e) as i64,
        ));
        i = i + 1;
    }
    assert(expected@.take(expected.len() as int) =~= expected@);
    offsets
}

/// The alignment a command-line name selects.
pub open spec fn alignment_named(name: Seq<char>) -> Option<Alignment> {
    if name == "none"@ {
        Some(Alignment::Raw)
    } else if name == "translation"@ {
        Some(Alignment::Translation)
    } else if name == "similarity"@ || name == "scale"@ {
        Some(Alignment::Similarity)
    } else {
        None
    }
}

/// Reads `none`, `translation`, or `similarity` (alias `scale`).
pub fn parse_alignment(name: &str) -> (result: Result<Alignment, String>)
    ensures
        match result {
            Ok(a) => alignment_named(name@) == Some(a),
            Err(message) => alignment_named(name@) is None && message@ == "unknown alignment '"@ + name@ + "'"@,
        },
{
    let text = owned(name);
    if text == owned("none") {
        Ok(Alignment::Raw)
    } else if text == owned("translation") {
        Ok(Alignment::Translation)
    } else if text == owned("similarity") || text == owned("scale") {
        Ok(Alignment::Similarity)
    } else {
        let mut message = owned("unknown alignment '");
        push_str(&mut message, name);
        push_str(&mut message, "'");
        Err(message)
    }
}

/// The temporal alignment a command-line name selects.
pub open spec fn temporal_alignment_named(name: Seq<char>) -> Option<TemporalAlignment> {
    if name == "exact"@ || name == "frame"@ {
        Some(TemporalAlignment::Exact)
    } else if name == "dtw"@ || name == "dynamic-time-warping"@ {
        Some(TemporalAlignment::DynamicTimeWarping)
    } else {
        None
    }
}

/// Reads `exact` (alias `frame`) or `dtw` (alias `dynamic-time-warping`).
pub fn parse_temporal_alignment(name: &str) -> (result: Result<TemporalAlignment, String>)
    ensures
        match result {
            Ok(a) => temporal_alignment_named(name@) == Some(a),
            Err(message) => temporal_alignment_named(name@) is None && message@ == "unknown temporal alignment '"@
                + name@ + "'"@,
        },
{
    let text = owned(name);
    if text == owned("exact") || text == owned("frame") {
        Ok(TemporalAlignment::Exact)
    } else if text == owned("dtw") || text == owned("dynamic-time-warping") {
        Ok(TemporalAlignment::DynamicTimeWarping)
    } else {
        let mut message = owned("unknown temporal alignment '");
        push_str(&mut message, name);
        push_str(&mut message, "'");
        Err(message)
    }
}

/// The events a compiled shot schedules: the first and last frame of every
/// phase that moves (neither holds nor settles), in phase order.
pub open spec fn phase_events(phases: Seq<CompiledPhase>) -> Seq<Frame> {
    flatten(
        Seq::new(
            phases.len(),
            |i: int| if phases[i].kind != PhaseKind::Hold && phases[i].kind != PhaseKind::Settle {
                seq![phases[i].edit_range.start, last_frame(phases[i].edit_range)]
            } else {
                Seq::empty()
            },
        ),
    )
}

/// Phases among the first `n` in which the camera is meant to move or
/// change: motion, focus, reveal and mixed phases (not holds or settles).
pub open spec fn active_phase_count(phases: Seq<CompiledPhase>, n: nat) -> nat
    decreases n,
{
    if n == 0 {
        0
    } else {
        active_phase_count(phases, (n - 1) as nat) + match phases[n - 1].kind {
            PhaseKind::Motion | PhaseKind::Focus | PhaseKind::Reveal | PhaseKind::Mixed => 1nat,
            PhaseKind::Hold | PhaseKind::Settle => 0nat,
        }
    }
}

spec fn events_of_phase(phases: Seq<CompiledPhase>, i: int) -> Seq<Frame> {
    if phases[i].kind != PhaseKind::Hold && phases[i].kind != PhaseKind::Settle {
        seq![phases[i].edit_range.start, last_frame(phases[i].edit_range)]
    } else {
        Seq::empty()
    }
}

spec fn events_before(phases: Seq<CompiledPhase>, n: nat) -> Seq<Frame> {
    flatten(Seq::new(n, |i: int| events_of_phase(phases, i)))
}

proof fn lemma_phase_events_prefix(phases: Seq<CompiledPhase>, n: nat)
    requires
        n <= phases.len(),
    ensures
        events_before(phases, n).len() == 2 * active_phase_count(phases, n),
        forall|i: int|
            0 <= i < n && !(phases[i].kind is Hold || phases[i].kind is Settle) ==> #[trigger] events_before(
                phases,
                n,
            ).contains(phases[i].edit_range.start) && events_before(phases, n).contains(
                last_frame(phases[i].edit_range),
            ),
    decreases n,
{
    let f = |i: int| events_of_phase(phases, i);
    if n > 0 {
        lemma_phase_events_prefix(phases, (n - 1) as nat);
        lemma_flatten_new_step((n - 1) as nat, f);
        let before = events_before(phases, (n - 1) as nat);
        let after = events_before(phases, n);
        assert(after == before + f(n - 1));
        assert forall|i: int|
            0 <= i < n && !(phases[i].kind is Hold || phases[i].kind is Settle) implies #[trigger] after.contains(
            phases[i].edit_range.start,
        ) && after.contains(last_frame(phases[i].edit_range)) by {
            if i < n - 1 {
                assert(before.contains(phases[i].edit_range.start));
                let a = choose|k: int| 0 <= k < before.len() && before[k] == phases[i].edit_range.start;
                assert(after[a] == before[a]);
                assert(before.contains(last_frame(phases[i].edit_range)));
                let b = choose|k: int| 0 <= k < before.len() && before[k] == last_frame(phases[i].edit_range);
                assert(after[b] == before[b]);
            } else {
                assert(after[before.len() as int] == phases[i].edit_range.start);
                assert(after[before.len() as int + 1] == last_frame(phases[i].edit_range));
            }
        }
    }
}

/// Every phase in which the camera is meant to move or change (motion,
/// focus, reveal or mixed) contributes its first and its last frame as an
/// expected event, holds and settles none; so, once the estimate shows any
/// motion, there are two timing offsets per such phase.
pub proof fn lemma_phase_events_law(phases: Seq<CompiledPhase>, moving: Seq<Frame>)
    ensures
        phase_events(phases).len() == 2 * active_phase_count(phases, phases.len()),
        forall|i: int|
            0 <= i < phases.len() && !(phases[i].kind is Hold || phases[i].kind is Settle) ==> #[trigger] phase_events(
                phases,
            ).contains(phases[i].edit_range.start) && phase_events(phases).contains(last_frame(phases[i].edit_range)),
        moving.len() > 0 ==> event_offsets(phase_events(phases), motion_events(moving)).len() == 2 * active_phase_count(
            phases,
            phases.len(),
        ),
{
    lemma_phase_events_prefix(phases, phases.len());
    assert(events_before(phases, phases.len()) == flatten(Seq::new(phases.len(), |i: int| events_of_phase(phases, i))));
    assert(Seq::new(phases.len(), |i: int| events_of_phase(phases, i)) =~= Seq::new(
        phases.len(),
        |i: int| if phases[i].kind != PhaseKind::Hold && phases[i].kind != PhaseKind::Settle {
            seq![phases[i].edit_range.start, last_frame(phases[i].edit_range)]
        } else {
            Seq::empty()
        },
    ));
}

/// The observed events: the first and the last frame at which the estimate
/// moves, given the moving frames in order.
pub open spec fn motion_events(moving: Seq<Frame>) -> Seq<Frame> {
    if moving.len() > 0 { seq![moving[0], moving.last()] } else { Seq::empty() }
}

/// Frame offsets between the phases a shot schedules and the motion an
/// estimate shows: `moving` lists, in order, the frames at which the
/// estimated camera moves (position or focal length changes from the
/// frame before).
pub fn phase_timing_errors(phases: &Vec<CompiledPhase>, moving: &Vec<Frame>) -> (offsets: Vec<i64>)
    requires
        forall|i: int| 0 <= i < phases.len() ==> (#[trigger] phases@[i]).edit_range.start <= i64::MAX
            && phases@[i].edit_range.end <= i64::MAX,
        forall|i: int| 0 <= i < moving.len() ==> moving@[i] <= i64::MAX,
    ensures
        offsets@ == event_offsets(phase_events(phases@), motion_events(moving@)),
{
    let ghost f = |i: int| if phases@[i].kind != PhaseKind::Hold && phases@[i].kind != PhaseKind::Settle {
        seq![phases@[i].edit_range.start, last_frame(phases@[i].edit_range)]
    } else {
        Seq::<Frame>::empty()
    };
    let mut expected: Vec<Frame> = Vec::new();
    let mut i: usize = 0;
    while i < phases.len()
        invariant
            i <= phases.len(),
            f == (|i: int| if phases@[i].kind != PhaseKind::Hold && phases@[i].kind != PhaseKind::Settle {
                seq![phases@[i].edit_range.start, last_frame(phases@[i].edit_range)]
            } else {
                Seq::<Frame>::empty()
            }),
            expected@ == flatten(Seq::new(i as nat, f)),
            forall|k: int| 0 <= k < phases.len() ==> (#[trigger] phases@[k]).edit_range.start <= i64::MAX
                && phases@[k].edit_range.end <= i64::MAX,
            forall|k: int| 0 <= k < expected.len() ==> expected@[k] <= i64::MAX,
        decreases phases.len() - i,
    {
        let p = &phases[i];
        let ghost before = expected@;
        if p.kind != PhaseKind::Hold && p.kind != PhaseKind::Settle {
            expected.push(p.edit_range.start);
            expected.push(if p.edit_range.end > 0 { p.edit_range.end - 1 } else { 0 });
        }
        assert(expected@ =~= before + f(i as int));
        proof { lemma_flatten_new_step(i as nat, f); }
        i = i + 1;
    }
    let mut actual: Vec<Frame> = Vec::new();
    if moving.len() > 0 {
        actual.push(moving[0]);
        actual.push(moving[moving.len() - 1]);
    }
    assert(actual@ =~= motion_events(moving@));
    align_event_frames(&expected, &actual)
}

} // verus!
