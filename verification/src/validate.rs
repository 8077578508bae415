//! Structural, reference, timeline, and numeric checks of a document.
//!
//! Every diagnostic carries the path of what it concerns, in the document's
//! own terms (`scenes[0].shots[2].range`), so the checks' order and paths are
//! part of the contract.
use vstd::prelude::*;

use crate::diagnostic::{lemma_concat_regroup, lemma_flatten_empty_iff, error_at, flatten, hinted, lemma_flatten_new_step, warning_at, Diagnostic,
    DiagnosticView, ValidationReport};
use crate::model::{AxisName, SignedAxis, CineProject, AxisObservation, ScreenDirectionObservation, EyelineObservation, DepthLayer, full_turn_interval, CameraOperation, CameraState, TimedCameraOperation, BlockingTrack, EmotionalBeat, non_negative_finite, positive_finite, signed_unit_interval, unit_interval, Beat,
    ContinuityAxis, EulerDeg, Frame, FrameRange, LightSource, LightingSetup, Marker, Num, Scene, Shot,
    Subject, TargetRef, Transform, Vec3};
use crate::timeline::{timeline_diags, validate_shot_timeline};
use crate::analyze::{analyze_continuity, continuity_diags};
use crate::text::{all_white_space, decimal, is_blank, owned, push_decimal, push_str, string_views};

verus! {

broadcast use {vstd::seq_lib::group_seq_properties, crate::diagnostic::lemma_concat_regroup};

/// Anything a validator looks up by id.
pub trait HasId {
    spec fn spec_id(&self) -> Seq<char>;

    fn id_text(&self) -> (id: &String)
        ensures
            id@ == self.spec_id(),
    ;
}

impl HasId for Subject {
    open spec fn spec_id(&self) -> Seq<char> { self.id@ }
    fn id_text(&self) -> (id: &String) { &self.id }
}

impl HasId for Marker {
    open spec fn spec_id(&self) -> Seq<char> { self.id@ }
    fn id_text(&self) -> (id: &String) { &self.id }
}

impl HasId for ContinuityAxis {
    open spec fn spec_id(&self) -> Seq<char> { self.id@ }
    fn id_text(&self) -> (id: &String) { &self.id }
}

impl HasId for Beat {
    open spec fn spec_id(&self) -> Seq<char> { self.id@ }
    fn id_text(&self) -> (id: &String) { &self.id }
}

impl HasId for Shot {
    open spec fn spec_id(&self) -> Seq<char> { self.id@ }
    fn id_text(&self) -> (id: &String) { &self.id }
}

impl HasId for LightingSetup {
    open spec fn spec_id(&self) -> Seq<char> { self.id@ }
    fn id_text(&self) -> (id: &String) { &self.id }
}

impl HasId for LightSource {
    open spec fn spec_id(&self) -> Seq<char> { self.id@ }
    fn id_text(&self) -> (id: &String) { &self.id }
}

impl HasId for Scene {
    open spec fn spec_id(&self) -> Seq<char> { self.id@ }
    fn id_text(&self) -> (id: &String) { &self.id }
}

/// The ids of `items`, in order.
pub open spec fn ids<T: HasId>(items: Seq<T>) -> Seq<Seq<char>> {
    items.map_values(|x: T| x.spec_id())
}

/// Copies the ids of `items`.
pub fn collect_ids<T: HasId>(items: &Vec<T>) -> (out: Vec<String>)
    ensures
        string_views(out@) == ids(items@),
{
    let mut out: Vec<String> = Vec::new();
    let mut i: usize = 0;
    while i < items.len()
        invariant
            i <= items.len(),
            string_views(out@) == ids(items@.take(i as int)),
        decreases items.len() - i,
    {
        let id = items[i].id_text().clone();
        let ghost before = out@;
        out.push(id);
        assert(string_views(out@) =~= string_views(before).push(items@[i as int].spec_id()));
        assert(ids(items@.take(i + 1)) =~= ids(items@.take(i as int)).push(items@[i as int].spec_id()));
        i = i + 1;
    }
    assert(items@.take(items.len() as int) =~= items@);
    out
}

/// `id` is one of `known`.
pub fn contains_text(known: &Vec<String>, id: &String) -> (b: bool)
    ensures
        b == string_views(known@).contains(id@),
{
    let mut i: usize = 0;
    while i < known.len()
        invariant
            i <= known.len(),
            forall|j: int| 0 <= j < i ==> string_views(known@)[j] != id@,
        decreases known.len() - i,
    {
        if known[i] == *id {
            assert(string_views(known@)[i as int] == id@);
            return true;
        }
        i = i + 1;
    }
    false
}

// ----------------------------------------------------------------------
// Paths and messages
// ----------------------------------------------------------------------

/// `base` followed by `field` and an `[index]` subscript.
pub open spec fn at_index(base: Seq<char>, field: Seq<char>, index: nat) -> Seq<char> {
    base + field + "["@ + decimal(index) + "]"@
}

/// `scenes[index]`.
pub open spec fn scene_path(index: nat) -> Seq<char> {
    at_index(Seq::empty(), "scenes"@, index)
}

fn indexed(base: &String, field: &str, index: usize) -> (s: String)
    ensures
        s@ == at_index(base@, field@, index as nat),
{
    let mut s = base.clone();
    push_str(&mut s, field);
    push_str(&mut s, "[");
    push_decimal(&mut s, index as u64);
    push_str(&mut s, "]");
    assert(s@ =~= at_index(base@, field@, index as nat));
    s
}

fn dotted(base: &String, field: &str) -> (s: String)
    ensures
        s@ == base@ + field@,
{
    let mut s = base.clone();
    push_str(&mut s, field);
    s
}

/// `before` + `id` + `after`.
fn around(before: &str, id: &String, after: &str) -> (s: String)
    ensures
        s@ == before@ + id@ + after@,
{
    let mut s = owned(before);
    push_str(&mut s, id.as_str());
    push_str(&mut s, after);
    s
}

/// "unknown subject '<id>'"
pub open spec fn unknown_subject(id: Seq<char>) -> Seq<char> {
    "unknown subject '"@ + id + "'"@
}

// ----------------------------------------------------------------------
// Unique ids
// ----------------------------------------------------------------------

/// What the id at position `i` of `ids` contributes: an error when it is
/// blank, or when it repeats an earlier id.
pub open spec fn unique_id_diag(ids: Seq<Seq<char>>, i: int, path: Seq<char>, kind: Seq<char>) -> Seq<DiagnosticView> {
    if all_white_space(ids[i]) {
        seq![error_at("ID_EMPTY"@, path, kind + " id must not be empty"@)]
    } else if ids.take(i).contains(ids[i]) {
        seq![error_at("ID_DUPLICATE"@, path, "duplicate "@ + kind + " id '"@ + ids[i] + "'"@)]
    } else {
        Seq::empty()
    }
}

pub open spec fn unique_id_diags(ids: Seq<Seq<char>>, path: Seq<char>, kind: Seq<char>) -> Seq<DiagnosticView> {
    flatten(Seq::new(ids.len(), |i: int| unique_id_diag(ids, i, path, kind)))
}

/// Reports blank ids and ids that repeat an earlier one.
pub fn check_unique_ids(ids: &Vec<String>, path: &String, kind: &str, report: &mut ValidationReport)
    ensures
        final(report)@ == old(report)@ + unique_id_diags(string_views(ids@), path@, kind@),
{
    let ghost v = string_views(ids@);
    let ghost f = |i: int| unique_id_diag(v, i, path@, kind@);
    let mut i: usize = 0;
    while i < ids.len()
        invariant
            i <= ids.len(),
            v == string_views(ids@),
            f == (|i: int| unique_id_diag(v, i, path@, kind@)),
            report@ == old(report)@ + flatten(Seq::new(i as nat, f)),
        decreases ids.len() - i,
    {
        proof { lemma_flatten_new_step(i as nat, f); }
        let ghost before = report@;
        let id = &ids[i];
        assert(id@ == v[i as int]);
        if is_blank(id.as_str()) {
            let mut message = owned(kind);
            push_str(&mut message, " id must not be empty");
            report.push(Diagnostic::error("ID_EMPTY", path.clone(), message));
            assert(f(i as int) =~= seq![error_at("ID_EMPTY"@, path@, kind@ + " id must not be empty"@)]);
        } else {
            let mut k: usize = 0;
            let mut seen = false;
            while k < i
                invariant
                    k <= i < ids.len(),
                    v == string_views(ids@),
                    seen == v.take(k as int).contains(v[i as int]),
                decreases i - k,
            {
                assert(v.take(k + 1) =~= v.take(k as int).push(v[k as int]));
                if ids[k] == ids[i] {
                    seen = true;
                }
                k = k + 1;
            }
            assert(v.take(i as int) =~= v.take(k as int));
            if seen {
                let mut message = owned("duplicate ");
                push_str(&mut message, kind);
                push_str(&mut message, " id '");
                push_str(&mut message, id.as_str());
                push_str(&mut message, "'");
                report.push(Diagnostic::error("ID_DUPLICATE", path.clone(), message));
                assert(f(i as int) =~= seq![error_at("ID_DUPLICATE"@, path@, "duplicate "@ + kind@ + " id '"@ + v[i as int] + "'"@)]);
            } else {
                assert(f(i as int) =~= Seq::<DiagnosticView>::empty());
            }
        }
        assert(report@ =~= old(report)@ + flatten(Seq::new((i + 1) as nat, f)));
        i = i + 1;
    }
}

/// The unique-id check reports nothing exactly when no id is blank and no
/// id repeats.
pub proof fn lemma_unique_ids_clean(ids: Seq<Seq<char>>, path: Seq<char>, kind: Seq<char>)
    ensures
        unique_id_diags(ids, path, kind).len() == 0 <==> ((forall|i: int| 0 <= i < ids.len() ==> !all_white_space(
            #[trigger] ids[i],
        )) && ids.no_duplicates()),
{
    let parts = Seq::new(ids.len(), |i: int| unique_id_diag(ids, i, path, kind));
    lemma_flatten_empty_iff(parts);
    if unique_id_diags(ids, path, kind).len() == 0 {
        assert forall|i: int| 0 <= i < ids.len() implies !all_white_space(#[trigger] ids[i]) by {
            assert(parts[i].len() == 0);
        }
        assert forall|i: int, j: int| 0 <= i < ids.len() && 0 <= j < ids.len() && i != j implies ids[i] != ids[j] by {
            let (a, b) = if i < j { (i, j) } else { (j, i) };
            assert(parts[b].len() == 0);
            assert(ids.take(b)[a] == ids[a]);
            if ids[a] == ids[b] {
                assert(ids.take(b).contains(ids[b]));
            }
        }
    }
    if (forall|i: int| 0 <= i < ids.len() ==> !all_white_space(#[trigger] ids[i])) && ids.no_duplicates() {
        assert forall|i: int| 0 <= i < parts.len() implies (#[trigger] parts[i]).len() == 0 by {
            if ids.take(i).contains(ids[i]) {
                let w = choose|w: int| 0 <= w < ids.take(i).len() && ids.take(i)[w] == ids[i];
                assert(ids[w] == ids[i]);
            }
        }
    }
}

// ----------------------------------------------------------------------
// Numbers, transforms, references, ranges
// ----------------------------------------------------------------------

/// One error diagnostic when `failed`, nothing otherwise.
pub open spec fn error_if(failed: bool, code: Seq<char>, path: Seq<char>, message: Seq<char>) -> Seq<DiagnosticView> {
    if failed { seq![error_at(code, path, message)] } else { Seq::empty() }
}

/// One warning diagnostic when `failed`, nothing otherwise.
pub open spec fn warning_if(failed: bool, code: Seq<char>, path: Seq<char>, message: Seq<char>) -> Seq<DiagnosticView> {
    if failed { seq![warning_at(code, path, message)] } else { Seq::empty() }
}

fn report_error_if(failed: bool, code: &str, path: String, message: &str, report: &mut ValidationReport)
    ensures
        final(report)@ == old(report)@ + error_if(failed, code@, path@, message@),
{
    if failed {
        report.push(Diagnostic::error(code, path, owned(message)));
        assert(report@ =~= old(report)@ + error_if(failed, code@, path@, message@));
    } else {
        assert(report@ =~= old(report)@ + error_if(failed, code@, path@, message@));
    }
}

fn report_warning_if(failed: bool, code: &str, path: String, message: &str, report: &mut ValidationReport)
    ensures
        final(report)@ == old(report)@ + warning_if(failed, code@, path@, message@),
{
    if failed {
        report.push(Diagnostic::warning(code, path, owned(message)));
        assert(report@ =~= old(report)@ + warning_if(failed, code@, path@, message@));
    } else {
        assert(report@ =~= old(report)@ + warning_if(failed, code@, path@, message@));
    }
}

pub open spec fn vec3_finite(v: Vec3) -> bool {
    v.x.spec_is_finite() && v.y.spec_is_finite() && v.z.spec_is_finite()
}

/// `x <= 0.0` (false for NaN).
pub open spec fn at_most_zero(n: Num) -> bool {
    n.spec_is_negative() || n is Zero
}

pub open spec fn vec3_diags(v: Vec3, path: Seq<char>) -> Seq<DiagnosticView> {
    error_if(!vec3_finite(v), "VECTOR_NOT_FINITE"@, path, "vector components must be finite numbers"@)
}

pub open spec fn euler_diags(e: EulerDeg, path: Seq<char>) -> Seq<DiagnosticView> {
    error_if(
        !(e.pitch.spec_is_finite() && e.yaw.spec_is_finite() && e.roll.spec_is_finite()),
        "ROTATION_NOT_FINITE"@,
        path,
        "rotation components must be finite numbers"@,
    )
}

pub open spec fn finite_diags(n: Num, path: Seq<char>) -> Seq<DiagnosticView> {
    error_if(!n.spec_is_finite(), "NUMBER_NOT_FINITE"@, path, "value must be finite"@)
}

pub open spec fn transform_diags(t: Transform, path: Seq<char>) -> Seq<DiagnosticView> {
    vec3_diags(t.position, path + ".position"@) + euler_diags(t.rotation_deg, path + ".rotation_deg"@)
        + vec3_diags(t.scale, path + ".scale"@) + error_if(
        at_most_zero(t.scale.x) || at_most_zero(t.scale.y) || at_most_zero(t.scale.z),
        "TRANSFORM_SCALE_INVALID"@,
        path + ".scale"@,
        "transform scale must be positive on all axes"@,
    )
}

fn check_vec3(v: Vec3, path: String, report: &mut ValidationReport)
    ensures
        final(report)@ == old(report)@ + vec3_diags(v, path@),
{
    let failed = !(v.x.is_finite() && v.y.is_finite() && v.z.is_finite());
    report_error_if(failed, "VECTOR_NOT_FINITE", path, "vector components must be finite numbers", report);
}

fn check_euler(e: EulerDeg, path: String, report: &mut ValidationReport)
    ensures
        final(report)@ == old(report)@ + euler_diags(e, path@),
{
    let failed = !(e.pitch.is_finite() && e.yaw.is_finite() && e.roll.is_finite());
    report_error_if(failed, "ROTATION_NOT_FINITE", path, "rotation components must be finite numbers", report);
}

fn check_finite(n: Num, path: String, report: &mut ValidationReport)
    ensures
        final(report)@ == old(report)@ + finite_diags(n, path@),
{
    report_error_if(!n.is_finite(), "NUMBER_NOT_FINITE", path, "value must be finite", report);
}

fn at_most_zero_exec(n: Num) -> (b: bool)
    ensures
        b == at_most_zero(n),
{
    n.is_negative() || matches!(n, Num::Zero)
}

fn check_transform(t: Transform, path: &String, report: &mut ValidationReport)
    ensures
        final(report)@ == old(report)@ + transform_diags(t, path@),
{
    check_vec3(t.position, dotted(path, ".position"), report);
    check_euler(t.rotation_deg, dotted(path, ".rotation_deg"), report);
    check_vec3(t.scale, dotted(path, ".scale"), report);
    let bad = at_most_zero_exec(t.scale.x) || at_most_zero_exec(t.scale.y) || at_most_zero_exec(t.scale.z);
    report_error_if(bad, "TRANSFORM_SCALE_INVALID", dotted(path, ".scale"), "transform scale must be positive on all axes", report);
    assert(report@ =~= old(report)@ + transform_diags(t, path@));
}

/// A reference to an undeclared subject or marker, or a non-finite point.
pub open spec fn target_diags(t: TargetRef, subjects: Seq<Seq<char>>, markers: Seq<Seq<char>>, path: Seq<char>) -> Seq<DiagnosticView> {
    match t {
        TargetRef::Subject { id } => error_if(!subjects.contains(id@), "TARGET_SUBJECT_UNKNOWN"@, path, unknown_subject(id@)),
        TargetRef::Marker { id } => error_if(!markers.contains(id@), "TARGET_MARKER_UNKNOWN"@, path, "unknown marker '"@ + id@ + "'"@),
        TargetRef::Point { position } => vec3_diags(position, path),
    }
}

pub open spec fn opt_target_diags(t: Option<TargetRef>, subjects: Seq<Seq<char>>, markers: Seq<Seq<char>>, path: Seq<char>) -> Seq<DiagnosticView> {
    match t {
        Some(t) => target_diags(t, subjects, markers, path),
        None => Seq::empty(),
    }
}

fn check_target(t: &TargetRef, subjects: &Vec<String>, markers: &Vec<String>, path: String, report: &mut ValidationReport)
    ensures
        final(report)@ == old(report)@ + target_diags(*t, string_views(subjects@), string_views(markers@), path@),
{
    match t {
        TargetRef::Subject { id } => {
            if !contains_text(subjects, id) {
                report.push(Diagnostic::error("TARGET_SUBJECT_UNKNOWN", path, around("unknown subject '", id, "'")));
            }
        }
        TargetRef::Marker { id } => {
            if !contains_text(markers, id) {
                report.push(Diagnostic::error("TARGET_MARKER_UNKNOWN", path, around("unknown marker '", id, "'")));
            }
        }
        TargetRef::Point { position } => {
            check_vec3(*position, path, report);
        }
    }
    assert(report@ =~= old(report)@ + target_diags(*t, string_views(subjects@), string_views(markers@), path@));
}

fn check_opt_target(t: &Option<TargetRef>, subjects: &Vec<String>, markers: &Vec<String>, path: String, report: &mut ValidationReport)
    ensures
        final(report)@ == old(report)@ + opt_target_diags(*t, string_views(subjects@), string_views(markers@), path@),
{
    match t {
        Some(t) => check_target(t, subjects, markers, path, report),
        None => {
            assert(report@ =~= old(report)@ + opt_target_diags(None, string_views(subjects@), string_views(markers@), path@));
        }
    }
}

/// A range that is empty or reversed, or that ends after the scene.
pub open spec fn scene_range_diags(range: FrameRange, duration: Frame, path: Seq<char>) -> Seq<DiagnosticView> {
    error_if(
        !(range.start < range.end),
        "FRAME_RANGE_EMPTY_OR_REVERSED"@,
        path,
        "frame range uses half-open semantics and must satisfy start < end"@,
    ) + error_if(
        range.end > duration,
        "FRAME_RANGE_OUT_OF_SCENE"@,
        path,
        "frame range ends at "@ + decimal(range.end as nat) + ", beyond scene duration "@ + decimal(duration as nat),
    )
}

/// Reports a range that is empty, reversed, or beyond the scene.
pub fn validate_scene_range(range: FrameRange, duration: Frame, path: &String, report: &mut ValidationReport)
    ensures
        final(report)@ == old(report)@ + scene_range_diags(range, duration, path@),
{
    report_error_if(
        !range.is_valid(),
        "FRAME_RANGE_EMPTY_OR_REVERSED",
        path.clone(),
        "frame range uses half-open semantics and must satisfy start < end",
        report,
    );
    let ghost mid = report@;
    if range.end > duration {
        let mut message = owned("frame range ends at ");
        push_decimal(&mut message, range.end);
        push_str(&mut message, ", beyond scene duration ");
        push_decimal(&mut message, duration);
        report.push(Diagnostic::error("FRAME_RANGE_OUT_OF_SCENE", path.clone(), message));
    }
    assert(report@ =~= old(report)@ + scene_range_diags(range, duration, path@));
}


/// Every id of `list` that is not among `known`, one error each.
pub open spec fn unknown_ids_diags(list: Seq<Seq<char>>, known: Seq<Seq<char>>, code: Seq<char>, path: Seq<char>) -> Seq<DiagnosticView> {
    flatten(Seq::new(list.len(), |j: int| error_if(!known.contains(list[j]), code, path, unknown_subject(list[j]))))
}

fn check_known_ids(list: &Vec<String>, known: &Vec<String>, code: &str, path: &String, report: &mut ValidationReport)
    ensures
        final(report)@ == old(report)@ + unknown_ids_diags(string_views(list@), string_views(known@), code@, path@),
{
    let ghost l = string_views(list@);
    let ghost k = string_views(known@);
    let ghost f = |j: int| error_if(!k.contains(l[j]), code@, path@, unknown_subject(l[j]));
    let mut j: usize = 0;
    while j < list.len()
        invariant
            j <= list.len(),
            l == string_views(list@),
            k == string_views(known@),
            f == (|j: int| error_if(!k.contains(l[j]), code@, path@, unknown_subject(l[j]))),
            report@ == old(report)@ + flatten(Seq::new(j as nat, f)),
        decreases list.len() - j,
    {
        proof { lemma_flatten_new_step(j as nat, f); }
        let ghost before = report@;
        assert(list[j as int]@ == l[j as int]);
        if !contains_text(known, &list[j]) {
            report.push(Diagnostic::error(code, path.clone(), around("unknown subject '", &list[j], "'")));
        }
        assert(report@ =~= before + f(j as int));
        j = j + 1;
    }
}

// ----------------------------------------------------------------------
// Scene contents
// ----------------------------------------------------------------------

pub open spec fn subject_diags(s: Subject, path: Seq<char>) -> Seq<DiagnosticView> {
    transform_diags(s.initial_transform, path + ".initial_transform"@) + match s.dimensions_m {
        Some(d) => vec3_diags(d, path + ".dimensions_m"@) + error_if(
            at_most_zero(d.x) || at_most_zero(d.y) || at_most_zero(d.z),
            "SUBJECT_DIMENSIONS_INVALID"@,
            path + ".dimensions_m"@,
            "subject dimensions must be positive on all axes"@,
        ),
        None => Seq::empty(),
    }
}

pub open spec fn subjects_diags(scene: Scene, base: Seq<char>) -> Seq<DiagnosticView> {
    flatten(Seq::new(scene.subjects@.len(), |i: int| subject_diags(scene.subjects@[i], at_index(base, ".subjects"@, i as nat))))
}

fn validate_subjects(scene: &Scene, base: &String, report: &mut ValidationReport)
    ensures
        final(report)@ == old(report)@ + subjects_diags(*scene, base@),
{
    let ghost f = |i: int| subject_diags(scene.subjects@[i], at_index(base@, ".subjects"@, i as nat));
    let mut i: usize = 0;
    while i < scene.subjects.len()
        invariant
            i <= scene.subjects.len(),
            f == (|i: int| subject_diags(scene.subjects@[i], at_index(base@, ".subjects"@, i as nat))),
            report@ == old(report)@ + flatten(Seq::new(i as nat, f)),
        decreases scene.subjects.len() - i,
    {
        proof { lemma_flatten_new_step(i as nat, f); }
        let ghost before = report@;
        let subject = &scene.subjects[i];
        let path = indexed(base, ".subjects", i);
        check_transform(subject.initial_transform, &dotted(&path, ".initial_transform"), report);
        match subject.dimensions_m {
            Some(d) => {
                check_vec3(d, dotted(&path, ".dimensions_m"), report);
                let bad = at_most_zero_exec(d.x) || at_most_zero_exec(d.y) || at_most_zero_exec(d.z);
                report_error_if(bad, "SUBJECT_DIMENSIONS_INVALID", dotted(&path, ".dimensions_m"),
                    "subject dimensions must be positive on all axes", report);
            }
            None => {}
        }
        assert(report@ =~= before + f(i as int));
        i = i + 1;
    }
}

pub open spec fn markers_diags(scene: Scene, base: Seq<char>) -> Seq<DiagnosticView> {
    flatten(Seq::new(scene.markers@.len(), |i: int| vec3_diags(scene.markers@[i].position, at_index(base, ".markers"@, i as nat) + ".position"@)))
}

fn validate_markers(scene: &Scene, base: &String, report: &mut ValidationReport)
    ensures
        final(report)@ == old(report)@ + markers_diags(*scene, base@),
{
    let ghost f = |i: int| vec3_diags(scene.markers@[i].position, at_index(base@, ".markers"@, i as nat) + ".position"@);
    let mut i: usize = 0;
    while i < scene.markers.len()
        invariant
            i <= scene.markers.len(),
            f == (|i: int| vec3_diags(scene.markers@[i].position, at_index(base@, ".markers"@, i as nat) + ".position"@)),
            report@ == old(report)@ + flatten(Seq::new(i as nat, f)),
        decreases scene.markers.len() - i,
    {
        proof { lemma_flatten_new_step(i as nat, f); }
        check_vec3(scene.markers[i].position, dotted(&indexed(base, ".markers", i), ".position"), report);
        i = i + 1;
    }
}

/// The axis' endpoints are the same subject, the same marker, or
/// coincident points.
pub open spec fn axis_degenerate(axis: ContinuityAxis) -> bool {
    match (axis.from, axis.to) {
        (TargetRef::Subject { id: a }, TargetRef::Subject { id: b }) => a@ == b@,
        (TargetRef::Marker { id: a }, TargetRef::Marker { id: b }) => a@ == b@,
        (TargetRef::Point { .. }, TargetRef::Point { .. }) => axis.coincident_points,
        _ => false,
    }
}

fn axis_degenerate_exec(axis: &ContinuityAxis) -> (b: bool)
    ensures
        b == axis_degenerate(*axis),
{
    match (&axis.from, &axis.to) {
        (TargetRef::Subject { id: a }, TargetRef::Subject { id: b }) => *a == *b,
        (TargetRef::Marker { id: a }, TargetRef::Marker { id: b }) => *a == *b,
        (TargetRef::Point { .. }, TargetRef::Point { .. }) => axis.coincident_points,
        _ => false,
    }
}

pub open spec fn axis_diags(axis: ContinuityAxis, subjects: Seq<Seq<char>>, markers: Seq<Seq<char>>, path: Seq<char>) -> Seq<DiagnosticView> {
    target_diags(axis.from, subjects, markers, path + ".from"@) + target_diags(axis.to, subjects, markers, path + ".to"@)
        + error_if(axis_degenerate(axis), "AXIS_DEGENERATE"@, path, "continuity axis endpoints must not be identical"@)
}

pub open spec fn axes_diags(scene: Scene, subjects: Seq<Seq<char>>, markers: Seq<Seq<char>>, base: Seq<char>) -> Seq<DiagnosticView> {
    flatten(Seq::new(scene.axes@.len(), |i: int| axis_diags(scene.axes@[i], subjects, markers, at_index(base, ".axes"@, i as nat))))
}

fn validate_axes(scene: &Scene, subjects: &Vec<String>, markers: &Vec<String>, base: &String, report: &mut ValidationReport)
    ensures
        final(report)@ == old(report)@ + axes_diags(*scene, string_views(subjects@), string_views(markers@), base@),
{
    let ghost sv = string_views(subjects@);
    let ghost mv = string_views(markers@);
    let ghost f = |i: int| axis_diags(scene.axes@[i], sv, mv, at_index(base@, ".axes"@, i as nat));
    let mut i: usize = 0;
    while i < scene.axes.len()
        invariant
            i <= scene.axes.len(),
            sv == string_views(subjects@),
            mv == string_views(markers@),
            f == (|i: int| axis_diags(scene.axes@[i], sv, mv, at_index(base@, ".axes"@, i as nat))),
            report@ == old(report)@ + flatten(Seq::new(i as nat, f)),
        decreases scene.axes.len() - i,
    {
        proof { lemma_flatten_new_step(i as nat, f); }
        let ghost before = report@;
        let axis = &scene.axes[i];
        let path = indexed(base, ".axes", i);
        check_target(&axis.from, subjects, markers, dotted(&path, ".from"), report);
        check_target(&axis.to, subjects, markers, dotted(&path, ".to"), report);
        report_error_if(axis_degenerate_exec(axis), "AXIS_DEGENERATE", path,
            "continuity axis endpoints must not be identical", report);
        assert(report@ =~= before + f(i as int));
        i = i + 1;
    }
}

pub open spec fn keyframe_diags(
    track: BlockingTrack,
    j: int,
    duration: Frame,
    subjects: Seq<Seq<char>>,
    markers: Seq<Seq<char>>,
    path: Seq<char>,
) -> Seq<DiagnosticView> {
    let kf = track.keyframes@[j];
    let kp = at_index(path, ".keyframes"@, j as nat);
    error_if(kf.frame > duration, "BLOCKING_FRAME_OUT_OF_RANGE"@, kp + ".frame"@, "blocking keyframe lies beyond scene duration"@)
        + error_if(
            j > 0 && kf.frame <= track.keyframes@[j - 1].frame,
            "BLOCKING_FRAMES_NOT_STRICTLY_INCREASING"@,
            kp + ".frame"@,
            "blocking keyframes must be strictly increasing"@,
        ) + transform_diags(kf.transform, kp + ".transform"@)
        + opt_target_diags(kf.gaze_target, subjects, markers, kp + ".gaze_target"@)
}

pub open spec fn track_diags(
    track: BlockingTrack,
    duration: Frame,
    subjects: Seq<Seq<char>>,
    markers: Seq<Seq<char>>,
    path: Seq<char>,
) -> Seq<DiagnosticView> {
    error_if(!subjects.contains(track.subject_id@), "BLOCKING_SUBJECT_UNKNOWN"@, path + ".subject_id"@, unknown_subject(track.subject_id@))
        + warning_if(track.keyframes@.len() == 0, "BLOCKING_TRACK_EMPTY"@, path + ".keyframes"@, "blocking track contains no keyframes"@)
        + flatten(Seq::new(track.keyframes@.len(), |j: int| keyframe_diags(track, j, duration, subjects, markers, path)))
}

pub open spec fn blocking_diags(scene: Scene, subjects: Seq<Seq<char>>, markers: Seq<Seq<char>>, base: Seq<char>) -> Seq<DiagnosticView> {
    flatten(Seq::new(scene.blocking@.len(), |i: int| track_diags(scene.blocking@[i], scene.duration_frames, subjects, markers, at_index(base, ".blocking"@, i as nat))))
}

fn validate_keyframe(track: &BlockingTrack, j: usize, duration: Frame, subjects: &Vec<String>, markers: &Vec<String>, path: &String, report: &mut ValidationReport)
    requires
        j < track.keyframes@.len(),
    ensures
        final(report)@ == old(report)@ + keyframe_diags(*track, j as int, duration, string_views(subjects@), string_views(markers@), path@),
{
    let kf = &track.keyframes[j];
    let kp = indexed(path, ".keyframes", j);
    report_error_if(kf.frame > duration, "BLOCKING_FRAME_OUT_OF_RANGE", dotted(&kp, ".frame"),
        "blocking keyframe lies beyond scene duration", report);
    let unordered = j > 0 && kf.frame <= track.keyframes[j - 1].frame;
    report_error_if(unordered, "BLOCKING_FRAMES_NOT_STRICTLY_INCREASING", dotted(&kp, ".frame"),
        "blocking keyframes must be strictly increasing", report);
    check_transform(kf.transform, &dotted(&kp, ".transform"), report);
    check_opt_target(&kf.gaze_target, subjects, markers, dotted(&kp, ".gaze_target"), report);
    assert(report@ =~= old(report)@ + keyframe_diags(*track, j as int, duration, string_views(subjects@), string_views(markers@), path@));
}

fn validate_track(track: &BlockingTrack, duration: Frame, subjects: &Vec<String>, markers: &Vec<String>, path: &String, report: &mut ValidationReport)
    ensures
        final(report)@ == old(report)@ + track_diags(*track, duration, string_views(subjects@), string_views(markers@), path@),
{
    let ghost sv = string_views(subjects@);
    let ghost mv = string_views(markers@);
    if !contains_text(subjects, &track.subject_id) {
        report.push(Diagnostic::error("BLOCKING_SUBJECT_UNKNOWN", dotted(path, ".subject_id"), around("unknown subject '", &track.subject_id, "'")));
    }
    report_warning_if(track.keyframes.len() == 0, "BLOCKING_TRACK_EMPTY", dotted(path, ".keyframes"),
        "blocking track contains no keyframes", report);
    let ghost start = report@;
    let ghost f = |j: int| keyframe_diags(*track, j, duration, sv, mv, path@);
    let mut j: usize = 0;
    while j < track.keyframes.len()
        invariant
            j <= track.keyframes.len(),
            sv == string_views(subjects@),
            mv == string_views(markers@),
            f == (|j: int| keyframe_diags(*track, j, duration, sv, mv, path@)),
            report@ == start + flatten(Seq::new(j as nat, f)),
        decreases track.keyframes.len() - j,
    {
        proof { lemma_flatten_new_step(j as nat, f); }
        validate_keyframe(track, j, duration, subjects, markers, path, report);
        j = j + 1;
    }
    assert(report@ =~= old(report)@ + track_diags(*track, duration, sv, mv, path@));
}

fn validate_blocking(scene: &Scene, subjects: &Vec<String>, markers: &Vec<String>, base: &String, report: &mut ValidationReport)
    ensures
        final(report)@ == old(report)@ + blocking_diags(*scene, string_views(subjects@), string_views(markers@), base@),
{
    let ghost sv = string_views(subjects@);
    let ghost mv = string_views(markers@);
    let ghost f = |i: int| track_diags(scene.blocking@[i], scene.duration_frames, sv, mv, at_index(base@, ".blocking"@, i as nat));
    let mut i: usize = 0;
    while i < scene.blocking.len()
        invariant
            i <= scene.blocking.len(),
            sv == string_views(subjects@),
            mv == string_views(markers@),
            f == (|i: int| track_diags(scene.blocking@[i], scene.duration_frames, sv, mv, at_index(base@, ".blocking"@, i as nat))),
            report@ == old(report)@ + flatten(Seq::new(i as nat, f)),
        decreases scene.blocking.len() - i,
    {
        proof { lemma_flatten_new_step(i as nat, f); }
        validate_track(&scene.blocking[i], scene.duration_frames, subjects, markers, &indexed(base, ".blocking", i), report);
        i = i + 1;
    }
}

pub open spec fn beat_diags(beat: Beat, duration: Frame, subjects: Seq<Seq<char>>, path: Seq<char>) -> Seq<DiagnosticView> {
    scene_range_diags(beat.range, duration, path + ".range"@)
        + unknown_ids_diags(string_views(beat.subject_ids@), subjects, "BEAT_SUBJECT_UNKNOWN"@, path + ".subject_ids"@)
}

pub open spec fn beats_diags(scene: Scene, subjects: Seq<Seq<char>>, base: Seq<char>) -> Seq<DiagnosticView> {
    flatten(Seq::new(scene.beats@.len(), |i: int| beat_diags(scene.beats@[i], scene.duration_frames, subjects, at_index(base, ".beats"@, i as nat))))
}

fn validate_beats(scene: &Scene, subjects: &Vec<String>, base: &String, report: &mut ValidationReport)
    ensures
        final(report)@ == old(report)@ + beats_diags(*scene, string_views(subjects@), base@),
{
    let ghost sv = string_views(subjects@);
    let ghost f = |i: int| beat_diags(scene.beats@[i], scene.duration_frames, sv, at_index(base@, ".beats"@, i as nat));
    let mut i: usize = 0;
    while i < scene.beats.len()
        invariant
            i <= scene.beats.len(),
            sv == string_views(subjects@),
            f == (|i: int| beat_diags(scene.beats@[i], scene.duration_frames, sv, at_index(base@, ".beats"@, i as nat))),
            report@ == old(report)@ + flatten(Seq::new(i as nat, f)),
        decreases scene.beats.len() - i,
    {
        proof { lemma_flatten_new_step(i as nat, f); }
        let ghost before = report@;
        let beat = &scene.beats[i];
        let path = indexed(base, ".beats", i);
        validate_scene_range(beat.range, scene.duration_frames, &dotted(&path, ".range"), report);
        check_known_ids(&beat.subject_ids, subjects, "BEAT_SUBJECT_UNKNOWN", &dotted(&path, ".subject_ids"), report);
        assert(report@ =~= before + f(i as int));
        i = i + 1;
    }
}

pub open spec fn emotional_beat_diags(beat: EmotionalBeat, duration: Frame, path: Seq<char>) -> Seq<DiagnosticView> {
    error_if(beat.frame > duration, "EMOTIONAL_BEAT_OUT_OF_RANGE"@, path + ".frame"@, "emotional beat lies beyond scene duration"@)
        + error_if(
            match beat.valence { Some(v) => !signed_unit_interval(v), None => false },
            "EMOTIONAL_VALENCE_INVALID"@,
            path + ".valence"@,
            "valence must be in [-1, 1]"@,
        ) + error_if(
            match beat.arousal { Some(a) => !unit_interval(a), None => false },
            "EMOTIONAL_AROUSAL_INVALID"@,
            path + ".arousal"@,
            "arousal must be in [0, 1]"@,
        )
}

/// Whether some finding of `diags` has code `code`.
pub open spec fn has_code(diags: Seq<DiagnosticView>, code: Seq<char>) -> bool {
    exists|i: int| 0 <= i < diags.len() && #[trigger] diags[i].code == code
}

/// An emotional beat's valence is refused exactly when it lies outside
/// [-1, 1] (or is not a number): -1, negative fractions, 0, positive
/// fractions and 1 pass; anything below -1, above 1, infinite or NaN is an
/// `EMOTIONAL_VALENCE_INVALID` error.
pub proof fn lemma_valence_range(beat: EmotionalBeat, duration: Frame, path: Seq<char>)
    ensures
        (beat.valence matches Some(v) && (v is MinusOne || v is NegativeFraction || v is Zero || v is PositiveFraction
            || v is One)) ==> !has_code(emotional_beat_diags(beat, duration, path), "EMOTIONAL_VALENCE_INVALID"@),
        (beat.valence matches Some(v) && (v is NaN || v is NegativeInfinity || v is BelowMinusOne || v is UpTo360
            || v is Above360 || v is PositiveInfinity)) ==> has_code(
            emotional_beat_diags(beat, duration, path),
            "EMOTIONAL_VALENCE_INVALID"@,
        ),
        beat.valence is None ==> !has_code(emotional_beat_diags(beat, duration, path), "EMOTIONAL_VALENCE_INVALID"@),
{
    reveal_strlit("EMOTIONAL_BEAT_OUT_OF_RANGE");
    reveal_strlit("EMOTIONAL_VALENCE_INVALID");
    reveal_strlit("EMOTIONAL_AROUSAL_INVALID");
    let d = emotional_beat_diags(beat, duration, path);
    let bad = match beat.valence { Some(v) => !signed_unit_interval(v), None => false };
    if bad {
        let k = if beat.frame > duration { 1int } else { 0int };
        assert(d[k].code == "EMOTIONAL_VALENCE_INVALID"@);
    } else {
        assert forall|i: int| 0 <= i < d.len() implies #[trigger] d[i].code != "EMOTIONAL_VALENCE_INVALID"@ by {
            assert("EMOTIONAL_BEAT_OUT_OF_RANGE"@.len() != "EMOTIONAL_VALENCE_INVALID"@.len());
            assert("EMOTIONAL_AROUSAL_INVALID"@[10] != "EMOTIONAL_VALENCE_INVALID"@[10]);
        }
    }
}

/// An emotional beat's arousal is refused exactly when it lies outside
/// [0, 1] (or is not a number).
pub proof fn lemma_arousal_range(beat: EmotionalBeat, duration: Frame, path: Seq<char>)
    ensures
        (beat.arousal matches Some(a) && (a is Zero || a is PositiveFraction || a is One)) ==> !has_code(
            emotional_beat_diags(beat, duration, path),
            "EMOTIONAL_AROUSAL_INVALID"@,
        ),
        (beat.arousal matches Some(a) && !(a is Zero || a is PositiveFraction || a is One)) ==> has_code(
            emotional_beat_diags(beat, duration, path),
            "EMOTIONAL_AROUSAL_INVALID"@,
        ),
{
    reveal_strlit("EMOTIONAL_BEAT_OUT_OF_RANGE");
    reveal_strlit("EMOTIONAL_VALENCE_INVALID");
    reveal_strlit("EMOTIONAL_AROUSAL_INVALID");
    let d = emotional_beat_diags(beat, duration, path);
    let bad = match beat.arousal { Some(a) => !unit_interval(a), None => false };
    if bad {
        let k = d.len() - 1;
        assert(d[k].code == "EMOTIONAL_AROUSAL_INVALID"@);
    } else {
        assert forall|i: int| 0 <= i < d.len() implies #[trigger] d[i].code != "EMOTIONAL_AROUSAL_INVALID"@ by {
            assert("EMOTIONAL_BEAT_OUT_OF_RANGE"@.len() != "EMOTIONAL_AROUSAL_INVALID"@.len());
            assert("EMOTIONAL_VALENCE_INVALID"@[10] != "EMOTIONAL_AROUSAL_INVALID"@[10]);
        }
    }
}

pub open spec fn narrative_diags(scene: Scene, base: Seq<char>) -> Seq<DiagnosticView> {
    flatten(Seq::new(scene.narrative.emotional_arc@.len(), |i: int| emotional_beat_diags(scene.narrative.emotional_arc@[i], scene.duration_frames, at_index(base, ".narrative.emotional_arc"@, i as nat))))
}

fn in_signed_unit(n: Num) -> (b: bool)
    ensures
        b == signed_unit_interval(n),
{
    matches!(n, Num::MinusOne | Num::NegativeFraction | Num::Zero | Num::PositiveFraction | Num::One)
}

fn in_unit(n: Num) -> (b: bool)
    ensures
        b == unit_interval(n),
{
    matches!(n, Num::Zero | Num::PositiveFraction | Num::One)
}

fn validate_narrative(scene: &Scene, base: &String, report: &mut ValidationReport)
    ensures
        final(report)@ == old(report)@ + narrative_diags(*scene, base@),
{
    let ghost f = |i: int| emotional_beat_diags(scene.narrative.emotional_arc@[i], scene.duration_frames, at_index(base@, ".narrative.emotional_arc"@, i as nat));
    let mut i: usize = 0;
    while i < scene.narrative.emotional_arc.len()
        invariant
            i <= scene.narrative.emotional_arc.len(),
            f == (|i: int| emotional_beat_diags(scene.narrative.emotional_arc@[i], scene.duration_frames, at_index(base@, ".narrative.emotional_arc"@, i as nat))),
            report@ == old(report)@ + flatten(Seq::new(i as nat, f)),
        decreases scene.narrative.emotional_arc.len() - i,
    {
        proof { lemma_flatten_new_step(i as nat, f); }
        let ghost before = report@;
        let beat = &scene.narrative.emotional_arc[i];
        let path = indexed(base, ".narrative.emotional_arc", i);
        report_error_if(beat.frame > scene.duration_frames, "EMOTIONAL_BEAT_OUT_OF_RANGE", dotted(&path, ".frame"),
            "emotional beat lies beyond scene duration", report);
        let bad_valence = match beat.valence { Some(v) => !in_signed_unit(v), None => false };
        report_error_if(bad_valence, "EMOTIONAL_VALENCE_INVALID", dotted(&path, ".valence"), "valence must be in [-1, 1]", report);
        let bad_arousal = match beat.arousal { Some(a) => !in_unit(a), None => false };
        report_error_if(bad_arousal, "EMOTIONAL_AROUSAL_INVALID", dotted(&path, ".arousal"), "arousal must be in [0, 1]", report);
        assert(report@ =~= before + f(i as int));
        i = i + 1;
    }
}

pub open spec fn light_source_diags(source: LightSource, path: Seq<char>) -> Seq<DiagnosticView> {
    transform_diags(source.transform, path + ".transform"@) + error_if(
        match source.intensity_lux { Some(v) => !non_negative_finite(v), None => false },
        "LIGHT_INTENSITY_INVALID"@,
        path + ".intensity_lux"@,
        "light intensity must be finite and non-negative"@,
    ) + error_if(
        source.color_temperature_k == 0,
        "LIGHT_COLOR_TEMPERATURE_INVALID"@,
        path + ".color_temperature_k"@,
        "color temperature must be greater than zero"@,
    )
}

pub open spec fn setup_diags(setup: LightingSetup, path: Seq<char>) -> Seq<DiagnosticView> {
    unique_id_diags(ids(setup.sources@), path + ".sources"@, "light"@) + error_if(
        match setup.contrast_ratio { Some(r) => !positive_finite(r), None => false },
        "LIGHTING_CONTRAST_INVALID"@,
        path + ".contrast_ratio"@,
        "contrast ratio must be finite and positive"@,
    ) + flatten(Seq::new(setup.sources@.len(), |j: int| light_source_diags(setup.sources@[j], at_index(path, ".sources"@, j as nat))))
}

pub open spec fn lighting_diags(scene: Scene, base: Seq<char>) -> Seq<DiagnosticView> {
    flatten(Seq::new(scene.lighting_setups@.len(), |i: int| setup_diags(scene.lighting_setups@[i], at_index(base, ".lighting_setups"@, i as nat))))
}

fn positive_finite_exec(n: Num) -> (b: bool)
    ensures
        b == positive_finite(n),
{
    n.is_finite() && n.is_positive()
}

fn non_negative_finite_exec(n: Num) -> (b: bool)
    ensures
        b == non_negative_finite(n),
{
    n.is_finite() && !n.is_negative()
}

fn validate_setup(setup: &LightingSetup, path: &String, report: &mut ValidationReport)
    ensures
        final(report)@ == old(report)@ + setup_diags(*setup, path@),
{
    let source_ids = collect_ids(&setup.sources);
    check_unique_ids(&source_ids, &dotted(path, ".sources"), "light", report);
    let bad_contrast = match setup.contrast_ratio { Some(r) => !positive_finite_exec(r), None => false };
    report_error_if(bad_contrast, "LIGHTING_CONTRAST_INVALID", dotted(path, ".contrast_ratio"),
        "contrast ratio must be finite and positive", report);
    let ghost start = report@;
    let ghost f = |j: int| light_source_diags(setup.sources@[j], at_index(path@, ".sources"@, j as nat));
    let mut j: usize = 0;
    while j < setup.sources.len()
        invariant
            j <= setup.sources.len(),
            f == (|j: int| light_source_diags(setup.sources@[j], at_index(path@, ".sources"@, j as nat))),
            report@ == start + flatten(Seq::new(j as nat, f)),
        decreases setup.sources.len() - j,
    {
        proof { lemma_flatten_new_step(j as nat, f); }
        let ghost before = report@;
        let source = &setup.sources[j];
        let sp = indexed(path, ".sources", j);
        check_transform(source.transform, &dotted(&sp, ".transform"), report);
        let bad_intensity = match source.intensity_lux { Some(v) => !non_negative_finite_exec(v), None => false };
        report_error_if(bad_intensity, "LIGHT_INTENSITY_INVALID", dotted(&sp, ".intensity_lux"),
            "light intensity must be finite and non-negative", report);
        report_error_if(source.color_temperature_k == 0, "LIGHT_COLOR_TEMPERATURE_INVALID", dotted(&sp, ".color_temperature_k"),
            "color temperature must be greater than zero", report);
        assert(report@ =~= before + f(j as int));
        j = j + 1;
    }
    assert(report@ =~= old(report)@ + setup_diags(*setup, path@));
}

fn validate_lighting(scene: &Scene, base: &String, report: &mut ValidationReport)
    ensures
        final(report)@ == old(report)@ + lighting_diags(*scene, base@),
{
    let ghost f = |i: int| setup_diags(scene.lighting_setups@[i], at_index(base@, ".lighting_setups"@, i as nat));
    let mut i: usize = 0;
    while i < scene.lighting_setups.len()
        invariant
            i <= scene.lighting_setups.len(),
            f == (|i: int| setup_diags(scene.lighting_setups@[i], at_index(base@, ".lighting_setups"@, i as nat))),
            report@ == old(report)@ + flatten(Seq::new(i as nat, f)),
        decreases scene.lighting_setups.len() - i,
    {
        proof { lemma_flatten_new_step(i as nat, f); }
        validate_setup(&scene.lighting_setups[i], &indexed(base, ".lighting_setups", i), report);
        i = i + 1;
    }
}


// ----------------------------------------------------------------------
// Camera
// ----------------------------------------------------------------------

pub open spec fn lens_diags(st: CameraState, p: Seq<char>) -> Seq<DiagnosticView> {
    transform_diags(st.transform, p + ".transform"@)
        + error_if(!positive_finite(st.lens.focal_length_mm), "LENS_FOCAL_LENGTH_INVALID"@, p + ".lens.focal_length_mm"@, "focal length must be finite and positive"@)
        + error_if(!positive_finite(st.lens.sensor_width_mm), "LENS_SENSOR_WIDTH_INVALID"@, p + ".lens.sensor_width_mm"@, "sensor width must be finite and positive"@)
        + error_if(!positive_finite(st.lens.aperture_f), "LENS_APERTURE_INVALID"@, p + ".lens.aperture_f"@, "aperture f-number must be finite and positive"@)
        + error_if(!positive_finite(st.lens.anamorphic_squeeze), "LENS_ANAMORPHIC_SQUEEZE_INVALID"@, p + ".lens.anamorphic_squeeze"@, "anamorphic squeeze must be finite and positive"@)
}

pub open spec fn focus_diags(st: CameraState, subjects: Seq<Seq<char>>, markers: Seq<Seq<char>>, p: Seq<char>) -> Seq<DiagnosticView> {
    opt_target_diags(st.focus.target, subjects, markers, p + ".focus.target"@)
        + error_if(match st.focus.distance_m { Some(d) => !positive_finite(d), None => false }, "FOCUS_DISTANCE_INVALID"@, p + ".focus.distance_m"@, "focus distance must be finite and positive"@)
}

pub open spec fn exposure_diags(st: CameraState, p: Seq<char>) -> Seq<DiagnosticView> {
    error_if(st.exposure.iso == 0, "EXPOSURE_ISO_INVALID"@, p + ".exposure.iso"@, "ISO must be greater than zero"@)
        + error_if(!full_turn_interval(st.exposure.shutter_angle_deg), "EXPOSURE_SHUTTER_ANGLE_INVALID"@, p + ".exposure.shutter_angle_deg"@, "shutter angle must be in (0, 360]"@)
        + error_if(st.exposure.white_balance_k == 0, "EXPOSURE_WHITE_BALANCE_INVALID"@, p + ".exposure.white_balance_k"@, "white balance must be greater than zero kelvin"@)
        + error_if(!non_negative_finite(st.exposure.nd_stops), "EXPOSURE_ND_INVALID"@, p + ".exposure.nd_stops"@, "ND stops must be finite and non-negative"@)
}

pub open spec fn camera_state_diags(st: CameraState, subjects: Seq<Seq<char>>, markers: Seq<Seq<char>>, p: Seq<char>) -> Seq<DiagnosticView> {
    lens_diags(st, p) + focus_diags(st, subjects, markers, p) + exposure_diags(st, p)
}

fn in_full_turn(n: Num) -> (b: bool)
    ensures
        b == full_turn_interval(n),
{
    matches!(n, Num::PositiveFraction | Num::One | Num::UpTo360)
}

fn validate_lens(st: &CameraState, p: &String, report: &mut ValidationReport)
    ensures
        final(report)@ == old(report)@ + lens_diags(*st, p@),
{
    check_transform(st.transform, &dotted(p, ".transform"), report);
    report_error_if(!positive_finite_exec(st.lens.focal_length_mm), "LENS_FOCAL_LENGTH_INVALID", dotted(p, ".lens.focal_length_mm"), "focal length must be finite and positive", report);
    report_error_if(!positive_finite_exec(st.lens.sensor_width_mm), "LENS_SENSOR_WIDTH_INVALID", dotted(p, ".lens.sensor_width_mm"), "sensor width must be finite and positive", report);
    report_error_if(!positive_finite_exec(st.lens.aperture_f), "LENS_APERTURE_INVALID", dotted(p, ".lens.aperture_f"), "aperture f-number must be finite and positive", report);
    report_error_if(!positive_finite_exec(st.lens.anamorphic_squeeze), "LENS_ANAMORPHIC_SQUEEZE_INVALID", dotted(p, ".lens.anamorphic_squeeze"), "anamorphic squeeze must be finite and positive", report);
    assert(report@ =~= old(report)@ + lens_diags(*st, p@));
}

fn validate_focus(st: &CameraState, subjects: &Vec<String>, markers: &Vec<String>, p: &String, report: &mut ValidationReport)
    ensures
        final(report)@ == old(report)@ + focus_diags(*st, string_views(subjects@), string_views(markers@), p@),
{
    check_opt_target(&st.focus.target, subjects, markers, dotted(p, ".focus.target"), report);
    let bad_distance = match st.focus.distance_m { Some(d) => !positive_finite_exec(d), None => false };
    report_error_if(bad_distance, "FOCUS_DISTANCE_INVALID", dotted(p, ".focus.distance_m"), "focus distance must be finite and positive", report);
    assert(report@ =~= old(report)@ + focus_diags(*st, string_views(subjects@), string_views(markers@), p@));
}

fn validate_exposure(st: &CameraState, p: &String, report: &mut ValidationReport)
    ensures
        final(report)@ == old(report)@ + exposure_diags(*st, p@),
{
    report_error_if(st.exposure.iso == 0, "EXPOSURE_ISO_INVALID", dotted(p, ".exposure.iso"), "ISO must be greater than zero", report);
    report_error_if(!in_full_turn(st.exposure.shutter_angle_deg), "EXPOSURE_SHUTTER_ANGLE_INVALID", dotted(p, ".exposure.shutter_angle_deg"), "shutter angle must be in (0, 360]", report);
    report_error_if(st.exposure.white_balance_k == 0, "EXPOSURE_WHITE_BALANCE_INVALID", dotted(p, ".exposure.white_balance_k"), "white balance must be greater than zero kelvin", report);
    report_error_if(!non_negative_finite_exec(st.exposure.nd_stops), "EXPOSURE_ND_INVALID", dotted(p, ".exposure.nd_stops"), "ND stops must be finite and non-negative", report);
    assert(report@ =~= old(report)@ + exposure_diags(*st, p@));
}

fn validate_camera_state(st: &CameraState, subjects: &Vec<String>, markers: &Vec<String>, p: &String, report: &mut ValidationReport)
    ensures
        final(report)@ == old(report)@ + camera_state_diags(*st, string_views(subjects@), string_views(markers@), p@),
{
    validate_lens(st, p, report);
    validate_focus(st, subjects, markers, p, report);
    validate_exposure(st, p, report);
    assert(report@ =~= old(report)@ + camera_state_diags(*st, string_views(subjects@), string_views(markers@), p@));
}

/// `(0, 1]`
pub open spec fn fraction_interval(n: Num) -> bool {
    n is PositiveFraction || n is One
}

pub open spec fn operation_diags(op: CameraOperation, subjects: Seq<Seq<char>>, markers: Seq<Seq<char>>, p: Seq<char>) -> Seq<DiagnosticView> {
    match op {
        CameraOperation::Hold => Seq::empty(),
        CameraOperation::Pan { degrees } => finite_diags(degrees, p + ".degrees"@),
        CameraOperation::Tilt { degrees } => finite_diags(degrees, p + ".degrees"@),
        CameraOperation::Roll { degrees } => finite_diags(degrees, p + ".degrees"@),
        CameraOperation::Dolly { distance_m } => finite_diags(distance_m, p + ".distance_m"@),
        CameraOperation::Truck { distance_m } => finite_diags(distance_m, p + ".distance_m"@),
        CameraOperation::Pedestal { distance_m } => finite_diags(distance_m, p + ".distance_m"@),
        CameraOperation::Translate { delta, .. } => vec3_diags(delta, p + ".delta"@),
        CameraOperation::Rotate { delta_deg, .. } => euler_diags(delta_deg, p + ".delta_deg"@),
        CameraOperation::LookAt { target } => target_diags(target, subjects, markers, p + ".target"@),
        CameraOperation::Orbit { target, azimuth_deg, elevation_deg, radius_m } =>
            target_diags(target, subjects, markers, p + ".target"@) + finite_diags(azimuth_deg, p + ".azimuth_deg"@)
                + finite_diags(elevation_deg, p + ".elevation_deg"@) + error_if(
                match radius_m { Some(r) => !positive_finite(r), None => false },
                "ORBIT_RADIUS_INVALID"@,
                p + ".radius_m"@,
                "orbit radius must be finite and positive"@,
            ),
        CameraOperation::Follow { target, offset, lag_half_life_s, damping } =>
            target_diags(target, subjects, markers, p + ".target"@) + vec3_diags(offset, p + ".offset"@)
                + error_if(!unit_interval(damping), "FOLLOW_DAMPING_INVALID"@, p + ".damping"@, "follow damping must be in [0, 1]"@)
                + if match lag_half_life_s { Some(l) => !positive_finite(l), None => false } {
                    seq![hinted(
                        error_at("CAMERA_FOLLOW_HALF_LIFE_INVALID"@, p + ".lag_half_life_s"@, "follow lag_half_life_s must be finite and greater than zero"@),
                        "Use a time-domain half-life such as 0.18 seconds."@,
                    )]
                } else {
                    Seq::empty()
                },
        CameraOperation::Crane { delta, look_at } =>
            vec3_diags(delta, p + ".delta"@) + opt_target_diags(look_at, subjects, markers, p + ".look_at"@),
        CameraOperation::Zoom { to_focal_length_mm } =>
            error_if(!positive_finite(to_focal_length_mm), "ZOOM_FOCAL_LENGTH_INVALID"@, p + ".to_focal_length_mm"@, "target focal length must be finite and positive"@),
        CameraOperation::RackFocus { target, to_distance_m } =>
            target_diags(target, subjects, markers, p + ".target"@) + error_if(
                match to_distance_m { Some(d) => !positive_finite(d), None => false },
                "RACK_FOCUS_DISTANCE_INVALID"@,
                p + ".to_distance_m"@,
                "target focus distance must be finite and positive"@,
            ),
        CameraOperation::DollyZoom { target, to_distance_m, keep_subject_frame_fraction } =>
            target_diags(target, subjects, markers, p + ".target"@)
                + error_if(!positive_finite(to_distance_m), "DOLLY_ZOOM_DISTANCE_INVALID"@, p + ".to_distance_m"@, "target distance must be finite and positive"@)
                + error_if(!fraction_interval(keep_subject_frame_fraction), "DOLLY_ZOOM_SUBJECT_FRACTION_INVALID"@, p + ".keep_subject_frame_fraction"@, "subject frame fraction must be in (0, 1]"@),
        CameraOperation::HandheldNoise { translation_amplitude_m, rotation_amplitude_deg, frequency_hz, .. } =>
            error_if(!non_negative_finite(translation_amplitude_m), "HANDHELD_TRANSLATION_AMPLITUDE_INVALID"@, p + ".translation_amplitude_m"@, "translation amplitude must be finite and non-negative"@)
                + error_if(!non_negative_finite(rotation_amplitude_deg), "HANDHELD_ROTATION_AMPLITUDE_INVALID"@, p + ".rotation_amplitude_deg"@, "rotation amplitude must be finite and non-negative"@)
                + error_if(!positive_finite(frequency_hz), "HANDHELD_FREQUENCY_INVALID"@, p + ".frequency_hz"@, "frequency must be finite and positive"@),
        CameraOperation::Reveal { target, occluder, lateral_distance_m } =>
            target_diags(target, subjects, markers, p + ".target"@) + target_diags(occluder, subjects, markers, p + ".occluder"@)
                + finite_diags(lateral_distance_m, p + ".lateral_distance_m"@),
    }
}

fn validate_camera_operation(op: &CameraOperation, subjects: &Vec<String>, markers: &Vec<String>, p: &String, report: &mut ValidationReport)
    ensures
        final(report)@ == old(report)@ + operation_diags(*op, string_views(subjects@), string_views(markers@), p@),
{
    match op {
        CameraOperation::Hold => {}
        CameraOperation::Pan { degrees } => check_finite(*degrees, dotted(p, ".degrees"), report),
        CameraOperation::Tilt { degrees } => check_finite(*degrees, dotted(p, ".degrees"), report),
        CameraOperation::Roll { degrees } => check_finite(*degrees, dotted(p, ".degrees"), report),
        CameraOperation::Dolly { distance_m } => check_finite(*distance_m, dotted(p, ".distance_m"), report),
        CameraOperation::Truck { distance_m } => check_finite(*distance_m, dotted(p, ".distance_m"), report),
        CameraOperation::Pedestal { distance_m } => check_finite(*distance_m, dotted(p, ".distance_m"), report),
        CameraOperation::Translate { delta, .. } => check_vec3(*delta, dotted(p, ".delta"), report),
        CameraOperation::Rotate { delta_deg, .. } => check_euler(*delta_deg, dotted(p, ".delta_deg"), report),
        CameraOperation::LookAt { target } => check_target(target, subjects, markers, dotted(p, ".target"), report),
        CameraOperation::Orbit { target, azimuth_deg, elevation_deg, radius_m } => {
            check_target(target, subjects, markers, dotted(p, ".target"), report);
            check_finite(*azimuth_deg, dotted(p, ".azimuth_deg"), report);
            check_finite(*elevation_deg, dotted(p, ".elevation_deg"), report);
            let bad = match radius_m { Some(r) => !positive_finite_exec(*r), None => false };
            report_error_if(bad, "ORBIT_RADIUS_INVALID", dotted(p, ".radius_m"), "orbit radius must be finite and positive", report);
        }
        CameraOperation::Follow { target, offset, lag_half_life_s, damping } => {
            check_target(target, subjects, markers, dotted(p, ".target"), report);
            check_vec3(*offset, dotted(p, ".offset"), report);
            report_error_if(!in_unit(*damping), "FOLLOW_DAMPING_INVALID", dotted(p, ".damping"), "follow damping must be in [0, 1]", report);
            let bad = match lag_half_life_s { Some(l) => !positive_finite_exec(*l), None => false };
            if bad {
                report.push(
                    Diagnostic::error(
                        "CAMERA_FOLLOW_HALF_LIFE_INVALID",
                        dotted(p, ".lag_half_life_s"),
                        owned("follow lag_half_life_s must be finite and greater than zero"),
                    ).with_hint("Use a time-domain half-life such as 0.18 seconds."),
                );
            }
        }
        CameraOperation::Crane { delta, look_at } => {
            check_vec3(*delta, dotted(p, ".delta"), report);
            check_opt_target(look_at, subjects, markers, dotted(p, ".look_at"), report);
        }
        CameraOperation::Zoom { to_focal_length_mm } => {
            report_error_if(!positive_finite_exec(*to_focal_length_mm), "ZOOM_FOCAL_LENGTH_INVALID", dotted(p, ".to_focal_length_mm"), "target focal length must be finite and positive", report);
        }
        CameraOperation::RackFocus { target, to_distance_m } => {
            check_target(target, subjects, markers, dotted(p, ".target"), report);
            let bad = match to_distance_m { Some(d) => !positive_finite_exec(*d), None => false };
            report_error_if(bad, "RACK_FOCUS_DISTANCE_INVALID", dotted(p, ".to_distance_m"), "target focus distance must be finite and positive", report);
        }
        CameraOperation::DollyZoom { target, to_distance_m, keep_subject_frame_fraction } => {
            check_target(target, subjects, markers, dotted(p, ".target"), report);
            report_error_if(!positive_finite_exec(*to_distance_m), "DOLLY_ZOOM_DISTANCE_INVALID", dotted(p, ".to_distance_m"), "target distance must be finite and positive", report);
            let ok = matches!(keep_subject_frame_fraction, Num::PositiveFraction | Num::One);
            report_error_if(!ok, "DOLLY_ZOOM_SUBJECT_FRACTION_INVALID", dotted(p, ".keep_subject_frame_fraction"), "subject frame fraction must be in (0, 1]", report);
        }
        CameraOperation::HandheldNoise { translation_amplitude_m, rotation_amplitude_deg, frequency_hz, .. } => {
            report_error_if(!non_negative_finite_exec(*translation_amplitude_m), "HANDHELD_TRANSLATION_AMPLITUDE_INVALID", dotted(p, ".translation_amplitude_m"), "translation amplitude must be finite and non-negative", report);
            report_error_if(!non_negative_finite_exec(*rotation_amplitude_deg), "HANDHELD_ROTATION_AMPLITUDE_INVALID", dotted(p, ".rotation_amplitude_deg"), "rotation amplitude must be finite and non-negative", report);
            report_error_if(!positive_finite_exec(*frequency_hz), "HANDHELD_FREQUENCY_INVALID", dotted(p, ".frequency_hz"), "frequency must be finite and positive", report);
        }
        CameraOperation::Reveal { target, occluder, lateral_distance_m } => {
            check_target(target, subjects, markers, dotted(p, ".target"), report);
            check_target(occluder, subjects, markers, dotted(p, ".occluder"), report);
            check_finite(*lateral_distance_m, dotted(p, ".lateral_distance_m"), report);
        }
    }
    assert(report@ =~= old(report)@ + operation_diags(*op, string_views(subjects@), string_views(markers@), p@));
}

/// What operation `oi` of a shot contributes.
pub open spec fn timed_operation_diags(
    ops: Seq<TimedCameraOperation>,
    oi: int,
    shot_duration: Frame,
    subjects: Seq<Seq<char>>,
    markers: Seq<Seq<char>>,
    path: Seq<char>,
) -> Seq<DiagnosticView> {
    let timed = ops[oi];
    let op_path = at_index(path, ".camera.operations"@, oi as nat);
    error_if(
        !(timed.range.start < timed.range.end) || timed.range.end > shot_duration,
        "CAMERA_OPERATION_RANGE_INVALID"@,
        op_path + ".range"@,
        "operation range must lie inside shot-local range [0, "@ + decimal(shot_duration as nat) + ")"@,
    ) + warning_if(
        oi > 0 && timed.range.start < ops[oi - 1].range.start,
        "CAMERA_OPERATIONS_UNSORTED"@,
        op_path + ".range.start"@,
        "camera operations are not ordered by start frame"@,
    ) + operation_diags(timed.operation, subjects, markers, op_path + ".operation"@)
}

pub open spec fn operations_diags(shot: Shot, subjects: Seq<Seq<char>>, markers: Seq<Seq<char>>, path: Seq<char>) -> Seq<DiagnosticView> {
    let ops = shot.camera.operations@;
    let duration: Frame = if shot.range.start < shot.range.end { (shot.range.end - shot.range.start) as Frame } else { 0 };
    flatten(Seq::new(ops.len(), |oi: int| timed_operation_diags(ops, oi, duration, subjects, markers, path)))
}

fn validate_timed_operation(shot: &Shot, oi: usize, shot_duration: Frame, subjects: &Vec<String>, markers: &Vec<String>, path: &String, report: &mut ValidationReport)
    requires
        oi < shot.camera.operations@.len(),
    ensures
        final(report)@ == old(report)@ + timed_operation_diags(shot.camera.operations@, oi as int, shot_duration, string_views(subjects@), string_views(markers@), path@),
{
    let timed = &shot.camera.operations[oi];
    let op_path = indexed(path, ".camera.operations", oi);
    if !timed.range.is_valid() || timed.range.end > shot_duration {
        let mut message = owned("operation range must lie inside shot-local range [0, ");
        push_decimal(&mut message, shot_duration);
        push_str(&mut message, ")");
        report.push(Diagnostic::error("CAMERA_OPERATION_RANGE_INVALID", dotted(&op_path, ".range"), message));
    }
    let unsorted = oi > 0 && timed.range.start < shot.camera.operations[oi - 1].range.start;
    report_warning_if(unsorted, "CAMERA_OPERATIONS_UNSORTED", dotted(&op_path, ".range.start"),
        "camera operations are not ordered by start frame", report);
    validate_camera_operation(&timed.operation, subjects, markers, &dotted(&op_path, ".operation"), report);
    assert(report@ =~= old(report)@ + timed_operation_diags(shot.camera.operations@, oi as int, shot_duration, string_views(subjects@), string_views(markers@), path@));
}

fn validate_operations(shot: &Shot, subjects: &Vec<String>, markers: &Vec<String>, path: &String, report: &mut ValidationReport)
    ensures
        final(report)@ == old(report)@ + operations_diags(*shot, string_views(subjects@), string_views(markers@), path@),
{
    let shot_duration = shot.duration_frames();
    let ghost sv = string_views(subjects@);
    let ghost mv = string_views(markers@);
    let ghost ops = shot.camera.operations@;
    let ghost f = |oi: int| timed_operation_diags(ops, oi, shot_duration, sv, mv, path@);
    let mut oi: usize = 0;
    while oi < shot.camera.operations.len()
        invariant
            oi <= shot.camera.operations.len(),
            ops == shot.camera.operations@,
            sv == string_views(subjects@),
            mv == string_views(markers@),
            f == (|oi: int| timed_operation_diags(ops, oi, shot_duration, sv, mv, path@)),
            report@ == old(report)@ + flatten(Seq::new(oi as nat, f)),
        decreases shot.camera.operations.len() - oi,
    {
        proof { lemma_flatten_new_step(oi as nat, f); }
        validate_timed_operation(shot, oi, shot_duration, subjects, markers, path, report);
        oi = oi + 1;
    }
}


// ----------------------------------------------------------------------
// Shots
// ----------------------------------------------------------------------

pub open spec fn axis_observation_ids(obs: Seq<AxisObservation>) -> Seq<Seq<char>> {
    obs.map_values(|o: AxisObservation| o.axis_id@)
}

pub open spec fn direction_subject_ids(obs: Seq<ScreenDirectionObservation>) -> Seq<Seq<char>> {
    obs.map_values(|o: ScreenDirectionObservation| o.subject_id@)
}

pub open spec fn axis_observation_diags(obs: Seq<AxisObservation>, ai: int, axes: Seq<Seq<char>>, path: Seq<char>) -> Seq<DiagnosticView> {
    let id = obs[ai].axis_id@;
    let ap = at_index(path, ".continuity.axis_observations"@, ai as nat);
    error_if(!axes.contains(id), "CONTINUITY_AXIS_UNKNOWN"@, ap + ".axis_id"@, "unknown continuity axis '"@ + id + "'"@)
        + error_if(axis_observation_ids(obs.take(ai)).contains(id), "CONTINUITY_AXIS_DUPLICATE"@, ap, "axis '"@ + id + "' is annotated more than once"@)
}

pub open spec fn direction_observation_diags(obs: Seq<ScreenDirectionObservation>, di: int, subjects: Seq<Seq<char>>, path: Seq<char>) -> Seq<DiagnosticView> {
    let id = obs[di].subject_id@;
    let dp = at_index(path, ".continuity.screen_directions"@, di as nat);
    error_if(!subjects.contains(id), "SCREEN_DIRECTION_SUBJECT_UNKNOWN"@, dp + ".subject_id"@, unknown_subject(id))
        + error_if(direction_subject_ids(obs.take(di)).contains(id), "SCREEN_DIRECTION_DUPLICATE"@, dp, "subject '"@ + id + "' has more than one screen-direction annotation"@)
}

pub open spec fn eyeline_diags(e: EyelineObservation, subjects: Seq<Seq<char>>, markers: Seq<Seq<char>>, ep: Seq<char>) -> Seq<DiagnosticView> {
    error_if(!subjects.contains(e.subject_id@), "EYELINE_SUBJECT_UNKNOWN"@, ep + ".subject_id"@, unknown_subject(e.subject_id@))
        + target_diags(e.target, subjects, markers, ep + ".target"@)
}

pub open spec fn shot_continuity_diags(shot: Shot, subjects: Seq<Seq<char>>, markers: Seq<Seq<char>>, axes: Seq<Seq<char>>, path: Seq<char>) -> Seq<DiagnosticView> {
    let c = shot.continuity;
    flatten(Seq::new(c.axis_observations@.len(), |ai: int| axis_observation_diags(c.axis_observations@, ai, axes, path)))
        + flatten(Seq::new(c.screen_directions@.len(), |di: int| direction_observation_diags(c.screen_directions@, di, subjects, path)))
        + flatten(Seq::new(c.eyelines@.len(), |ei: int| eyeline_diags(c.eyelines@[ei], subjects, markers, at_index(path, ".continuity.eyelines"@, ei as nat))))
        + error_if(
            match c.camera_azimuth_deg { Some(a) => !a.spec_is_finite(), None => false },
            "CAMERA_AZIMUTH_INVALID"@,
            path + ".continuity.camera_azimuth_deg"@,
            "camera azimuth must be finite"@,
        )
}

fn validate_axis_observations(shot: &Shot, axes: &Vec<String>, path: &String, report: &mut ValidationReport)
    ensures
        final(report)@ == old(report)@ + flatten(Seq::new(shot.continuity.axis_observations@.len(), |ai: int| axis_observation_diags(shot.continuity.axis_observations@, ai, string_views(axes@), path@))),
{
    let ghost obs = shot.continuity.axis_observations@;
    let ghost av = string_views(axes@);
    let ghost f = |ai: int| axis_observation_diags(obs, ai, av, path@);
    let mut seen: Vec<String> = Vec::new();
    let mut ai: usize = 0;
    while ai < shot.continuity.axis_observations.len()
        invariant
            ai <= shot.continuity.axis_observations.len(),
            obs == shot.continuity.axis_observations@,
            av == string_views(axes@),
            f == (|ai: int| axis_observation_diags(obs, ai, av, path@)),
            string_views(seen@) == axis_observation_ids(obs.take(ai as int)),
            report@ == old(report)@ + flatten(Seq::new(ai as nat, f)),
        decreases shot.continuity.axis_observations.len() - ai,
    {
        proof { lemma_flatten_new_step(ai as nat, f); }
        let ghost before = report@;
        let observation = &shot.continuity.axis_observations[ai];
        let ap = indexed(path, ".continuity.axis_observations", ai);
        if !contains_text(axes, &observation.axis_id) {
            report.push(Diagnostic::error("CONTINUITY_AXIS_UNKNOWN", dotted(&ap, ".axis_id"), around("unknown continuity axis '", &observation.axis_id, "'")));
        }
        if contains_text(&seen, &observation.axis_id) {
            report.push(Diagnostic::error("CONTINUITY_AXIS_DUPLICATE", ap, around("axis '", &observation.axis_id, "' is annotated more than once")));
        }
        assert(report@ =~= before + f(ai as int));
        let ghost old_seen = seen@;
        seen.push(observation.axis_id.clone());
        assert(string_views(seen@) =~= string_views(old_seen).push(obs[ai as int].axis_id@));
        assert(axis_observation_ids(obs.take(ai + 1)) =~= axis_observation_ids(obs.take(ai as int)).push(obs[ai as int].axis_id@));
        ai = ai + 1;
    }
}

fn validate_direction_observations(shot: &Shot, subjects: &Vec<String>, path: &String, report: &mut ValidationReport)
    ensures
        final(report)@ == old(report)@ + flatten(Seq::new(shot.continuity.screen_directions@.len(), |di: int| direction_observation_diags(shot.continuity.screen_directions@, di, string_views(subjects@), path@))),
{
    let ghost obs = shot.continuity.screen_directions@;
    let ghost sv = string_views(subjects@);
    let ghost f = |di: int| direction_observation_diags(obs, di, sv, path@);
    let mut seen: Vec<String> = Vec::new();
    let mut di: usize = 0;
    while di < shot.continuity.screen_directions.len()
        invariant
            di <= shot.continuity.screen_directions.len(),
            obs == shot.continuity.screen_directions@,
            sv == string_views(subjects@),
            f == (|di: int| direction_observation_diags(obs, di, sv, path@)),
            string_views(seen@) == direction_subject_ids(obs.take(di as int)),
            report@ == old(report)@ + flatten(Seq::new(di as nat, f)),
        decreases shot.continuity.screen_directions.len() - di,
    {
        proof { lemma_flatten_new_step(di as nat, f); }
        let ghost before = report@;
        let observation = &shot.continuity.screen_directions[di];
        let dp = indexed(path, ".continuity.screen_directions", di);
        if !contains_text(subjects, &observation.subject_id) {
            report.push(Diagnostic::error("SCREEN_DIRECTION_SUBJECT_UNKNOWN", dotted(&dp, ".subject_id"), around("unknown subject '", &observation.subject_id, "'")));
        }
        if contains_text(&seen, &observation.subject_id) {
            report.push(Diagnostic::error("SCREEN_DIRECTION_DUPLICATE", dp, around("subject '", &observation.subject_id, "' has more than one screen-direction annotation")));
        }
        assert(report@ =~= before + f(di as int));
        let ghost old_seen = seen@;
        seen.push(observation.subject_id.clone());
        assert(string_views(seen@) =~= string_views(old_seen).push(obs[di as int].subject_id@));
        assert(direction_subject_ids(obs.take(di + 1)) =~= direction_subject_ids(obs.take(di as int)).push(obs[di as int].subject_id@));
        di = di + 1;
    }
}

fn validate_eyelines(shot: &Shot, subjects: &Vec<String>, markers: &Vec<String>, path: &String, report: &mut ValidationReport)
    ensures
        final(report)@ == old(report)@ + flatten(Seq::new(shot.continuity.eyelines@.len(), |ei: int| eyeline_diags(shot.continuity.eyelines@[ei], string_views(subjects@), string_views(markers@), at_index(path@, ".continuity.eyelines"@, ei as nat)))),
{
    let ghost sv = string_views(subjects@);
    let ghost mv = string_views(markers@);
    let ghost f = |ei: int| eyeline_diags(shot.continuity.eyelines@[ei], sv, mv, at_index(path@, ".continuity.eyelines"@, ei as nat));
    let mut ei: usize = 0;
    while ei < shot.continuity.eyelines.len()
        invariant
            ei <= shot.continuity.eyelines.len(),
            sv == string_views(subjects@),
            mv == string_views(markers@),
            f == (|ei: int| eyeline_diags(shot.continuity.eyelines@[ei], sv, mv, at_index(path@, ".continuity.eyelines"@, ei as nat))),
            report@ == old(report)@ + flatten(Seq::new(ei as nat, f)),
        decreases shot.continuity.eyelines.len() - ei,
    {
        proof { lemma_flatten_new_step(ei as nat, f); }
        let ghost before = report@;
        let eyeline = &shot.continuity.eyelines[ei];
        let ep = indexed(path, ".continuity.eyelines", ei);
        if !contains_text(subjects, &eyeline.subject_id) {
            report.push(Diagnostic::error("EYELINE_SUBJECT_UNKNOWN", dotted(&ep, ".subject_id"), around("unknown subject '", &eyeline.subject_id, "'")));
        }
        check_target(&eyeline.target, subjects, markers, dotted(&ep, ".target"), report);
        assert(report@ =~= before + f(ei as int));
        ei = ei + 1;
    }
}

fn validate_shot_continuity(shot: &Shot, subjects: &Vec<String>, markers: &Vec<String>, axes: &Vec<String>, path: &String, report: &mut ValidationReport)
    ensures
        final(report)@ == old(report)@ + shot_continuity_diags(*shot, string_views(subjects@), string_views(markers@), string_views(axes@), path@),
{
    validate_axis_observations(shot, axes, path, report);
    validate_direction_observations(shot, subjects, path, report);
    validate_eyelines(shot, subjects, markers, path, report);
    let bad = match shot.continuity.camera_azimuth_deg { Some(a) => !a.is_finite(), None => false };
    report_error_if(bad, "CAMERA_AZIMUTH_INVALID", dotted(path, ".continuity.camera_azimuth_deg"), "camera azimuth must be finite", report);
    assert(report@ =~= old(report)@ + shot_continuity_diags(*shot, string_views(subjects@), string_views(markers@), string_views(axes@), path@));
}

pub open spec fn depth_layer_diags(layers: Seq<DepthLayer>, subjects: Seq<Seq<char>>, path: Seq<char>) -> Seq<DiagnosticView> {
    flatten(Seq::new(layers.len(), |li: int| unknown_ids_diags(
        string_views(layers[li].subject_ids@),
        subjects,
        "DEPTH_LAYER_SUBJECT_UNKNOWN"@,
        at_index(path, ".framing.composition.depth_layers"@, li as nat) + ".subject_ids"@,
    )))
}

pub open spec fn shot_framing_diags(shot: Shot, duration: Frame, subjects: Seq<Seq<char>>, lighting: Seq<Seq<char>>, path: Seq<char>) -> Seq<DiagnosticView> {
    scene_range_diags(shot.range, duration, path + ".range"@)
        + warning_if(shot.purpose@.len() == 0, "SHOT_PURPOSE_MISSING"@, path + ".purpose"@, "shot has no declared narrative or editorial purpose"@)
        + unknown_ids_diags(string_views(shot.framing.subject_ids@), subjects, "FRAMING_SUBJECT_UNKNOWN"@, path + ".framing.subject_ids"@)
        + error_if(
            match shot.framing.composition.headroom { Some(v) => !unit_interval(v), None => false },
            "COMPOSITION_HEADROOM_INVALID"@,
            path + ".framing.composition.headroom"@,
            "headroom must be in [0, 1]"@,
        ) + error_if(
            match shot.framing.composition.lead_room { Some(v) => !unit_interval(v), None => false },
            "COMPOSITION_LEAD_ROOM_INVALID"@,
            path + ".framing.composition.lead_room"@,
            "lead room must be in [0, 1]"@,
        ) + depth_layer_diags(shot.framing.composition.depth_layers@, subjects, path)
        + error_if(
            match shot.lighting_setup_id { Some(id) => !lighting.contains(id@), None => false },
            "LIGHTING_SETUP_UNKNOWN"@,
            path + ".lighting_setup_id"@,
            match shot.lighting_setup_id { Some(id) => "unknown lighting setup '"@ + id@ + "'"@, None => Seq::empty() },
        )
}

fn validate_depth_layers(shot: &Shot, subjects: &Vec<String>, path: &String, report: &mut ValidationReport)
    ensures
        final(report)@ == old(report)@ + depth_layer_diags(shot.framing.composition.depth_layers@, string_views(subjects@), path@),
{
    let ghost layers = shot.framing.composition.depth_layers@;
    let ghost sv = string_views(subjects@);
    let ghost f = |li: int| unknown_ids_diags(
        string_views(layers[li].subject_ids@),
        sv,
        "DEPTH_LAYER_SUBJECT_UNKNOWN"@,
        at_index(path@, ".framing.composition.depth_layers"@, li as nat) + ".subject_ids"@,
    );
    let mut li: usize = 0;
    while li < shot.framing.composition.depth_layers.len()
        invariant
            li <= shot.framing.composition.depth_layers.len(),
            layers == shot.framing.composition.depth_layers@,
            sv == string_views(subjects@),
            f == (|li: int| unknown_ids_diags(
                string_views(layers[li].subject_ids@),
                sv,
                "DEPTH_LAYER_SUBJECT_UNKNOWN"@,
                at_index(path@, ".framing.composition.depth_layers"@, li as nat) + ".subject_ids"@,
            )),
            report@ == old(report)@ + flatten(Seq::new(li as nat, f)),
        decreases shot.framing.composition.depth_layers.len() - li,
    {
        proof { lemma_flatten_new_step(li as nat, f); }
        let layer_path = dotted(&indexed(path, ".framing.composition.depth_layers", li), ".subject_ids");
        check_known_ids(&shot.framing.composition.depth_layers[li].subject_ids, subjects, "DEPTH_LAYER_SUBJECT_UNKNOWN", &layer_path, report);
        li = li + 1;
    }
}

fn validate_shot_framing(shot: &Shot, duration: Frame, subjects: &Vec<String>, lighting: &Vec<String>, path: &String, report: &mut ValidationReport)
    ensures
        final(report)@ == old(report)@ + shot_framing_diags(*shot, duration, string_views(subjects@), string_views(lighting@), path@),
{
    validate_scene_range(shot.range, duration, &dotted(path, ".range"), report);
    report_warning_if(shot.purpose.len() == 0, "SHOT_PURPOSE_MISSING", dotted(path, ".purpose"),
        "shot has no declared narrative or editorial purpose", report);
    check_known_ids(&shot.framing.subject_ids, subjects, "FRAMING_SUBJECT_UNKNOWN", &dotted(path, ".framing.subject_ids"), report);
    let bad_headroom = match shot.framing.composition.headroom { Some(v) => !in_unit(v), None => false };
    report_error_if(bad_headroom, "COMPOSITION_HEADROOM_INVALID", dotted(path, ".framing.composition.headroom"), "headroom must be in [0, 1]", report);
    let bad_lead = match shot.framing.composition.lead_room { Some(v) => !in_unit(v), None => false };
    report_error_if(bad_lead, "COMPOSITION_LEAD_ROOM_INVALID", dotted(path, ".framing.composition.lead_room"), "lead room must be in [0, 1]", report);
    validate_depth_layers(shot, subjects, path, report);
    match &shot.lighting_setup_id {
        Some(id) => {
            if !contains_text(lighting, id) {
                report.push(Diagnostic::error("LIGHTING_SETUP_UNKNOWN", dotted(path, ".lighting_setup_id"), around("unknown lighting setup '", id, "'")));
            }
        }
        None => {}
    }
    assert(report@ =~= old(report)@ + shot_framing_diags(*shot, duration, string_views(subjects@), string_views(lighting@), path@));
}

/// Everything validation reports about the shot declared at `index`.
#[verifier::opaque]
pub open spec fn shot_diags(
    shot: Shot,
    index: nat,
    duration: Frame,
    subjects: Seq<Seq<char>>,
    markers: Seq<Seq<char>>,
    axes: Seq<Seq<char>>,
    lighting: Seq<Seq<char>>,
    base: Seq<char>,
) -> Seq<DiagnosticView> {
    let path = at_index(base, ".shots"@, index);
    shot_framing_diags(shot, duration, subjects, lighting, path)
        + camera_state_diags(shot.camera.initial_state, subjects, markers, path + ".camera.initial_state"@)
        + operations_diags(shot, subjects, markers, path)
        + shot_continuity_diags(shot, subjects, markers, axes, path)
}

fn validate_shot(
    shot: &Shot,
    index: usize,
    duration: Frame,
    subjects: &Vec<String>,
    markers: &Vec<String>,
    axes: &Vec<String>,
    lighting: &Vec<String>,
    base: &String,
    report: &mut ValidationReport,
)
    ensures
        final(report)@ == old(report)@ + shot_diags(*shot, index as nat, duration, string_views(subjects@), string_views(markers@), string_views(axes@), string_views(lighting@), base@),
{
    reveal(shot_diags);
    let path = indexed(base, ".shots", index);
    validate_shot_framing(shot, duration, subjects, lighting, &path, report);
    validate_camera_state(&shot.camera.initial_state, subjects, markers, &dotted(&path, ".camera.initial_state"), report);
    validate_operations(shot, subjects, markers, &path, report);
    validate_shot_continuity(shot, subjects, markers, axes, &path, report);
}

/// Every shot of `scene`, in declaration order.
pub open spec fn shots_diags(
    scene: Scene,
    subjects: Seq<Seq<char>>,
    markers: Seq<Seq<char>>,
    axes: Seq<Seq<char>>,
    lighting: Seq<Seq<char>>,
    base: Seq<char>,
) -> Seq<DiagnosticView> {
    flatten(Seq::new(
        scene.shots@.len(),
        |i: int| shot_diags(scene.shots@[i], i as nat, scene.duration_frames, subjects, markers, axes, lighting, base),
    ))
}

fn validate_shots(
    scene: &Scene,
    subjects: &Vec<String>,
    markers: &Vec<String>,
    axes: &Vec<String>,
    lighting: &Vec<String>,
    base: &String,
    report: &mut ValidationReport,
)
    ensures
        final(report)@ == old(report)@ + shots_diags(*scene, string_views(subjects@), string_views(markers@),
            string_views(axes@), string_views(lighting@), base@),
{
    let ghost f = |i: int| shot_diags(scene.shots@[i], i as nat, scene.duration_frames, string_views(subjects@),
        string_views(markers@), string_views(axes@), string_views(lighting@), base@);
    let mut i: usize = 0;
    while i < scene.shots.len()
        invariant
            i <= scene.shots.len(),
            f == (|i: int| shot_diags(scene.shots@[i], i as nat, scene.duration_frames, string_views(subjects@),
                string_views(markers@), string_views(axes@), string_views(lighting@), base@)),
            report@ == old(report)@ + flatten(Seq::new(i as nat, f)),
        decreases scene.shots.len() - i,
    {
        proof { lemma_flatten_new_step(i as nat, f); }
        validate_shot(&scene.shots[i], i, scene.duration_frames, subjects, markers, axes, lighting, base, report);
        i = i + 1;
    }
}

/// The scene's own fields: id, duration, and that it has shots.
pub open spec fn scene_header_diags(scene: Scene, base: Seq<char>) -> Seq<DiagnosticView> {
    error_if(all_white_space(scene.id@), "SCENE_ID_EMPTY"@, base + ".id"@, "scene id must not be empty"@)
        + error_if(
        scene.duration_frames == 0,
        "SCENE_DURATION_INVALID"@,
        base + ".duration_frames"@,
        "scene duration must be greater than zero"@,
    ) + error_if(
        scene.shots@.len() == 0,
        "SCENE_HAS_NO_SHOTS"@,
        base + ".shots"@,
        "scene must contain at least one shot on the edit timeline"@,
    )
}

/// Blank and repeated ids in each of the scene's lists.
pub open spec fn scene_ids_diags(scene: Scene, base: Seq<char>) -> Seq<DiagnosticView> {
    unique_id_diags(ids(scene.subjects@), base + ".subjects"@, "subject"@)
        + unique_id_diags(ids(scene.markers@), base + ".markers"@, "marker"@)
        + unique_id_diags(ids(scene.axes@), base + ".axes"@, "axis"@)
        + unique_id_diags(ids(scene.beats@), base + ".beats"@, "beat"@)
        + unique_id_diags(ids(scene.shots@), base + ".shots"@, "shot"@)
        + unique_id_diags(ids(scene.lighting_setups@), base + ".lighting_setups"@, "lighting setup"@)
}

/// The scene's subjects, markers, axes, blocking, beats, narrative and
/// lighting, checked against the scene's own ids.
pub open spec fn scene_contents_diags(scene: Scene, base: Seq<char>) -> Seq<DiagnosticView> {
    let subjects = ids(scene.subjects@);
    let markers = ids(scene.markers@);
    subjects_diags(scene, base) + markers_diags(scene, base) + axes_diags(scene, subjects, markers, base)
        + blocking_diags(scene, subjects, markers, base) + beats_diags(scene, subjects, base) + narrative_diags(
        scene,
        base,
    ) + lighting_diags(scene, base)
}

/// Everything validation reports about the scene declared at `index`, in
/// the order the checks run.
#[verifier::opaque]
pub open spec fn scene_diags(scene: Scene, index: nat) -> Seq<DiagnosticView> {
    let base = scene_path(index);
    scene_header_diags(scene, base) + scene_ids_diags(scene, base) + scene_contents_diags(scene, base)
        + timeline_diags(scene, base) + shots_diags(
        scene,
        ids(scene.subjects@),
        ids(scene.markers@),
        ids(scene.axes@),
        ids(scene.lighting_setups@),
        base,
    )
}

fn validate_scene_header(scene: &Scene, base: &String, report: &mut ValidationReport)
    ensures
        final(report)@ == old(report)@ + scene_header_diags(*scene, base@),
{
    report_error_if(is_blank(scene.id.as_str()), "SCENE_ID_EMPTY", dotted(base, ".id"), "scene id must not be empty", report);
    report_error_if(
        scene.duration_frames == 0,
        "SCENE_DURATION_INVALID",
        dotted(base, ".duration_frames"),
        "scene duration must be greater than zero",
        report,
    );
    report_error_if(
        scene.shots.len() == 0,
        "SCENE_HAS_NO_SHOTS",
        dotted(base, ".shots"),
        "scene must contain at least one shot on the edit timeline",
        report,
    );
}

fn validate_scene_ids(scene: &Scene, base: &String, report: &mut ValidationReport)
    ensures
        final(report)@ == old(report)@ + scene_ids_diags(*scene, base@),
{
    check_unique_ids(&collect_ids(&scene.subjects), &dotted(base, ".subjects"), "subject", report);
    check_unique_ids(&collect_ids(&scene.markers), &dotted(base, ".markers"), "marker", report);
    check_unique_ids(&collect_ids(&scene.axes), &dotted(base, ".axes"), "axis", report);
    check_unique_ids(&collect_ids(&scene.beats), &dotted(base, ".beats"), "beat", report);
    check_unique_ids(&collect_ids(&scene.shots), &dotted(base, ".shots"), "shot", report);
    check_unique_ids(&collect_ids(&scene.lighting_setups), &dotted(base, ".lighting_setups"), "lighting setup", report);
}

fn validate_scene_contents(scene: &Scene, subjects: &Vec<String>, markers: &Vec<String>, base: &String, report: &mut ValidationReport)
    requires
        string_views(subjects@) == ids(scene.subjects@),
        string_views(markers@) == ids(scene.markers@),
    ensures
        final(report)@ == old(report)@ + scene_contents_diags(*scene, base@),
{
    validate_subjects(scene, base, report);
    validate_markers(scene, base, report);
    validate_axes(scene, subjects, markers, base, report);
    validate_blocking(scene, subjects, markers, base, report);
    validate_beats(scene, subjects, base, report);
    validate_narrative(scene, base, report);
    validate_lighting(scene, base, report);
}

/// Validates the scene declared at `index`, appending what it finds.
pub fn validate_scene(scene: &Scene, index: usize, report: &mut ValidationReport)
    ensures
        final(report)@ == old(report)@ + scene_diags(*scene, index as nat),
{
    reveal(scene_diags);
    let base = indexed(&owned(""), "scenes", index);
    proof { reveal_strlit(""); }
    assert(base@ == scene_path(index as nat));
    validate_scene_header(scene, &base, report);
    validate_scene_ids(scene, &base, report);
    let subjects = collect_ids(&scene.subjects);
    let markers = collect_ids(&scene.markers);
    let axes = collect_ids(&scene.axes);
    let lighting = collect_ids(&scene.lighting_setups);
    validate_scene_contents(scene, &subjects, &markers, &base, report);
    validate_shot_timeline(scene, &base, report);
    validate_shots(scene, &subjects, &markers, &axes, &lighting, &base, report);
}

// ----------------------------------------------------------------------
// Projects
// ----------------------------------------------------------------------

/// The document schema version this library implements.
pub const SUPPORTED_SCHEMA_VERSION: &'static str = "0.1";

pub open spec fn signed_axis_name(axis: SignedAxis) -> Seq<char> {
    match axis {
        SignedAxis::PositiveX => "PositiveX"@,
        SignedAxis::NegativeX => "NegativeX"@,
        SignedAxis::PositiveY => "PositiveY"@,
        SignedAxis::NegativeY => "NegativeY"@,
        SignedAxis::PositiveZ => "PositiveZ"@,
        SignedAxis::NegativeZ => "NegativeZ"@,
    }
}

fn signed_axis_name_exec(axis: SignedAxis) -> (s: &'static str)
    ensures
        s@ == signed_axis_name(axis),
{
    match axis {
        SignedAxis::PositiveX => "PositiveX",
        SignedAxis::NegativeX => "NegativeX",
        SignedAxis::PositiveY => "PositiveY",
        SignedAxis::NegativeY => "NegativeY",
        SignedAxis::PositiveZ => "PositiveZ",
        SignedAxis::NegativeZ => "NegativeZ",
    }
}

pub open spec fn axis_name_text(axis: AxisName) -> Seq<char> {
    match axis {
        AxisName::X => "X"@,
        AxisName::Y => "Y"@,
        AxisName::Z => "Z"@,
    }
}

fn axis_name_exec(axis: AxisName) -> (s: &'static str)
    ensures
        s@ == axis_name_text(axis),
{
    match axis {
        AxisName::X => "X",
        AxisName::Y => "Y",
        AxisName::Z => "Z",
    }
}

/// The unsigned axis a signed axis lies on.
pub open spec fn axis_of(axis: SignedAxis) -> AxisName {
    match axis {
        SignedAxis::PositiveX | SignedAxis::NegativeX => AxisName::X,
        SignedAxis::PositiveY | SignedAxis::NegativeY => AxisName::Y,
        SignedAxis::PositiveZ | SignedAxis::NegativeZ => AxisName::Z,
    }
}

fn axis_of_exec(axis: SignedAxis) -> (a: AxisName)
    ensures
        a == axis_of(axis),
{
    match axis {
        SignedAxis::PositiveX | SignedAxis::NegativeX => AxisName::X,
        SignedAxis::PositiveY | SignedAxis::NegativeY => AxisName::Y,
        SignedAxis::PositiveZ | SignedAxis::NegativeZ => AxisName::Z,
    }
}

/// Schema version, project id, frame rate, coordinate system, and the
/// scene list itself.
pub open spec fn project_header_diags(project: CineProject) -> Seq<DiagnosticView> {
    let cs = project.coordinate_system;
    (if project.schema_version@ != SUPPORTED_SCHEMA_VERSION@ {
        seq![hinted(
            warning_at(
                "SCHEMA_VERSION_UNSUPPORTED"@,
                "schema_version"@,
                "schema version '"@ + project.schema_version@ + "' is not implemented by this crate ('"@
                    + SUPPORTED_SCHEMA_VERSION@ + "')"@,
            ),
            "Migrate the document or use a compatible cine-ir binary."@,
        )]
    } else {
        Seq::empty()
    }) + error_if(all_white_space(project.id@), "PROJECT_ID_EMPTY"@, "id"@, "project id must not be empty"@)
        + error_if(
        project.frame_rate.numerator == 0 || project.frame_rate.denominator == 0,
        "FRAME_RATE_INVALID"@,
        "frame_rate"@,
        "frame-rate numerator and denominator must be greater than zero"@,
    ) + (if axis_of(cs.forward_axis) == cs.up_axis {
        seq![hinted(
            error_at(
                "COORDINATE_SYSTEM_AXES_PARALLEL"@,
                "coordinate_system.forward_axis"@,
                "forward_axis "@ + signed_axis_name(cs.forward_axis) + " is parallel to up_axis "@ + axis_name_text(
                    cs.up_axis,
                ) + "; every camera basis would be degenerate"@,
            ),
            "Set forward_axis explicitly, e.g. positive_y for a Blender-style Z-up world."@,
        )]
    } else {
        Seq::empty()
    }) + error_if(
        project.scenes@.len() == 0,
        "PROJECT_HAS_NO_SCENES"@,
        "scenes"@,
        "project must contain at least one scene"@,
    ) + unique_id_diags(ids(project.scenes@), "scenes"@, "scene"@)
}

/// The small-angle cuts given for scene `i` (none when absent).
pub open spec fn angles_for(small_angles: Seq<Vec<Option<String>>>, i: int) -> Seq<Option<String>> {
    if 0 <= i < small_angles.len() {
        small_angles[i]@
    } else {
        Seq::empty()
    }
}

/// Everything validation reports about `project`: the project's own fields,
/// then each scene's checks followed by its continuity analysis.
pub open spec fn project_diags(project: CineProject, small_angles: Seq<Vec<Option<String>>>) -> Seq<DiagnosticView> {
    project_header_diags(project) + flatten(Seq::new(
        project.scenes@.len(),
        |i: int| scene_diags(project.scenes@[i], i as nat) + continuity_diags(
            project.scenes@[i],
            angles_for(small_angles, i),
        ),
    ))
}

fn validate_project_header(project: &CineProject, report: &mut ValidationReport)
    ensures
        final(report)@ == old(report)@ + project_header_diags(*project),
{
    let cs = project.coordinate_system;
    let supported = owned(SUPPORTED_SCHEMA_VERSION);
    if project.schema_version != supported {
        let mut message = owned("schema version '");
        push_str(&mut message, project.schema_version.as_str());
        push_str(&mut message, "' is not implemented by this crate ('");
        push_str(&mut message, SUPPORTED_SCHEMA_VERSION);
        push_str(&mut message, "')");
        report.push(
            Diagnostic::warning("SCHEMA_VERSION_UNSUPPORTED", owned("schema_version"), message)
                .with_hint("Migrate the document or use a compatible cine-ir binary."),
        );
    }
    let ghost after_schema = report@;
    report_error_if(is_blank(project.id.as_str()), "PROJECT_ID_EMPTY", owned("id"), "project id must not be empty", report);
    report_error_if(
        project.frame_rate.numerator == 0 || project.frame_rate.denominator == 0,
        "FRAME_RATE_INVALID",
        owned("frame_rate"),
        "frame-rate numerator and denominator must be greater than zero",
        report,
    );
    let ghost after_rate = report@;
    if axis_of_exec(cs.forward_axis) == cs.up_axis {
        let mut message = owned("forward_axis ");
        push_str(&mut message, signed_axis_name_exec(cs.forward_axis));
        push_str(&mut message, " is parallel to up_axis ");
        push_str(&mut message, axis_name_exec(cs.up_axis));
        push_str(&mut message, "; every camera basis would be degenerate");
        report.push(
            Diagnostic::error("COORDINATE_SYSTEM_AXES_PARALLEL", owned("coordinate_system.forward_axis"), message)
                .with_hint("Set forward_axis explicitly, e.g. positive_y for a Blender-style Z-up world."),
        );
    }
    let ghost after_axes = report@;
    report_error_if(
        project.scenes.len() == 0,
        "PROJECT_HAS_NO_SCENES",
        owned("scenes"),
        "project must contain at least one scene",
        report,
    );
    check_unique_ids(&collect_ids(&project.scenes), &owned("scenes"), "scene", report);
    assert(report@ =~= old(report)@ + project_header_diags(*project));
}

/// Validates `project` and analyses the continuity of each scene.
///
/// Entry `i` of `small_angles` gives the small-angle cuts of scene `i`, as
/// `analyze_continuity` takes them; a missing entry counts as none.
pub fn validate_project(project: &CineProject, small_angles: &Vec<Vec<Option<String>>>) -> (report: ValidationReport)
    ensures
        report@ == project_diags(*project, small_angles@),
{
    let mut report = ValidationReport::new();
    validate_project_header(project, &mut report);
    let ghost after_header = report@;
    let ghost f = |i: int| scene_diags(project.scenes@[i], i as nat) + continuity_diags(
        project.scenes@[i],
        angles_for(small_angles@, i),
    );
    let none: Vec<Option<String>> = Vec::new();
    let mut i: usize = 0;
    while i < project.scenes.len()
        invariant
            i <= project.scenes.len(),
            none@.len() == 0,
            f == (|i: int| scene_diags(project.scenes@[i], i as nat) + continuity_diags(
                project.scenes@[i],
                angles_for(small_angles@, i),
            )),
            report@ == after_header + flatten(Seq::new(i as nat, f)),
        decreases project.scenes.len() - i,
    {
        proof { lemma_flatten_new_step(i as nat, f); }
        let scene = &project.scenes[i];
        validate_scene(scene, i, &mut report);
        let angles = if i < small_angles.len() { &small_angles[i] } else { &none };
        assert(angles@ == angles_for(small_angles@, i as int));
        report.extend(analyze_continuity(scene, angles));
        i = i + 1;
    }
    report
}

} // verus!
