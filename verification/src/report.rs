//! The compact, human-readable shot plan printed by `inspect`.
use vstd::prelude::*;

use crate::diagnostic::{count_severity, flatten, lemma_flatten_new_step, DiagnosticView, Severity, ValidationReport};
use crate::model::{CameraOperation, CineProject, Scene, Shot};
use crate::names::{camera_rig_debug, camera_rig_debug_name, coverage_role_debug, coverage_role_debug_name,
    shot_size_debug, shot_size_debug_name};
use crate::text::{chars_of, decimal, owned, push_char, push_decimal, push_str};
use crate::timeline::{shot_order, shots_in_edit_order};

verus! {

broadcast use {vstd::seq_lib::group_seq_properties, crate::diagnostic::lemma_concat_regroup};

pub open spec fn operation_text(op: CameraOperation) -> Seq<char> {
    match op {
        CameraOperation::Hold => "hold"@,
        CameraOperation::Pan { .. } => "pan"@,
        CameraOperation::Tilt { .. } => "tilt"@,
        CameraOperation::Roll { .. } => "roll"@,
        CameraOperation::Dolly { .. } => "dolly"@,
        CameraOperation::Truck { .. } => "truck"@,
        CameraOperation::Pedestal { .. } => "pedestal"@,
        CameraOperation::Translate { .. } => "translate"@,
        CameraOperation::Rotate { .. } => "rotate"@,
        CameraOperation::LookAt { .. } => "look_at"@,
        CameraOperation::Orbit { .. } => "orbit"@,
        CameraOperation::Follow { .. } => "follow"@,
        CameraOperation::Crane { .. } => "crane"@,
        CameraOperation::Zoom { .. } => "zoom"@,
        CameraOperation::RackFocus { .. } => "rack_focus"@,
        CameraOperation::DollyZoom { .. } => "dolly_zoom"@,
        CameraOperation::HandheldNoise { .. } => "handheld_noise"@,
        CameraOperation::Reveal { .. } => "reveal"@,
    }
}

/// The short name of a camera operation.
pub fn operation_name(op: &CameraOperation) -> (name: &'static str)
    ensures
        name@ == operation_text(*op),
{
    match op {
        CameraOperation::Hold => "hold",
        CameraOperation::Pan { .. } => "pan",
        CameraOperation::Tilt { .. } => "tilt",
        CameraOperation::Roll { .. } => "roll",
        CameraOperation::Dolly { .. } => "dolly",
        CameraOperation::Truck { .. } => "truck",
        CameraOperation::Pedestal { .. } => "pedestal",
        CameraOperation::Translate { .. } => "translate",
        CameraOperation::Rotate { .. } => "rotate",
        CameraOperation::LookAt { .. } => "look_at",
        CameraOperation::Orbit { .. } => "orbit",
        CameraOperation::Follow { .. } => "follow",
        CameraOperation::Crane { .. } => "crane",
        CameraOperation::Zoom { .. } => "zoom",
        CameraOperation::RackFocus { .. } => "rack_focus",
        CameraOperation::DollyZoom { .. } => "dolly_zoom",
        CameraOperation::HandheldNoise { .. } => "handheld_noise",
        CameraOperation::Reveal { .. } => "reveal",
    }
}

/// `n` spaces.
pub open spec fn spaces(n: nat) -> Seq<char> {
    Seq::new(n, |i: int| ' ')
}

/// `s` right-aligned in `width` columns (`{:>width}`).
pub open spec fn pad_left(s: Seq<char>, width: nat) -> Seq<char> {
    if s.len() < width { spaces((width - s.len()) as nat) + s } else { s }
}

/// `s` left-aligned in `width` columns (`{:<width}`).
pub open spec fn pad_right(s: Seq<char>, width: nat) -> Seq<char> {
    if s.len() < width { s + spaces((width - s.len()) as nat) } else { s }
}

fn push_spaces(text: &mut String, n: usize)
    ensures
        final(text)@ == old(text)@ + spaces(n as nat),
{
    let mut i: usize = 0;
    while i < n
        invariant
            i <= n,
            text@ == old(text)@ + spaces(i as nat),
        decreases n - i,
    {
        push_char(text, ' ');
        assert(spaces((i + 1) as nat) =~= spaces(i as nat).push(' '));
        i = i + 1;
    }
}

fn push_padded_left(text: &mut String, s: &str, width: usize)
    ensures
        final(text)@ == old(text)@ + pad_left(s@, width as nat),
{
    let n = chars_of(s).len();
    if n < width {
        push_spaces(text, width - n);
    }
    push_str(text, s);
}

fn push_padded_right(text: &mut String, s: &str, width: usize)
    ensures
        final(text)@ == old(text)@ + pad_right(s@, width as nat),
{
    let n = chars_of(s).len();
    push_str(text, s);
    if n < width {
        push_spaces(text, width - n);
    }
}

fn decimal_text(n: u64) -> (s: String)
    ensures
        s@ == decimal(n as nat),
{
    let mut s = String::new();
    push_decimal(&mut s, n);
    s
}

/// The operation names of the first `n` operations, joined with `", "`.
pub open spec fn operation_list(shot: Shot, n: nat) -> Seq<char>
    decreases n,
{
    if n == 0 {
        Seq::empty()
    } else if n == 1 {
        operation_text(shot.camera.operations@[0].operation)
    } else {
        operation_list(shot, (n - 1) as nat) + ", "@ + operation_text(shot.camera.operations@[n - 1].operation)
    }
}

/// How a shot moves: `locked`, or its operations in declaration order.
pub open spec fn movement_text(shot: Shot) -> Seq<char> {
    if shot.camera.operations@.len() == 0 {
        "locked"@
    } else {
        operation_list(shot, shot.camera.operations@.len())
    }
}

/// One shot line: `  [start..end) id size/role | rig | movement`.
#[verifier::opaque]
pub open spec fn shot_line(shot: Shot) -> Seq<char> {
    "  ["@ + pad_left(decimal(shot.range.start as nat), 5) + ".."@ + pad_right(decimal(shot.range.end as nat), 5)
        + ") "@ + pad_right(shot.id@, 20) + " "@ + coverage_role_debug(shot.coverage_role) + "/"@
        + shot_size_debug(shot.framing.shot_size) + " | "@ + camera_rig_debug(shot.camera.rig) + " | "@
        + movement_text(shot) + "\n"@
}

/// A scene's heading lines; `duration` is its length in seconds as printed
/// (`unknown` without a usable frame rate).
pub open spec fn scene_header_text(scene: Scene, duration: Seq<char>) -> Seq<char> {
    "\nScene "@ + scene.id@ + ": "@ + scene.title@ + " \u{2014} "@ + decimal(scene.duration_frames as nat)
        + " frames ("@ + duration + ")\n"@ + match scene.narrative.dramatic_question {
        Some(q) => "  Dramatic question: "@ + q@ + "\n"@,
        None => Seq::empty(),
    } + "  Subjects: "@ + decimal(scene.subjects@.len()) + " | Axes: "@ + decimal(scene.axes@.len())
        + " | Beats: "@ + decimal(scene.beats@.len()) + " | Shots: "@ + decimal(scene.shots@.len()) + "\n"@
}

/// A scene's shot lines, in edit order.
pub open spec fn shot_lines_text(scene: Scene) -> Seq<char> {
    let sorted = shots_in_edit_order(scene.shots@);
    flatten(Seq::new(sorted.len(), |k: int| shot_line(sorted[k])))
}

/// One scene's block: its heading, then its shots.
#[verifier::opaque]
pub open spec fn scene_block(scene: Scene, duration: Seq<char>) -> Seq<char> {
    scene_header_text(scene, duration) + shot_lines_text(scene)
}

/// The plan of `project`. `fps` is the frame rate as printed (`invalid`
/// without one); entry `i` of `durations` is scene `i`'s length as printed.
pub open spec fn summary_text(project: CineProject, fps: Seq<char>, durations: Seq<String>) -> Seq<char> {
    "Project: "@ + project.title@ + " ("@ + project.id@ + ")\n"@ + "Schema: "@ + project.schema_version@
        + " | FPS: "@ + fps + "\n"@ + "Scenes: "@ + decimal(project.scenes@.len()) + "\n"@ + flatten(
        Seq::new(
            project.scenes@.len(),
            |i: int| scene_block(project.scenes@[i], if i < durations.len() { durations[i]@ } else { "unknown"@ }),
        ),
    )
}

fn push_movement(text: &mut String, shot: &Shot)
    ensures
        final(text)@ == old(text)@ + movement_text(*shot),
{
    if shot.camera.operations.len() == 0 {
        push_str(text, "locked");
        return;
    }
    let mut i: usize = 0;
    while i < shot.camera.operations.len()
        invariant
            i <= shot.camera.operations.len(),
            shot.camera.operations.len() > 0,
            text@ == old(text)@ + operation_list(*shot, i as nat),
        decreases shot.camera.operations.len() - i,
    {
        if i > 0 {
            push_str(text, ", ");
        }
        push_str(text, operation_name(&shot.camera.operations[i].operation));
        i = i + 1;
    }
}

fn push_shot_line(text: &mut String, shot: &Shot)
    ensures
        final(text)@ == old(text)@ + shot_line(*shot),
{
    reveal(shot_line);
    push_str(text, "  [");
    push_padded_left(text, decimal_text(shot.range.start).as_str(), 5);
    push_str(text, "..");
    push_padded_right(text, decimal_text(shot.range.end).as_str(), 5);
    push_str(text, ") ");
    push_padded_right(text, shot.id.as_str(), 20);
    push_str(text, " ");
    push_str(text, coverage_role_debug_name(shot.coverage_role));
    push_str(text, "/");
    push_str(text, shot_size_debug_name(shot.framing.shot_size));
    push_str(text, " | ");
    push_str(text, camera_rig_debug_name(shot.camera.rig));
    push_str(text, " | ");
    push_movement(text, shot);
    push_str(text, "\n");
}

fn push_scene_header(text: &mut String, scene: &Scene, duration: &str)
    ensures
        final(text)@ == old(text)@ + scene_header_text(*scene, duration@),
{
    let mut line = owned("\nScene ");
    push_str(&mut line, scene.id.as_str());
    push_str(&mut line, ": ");
    push_str(&mut line, scene.title.as_str());
    push_str(&mut line, " \u{2014} ");
    push_decimal(&mut line, scene.duration_frames);
    push_str(&mut line, " frames (");
    push_str(&mut line, duration);
    push_str(&mut line, ")\n");
    let mut question = String::new();
    match &scene.narrative.dramatic_question {
        Some(q) => {
            push_str(&mut question, "  Dramatic question: ");
            push_str(&mut question, q.as_str());
            push_str(&mut question, "\n");
        },
        None => {},
    }
    let mut counts = owned("  Subjects: ");
    push_decimal(&mut counts, scene.subjects.len() as u64);
    push_str(&mut counts, " | Axes: ");
    push_decimal(&mut counts, scene.axes.len() as u64);
    push_str(&mut counts, " | Beats: ");
    push_decimal(&mut counts, scene.beats.len() as u64);
    push_str(&mut counts, " | Shots: ");
    push_decimal(&mut counts, scene.shots.len() as u64);
    push_str(&mut counts, "\n");
    push_str(text, line.as_str());
    push_str(text, question.as_str());
    push_str(text, counts.as_str());
}

fn push_shot_lines(text: &mut String, scene: &Scene)
    ensures
        final(text)@ == old(text)@ + shot_lines_text(*scene),
{
    let order = shot_order(&scene.shots);
    let ghost sorted = shots_in_edit_order(scene.shots@);
    let ghost f = |k: int| shot_line(sorted[k]);
    let mut k: usize = 0;
    while k < order.len()
        invariant
            k <= order.len(),
            order.len() == scene.shots.len(),
            sorted == shots_in_edit_order(scene.shots@),
            sorted.len() == order.len(),
            forall|j: int| 0 <= j < order.len() ==> #[trigger] order@[j] < scene.shots.len() && sorted[j]
                == scene.shots@[order@[j] as int],
            f == (|k: int| shot_line(sorted[k])),
            text@ == old(text)@ + flatten(Seq::new(k as nat, f)),
        decreases order.len() - k,
    {
        proof { lemma_flatten_new_step(k as nat, f); }
        assert(sorted[k as int] == scene.shots@[order@[k as int] as int]);
        push_shot_line(text, &scene.shots[order[k]]);
        k = k + 1;
    }
}

fn push_scene_block(text: &mut String, scene: &Scene, duration: &str)
    ensures
        final(text)@ == old(text)@ + scene_block(*scene, duration@),
{
    reveal(scene_block);
    push_scene_header(text, scene, duration);
    push_shot_lines(text, scene);
}

fn summary_head(project: &CineProject, fps: &str) -> (text: String)
    ensures
        text@ == "Project: "@ + project.title@ + " ("@ + project.id@ + ")\n"@ + "Schema: "@ + project.schema_version@
            + " | FPS: "@ + fps@ + "\n"@ + "Scenes: "@ + decimal(project.scenes@.len()) + "\n"@,
{
    let mut text = owned("Project: ");
    push_str(&mut text, project.title.as_str());
    push_str(&mut text, " (");
    push_str(&mut text, project.id.as_str());
    push_str(&mut text, ")\n");
    push_str(&mut text, "Schema: ");
    push_str(&mut text, project.schema_version.as_str());
    push_str(&mut text, " | FPS: ");
    push_str(&mut text, fps);
    push_str(&mut text, "\n");
    push_str(&mut text, "Scenes: ");
    push_decimal(&mut text, project.scenes.len() as u64);
    push_str(&mut text, "\n");
    text
}

/// The compact plan of `project`: title, schema, frame rate, and per scene
/// its counts and its shots in edit order.
pub fn render_summary(project: &CineProject, fps: &str, durations: &Vec<String>) -> (text: String)
    ensures
        text@ == summary_text(*project, fps@, durations@),
{
    let mut text = summary_head(project, fps);
    let ghost head = text@;
    let ghost f = |i: int| scene_block(
        project.scenes@[i],
        if i < durations@.len() { durations@[i]@ } else { "unknown"@ },
    );
    let mut i: usize = 0;
    while i < project.scenes.len()
        invariant
            i <= project.scenes.len(),
            f == (|i: int| scene_block(
                project.scenes@[i],
                if i < durations@.len() { durations@[i]@ } else { "unknown"@ },
            )),
            text@ == head + flatten(Seq::new(i as nat, f)),
        decreases project.scenes.len() - i,
    {
        proof { lemma_flatten_new_step(i as nat, f); }
        if i < durations.len() {
            push_scene_block(&mut text, &project.scenes[i], durations[i].as_str());
        } else {
            push_scene_block(&mut text, &project.scenes[i], "unknown");
        }
        i = i + 1;
    }
    text
}

// ----------------------------------------------------------------------
// Diagnostics as text
// ----------------------------------------------------------------------

pub open spec fn severity_text(severity: Severity) -> Seq<char> {
    match severity {
        Severity::Error => "error"@,
        Severity::Warning => "warning"@,
    }
}

/// `severity[CODE] path: message`, then `  hint: ...` when there is one.
pub open spec fn diagnostic_lines(d: DiagnosticView) -> Seq<char> {
    severity_text(d.severity) + "["@ + d.code + "] "@ + d.path + ": "@ + d.message + "\n"@ + match d.hint {
        Some(h) => "  hint: "@ + h + "\n"@,
        None => Seq::empty(),
    }
}

/// Every diagnostic's lines, in order.
pub open spec fn diagnostics_text(ds: Seq<DiagnosticView>) -> Seq<char> {
    flatten(Seq::new(ds.len(), |i: int| diagnostic_lines(ds[i])))
}

/// `N error(s), M warning(s)`.
pub open spec fn totals_text(ds: Seq<DiagnosticView>) -> Seq<char> {
    decimal(count_severity(ds, Severity::Error)) + " error(s), "@ + decimal(count_severity(ds, Severity::Warning))
        + " warning(s)\n"@
}

/// The report as `validate` prints it on standard output.
pub open spec fn report_text(ds: Seq<DiagnosticView>) -> Seq<char> {
    if ds.len() == 0 {
        "OK: no diagnostics\n"@
    } else {
        diagnostics_text(ds) + "\n"@ + totals_text(ds)
    }
}

/// The report as the other commands print it on standard error.
pub open spec fn report_notice_text(ds: Seq<DiagnosticView>) -> Seq<char> {
    if ds.len() == 0 {
        Seq::empty()
    } else {
        diagnostics_text(ds) + totals_text(ds)
    }
}

fn push_diagnostics(text: &mut String, report: &ValidationReport)
    ensures
        final(text)@ == old(text)@ + diagnostics_text(report@),
{
    let ghost ds = report@;
    let ghost f = |i: int| diagnostic_lines(ds[i]);
    let mut i: usize = 0;
    while i < report.diagnostics.len()
        invariant
            i <= report.diagnostics.len(),
            ds == report@,
            ds.len() == report.diagnostics.len(),
            f == (|i: int| diagnostic_lines(ds[i])),
            text@ == old(text)@ + flatten(Seq::new(i as nat, f)),
        decreases report.diagnostics.len() - i,
    {
        proof { lemma_flatten_new_step(i as nat, f); }
        let d = &report.diagnostics[i];
        assert(ds[i as int] == d@);
        let ghost before = text@;
        push_str(text, match d.severity {
            Severity::Error => "error",
            Severity::Warning => "warning",
        });
        push_str(text, "[");
        push_str(text, d.code.as_str());
        push_str(text, "] ");
        push_str(text, d.path.as_str());
        push_str(text, ": ");
        push_str(text, d.message.as_str());
        push_str(text, "\n");
        match &d.hint {
            Some(h) => {
                push_str(text, "  hint: ");
                push_str(text, h.as_str());
                push_str(text, "\n");
            },
            None => {},
        }
        assert(text@ =~= before + diagnostic_lines(d@));
        i = i + 1;
    }
}

fn push_totals(text: &mut String, report: &ValidationReport)
    ensures
        final(text)@ == old(text)@ + totals_text(report@),
{
    let errors = report.error_count();
    let warnings = report.warning_count();
    push_decimal(text, errors as u64);
    push_str(text, " error(s), ");
    push_decimal(text, warnings as u64);
    push_str(text, " warning(s)\n");
}

/// The report as `validate` prints it: one line per diagnostic (and one per
/// hint), then the totals; or `OK: no diagnostics`.
pub fn render_report(report: &ValidationReport) -> (text: String)
    ensures
        text@ == report_text(report@),
{
    if report.diagnostics.len() == 0 {
        return owned("OK: no diagnostics\n");
    }
    let mut text = String::new();
    push_diagnostics(&mut text, report);
    push_str(&mut text, "\n");
    push_totals(&mut text, report);
    text
}

/// The report as printed alongside other output: the diagnostics and the
/// totals, or nothing at all.
pub fn render_report_notice(report: &ValidationReport) -> (text: String)
    ensures
        text@ == report_notice_text(report@),
{
    let mut text = String::new();
    if report.diagnostics.len() == 0 {
        return text;
    }
    push_diagnostics(&mut text, report);
    push_totals(&mut text, report);
    text
}

} // verus!
