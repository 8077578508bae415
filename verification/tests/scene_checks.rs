use cinematography_ir::analyze::analyze_continuity;
use cinematography_ir::compiled::{
    clip_source_frame, clip_source_path, compile_phases, constraint_slots, OperationMeasures, compiled_phrases, compiled_prohibitions, edit_relation,
    ordered_edit_ids, resolve_edit_clips, rich_transition, scene_edit_timeline, slice_operations, CompileError,
    PhaseKind,
};
use cinematography_ir::diagnostic::{Diagnostic, Severity, ValidationReport};
use cinematography_ir::model::{
    AxisObservation, AxisSide, Beat, BeatEmphasis, CameraOperation, CameraPlan, CameraRig, CameraState, CineProject,
    Composition, CompositionStrategy, ContinuityAnnotations, ContinuityAxis, ContinuityBridge, CoordinateSystem,
    CoverageRole, EditClip, Easing, EulerDeg, ExposureState, FocusState, FrameRange, FrameRate, Framing,
    HorizontalAngle, LensState, NarrativeIntent, Num, Prohibition, Scene, ScreenDirection,
    ScreenDirectionObservation, Shot, ShotPhrase, ShotPurpose, ShotSize, Subject, SubjectKind, Take, TargetRef,
    TimedCameraOperation, Transform, Transition, TransitionSpec, Vec3, VerticalAngle, AxisPurpose,
};
use cinematography_ir::report::{render_report, render_report_notice, render_summary};
use cinematography_ir::solve::{admit_for_solving, SolveError};
use cinematography_ir::timeline::{shot_order, validate_shot_timeline};
use cinematography_ir::validate::{check_unique_ids, validate_project, validate_scene_range};

fn zero() -> Vec3 {
    Vec3 { x: Num::Zero, y: Num::Zero, z: Num::Zero }
}

fn identity() -> Transform {
    Transform {
        position: zero(),
        rotation_deg: EulerDeg { pitch: Num::Zero, yaw: Num::Zero, roll: Num::Zero },
        scale: Vec3 { x: Num::One, y: Num::One, z: Num::One },
    }
}

fn locked_camera() -> CameraPlan {
    CameraPlan {
        rig: CameraRig::Tripod,
        initial_state: CameraState {
            transform: identity(),
            lens: LensState {
                focal_length_mm: Num::UpTo360,
                sensor_width_mm: Num::UpTo360,
                aperture_f: Num::UpTo360,
                anamorphic_squeeze: Num::One,
            },
            focus: FocusState { target: None, distance_m: None },
            exposure: ExposureState {
                iso: 800,
                shutter_angle_deg: Num::UpTo360,
                white_balance_k: 5600,
                nd_stops: Num::Zero,
            },
        },
        operations: vec![],
    }
}

fn no_continuity() -> ContinuityAnnotations {
    ContinuityAnnotations {
        axis_observations: vec![],
        screen_directions: vec![],
        eyelines: vec![],
        camera_azimuth_deg: None,
        bridge: None,
        spatial_reset: false,
        direction_change_visible: false,
    }
}

fn shot(id: &str, start: u64, end: u64) -> Shot {
    Shot {
        id: id.to_string(),
        range: FrameRange { start, end },
        purpose: vec![ShotPurpose::Establish],
        coverage_role: CoverageRole::Master,
        framing: Framing {
            shot_size: ShotSize::Medium,
            horizontal_angle: HorizontalAngle::Frontal,
            vertical_angle: VerticalAngle::EyeLevel,
            roll_deg: Num::Zero,
            subject_ids: vec!["alice".to_string()],
            composition: Composition {
                strategy: CompositionStrategy::RuleOfThirds,
                headroom: None,
                lead_room: None,
                negative_space: None,
                depth_layers: vec![],
                notes: vec![],
            },
        },
        camera: locked_camera(),
        lighting_setup_id: None,
        continuity: no_continuity(),
        transition_in: Transition::Cut,
        transition: None,
        relations: vec![],
        phrases: vec![],
        prohibit: vec![],
        notes: vec![],
    }
}

fn subject(id: &str) -> Subject {
    Subject {
        id: id.to_string(),
        name: id.to_string(),
        kind: SubjectKind::Character,
        initial_transform: identity(),
        dimensions_m: None,
    }
}

fn scene(id: &str, duration: u64, shots: Vec<Shot>) -> Scene {
    Scene {
        id: id.to_string(),
        title: "Kitchen".to_string(),
        duration_frames: duration,
        narrative: NarrativeIntent {
            dramatic_question: None,
            themes: vec![],
            desired_audience_state: vec![],
            emotional_arc: vec![],
        },
        subjects: vec![subject("alice"), subject("bob")],
        markers: vec![],
        axes: vec![],
        blocking: vec![],
        beats: vec![],
        lighting_setups: vec![],
        shots,
        takes: vec![],
        edit_timeline: vec![],
    }
}

fn project(scenes: Vec<Scene>) -> CineProject {
    CineProject {
        schema_version: "0.1".to_string(),
        id: "p".to_string(),
        title: "Test".to_string(),
        frame_rate: FrameRate { numerator: 24, denominator: 1 },
        coordinate_system: CoordinateSystem::standard(),
        scenes,
    }
}

fn codes(report: &ValidationReport) -> Vec<String> {
    report.diagnostics.iter().map(|d| d.code.clone()).collect()
}

fn timed(start: u64, end: u64, operation: CameraOperation) -> TimedCameraOperation {
    TimedCameraOperation { range: FrameRange { start, end }, easing: Easing::Linear, operation }
}

fn two_shot_scene() -> Scene {
    scene("s1", 48, vec![shot("a", 0, 24), shot("b", 24, 48)])
}

#[test]
fn a_tiled_scene_validates_clean() {
    let report = validate_project(&project(vec![two_shot_scene()]), &vec![]);
    assert!(report.diagnostics.is_empty(), "{:?}", codes(&report));
    assert_eq!(render_report(&report), "OK: no diagnostics\n");
    assert_eq!(render_report_notice(&report), "");
}

#[test]
fn project_header_checks() {
    let mut p = project(vec![]);
    p.schema_version = "9.9".to_string();
    p.id = "  ".to_string();
    p.frame_rate.denominator = 0;
    p.coordinate_system.forward_axis = cinematography_ir::model::SignedAxis::PositiveY;
    let report = validate_project(&p, &vec![]);
    assert_eq!(
        codes(&report),
        vec![
            "SCHEMA_VERSION_UNSUPPORTED",
            "PROJECT_ID_EMPTY",
            "FRAME_RATE_INVALID",
            "COORDINATE_SYSTEM_AXES_PARALLEL",
            "PROJECT_HAS_NO_SCENES"
        ]
    );
    assert_eq!(report.diagnostics[0].severity, Severity::Warning);
    assert_eq!(report.diagnostics[0].message, "schema version '9.9' is not implemented by this crate ('0.1')");
    assert_eq!(report.error_count(), 4);
    assert_eq!(report.warning_count(), 1);
    assert!(report.has_errors() && report.has_warnings());
}

#[test]
fn duplicate_and_empty_scene_ids() {
    let report = validate_project(&project(vec![two_shot_scene(), two_shot_scene()]), &vec![]);
    assert_eq!(codes(&report), vec!["ID_DUPLICATE"]);
    assert_eq!(report.diagnostics[0].path, "scenes");
    assert_eq!(report.diagnostics[0].message, "duplicate scene id 's1'");

    let mut report = ValidationReport::new();
    let ids = vec!["a".to_string(), " ".to_string(), "a".to_string(), "b".to_string(), "a".to_string()];
    check_unique_ids(&ids, &"scenes[0].subjects".to_string(), "subject", &mut report);
    assert_eq!(codes(&report), vec!["ID_EMPTY", "ID_DUPLICATE", "ID_DUPLICATE"]);
    assert_eq!(report.diagnostics[0].message, "subject id must not be empty");
}

#[test]
fn an_empty_scene_is_reported() {
    let report = validate_project(&project(vec![scene(" ", 0, vec![])]), &vec![]);
    let found = codes(&report);
    assert_eq!(&found[..4], &["ID_EMPTY", "SCENE_ID_EMPTY", "SCENE_DURATION_INVALID", "SCENE_HAS_NO_SHOTS"]);
    assert_eq!(report.diagnostics[0].path, "scenes");
    assert_eq!(report.diagnostics[2].path, "scenes[0].duration_frames");
}

#[test]
fn scene_ranges() {
    let mut report = ValidationReport::new();
    let path = "scenes[0].beats[0].range".to_string();
    validate_scene_range(FrameRange { start: 0, end: 10 }, 10, &path, &mut report);
    assert!(report.diagnostics.is_empty());
    validate_scene_range(FrameRange { start: 12, end: 12 }, 10, &path, &mut report);
    assert_eq!(codes(&report), vec!["FRAME_RANGE_EMPTY_OR_REVERSED", "FRAME_RANGE_OUT_OF_SCENE"]);
    assert_eq!(report.diagnostics[1].message, "frame range ends at 12, beyond scene duration 10");
}

#[test]
fn timeline_gaps_and_overlaps() {
    let s = scene("s1", 100, vec![shot("c", 50, 90), shot("a", 5, 30), shot("b", 20, 40)]);
    let mut report = ValidationReport::new();
    validate_shot_timeline(&s, &"scenes[0]".to_string(), &mut report);
    assert_eq!(
        codes(&report),
        vec!["EDIT_TIMELINE_START_GAP", "EDIT_TIMELINE_OVERLAP", "EDIT_TIMELINE_GAP", "EDIT_TIMELINE_END_GAP"]
    );
    let messages: Vec<&str> = report.diagnostics.iter().map(|d| d.message.as_str()).collect();
    assert_eq!(
        messages,
        vec![
            "edit timeline starts at frame 5, not frame 0",
            "shots overlap by 10 frame(s)",
            "10 frame(s) are uncovered on the edit timeline",
            "edit timeline ends at frame 90, before scene duration 100",
        ]
    );
    assert_eq!(report.diagnostics[1].path, "scenes[0].shots[a->b]");
    assert_eq!(report.diagnostics[1].severity, Severity::Error);
}

#[test]
fn shots_are_ordered_by_start_then_end_stably() {
    let shots = vec![shot("x", 10, 20), shot("y", 0, 30), shot("z", 10, 15), shot("w", 10, 20)];
    assert_eq!(shot_order(&shots), vec![1, 2, 0, 3]);
}

fn observed(mut s: Shot, side: AxisSide) -> Shot {
    s.continuity.axis_observations = vec![AxisObservation { axis_id: "ab".to_string(), side }];
    s
}

#[test]
fn crossing_the_axis_warns_unless_bridged() {
    let a = observed(shot("a", 0, 24), AxisSide::Positive);
    let b = observed(shot("b", 24, 48), AxisSide::Negative);
    let s = scene("s1", 48, vec![b.clone(), a.clone()]);
    let report = analyze_continuity(&s, &vec![]);
    assert_eq!(codes(&report), vec!["CONTINUITY_AXIS_CROSS"]);
    assert_eq!(report.diagnostics[0].path, "scenes[s1].shots[a->b]");
    assert_eq!(
        report.diagnostics[0].message,
        "camera side for axis 'ab' changes from Positive to Negative without an explicit bridge"
    );
    assert_eq!(report.diagnostics[0].severity, Severity::Warning);

    let mut bridged = b.clone();
    bridged.continuity.bridge = Some(ContinuityBridge::NeutralInsert);
    let report = analyze_continuity(&scene("s1", 48, vec![a.clone(), bridged]), &vec![]);
    assert!(report.diagnostics.is_empty());

    let on_axis = observed(shot("b", 24, 48), AxisSide::OnAxis);
    assert!(analyze_continuity(&scene("s1", 48, vec![a, on_axis]), &vec![]).diagnostics.is_empty());
}

fn moving(mut s: Shot, direction: ScreenDirection) -> Shot {
    s.continuity.screen_directions =
        vec![ScreenDirectionObservation { subject_id: "alice".to_string(), direction }];
    s
}

#[test]
fn screen_direction_flips_need_a_visible_turn() {
    let a = moving(shot("a", 0, 24), ScreenDirection::Left);
    let b = moving(shot("b", 24, 48), ScreenDirection::Right);
    let report = analyze_continuity(&scene("s1", 48, vec![a.clone(), b.clone()]), &vec![]);
    assert_eq!(codes(&report), vec!["CONTINUITY_SCREEN_DIRECTION_FLIP"]);
    assert_eq!(
        report.diagnostics[0].message,
        "subject 'alice' reverses screen direction from Left to Right without a visible turn"
    );
    let mut turned = b;
    turned.continuity.direction_change_visible = true;
    assert!(analyze_continuity(&scene("s1", 48, vec![a, turned]), &vec![]).diagnostics.is_empty());
}

#[test]
fn small_angle_cuts_warn_with_the_printed_angle() {
    let mut s = two_shot_scene();
    s.shots[0].continuity.camera_azimuth_deg = Some(Num::UpTo360);
    s.shots[1].continuity.camera_azimuth_deg = Some(Num::UpTo360);
    let mut unknown = s.clone();
    unknown.shots[1].continuity.camera_azimuth_deg = None;
    assert!(analyze_continuity(&unknown, &vec![Some("12.5".to_string())]).diagnostics.is_empty());
    let report = analyze_continuity(&s, &vec![Some("12.5".to_string())]);
    assert_eq!(codes(&report), vec!["CONTINUITY_SMALL_ANGLE_CUT"]);
    assert_eq!(
        report.diagnostics[0].message,
        "cut changes camera azimuth by only 12.5° while keeping shot size and subject"
    );
    assert!(analyze_continuity(&s, &vec![None]).diagnostics.is_empty());

    let mut jump = s.clone();
    jump.shots[1].transition_in = Transition::JumpCut;
    assert!(analyze_continuity(&jump, &vec![Some("12.5".to_string())]).diagnostics.is_empty());

    let mut resized = s.clone();
    resized.shots[1].framing.shot_size = ShotSize::CloseUp;
    assert!(analyze_continuity(&resized, &vec![Some("12.5".to_string())]).diagnostics.is_empty());

    let mut other_subject = s;
    other_subject.shots[1].framing.subject_ids = vec!["bob".to_string()];
    assert!(analyze_continuity(&other_subject, &vec![Some("12.5".to_string())]).diagnostics.is_empty());
}

#[test]
fn validation_includes_continuity_analysis() {
    let a = observed(shot("a", 0, 24), AxisSide::Positive);
    let b = observed(shot("b", 24, 48), AxisSide::Negative);
    let mut s = scene("s1", 48, vec![a, b]);
    s.axes = vec![ContinuityAxis {
        id: "ab".to_string(),
        name: "ab".to_string(),
        purpose: AxisPurpose::Relationship,
        from: TargetRef::Subject { id: "alice".to_string() },
        to: TargetRef::Subject { id: "bob".to_string() },
        coincident_points: false,
    }];
    let report = validate_project(&project(vec![s]), &vec![]);
    assert_eq!(codes(&report), vec!["CONTINUITY_AXIS_CROSS"]);
    assert!(!report.has_errors());
    let text = render_report(&report);
    assert!(text.starts_with("warning[CONTINUITY_AXIS_CROSS] scenes[s1].shots[a->b]: camera side"));
    assert!(text.contains("\n  hint: Declare a visible crossing"));
    assert!(text.ends_with("\n\n0 error(s), 1 warning(s)\n"));
    assert!(render_report_notice(&report).ends_with("hint: Declare a visible crossing, on-axis shot, neutral insert, re-establishing shot, character reblocking, or deliberate disorientation.\n0 error(s), 1 warning(s)\n"));
}

#[test]
fn unknown_framing_subjects_are_errors() {
    let mut s = two_shot_scene();
    s.shots[0].framing.subject_ids = vec!["carol".to_string()];
    let report = validate_project(&project(vec![s]), &vec![]);
    assert_eq!(codes(&report), vec!["FRAMING_SUBJECT_UNKNOWN"]);
}

#[test]
fn invalid_lens_values_are_errors() {
    let mut s = two_shot_scene();
    s.shots[0].camera.initial_state.lens.focal_length_mm = Num::Zero;
    s.shots[0].camera.initial_state.exposure.shutter_angle_deg = Num::Above360;
    s.shots[0].camera.initial_state.exposure.iso = 0;
    let report = validate_project(&project(vec![s]), &vec![]);
    assert_eq!(
        codes(&report),
        vec!["LENS_FOCAL_LENGTH_INVALID", "EXPOSURE_ISO_INVALID", "EXPOSURE_SHUTTER_ANGLE_INVALID"]
    );
}

#[test]
fn solving_admits_only_valid_projects() {
    let good = project(vec![two_shot_scene()]);
    assert!(admit_for_solving(&good, &vec![]).is_ok());
    let mut bad = good.clone();
    bad.scenes[0].shots[0].framing.subject_ids = vec!["carol".to_string()];
    match admit_for_solving(&bad, &vec![]) {
        Err(SolveError::Invalid(report)) => assert_eq!(codes(&report), vec!["FRAMING_SUBJECT_UNKNOWN"]),
        _ => panic!("an invalid project must be refused"),
    }
}

#[test]
fn phases_cut_at_operations_and_beats() {
    let mut s = scene("s1", 100, vec![]);
    let mut sh = shot("a", 10, 58);
    sh.camera.operations = vec![timed(0, 24, CameraOperation::Pan { degrees: Num::UpTo360 })];
    s.beats = vec![Beat {
        id: "b1".to_string(),
        range: FrameRange { start: 0, end: 30 },
        intent: "enter".to_string(),
        emphasis: BeatEmphasis::Medium,
        subject_ids: vec![],
    }];
    s.shots = vec![sh.clone()];
    let phases = compile_phases(&s, &sh);
    let ids: Vec<&str> = phases.iter().map(|p| p.id.as_str()).collect();
    assert_eq!(ids, vec!["phase_0_motion", "phase_1_motion", "phase_2_settle"]);
    assert_eq!(phases[0].local_range, FrameRange { start: 0, end: 20 });
    assert_eq!(phases[1].edit_range, FrameRange { start: 30, end: 34 });
    assert_eq!(phases[2].local_range, FrameRange { start: 24, end: 48 });
    assert_eq!(phases[0].beat_ids, vec!["b1".to_string()]);
    assert!(phases[1].beat_ids.is_empty());
    assert_eq!(phases[0].operation_indices, vec![0]);
    assert!(phases[2].operation_indices.is_empty());
    assert_eq!(phases[2].kind, PhaseKind::Settle);
}

#[test]
fn a_shot_without_operations_is_one_settle_phase() {
    let s = two_shot_scene();
    let phases = compile_phases(&s, &s.shots[0]);
    assert_eq!(phases.len(), 1);
    // With no operations the last operation "ends" at frame 0, so the
    // whole shot counts as settling after motion.
    assert_eq!(phases[0].kind, PhaseKind::Settle);
    assert_eq!(phases[0].id, "phase_0_settle");
    assert_eq!(phases[0].local_range, FrameRange { start: 0, end: 24 });
}

#[test]
fn phrases_and_prohibitions_are_implied_once_in_declaration_order() {
    let mut sh = shot("a", 0, 48);
    sh.camera.operations = vec![
        timed(0, 12, CameraOperation::DollyZoom {
            target: TargetRef::Subject { id: "alice".to_string() },
            to_distance_m: Num::UpTo360,
            keep_subject_frame_fraction: Num::PositiveFraction,
        }),
        timed(12, 24, CameraOperation::HandheldNoise {
            translation_amplitude_m: Num::PositiveFraction,
            rotation_amplitude_deg: Num::One,
            frequency_hz: Num::One,
            seed: 7,
        }),
    ];
    sh.phrases = vec![ShotPhrase::ReactionHold, ShotPhrase::SubjectLockDollyZoom];
    assert_eq!(compiled_phrases(&sh), vec![ShotPhrase::SubjectLockDollyZoom, ShotPhrase::ReactionHold]);

    sh.prohibit = vec![Prohibition::UnplannedCut];
    assert_eq!(
        compiled_prohibitions(&sh),
        vec![
            Prohibition::ActorTranslationAsCameraSubstitute,
            Prohibition::DigitalCropAsDollySubstitute,
            Prohibition::HandheldMotion,
            Prohibition::UnplannedCut,
        ]
    );
}

#[test]
fn reaction_holds_need_every_operation_to_hold() {
    let mut sh = shot("a", 0, 48);
    sh.purpose = vec![ShotPurpose::Reaction];
    assert_eq!(compiled_phrases(&sh), vec![ShotPhrase::ReactionHold]);
    sh.camera.operations = vec![timed(0, 10, CameraOperation::Hold)];
    assert_eq!(compiled_phrases(&sh), vec![ShotPhrase::ReactionHold]);
    sh.camera.operations.push(timed(10, 20, CameraOperation::Pan { degrees: Num::One }));
    assert!(compiled_phrases(&sh).is_empty());
    sh.camera.operations = vec![timed(0, 10, CameraOperation::Dolly { distance_m: Num::NegativeFraction })];
    assert!(compiled_phrases(&sh).is_empty());
    sh.camera.operations = vec![timed(0, 10, CameraOperation::Dolly { distance_m: Num::PositiveFraction })];
    assert_eq!(compiled_phrases(&sh), vec![ShotPhrase::PressurePushIn]);
    assert!(compiled_prohibitions(&sh).is_empty());
}

#[test]
fn the_rich_transition_defaults_to_a_cut_of_transition_in() {
    let mut sh = shot("a", 0, 48);
    sh.transition_in = Transition::Dissolve;
    let t = rich_transition(&sh);
    assert_eq!(t.kind, Transition::Dissolve);
    assert_eq!(t.duration_frames, 0);
    let authored = TransitionSpec {
        kind: Transition::Wipe,
        duration_frames: 6,
        curve: Easing::EaseIn,
        match_anchor: None,
        direction: None,
    };
    sh.transition = Some(authored.clone());
    assert_eq!(rich_transition(&sh).duration_frames, 6);
    assert_eq!(rich_transition(&sh).kind, Transition::Wipe);
}

#[test]
fn edit_relations_follow_edit_order() {
    let s = scene("s1", 72, vec![shot("c", 48, 72), shot("a", 0, 24), shot("b", 24, 48)]);
    assert_eq!(ordered_edit_ids(&s), vec!["a".to_string(), "b".to_string(), "c".to_string()]);
    let relation = edit_relation(&s, &s.shots[2], 1);
    assert_eq!(relation.previous_shot_id, Some("a".to_string()));
    assert_eq!(relation.next_shot_id, Some("c".to_string()));
    let first = edit_relation(&s, &s.shots[1], 0);
    assert_eq!(first.previous_shot_id, None);
    let last = edit_relation(&s, &s.shots[0], 2);
    assert_eq!(last.next_shot_id, None);
}

fn take(id: &str, start: u64, end: u64) -> Take {
    let sh = shot(id, start, end);
    Take {
        id: id.to_string(),
        performance_range: FrameRange { start, end },
        purpose: sh.purpose,
        coverage_role: sh.coverage_role,
        framing: sh.framing,
        camera_program: sh.camera,
        lighting_setup_id: None,
        continuity: sh.continuity,
        phrases: vec![],
        notes: vec![],
    }
}

fn clip(id: &str, take_id: &str, source: (u64, u64), edit: (u64, u64)) -> EditClip {
    EditClip {
        id: id.to_string(),
        take_id: take_id.to_string(),
        source_range: FrameRange { start: source.0, end: source.1 },
        edit_range: FrameRange { start: edit.0, end: edit.1 },
        transition_in: TransitionSpec::cut(Transition::Cut),
    }
}

#[test]
fn edit_clips_resolve_to_their_takes_in_edit_order() {
    let mut s = scene("s1", 100, vec![]);
    s.takes = vec![take("wide", 0, 100), take("close", 20, 80)];
    s.edit_timeline = vec![clip("c2", "wide", (40, 60), (10, 30)), clip("c1", "close", (20, 30), (0, 10))];
    assert_eq!(resolve_edit_clips(&s).unwrap(), vec![1, 0]);
    assert_eq!(ordered_edit_ids(&s), vec!["c1".to_string(), "c2".to_string()]);

    s.edit_timeline.push(clip("c3", "missing", (0, 10), (30, 40)));
    let error = resolve_edit_clips(&s).unwrap_err();
    assert!(matches!(&error, CompileError::MissingTake(id) if id == "missing"));
    assert_eq!(error.message(), "edit timeline references unknown take 'missing'");

    s.edit_timeline[2] = clip("c3", "close", (70, 90), (30, 50));
    let error = resolve_edit_clips(&s).unwrap_err();
    assert_eq!(
        error.message(),
        "invalid edit timeline: clip 'c3' must select an in-take source range with the same duration as edit_range"
    );
}

#[test]
fn operations_are_sliced_into_clip_frames() {
    let ops = vec![
        timed(0, 10, CameraOperation::Hold),
        timed(10, 30, CameraOperation::Pan { degrees: Num::UpTo360 }),
        timed(40, 50, CameraOperation::Hold),
    ];
    let sliced = slice_operations(&ops, FrameRange { start: 100, end: 200 }, FrameRange { start: 115, end: 135 });
    let ranges: Vec<(u64, u64)> = sliced.iter().map(|t| (t.range.start, t.range.end)).collect();
    assert_eq!(ranges, vec![(0, 15)]);
    assert!(matches!(sliced[0].operation, CameraOperation::Pan { .. }));
}

#[test]
fn the_summary_lists_shots_in_edit_order() {
    let mut p = project(vec![scene("s1", 48, vec![shot("b", 24, 48), shot("a", 0, 24)])]);
    p.scenes[0].narrative.dramatic_question = Some("Will she stay?".to_string());
    p.scenes[0].shots[0].camera.operations = vec![
        timed(0, 12, CameraOperation::Pan { degrees: Num::UpTo360 }),
        timed(12, 24, CameraOperation::Zoom { to_focal_length_mm: Num::UpTo360 }),
    ];
    let text = render_summary(&p, "24.000", &vec!["2.00s".to_string()]);
    let expected = [
        "Project: Test (p)\nSchema: 0.1 | FPS: 24.000\nScenes: 1\n",
        "\nScene s1: Kitchen \u{2014} 48 frames (2.00s)\n  Dramatic question: Will she stay?\n",
        "  Subjects: 2 | Axes: 0 | Beats: 0 | Shots: 2\n",
        "  [    0..24   ) a                    Master/Medium | Tripod | locked\n",
        "  [   24..48   ) b                    Master/Medium | Tripod | pan, zoom\n",
    ]
    .concat();
    assert_eq!(text, expected);
    let unknown = render_summary(&p, "invalid", &vec![]);
    assert!(unknown.contains("48 frames (unknown)"));
}

#[test]
fn reports_collect_and_count() {
    let mut report = ValidationReport::new();
    report.push(Diagnostic::warning("W", "p".to_string(), "m".to_string()));
    let mut other = ValidationReport::new();
    other.push(Diagnostic::error("E", "q".to_string(), "n".to_string()).with_hint("fix it"));
    report.extend(other);
    assert_eq!(codes(&report), vec!["W", "E"]);
    assert_eq!(report.diagnostics[1].hint, Some("fix it".to_string()));
    assert_eq!(render_report(&report), "warning[W] p: m\nerror[E] q: n\n  hint: fix it\n\n1 error(s), 1 warning(s)\n");
}

#[test]
fn implied_edit_timeline_follows_edit_order() {
    let mut s = scene("s1", 48, vec![shot("b", 24, 48), shot("a", 0, 24)]);
    s.shots[0].transition_in = Transition::Dissolve;
    let clips = scene_edit_timeline(&s);
    assert_eq!(clips.len(), 2);
    assert_eq!(clips[0].id, "a");
    assert_eq!(clips[0].take_id, "a");
    assert_eq!(clips[0].source_range, FrameRange { start: 0, end: 24 });
    assert_eq!(clips[0].edit_range, FrameRange { start: 0, end: 24 });
    assert_eq!(clips[0].transition_in.kind, Transition::Cut);
    assert_eq!(clips[1].id, "b");
    assert_eq!(clips[1].transition_in.kind, Transition::Dissolve);
    assert_eq!(clips[1].transition_in.duration_frames, 0);
}

#[test]
fn authored_edit_timeline_is_kept() {
    let mut s = scene("s1", 48, vec![]);
    s.edit_timeline = vec![EditClip {
        id: "c1".to_string(),
        take_id: "t1".to_string(),
        source_range: FrameRange { start: 10, end: 34 },
        edit_range: FrameRange { start: 0, end: 24 },
        transition_in: TransitionSpec {
            kind: Transition::Cut,
            duration_frames: 0,
            curve: Easing::Hold,
            match_anchor: None,
            direction: None,
        },
    }];
    let clips = scene_edit_timeline(&s);
    assert_eq!(clips.len(), 1);
    assert_eq!(clips[0].id, "c1");
    assert_eq!(clips[0].take_id, "t1");
    assert_eq!(clips[0].source_range, FrameRange { start: 10, end: 34 });
    assert_eq!(clip_source_frame(&clips[0], 5), 15);
    assert_eq!(clip_source_frame(&clips[0], 30), 10);
    assert_eq!(clip_source_path("s1", "c1", "t1"), "scenes[s1].edit_timeline[c1] -> takes[t1]");
}

#[test]
fn constraint_slots_of_a_still_shot() {
    let s = two_shot_scene();
    let sh = s.shots[0].clone();
    let phases = compile_phases(&s, &sh);
    let slots = constraint_slots("s1", &sh, &phases, &vec![]);
    let ids: Vec<&str> = slots.iter().map(|c| c.id.as_str()).collect();
    assert_eq!(
        ids,
        vec![
            "framing.shot_size",
            "framing.horizontal_angle",
            "framing.vertical_angle",
            "framing.composition",
            "framing.depth_layers",
            "framing.horizon",
            "camera.rig",
            "camera.anamorphic_squeeze",
            "camera.exposure",
            "lighting.setup",
            "edit.transition_in",
            "phase_0_settle.no_camera_motion",
        ]
    );
    assert_eq!(slots[0].source_path, "scenes[s1].shots[a].framing.shot_size");
    assert_eq!(slots[0].range, FrameRange { start: 0, end: 24 });
    assert_eq!(slots[7].source_path, "scenes[s1].shots[a].camera.initial_state.lens.anamorphic_squeeze");
    assert_eq!(slots[10].range, FrameRange { start: 0, end: 1 });
    assert_eq!(slots[11].source_path, "scenes[s1].shots[a].camera.operations");
    assert_eq!(slots[11].range, FrameRange { start: 0, end: 24 });
}

#[test]
fn constraint_slots_of_camera_operations() {
    let mut sh = shot("b", 24, 72);
    sh.camera.operations = vec![
        timed(0, 4, CameraOperation::Hold),
        timed(4, 10, CameraOperation::RackFocus { target: TargetRef::Subject { id: "bob".to_string() }, to_distance_m: None }),
        timed(10, 20, CameraOperation::DollyZoom {
            target: TargetRef::Subject { id: "alice".to_string() },
            to_distance_m: Num::UpTo360,
            keep_subject_frame_fraction: Num::PositiveFraction,
        }),
        timed(20, 30, CameraOperation::Reveal {
            target: TargetRef::Subject { id: "alice".to_string() },
            occluder: TargetRef::Subject { id: "bob".to_string() },
            lateral_distance_m: Num::One,
        }),
        timed(30, 40, CameraOperation::Pan { degrees: Num::One }),
    ];
    let keep = OperationMeasures { screen_center_known: true, screen_y_kept: true };
    let none = OperationMeasures { screen_center_known: false, screen_y_kept: false };
    let slots = constraint_slots("s1", &sh, &vec![], &vec![none, none, keep, keep, keep]);
    let tail: Vec<(&str, &str)> = slots[11..].iter().map(|c| (c.id.as_str(), c.source_path.as_str())).collect();
    assert_eq!(
        tail,
        vec![
            ("operation_0.hold", "scenes[s1].shots[b].camera.operations[0]"),
            ("operation_1.focus_handoff", "scenes[s1].shots[b].camera.operations[1]"),
            ("operation_2.subject_bbox_height", "scenes[s1].shots[b].camera.operations[2].keep_subject_frame_fraction"),
            ("operation_2.subject_screen_center", "scenes[s1].shots[b].camera.operations[2]"),
            ("operation_3.reveal_visibility", "scenes[s1].shots[b].camera.operations[3]"),
            ("operation_3.target_screen_y", "b.camera.operations[3].preserve.target_screen_y"),
        ]
    );
    assert_eq!(slots[13].range, FrameRange { start: 34, end: 44 });
}
