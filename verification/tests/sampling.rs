use cinematography_ir::compiled::{CompiledPhase, PhaseKind};
use cinematography_ir::sample::{
    candidate_sample_points, continuous_frame_step, panel_list, sample_compiled_points, SamplePoint, Sampling,
    TimelineScene, TimelineShot,
};
use cinematography_ir::model::{
    Beat, BeatEmphasis, CameraOperation, CameraPlan, CameraRig, CameraState, Composition, CompositionStrategy,
    ContinuityAnnotations, CoverageRole, Easing, EulerDeg, ExposureState, FocusState, FrameRange, FrameRate, Framing,
    HorizontalAngle, LensState, NarrativeIntent, Num, Scene, Shot, ShotPurpose, ShotSize, TimedCameraOperation,
    Transform, Transition, Vec3, VerticalAngle,
};
use cinematography_ir::sample::sample_points;

fn phase(id: &str, start: u64, end: u64, kind: PhaseKind) -> CompiledPhase {
    CompiledPhase {
        id: id.to_string(),
        local_range: FrameRange { start: 0, end: end - start },
        edit_range: FrameRange { start, end },
        kind,
        operation_indices: vec![],
        beat_ids: vec![],
    }
}

fn timeline_shot(id: &str, start: u64, end: u64, phases: Vec<CompiledPhase>) -> TimelineShot {
    TimelineShot { id: id.to_string(), edit_range: FrameRange { start, end }, phases, extrema_frames: vec![] }
}

fn beat(id: &str, start: u64, end: u64) -> Beat {
    Beat {
        id: id.to_string(),
        range: FrameRange { start, end },
        intent: String::new(),
        emphasis: BeatEmphasis::Low,
        subject_ids: vec![],
    }
}

fn scene() -> TimelineScene {
    TimelineScene {
        duration_frames: 48,
        beats: vec![beat("late", 30, 40), beat("early", 0, 10), beat("after", 60, 70)],
        shots: vec![
            timeline_shot("b", 24, 48, vec![phase("b0", 24, 48, PhaseKind::Reveal)]),
            timeline_shot(
                "a",
                0,
                24,
                vec![phase("a0", 0, 12, PhaseKind::Motion), phase("a1", 12, 24, PhaseKind::Settle)],
            ),
        ],
    }
}

fn rate() -> FrameRate {
    FrameRate { numerator: 24, denominator: 1 }
}

fn listed(points: &[SamplePoint]) -> Vec<(u64, String, String)> {
    points.iter().map(|p| (p.scene_frame, p.shot_id.clone(), p.label.clone())).collect()
}

fn entry(frame: u64, shot: &str, label: &str) -> (u64, String, String) {
    (frame, shot.to_string(), label.to_string())
}

#[test]
fn per_shot_panels_are_in_frame_order() {
    let points = sample_compiled_points(&scene(), &Sampling::PerShot, rate());
    assert_eq!(listed(&points), vec![entry(0, "a", "a"), entry(24, "b", "b")]);
}

#[test]
fn per_beat_panels_need_a_shot_on_the_edit() {
    let points = sample_compiled_points(&scene(), &Sampling::PerBeat, rate());
    assert_eq!(listed(&points), vec![entry(0, "a", "early"), entry(30, "b", "late")]);
}

#[test]
fn operation_endpoints_keep_one_panel_per_frame_and_shot() {
    let points = sample_compiled_points(&scene(), &Sampling::OperationEndpoints, rate());
    assert_eq!(
        listed(&points),
        vec![
            entry(0, "a", "a"),
            entry(11, "a", "a0 end"),
            entry(12, "a", "a1 start"),
            entry(23, "a", "a1 end"),
            entry(24, "b", "b"),
            entry(47, "b", "b0 end"),
        ]
    );
}

#[test]
fn phase_keyframes_mark_settling() {
    let points = sample_compiled_points(&scene(), &Sampling::PhaseKeyframes, rate());
    assert_eq!(
        listed(&points),
        vec![
            entry(0, "a", "a0 start"),
            entry(6, "a", "a0 mid"),
            entry(11, "a", "a0 end"),
            entry(12, "a", "a1 start"),
            entry(18, "a", "a1 mid"),
            entry(23, "a", "a1 settle"),
            entry(24, "b", "b0 start"),
            entry(36, "b", "b0 mid"),
            entry(47, "b", "b0 end"),
        ]
    );
}

#[test]
fn semantic_events_add_apices_reveal_quarters_and_cuts() {
    let points = sample_compiled_points(&scene(), &Sampling::SemanticEvents, rate());
    assert_eq!(
        listed(&points),
        vec![
            entry(0, "a", "a0 start"),
            entry(6, "a", "a0 apex"),
            entry(11, "a", "a0 end"),
            entry(12, "a", "a1 start"),
            entry(23, "a", "a1 end"),
            entry(24, "b", "b0 start"),
            entry(30, "b", "b0 25%"),
            entry(36, "b", "b0 50%"),
            entry(42, "b", "b0 75%"),
            entry(47, "b", "b0 end"),
        ]
    );
}

#[test]
fn cut_pairs_straddle_every_cut() {
    let points = sample_compiled_points(&scene(), &Sampling::CutPairs, rate());
    assert_eq!(listed(&points), vec![entry(23, "a", "cut out a"), entry(24, "b", "cut in b")]);
}

#[test]
fn constraint_extrema_use_the_measured_frames() {
    let mut s = scene();
    s.shots[0].extrema_frames = vec![40, 30, 40];
    let points = sample_compiled_points(&s, &Sampling::ConstraintExtrema, rate());
    assert_eq!(
        listed(&points),
        vec![
            entry(0, "a", "a constraint"),
            entry(23, "a", "a constraint"),
            entry(24, "b", "b constraint"),
            entry(30, "b", "b constraint"),
            entry(40, "b", "b constraint"),
            entry(47, "b", "b constraint"),
        ]
    );
}

#[test]
fn every_n_frames_skips_frames_off_the_edit() {
    let mut s = scene();
    s.duration_frames = 60;
    let points = sample_compiled_points(&s, &Sampling::EveryNFrames(20), rate());
    assert_eq!(listed(&points), vec![entry(0, "a", "a"), entry(20, "a", "a"), entry(40, "b", "b")]);
    let zero = sample_compiled_points(&s, &Sampling::EveryNFrames(0), rate());
    assert_eq!(zero.len(), 48);
}

#[test]
fn continuous_sampling_steps_by_the_rounded_rate_ratio() {
    assert_eq!(continuous_frame_step(FrameRate { numerator: 24, denominator: 1 }, 8), 3);
    assert_eq!(continuous_frame_step(FrameRate { numerator: 30000, denominator: 1001 }, 12), 2);
    assert_eq!(continuous_frame_step(FrameRate { numerator: 25, denominator: 1 }, 10), 3);
    assert_eq!(continuous_frame_step(FrameRate { numerator: 24, denominator: 1 }, 100), 1);
    assert_eq!(continuous_frame_step(FrameRate { numerator: 24, denominator: 1 }, 0), 1);
    assert_eq!(continuous_frame_step(FrameRate { numerator: 0, denominator: 1 }, 8), 1);
    let points = sample_compiled_points(&scene(), &Sampling::Continuous { fps: 2 }, rate());
    assert_eq!(listed(&points), vec![entry(0, "a", "a"), entry(12, "a", "a"), entry(24, "b", "b"), entry(36, "b", "b")]);
}

#[test]
fn candidates_keep_timeline_order_and_duplicates() {
    let candidates = candidate_sample_points(&scene(), &Sampling::CutPairs, rate());
    assert_eq!(listed(&candidates), vec![entry(23, "a", "cut out a"), entry(24, "b", "cut in b")]);
    let candidates = candidate_sample_points(&scene(), &Sampling::PerShot, rate());
    assert_eq!(listed(&candidates), vec![entry(24, "b", "b"), entry(0, "a", "a")]);
}

#[test]
fn panel_lists_keep_the_first_caption_in_text_order() {
    let raw = vec![
        SamplePoint { scene_frame: 5, shot_id: "x".to_string(), label: "zeta".to_string() },
        SamplePoint { scene_frame: 5, shot_id: "w".to_string(), label: "q".to_string() },
        SamplePoint { scene_frame: 5, shot_id: "x".to_string(), label: "alpha".to_string() },
        SamplePoint { scene_frame: 1, shot_id: "x".to_string(), label: "m".to_string() },
    ];
    assert_eq!(
        listed(&panel_list(&raw)),
        vec![entry(1, "x", "m"), entry(5, "w", "q"), entry(5, "x", "alpha")]
    );
    assert!(panel_list(&vec![]).is_empty());
}

fn source_scene() -> Scene {
    let zero = Vec3 { x: Num::Zero, y: Num::Zero, z: Num::Zero };
    let transform = Transform {
        position: zero,
        rotation_deg: EulerDeg { pitch: Num::Zero, yaw: Num::Zero, roll: Num::Zero },
        scale: Vec3 { x: Num::One, y: Num::One, z: Num::One },
    };
    let shot = |id: &str, start: u64, end: u64, ops: Vec<(u64, u64)>| Shot {
        id: id.to_string(),
        range: FrameRange { start, end },
        purpose: vec![ShotPurpose::Establish],
        coverage_role: CoverageRole::Master,
        framing: Framing {
            shot_size: ShotSize::Medium,
            horizontal_angle: HorizontalAngle::Frontal,
            vertical_angle: VerticalAngle::EyeLevel,
            roll_deg: Num::Zero,
            subject_ids: vec![],
            composition: Composition {
                strategy: CompositionStrategy::Centered,
                headroom: None,
                lead_room: None,
                negative_space: None,
                depth_layers: vec![],
                notes: vec![],
            },
        },
        camera: CameraPlan {
            rig: CameraRig::Tripod,
            initial_state: CameraState {
                transform,
                lens: LensState {
                    focal_length_mm: Num::UpTo360,
                    sensor_width_mm: Num::UpTo360,
                    aperture_f: Num::UpTo360,
                    anamorphic_squeeze: Num::One,
                },
                focus: FocusState { target: None, distance_m: None },
                exposure: ExposureState {
                    iso: 800,
                    shutter_angle_deg: Num::UpTo360,
                    white_balance_k: 5600,
                    nd_stops: Num::Zero,
                },
            },
            operations: ops
                .into_iter()
                .map(|(s, e)| TimedCameraOperation {
                    range: FrameRange { start: s, end: e },
                    easing: Easing::Linear,
                    operation: CameraOperation::Hold,
                })
                .collect(),
        },
        lighting_setup_id: None,
        continuity: ContinuityAnnotations {
            axis_observations: vec![],
            screen_directions: vec![],
            eyelines: vec![],
            camera_azimuth_deg: None,
            bridge: None,
            spatial_reset: false,
            direction_change_visible: false,
        },
        transition_in: Transition::Cut,
        transition: None,
        relations: vec![],
        phrases: vec![],
        prohibit: vec![],
        notes: vec![],
    };
    Scene {
        id: "s".to_string(),
        title: "S".to_string(),
        duration_frames: 48,
        narrative: NarrativeIntent {
            dramatic_question: None,
            themes: vec![],
            desired_audience_state: vec![],
            emotional_arc: vec![],
        },
        subjects: vec![],
        markers: vec![],
        axes: vec![],
        blocking: vec![],
        beats: vec![beat("late", 30, 40), beat("early", 0, 10)],
        lighting_setups: vec![],
        shots: vec![shot("b", 24, 48, vec![(0, 30), (0, 6)]), shot("a", 0, 24, vec![(12, 24), (0, 12)])],
        takes: vec![],
        edit_timeline: vec![],
    }
}

#[test]
fn source_sampling_walks_shots_and_beats_in_edit_order() {
    let s = source_scene();
    let on_edit = scene().shots;
    let per_shot = sample_points(&s, &on_edit, &Sampling::PerShot, rate());
    assert_eq!(listed(&per_shot), vec![entry(0, "a", "a"), entry(24, "b", "b")]);
    let per_beat = sample_points(&s, &on_edit, &Sampling::PerBeat, rate());
    assert_eq!(listed(&per_beat), vec![entry(0, "a", "early"), entry(30, "b", "late")]);
    assert!(sample_points(&s, &on_edit, &Sampling::CutPairs, rate()).is_empty());
    let every = sample_points(&s, &on_edit, &Sampling::EveryNFrames(16), rate());
    assert_eq!(listed(&every), vec![entry(0, "a", "a"), entry(16, "a", "a"), entry(32, "b", "b")]);
}

#[test]
fn source_operation_endpoints_are_distinct_and_increasing_per_shot() {
    let s = source_scene();
    let points = sample_points(&s, &scene().shots, &Sampling::OperationEndpoints, rate());
    assert_eq!(
        listed(&points),
        vec![
            entry(0, "a", "a"),
            entry(11, "a", "a"),
            entry(12, "a", "a"),
            entry(23, "a", "a"),
            entry(24, "b", "b"),
            entry(29, "b", "b"),
            entry(47, "b", "b"),
        ]
    );
}

#[test]
fn listing_panels_twice_changes_nothing() {
    let raw = candidate_sample_points(&scene(), &Sampling::SemanticEvents, rate());
    let once = panel_list(&raw);
    assert_eq!(listed(&panel_list(&once)), listed(&once));
}
