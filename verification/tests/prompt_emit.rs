use cinematography_ir::emit::{emit_project_prompts, emit_shot_prompt, movement_key, LensWording, OperationWording, ShotWording};
use cinematography_ir::model::{
    Beat, BeatEmphasis, BlockingKeyframe, BlockingTrack, CameraOperation, CameraPlan, CameraRig, CameraState,
    CineProject, Composition, CompositionStrategy, ContinuityAnnotations, CoordinateSystem, CoverageRole, DepthLayer,
    DepthRole, Easing, EulerDeg, ExposureState, FocusState, FrameRange, FrameRate, Framing, HorizontalAngle, LensState,
    LightKind, LightRole, LightSource, LightingSetup, NarrativeIntent, Num, Scene, ScreenRegion, Shot, ShotPurpose,
    ShotSize, Subject, SubjectKind, TargetRef, TimedCameraOperation, Transform, Transition, Vec3, VerticalAngle,
};
use cinematography_ir::names::{
    camera_rig_key_list, composition_strategy_key_list, coverage_role_key_list, depth_role_key_list,
    horizontal_angle_key_list, light_kind_key_list, light_role_key_list, operation_key_list, phrase_key_list,
    screen_region_key_list, shot_purpose_key_list, shot_size_key_list, transition_key_list,
    vertical_angle_key_list,
};
use cinematography_ir::prompt::{insert_phrase, lookup, PromptDialect, PromptOptions};

fn table(keys: Vec<&'static str>, chosen: &[(&str, &str)]) -> Vec<(String, String)> {
    let mut t: Vec<(String, String)> = Vec::new();
    for k in keys {
        insert_phrase(&mut t, k.to_string(), format!("<{k}>"));
    }
    for (k, v) in chosen {
        insert_phrase(&mut t, k.to_string(), v.to_string());
    }
    t
}

fn dialect() -> PromptDialect {
    PromptDialect {
        name: "test".to_string(),
        description: String::new(),
        shot_size: table(shot_size_key_list(), &[("medium", "medium shot")]),
        horizontal_angle: table(horizontal_angle_key_list(), &[("frontal", "")]),
        vertical_angle: table(vertical_angle_key_list(), &[("eye_level", "eye level")]),
        coverage_role: table(coverage_role_key_list(), &[("master", "master")]),
        camera_rig: table(camera_rig_key_list(), &[("tripod", "on a tripod")]),
        shot_purpose: table(shot_purpose_key_list(), &[("establish", "establish the room")]),
        composition_strategy: table(composition_strategy_key_list(), &[("rule_of_thirds", "rule of thirds")]),
        screen_region: table(screen_region_key_list(), &[("right", "negative space right")]),
        depth_role: table(depth_role_key_list(), &[("foreground", "foreground"), ("background", "background")]),
        transition: table(transition_key_list(), &[("dissolve", "dissolve in")]),
        operation: table(operation_key_list(), &[("pan_left", "pan left"), ("look_at", "look at {target}")]),
        light_kind: table(light_kind_key_list(), &[("practical", "practical lamp")]),
        light_role: table(light_role_key_list(), &[("key", "key")]),
        phrases: table(
            phrase_key_list(),
            &[
                ("scene", "Scene"),
                ("framing", "Framing"),
                ("and", "and"),
                ("then", "then"),
                ("while", "while"),
                ("looking_at", "looking at"),
                ("lens", "lens"),
                ("over", "over"),
                ("seconds", "s"),
                ("static", "static"),
                ("color_binding", "{name} ({color})"),
                ("intent", "Intent"),
                ("beat", "Beat"),
                ("notes", "Notes"),
                ("cinematic", "cinematic"),
                ("lighting", "Lighting"),
                ("as", "as"),
                ("motivated_by", "motivated by"),
                ("to", "to"),
                ("shallow_dof", "shallow depth of field"),
            ],
        ),
    }
}

fn zero() -> Vec3 {
    Vec3 { x: Num::Zero, y: Num::Zero, z: Num::Zero }
}

fn identity() -> Transform {
    Transform {
        position: zero(),
        rotation_deg: EulerDeg { pitch: Num::Zero, yaw: Num::Zero, roll: Num::Zero },
        scale: Vec3 { x: Num::One, y: Num::One, z: Num::One },
    }
}

fn subject(id: &str, name: &str) -> Subject {
    Subject {
        id: id.to_string(),
        name: name.to_string(),
        kind: SubjectKind::Character,
        initial_transform: identity(),
        dimensions_m: None,
    }
}

fn keyframe(frame: u64, action: Option<&str>, gaze: Option<TargetRef>) -> BlockingKeyframe {
    BlockingKeyframe { frame, transform: identity(), gaze_target: gaze, action: action.map(|a| a.to_string()) }
}

fn timed(start: u64, end: u64, operation: CameraOperation) -> TimedCameraOperation {
    TimedCameraOperation { range: FrameRange { start, end }, easing: Easing::Linear, operation }
}

fn plain_shot(id: &str, start: u64, end: u64) -> Shot {
    Shot {
        id: id.to_string(),
        range: FrameRange { start, end },
        purpose: vec![],
        coverage_role: CoverageRole::Master,
        framing: Framing {
            shot_size: ShotSize::Medium,
            horizontal_angle: HorizontalAngle::Frontal,
            vertical_angle: VerticalAngle::EyeLevel,
            roll_deg: Num::Zero,
            subject_ids: vec![],
            composition: Composition {
                strategy: CompositionStrategy::RuleOfThirds,
                headroom: None,
                lead_room: None,
                negative_space: None,
                depth_layers: vec![],
                notes: vec![],
            },
        },
        camera: CameraPlan {
            rig: CameraRig::Tripod,
            initial_state: CameraState {
                transform: identity(),
                lens: LensState {
                    focal_length_mm: Num::UpTo360,
                    sensor_width_mm: Num::UpTo360,
                    aperture_f: Num::UpTo360,
                    anamorphic_squeeze: Num::One,
                },
                focus: FocusState { target: None, distance_m: None },
                exposure: ExposureState {
                    iso: 800,
                    shutter_angle_deg: Num::UpTo360,
                    white_balance_k: 5600,
                    nd_stops: Num::Zero,
                },
            },
            operations: vec![],
        },
        lighting_setup_id: None,
        continuity: ContinuityAnnotations {
            axis_observations: vec![],
            screen_directions: vec![],
            eyelines: vec![],
            camera_azimuth_deg: None,
            bridge: None,
            spatial_reset: false,
            direction_change_visible: false,
        },
        transition_in: Transition::Cut,
        transition: None,
        relations: vec![],
        phrases: vec![],
        prohibit: vec![],
        notes: vec![],
    }
}

fn rich_shot() -> Shot {
    let mut shot = plain_shot("a", 0, 48);
    shot.transition_in = Transition::Dissolve;
    shot.purpose = vec![ShotPurpose::Establish];
    shot.framing.subject_ids = vec!["alice".to_string(), "bob".to_string()];
    shot.framing.composition.negative_space = Some(ScreenRegion::Right);
    shot.framing.composition.notes = vec!["tight".to_string()];
    shot.framing.composition.depth_layers = vec![
        DepthLayer { name: "back".to_string(), role: DepthRole::Background, subject_ids: vec!["alice".to_string()] },
        DepthLayer { name: "front".to_string(), role: DepthRole::Foreground, subject_ids: vec!["bob".to_string()] },
    ];
    shot.camera.operations = vec![
        timed(24, 48, CameraOperation::LookAt { target: TargetRef::Subject { id: "alice".to_string() } }),
        timed(0, 24, CameraOperation::Pan { degrees: Num::UpTo360 }),
    ];
    shot.lighting_setup_id = Some("l1".to_string());
    shot.notes = vec!["one take".to_string(), "no cuts".to_string()];
    shot
}

fn scene(shots: Vec<Shot>) -> Scene {
    Scene {
        id: "s1".to_string(),
        title: "Kitchen".to_string(),
        duration_frames: 96,
        narrative: NarrativeIntent {
            dramatic_question: Some("Will she stay?".to_string()),
            themes: vec![],
            desired_audience_state: vec![],
            emotional_arc: vec![],
        },
        subjects: vec![subject("bob", "Bob"), subject("alice", "Alice")],
        markers: vec![],
        axes: vec![],
        blocking: vec![BlockingTrack {
            subject_id: "alice".to_string(),
            keyframes: vec![
                keyframe(60, Some("leaves"), None),
                keyframe(20, Some("turns"), None),
                keyframe(0, Some("sits"), Some(TargetRef::Subject { id: "bob".to_string() })),
            ],
        }],
        beats: vec![
            Beat {
                id: "b1".to_string(),
                range: FrameRange { start: 0, end: 10 },
                intent: "arrival".to_string(),
                emphasis: BeatEmphasis::Low,
                subject_ids: vec![],
            },
            Beat {
                id: "b2".to_string(),
                range: FrameRange { start: 60, end: 70 },
                intent: "departure".to_string(),
                emphasis: BeatEmphasis::Low,
                subject_ids: vec![],
            },
        ],
        lighting_setups: vec![LightingSetup {
            id: "l1".to_string(),
            name: "Lamp".to_string(),
            contrast_ratio: None,
            sources: vec![LightSource {
                id: "k".to_string(),
                kind: LightKind::Practical,
                role: LightRole::Key,
                transform: identity(),
                intensity_lux: None,
                color_temperature_k: 3200,
                motivated_by: Some("window".to_string()),
            }],
            notes: vec!["warm".to_string()],
        }],
        shots,
        takes: vec![],
        edit_timeline: vec![],
    }
}

fn wording() -> ShotWording {
    ShotWording {
        operations: vec![
            OperationWording { key: "look_at".to_string(), measurement: None, seconds: "1.0".to_string() },
            OperationWording {
                key: "pan_left".to_string(),
                measurement: Some("30°".to_string()),
                seconds: "1.0".to_string(),
            },
        ],
        lens: LensWording {
            focal_length: "35".to_string(),
            aperture: "2.8".to_string(),
            depth_of_field: Some("shallow_dof".to_string()),
        },
    }
}

#[test]
fn a_full_shot_prompt_reads_in_order() {
    let shot = rich_shot();
    let s = scene(vec![shot.clone()]);
    let text = emit_shot_prompt(&s, &shot, &dialect(), &PromptOptions::full(), &wording());
    let expected = [
        "Scene: Kitchen. Will she stay?",
        "Dissolve in.",
        "Master: medium shot, eye level.",
        "Framing Alice (red) and Bob (blue).",
        "Foreground: Bob (blue); background: Alice (red).",
        "Alice (red): sits, then turns; looking at Bob (blue).",
        "On a tripod; pan left (30° over 1.0s), then look at Alice (red) (over 1.0s).",
        "35 mm lens, f/2.8, shallow depth of field.",
        "Rule of thirds, negative space right, tight.",
        "Lighting: Lamp; practical lamp as key (3200K), motivated by window; warm.",
        "Intent: establish the room.",
        "Beat: arrival.",
        "Notes: one take no cuts",
        "Cinematic.",
    ]
    .join(" ");
    assert_eq!(text, expected);
}

#[test]
fn options_drop_context_colours_and_measurements() {
    let shot = rich_shot();
    let s = scene(vec![shot.clone()]);
    let options = PromptOptions { include_measurements: false, include_scene_context: false, include_color_binding: false };
    let text = emit_shot_prompt(&s, &shot, &dialect(), &options, &wording());
    assert!(text.starts_with("Dissolve in. Master: medium shot, eye level. Framing Alice and Bob."));
    assert!(text.contains("On a tripod; pan left, then look at Alice."));
    assert!(text.contains("Alice: sits, then turns; looking at Bob."));
}

#[test]
fn a_plain_shot_is_static_and_overlapping_moves_run_while() {
    let mut shot = plain_shot("b", 50, 90);
    let s = scene(vec![shot.clone()]);
    let lens = LensWording { focal_length: "50".to_string(), aperture: "4.0".to_string(), depth_of_field: None };
    let plain = ShotWording { operations: vec![], lens: lens.clone() };
    let options = PromptOptions { include_measurements: false, include_scene_context: false, include_color_binding: true };
    let text = emit_shot_prompt(&s, &shot, &dialect(), &options, &plain);
    assert_eq!(
        text,
        "Master: medium shot, eye level. On a tripod; static. 50 mm lens, f/4.0. Rule of thirds. Beat: departure. Cinematic."
    );
    shot.camera.operations = vec![
        timed(0, 30, CameraOperation::Pan { degrees: Num::UpTo360 }),
        timed(10, 20, CameraOperation::LookAt { target: TargetRef::Point { position: zero() } }),
    ];
    let moving = ShotWording {
        operations: vec![
            OperationWording { key: "pan_left".to_string(), measurement: None, seconds: "1.3".to_string() },
            OperationWording { key: "look_at".to_string(), measurement: None, seconds: "0.4".to_string() },
        ],
        lens,
    };
    let text = emit_shot_prompt(&s, &shot, &dialect(), &options, &moving);
    assert!(text.contains("On a tripod; pan left, while look at <fixed_point>."));
}

#[test]
fn project_prompts_filter_scenes_and_shots() {
    let mut first = plain_shot("late", 48, 96);
    first.camera.operations = vec![];
    let second = plain_shot("early", 0, 48);
    let s = scene(vec![first, second]);
    let project = CineProject {
        schema_version: "0.1".to_string(),
        id: "p".to_string(),
        title: "P".to_string(),
        frame_rate: FrameRate { numerator: 24, denominator: 1 },
        coordinate_system: CoordinateSystem::standard(),
        scenes: vec![s],
    };
    let lens = LensWording { focal_length: "50".to_string(), aperture: "4.0".to_string(), depth_of_field: None };
    let w = ShotWording { operations: vec![], lens };
    let wordings = vec![vec![w.clone(), w]];
    let all = emit_project_prompts(&project, &dialect(), &PromptOptions::full(), None, None, &wordings);
    let ids: Vec<&str> = all.iter().map(|p| p.shot_id.as_str()).collect();
    assert_eq!(ids, vec!["early", "late"]);
    assert!(all.iter().all(|p| p.scene_id == "s1"));
    let one = emit_project_prompts(&project, &dialect(), &PromptOptions::full(), Some("s1"), Some("late"), &wordings);
    assert_eq!(one.len(), 1);
    assert_eq!(one[0].shot_id, "late");
    let none = emit_project_prompts(&project, &dialect(), &PromptOptions::full(), Some("s2"), None, &wordings);
    assert!(none.is_empty());
}

#[test]
fn movement_keys_follow_the_sign_of_the_amount() {
    assert_eq!(movement_key(&CameraOperation::Pan { degrees: Num::UpTo360 }), Some("pan_left"));
    assert_eq!(movement_key(&CameraOperation::Pan { degrees: Num::NegativeFraction }), Some("pan_right"));
    assert_eq!(movement_key(&CameraOperation::Pan { degrees: Num::NaN }), Some("pan_right"));
    assert_eq!(movement_key(&CameraOperation::Tilt { degrees: Num::Zero }), Some("tilt_up"));
    assert_eq!(movement_key(&CameraOperation::Tilt { degrees: Num::MinusOne }), Some("tilt_down"));
    assert_eq!(movement_key(&CameraOperation::Dolly { distance_m: Num::BelowMinusOne }), Some("dolly_out"));
    assert_eq!(movement_key(&CameraOperation::Truck { distance_m: Num::One }), Some("truck_right"));
    assert_eq!(movement_key(&CameraOperation::Pedestal { distance_m: Num::NegativeInfinity }), Some("pedestal_down"));
    assert_eq!(movement_key(&CameraOperation::Hold), Some("hold"));
    assert_eq!(movement_key(&CameraOperation::Zoom { to_focal_length_mm: Num::UpTo360 }), None);
    assert_eq!(movement_key(&CameraOperation::Crane { delta: zero(), look_at: None }), None);
}

#[test]
fn decided_keys_override_the_wording_and_zooms_take_it() {
    let mut shot = plain_shot("b", 50, 90);
    shot.camera.operations = vec![
        timed(0, 10, CameraOperation::Pan { degrees: Num::NegativeFraction }),
        timed(10, 20, CameraOperation::Dolly { distance_m: Num::Zero }),
        timed(20, 30, CameraOperation::Zoom { to_focal_length_mm: Num::UpTo360 }),
    ];
    let s = scene(vec![shot.clone()]);
    let lens = LensWording { focal_length: "50".to_string(), aperture: "4.0".to_string(), depth_of_field: None };
    let w = ShotWording {
        operations: vec![
            OperationWording { key: "pan_left".to_string(), measurement: None, seconds: "0.4".to_string() },
            OperationWording { key: "dolly_out".to_string(), measurement: None, seconds: "0.4".to_string() },
            OperationWording { key: "zoom_out".to_string(), measurement: None, seconds: "0.4".to_string() },
        ],
        lens,
    };
    let options = PromptOptions { include_measurements: false, include_scene_context: false, include_color_binding: true };
    let text = emit_shot_prompt(&s, &shot, &dialect(), &options, &w);
    assert!(text.contains("On a tripod; <pan_right>, then <dolly_in>, then <zoom_out>."), "{text}");
}

#[test]
fn inserting_a_phrase_replaces_the_entry_for_its_key() {
    let mut t: Vec<(String, String)> = Vec::new();
    insert_phrase(&mut t, "wide".to_string(), "wide shot".to_string());
    insert_phrase(&mut t, "close_up".to_string(), "close-up".to_string());
    insert_phrase(&mut t, "wide".to_string(), "long shot".to_string());
    assert_eq!(t.len(), 2);
    assert_eq!(lookup(&t, "wide"), Some("long shot".to_string()));
    assert_eq!(lookup(&t, "close_up"), Some("close-up".to_string()));
    assert_eq!(lookup(&t, "medium"), None);
}
