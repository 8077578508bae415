use cinematography_ir::blender::{
    blender_arguments, check_range_reaches, check_staging, clamp_range, expected_frame_count, fnv_tag, manifest_conventions,
    manifest_subject, render_preflight, BlenderOptions,
};
use cinematography_ir::execute::{
    ChannelLayout, ColorSpace, ConditioningPass, ExecutionProfile, ExecutionRequest, PassFormat, PassKind, PixelEncoding,
};
use cinematography_ir::model::FrameRange;
use cinematography_ir::palette::Rgb;

#[test]
fn blender_options_default_values() {
    let o = BlenderOptions::default();
    assert_eq!(o.resolution, (1024, 576));
    assert_eq!(o.samples, 32);
    assert!(!o.use_dof);
    assert!(o.blender_path.is_none());
    assert!(!o.script_only);
    assert_eq!(o.timeout_s, 1800);
    assert_eq!(o.render_samples(), 32);
    let zero = BlenderOptions { samples: 0, ..BlenderOptions::default() };
    assert_eq!(zero.render_samples(), 1);
}

#[test]
fn requested_range_is_clamped_to_the_scene() {
    assert_eq!(clamp_range(0, 99, Some(FrameRange { start: 10, end: 20 })), [10, 19]);
    assert_eq!(clamp_range(0, 99, Some(FrameRange { start: 50, end: 500 })), [50, 99]);
    assert_eq!(clamp_range(0, 99, Some(FrameRange { start: 120, end: 130 })), [99, 99]);
    assert_eq!(clamp_range(0, 99, Some(FrameRange { start: 20, end: 10 })), [0, 99]);
    assert_eq!(clamp_range(0, 99, None), [0, 99]);
}

#[test]
fn frame_count_of_inclusive_bounds() {
    assert_eq!(expected_frame_count([10, 19]), 10);
    assert_eq!(expected_frame_count([7, 7]), 1);
    assert_eq!(expected_frame_count([5, 3]), 1);
}

#[test]
fn range_past_the_scene_is_refused() {
    let id = "s1".to_string();
    assert_eq!(
        check_range_reaches(Some(FrameRange { start: 120, end: 130 }), &id, 99),
        Err("frame range 120..130 does not intersect scene 's1' (0..100)".to_string())
    );
    assert_eq!(check_range_reaches(Some(FrameRange { start: 99, end: 130 }), &id, 99), Ok(()));
    assert_eq!(check_range_reaches(None, &id, 99), Ok(()));
}

#[test]
fn render_preflight_refusals() {
    assert_eq!(render_preflight(0, 1, true, false), Err("no passes requested".to_string()));
    assert_eq!(render_preflight(2, 0, true, false), Err("no scenes staged; call apply_scene first".to_string()));
    assert_eq!(
        render_preflight(2, 1, false, false),
        Err("blender executable not found (set --blender PATH or $BLENDER); no scene bundle was published".to_string())
    );
    assert_eq!(render_preflight(2, 1, true, false), Ok(()));
    assert_eq!(render_preflight(2, 1, false, true), Ok(()));
}

#[test]
fn content_tags_are_fnv1a_hex() {
    assert_eq!(fnv_tag(""), "fnv1a64:cbf29ce484222325");
    assert_eq!(fnv_tag("a"), "fnv1a64:af63dc4c8601ec8c");
}

#[test]
fn manifest_subject_colour_in_hex() {
    let m = manifest_subject("ava", "Ava", 3, Rgb { r: 255, g: 128, b: 0 }, "orange");
    assert_eq!(m.id, "ava");
    assert_eq!(m.name, "Ava");
    assert_eq!(m.pass_index, 3);
    assert_eq!(m.color_hex, "#ff8000");
    assert_eq!(m.color_name, "orange");
    let c = manifest_conventions();
    assert_eq!(c.world, "Blender world: X right, Y forward, Z up, metres");
    assert!(c.openpose.starts_with("8-bit sRGB PNG"));
}

#[test]
fn pass_formats_of_conditioning_passes() {
    let depth = PassFormat::for_conditioning(ConditioningPass::Depth);
    assert_eq!(depth.kind, PassKind::NormalizedDepth);
    assert_eq!(depth.encoding, PixelEncoding::Png16);
    assert_eq!(depth.color_space, ColorSpace::Data);
    assert_eq!(depth.channels, ChannelLayout::Gray);
    assert_eq!(depth.file_pattern, "depth/####.png");
    let camera = PassFormat::for_conditioning(ConditioningPass::Camera);
    assert_eq!(camera.channels, ChannelLayout::Matrix);
    assert_eq!(camera.file_pattern, "metadata/camera.json");
}

#[test]
fn staging_checks_in_order() {
    let id = "scene_a".to_string();
    let all = vec![PassKind::NormalizedDepth, PassKind::Camera];
    let good = vec![
        PassFormat::for_conditioning(ConditioningPass::Depth),
        PassFormat::for_conditioning(ConditioningPass::Camera),
    ];
    let no_gaps: Vec<(String, Option<u64>)> = vec![("sh1".to_string(), None)];
    let gaps: Vec<(String, Option<u64>)> = vec![("sh1".to_string(), None), ("sh2".to_string(), Some(12))];
    assert_eq!(check_staging(&id, 0, &all, &good, false, &no_gaps), Err("scene 'scene_a' has no frames".to_string()));
    assert_eq!(check_staging(&id, 48, &all, &good, true, &no_gaps), Ok(()));
    assert_eq!(check_staging(&id, 48, &all, &good, false, &gaps), Ok(()));
    assert_eq!(
        check_staging(&id, 48, &all, &good, true, &gaps),
        Err("cannot enable DOF: shot 'sh2' frame 12 has no focus target or distance".to_string())
    );
    let only_camera = vec![PassKind::Camera];
    assert_eq!(
        check_staging(&id, 48, &only_camera, &good, false, &no_gaps),
        Err("Blender adapter does not support requested pass NormalizedDepth".to_string())
    );
    let mut wrong = PassFormat::for_conditioning(ConditioningPass::Depth);
    wrong.encoding = PixelEncoding::Png8;
    assert_eq!(
        check_staging(&id, 48, &all, &vec![wrong], false, &no_gaps),
        Err("Blender adapter cannot satisfy NormalizedDepth as Png8/Data/Gray at 'depth/####.png'; expected Png16/Data/Gray at 'depth/####.png'".to_string())
    );
}

#[test]
fn clamp_range_converts_clamps_and_falls_back_on_invalid_ranges() {
    // The scene spans frames 0..=119.
    let (frame_start, frame_end) = (0u64, 119u64);
    // Authored ranges are half-open; Blender bounds are inclusive.
    assert_eq!(clamp_range(frame_start, frame_end, Some(FrameRange { start: 0, end: 80 })), [0, 79]);
    // A one-frame range renders exactly that frame.
    assert_eq!(clamp_range(frame_start, frame_end, Some(FrameRange { start: 30, end: 31 })), [30, 30]);
    // Both ends clamp to the scene's inclusive last frame.
    assert_eq!(clamp_range(frame_start, frame_end, Some(FrameRange { start: 100, end: 400 })), [100, 119]);
    assert_eq!(clamp_range(frame_start, frame_end, Some(FrameRange { start: 300, end: 400 })), [119, 119]);
    // No request: the whole scene, first to last frame.
    assert_eq!(clamp_range(frame_start, frame_end, None), [0, 119]);
    // Reversed and empty ranges are invalid and fall back to the whole scene.
    assert_eq!(clamp_range(frame_start, frame_end, Some(FrameRange { start: 50, end: 20 })), [0, 119]);
    assert_eq!(clamp_range(frame_start, frame_end, Some(FrameRange { start: 50, end: 50 })), [0, 119]);
}

#[test]
fn blender_tests_blender_command_propagates_python_failures() {
    let args = blender_arguments("build.py");
    assert_eq!(
        args,
        [
            "--background",
            "--factory-startup",
            "--disable-autoexec",
            "--python-exit-code",
            "70",
            "--python",
            "build.py",
        ]
    );
}

#[test]
fn mod_blender_command_propagates_python_failures() {
    let args = blender_arguments("build.py");
    assert_eq!(
        args,
        [
            "--background",
            "--factory-startup",
            "--disable-autoexec",
            "--python-exit-code",
            "70",
            "--python",
            "build.py",
        ]
    );
}

#[test]
fn generic_control_profile_stages_on_blender() {
    let profile = ExecutionProfile::generic_control();
    assert_eq!(profile.name, "generic_control");
    assert_eq!(profile.model.name, "generic_dense_control");
    assert_eq!(profile.resolution, [1024, 576]);
    assert_eq!(profile.deterministic_seed, 42);
    let kinds: Vec<PassKind> = profile.passes.iter().map(|p| p.kind).collect();
    assert_eq!(
        kinds,
        vec![PassKind::MetricDepth, PassKind::NormalizedDepth, PassKind::OpticalFlow, PassKind::Camera]
    );
    assert_eq!(profile.passes[2].file_pattern, "vector/####.exr");
    let caps = cinematography_ir::execute::blender_capabilities();
    assert_eq!(
        check_staging(&"s".to_string(), 10, &caps.supported_passes, &profile.passes, false, &Vec::new()),
        Ok(())
    );
}

#[test]
fn request_selects_named_shots_or_all() {
    let mut request = ExecutionRequest {
        scene_id: "s".to_string(),
        shot_ids: vec![],
        frame_range: None,
        profile: ExecutionProfile::generic_control(),
    };
    assert!(request.selects_shot(&"a".to_string()));
    request.shot_ids = vec!["b".to_string()];
    assert!(!request.selects_shot(&"a".to_string()));
    assert!(request.selects_shot(&"b".to_string()));
}

#[test]
fn pass_names_parse_back_padded_and_in_any_case() {
    for pass in ConditioningPass::all() {
        assert_eq!(ConditioningPass::parse(pass.name()), Some(pass));
        let shouted = format!("  {}  ", pass.name().to_ascii_uppercase());
        assert_eq!(ConditioningPass::parse(&shouted), Some(pass));
    }
}
