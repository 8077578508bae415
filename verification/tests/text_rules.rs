use cinematography_ir::args::{document_format, parse_frame_range, parse_resolution, DocumentFormat};
use cinematography_ir::compare::{
    align_event_frames, parse_alignment, parse_temporal_alignment, Alignment, TemporalAlignment,
};
use cinematography_ir::compiled::{phase_kind_name, CompiledPhase, PhaseKind};
use cinematography_ir::compare::phase_timing_errors;
use cinematography_ir::diagnostic::Severity;
use cinematography_ir::execute::{
    conditioning_for_kind, conditioning_passes, python_single_quoted, ConditioningPass, PassKind,
};
use cinematography_ir::model::{FrameRange, ShotSize};
use cinematography_ir::view::{
    dash, diagnostic_targets_shot, esc, initial, phase_label, severity_color, short_shot_size, LineStyle,
    MediaType, OverlaySet, RenderIntent, ViewArtifact,
};
use cinematography_ir::args::parse_label_mode;
use cinematography_ir::args::parse_layout;
use cinematography_ir::args::{choose_sampling, parse_sampling};
use cinematography_ir::execute::blender_capabilities;
use cinematography_ir::execute::VideoModelProfile;
use cinematography_ir::execute::{frame_extension, is_metadata_pass, pass_inventory};
use cinematography_ir::sample::Sampling;
use cinematography_ir::view::LabelMode;
use cinematography_ir::view::{Layout, StripAxis};

#[test]
fn pass_kind_names_are_the_manifest_names() {
    assert_eq!(PassKind::MetricDepth.name(), "depth_metric");
    assert_eq!(PassKind::NormalizedDepth.name(), "depth_normalized");
    assert_eq!(PassKind::SubjectId.name(), "id");
    assert_eq!(PassKind::OpticalFlow.name(), "flow");
    assert_eq!(PassKind::PoseImage.name(), "pose");
}

#[test]
fn conditioning_pass_names_round_trip_through_parse() {
    for pass in ConditioningPass::all() {
        assert_eq!(ConditioningPass::parse(pass.name()), Some(pass));
    }
    assert_eq!(ConditioningPass::all().len(), 10);
}

#[test]
fn conditioning_pass_parse_accepts_aliases_case_and_blanks() {
    assert_eq!(ConditioningPass::parse(" Z "), Some(ConditioningPass::Depth));
    assert_eq!(ConditioningPass::parse("SEG"), Some(ConditioningPass::ObjectIndex));
    assert_eq!(ConditioningPass::parse("flow"), Some(ConditioningPass::Vector));
    assert_eq!(ConditioningPass::parse("pose_json"), Some(ConditioningPass::PoseKeypoints));
    assert_eq!(ConditioningPass::parse("combined"), Some(ConditioningPass::Beauty));
    assert_eq!(ConditioningPass::parse("albedo"), None);
}

#[test]
fn conditioning_pass_list_keeps_first_occurrences_in_order() {
    let passes = ConditioningPass::parse_list("depth, beauty,,z,Normal").unwrap();
    assert_eq!(passes, vec![ConditioningPass::Depth, ConditioningPass::Beauty, ConditioningPass::Normal]);
}

#[test]
fn conditioning_pass_list_errors() {
    assert_eq!(ConditioningPass::parse_list("depth, albedo "), Err("unknown pass 'albedo'".to_string()));
    assert_eq!(ConditioningPass::parse_list(" , ,"), Err("at least one pass is required".to_string()));
    assert_eq!(ConditioningPass::parse_list(""), Err("at least one pass is required".to_string()));
}

#[test]
fn conditioning_for_each_pass_kind() {
    assert_eq!(conditioning_for_kind(PassKind::MetricDepth), ConditioningPass::DepthMetric);
    assert_eq!(conditioning_for_kind(PassKind::NormalizedDepth), ConditioningPass::Depth);
    assert_eq!(conditioning_for_kind(PassKind::SubjectId), ConditioningPass::ObjectIndex);
    assert_eq!(conditioning_for_kind(PassKind::OpticalFlow), ConditioningPass::Vector);
    assert_eq!(conditioning_for_kind(PassKind::PoseImage), ConditioningPass::OpenPose);
    let passes = conditioning_passes(&vec![PassKind::Beauty, PassKind::OpticalFlow, PassKind::Beauty]).unwrap();
    assert_eq!(passes, vec![ConditioningPass::Beauty, ConditioningPass::Vector]);
    assert!(conditioning_passes(&vec![]).is_err());
}

#[test]
fn python_quoting_escapes_backslashes_then_quotes() {
    assert_eq!(python_single_quoted(r#"{"a":"it's \n"}"#), r#"{"a":"it\'s \\n"}"#);
    assert_eq!(python_single_quoted("plain"), "plain");
}

#[test]
fn resolution_parsing() {
    assert_eq!(parse_resolution("1024x576"), Ok((1024, 576)));
    assert_eq!(parse_resolution(" 1920 x 1080 "), Ok((1920, 1080)));
    assert_eq!(parse_resolution("1024"), Err("resolution must look like 1024x576".to_string()));
    assert_eq!(parse_resolution("x576"), Err("cannot parse integer from empty string".to_string()));
    assert_eq!(parse_resolution("10a4x576"), Err("invalid digit found in string".to_string()));
    assert_eq!(parse_resolution("4294967296x1"), Err("number too large to fit in target type".to_string()));
    assert_eq!(parse_resolution("+7x8"), Ok((7, 8)));
}

#[test]
fn frame_range_parsing() {
    assert_eq!(parse_frame_range("0..48"), Ok(FrameRange { start: 0, end: 48 }));
    assert_eq!(parse_frame_range(" 12 .. 24"), Ok(FrameRange { start: 12, end: 24 }));
    assert_eq!(parse_frame_range("0-48"), Err("frame range must look like 0..48".to_string()));
    assert_eq!(parse_frame_range("48..48"), Err("frame range start must be less than end".to_string()));
    assert_eq!(parse_frame_range("a..4"), Err("invalid digit found in string".to_string()));
}

#[test]
fn document_formats_by_extension() {
    assert_eq!(document_format(Some("YAML")), Ok(DocumentFormat::Yaml));
    assert_eq!(document_format(Some("yml")), Ok(DocumentFormat::Yaml));
    assert_eq!(document_format(Some("Json")), Ok(DocumentFormat::Json));
    assert_eq!(
        document_format(Some("TOML")),
        Err("unsupported extension .toml; expected .yaml, .yml, or .json".to_string())
    );
    assert_eq!(
        document_format(None),
        Err("input file has no extension; expected .yaml, .yml, or .json".to_string())
    );
}

#[test]
fn alignment_names() {
    assert_eq!(parse_alignment("none"), Ok(Alignment::Raw));
    assert_eq!(parse_alignment("scale"), Ok(Alignment::Similarity));
    assert_eq!(parse_alignment("affine"), Err("unknown alignment 'affine'".to_string()));
    assert_eq!(parse_temporal_alignment("frame"), Ok(TemporalAlignment::Exact));
    assert_eq!(parse_temporal_alignment("dtw"), Ok(TemporalAlignment::DynamicTimeWarping));
    assert_eq!(parse_temporal_alignment("slow"), Err("unknown temporal alignment 'slow'".to_string()));
}

#[test]
fn event_frames_align_to_the_nearest_actual_event() {
    assert_eq!(align_event_frames(&vec![10, 50], &vec![12, 47, 49]), vec![2, -1]);
    // Ties go to the earlier actual event.
    assert_eq!(align_event_frames(&vec![10], &vec![8, 12]), vec![-2]);
    assert_eq!(align_event_frames(&vec![10, 20], &vec![]), Vec::<i64>::new());
}

#[test]
fn phase_names() {
    assert_eq!(phase_kind_name(PhaseKind::Settle), "settle");
    assert_eq!(phase_label(PhaseKind::Mixed), "mixed");
}

#[test]
fn overlay_lists() {
    let set = OverlaySet::parse_list("paths, directions,grid").unwrap();
    assert!(set.subject_paths && set.screen_directions && set.grid);
    assert!(!set.arrows && !set.axes && !set.markers);
    assert_eq!(OverlaySet::parse_list("all").unwrap(), OverlaySet::all());
    assert_eq!(OverlaySet::parse_list("all,none,arrows").unwrap(), OverlaySet { arrows: true, ..OverlaySet::none() });
    assert_eq!(OverlaySet::parse_list(""), Ok(OverlaySet::none()));
    assert_eq!(OverlaySet::parse_list("arrows,halo"), Err("unknown overlay 'halo'".to_string()));
}

#[test]
fn conditioning_keeps_only_motion_overlays() {
    let gated = OverlaySet::all().gated(RenderIntent::Conditioning);
    assert_eq!(gated, OverlaySet { arrows: true, subject_paths: true, ..OverlaySet::none() });
    assert_eq!(gated.gated(RenderIntent::Conditioning), gated);
    assert_eq!(OverlaySet::all().gated(RenderIntent::Human), OverlaySet::all());
    assert_eq!(OverlaySet::conditioning(), gated);
}

#[test]
fn diagnostics_target_the_next_shot_of_a_cut() {
    assert!(diagnostic_targets_shot("scenes[s1].shots[a->b]", "s1", "b"));
    assert!(!diagnostic_targets_shot("scenes[s1].shots[a->b]", "s1", "a"));
    assert!(diagnostic_targets_shot("scenes[s1].shots[a].camera", "s1", "a"));
    assert!(!diagnostic_targets_shot("scenes[s2].shots[a]", "s1", "a"));
    assert!(!diagnostic_targets_shot("scenes[s1].shots", "s1", "a"));
    assert!(!diagnostic_targets_shot("scenes[s1].shots[a", "s1", "a"));
}

#[test]
fn markup_is_escaped() {
    assert_eq!(esc(r#"<a href="x">&</a>"#), "&lt;a href=&quot;x&quot;&gt;&amp;&lt;/a&gt;");
    assert_eq!(esc("&amp;"), "&amp;amp;");
}

#[test]
fn initials_fall_back_on_non_alphanumerics() {
    assert_eq!(initial(&Some("alice".to_string()), '?'), 'A');
    assert_eq!(initial(&Some("7up".to_string()), '?'), '7');
    assert_eq!(initial(&Some("éclair".to_string()), '?'), '?');
    assert_eq!(initial(&Some(String::new()), '?'), '?');
    assert_eq!(initial(&None, '*'), '*');
}

#[test]
fn drawing_vocabulary() {
    assert_eq!(short_shot_size(ShotSize::MediumCloseUp), "MCU");
    assert_eq!(short_shot_size(ShotSize::Custom), "");
    assert_eq!(dash(LineStyle::Solid), "");
    assert_eq!(dash(LineStyle::Dashed), r#" stroke-dasharray="6 4""#);
    assert_ne!(severity_color(Severity::Error), severity_color(Severity::Warning));
}

#[test]
fn artifacts_expose_text_only_for_text_media() {
    let svg = ViewArtifact { name: "a.svg".to_string(), media_type: MediaType::Svg, bytes: b"<svg/>".to_vec() };
    assert_eq!(svg.text(), Some("<svg/>"));
    let png = ViewArtifact { name: "a.png".to_string(), media_type: MediaType::Png, bytes: b"<svg/>".to_vec() };
    assert_eq!(png.text(), None);
    let broken = ViewArtifact { name: "a.txt".to_string(), media_type: MediaType::Text, bytes: vec![0xff, 0xfe] };
    assert_eq!(broken.text(), None);
    assert!(MediaType::Markdown.is_text());
    assert!(!MediaType::Png.is_text());
}

#[test]
fn label_modes() {
    assert_eq!(parse_label_mode("none"), Ok(LabelMode::Neutral));
    assert_eq!(parse_label_mode("colour"), Ok(LabelMode::Color));
    assert_eq!(parse_label_mode("name"), Ok(LabelMode::ColorName));
    assert_eq!(parse_label_mode("Color"), Err("unknown label mode 'Color'".to_string()));
}

#[test]
fn layouts() {
    assert_eq!(parse_layout("grid"), Ok((Layout::Grid { columns: 2 }, None)));
    assert_eq!(parse_layout("grid:4"), Ok((Layout::Grid { columns: 4 }, None)));
    assert_eq!(parse_layout("strip"), Ok((Layout::Strip { axis: StripAxis::Horizontal }, None)));
    assert_eq!(parse_layout("strip:vertical"), Ok((Layout::Strip { axis: StripAxis::Vertical }, None)));
    assert_eq!(parse_layout("separate"), Ok((Layout::Separate, None)));
    assert_eq!(parse_layout("animate:12"), Ok((Layout::Animate, Some(12))));
    assert_eq!(parse_layout("animate"), Ok((Layout::Animate, None)));
    assert_eq!(parse_layout("grid: 4"), Err("invalid digit found in string".to_string()));
    assert_eq!(parse_layout("grid:"), Err("cannot parse integer from empty string".to_string()));
    assert_eq!(parse_layout("strip:d"), Err("unknown strip axis 'd'".to_string()));
    assert_eq!(parse_layout("mosaic:3"), Err("unknown layout 'mosaic'".to_string()));
    assert_eq!(parse_layout("mosaic"), Err("unknown layout 'mosaic'".to_string()));
}

#[test]
fn samplings() {
    assert_eq!(parse_sampling("shot"), Ok(Sampling::PerShot));
    assert_eq!(parse_sampling("per-beat"), Ok(Sampling::PerBeat));
    assert_eq!(parse_sampling("ops"), Ok(Sampling::OperationEndpoints));
    assert_eq!(parse_sampling("events"), Ok(Sampling::SemanticEvents));
    assert_eq!(parse_sampling("phases"), Ok(Sampling::PhaseKeyframes));
    assert_eq!(parse_sampling("extrema"), Ok(Sampling::ConstraintExtrema));
    assert_eq!(parse_sampling("cut-pairs"), Ok(Sampling::CutPairs));
    assert_eq!(parse_sampling("continuous"), Ok(Sampling::Continuous { fps: 0 }));
    assert_eq!(parse_sampling("continuous:8"), Ok(Sampling::Continuous { fps: 8 }));
    assert_eq!(parse_sampling("every:12"), Ok(Sampling::EveryNFrames(12)));
    assert_eq!(parse_sampling("every:-1"), Err("invalid digit found in string".to_string()));
    assert_eq!(parse_sampling("continuous:99999999999"), Err("number too large to fit in target type".to_string()));
    assert_eq!(parse_sampling("random"), Err("unknown sampling 'random'".to_string()));
    assert_eq!(parse_sampling("random:3"), Err("unknown sampling 'random'".to_string()));
    assert_eq!(choose_sampling(None, Some(6), Sampling::CutPairs), Ok(Sampling::Continuous { fps: 6 }));
    assert_eq!(choose_sampling(None, None, Sampling::CutPairs), Ok(Sampling::CutPairs));
    assert_eq!(choose_sampling(Some("beat"), Some(6), Sampling::CutPairs), Ok(Sampling::PerBeat));
}

#[test]
fn blender_produces_every_pass_kind() {
    let c = blender_capabilities();
    assert!(c.supports_metric_depth && c.supports_optical_flow && c.supports_pose);
    assert!(c.supports_lighting && c.supports_focus && c.supports_camera_matrices);
    assert!(!c.supports_transitions);
    assert_eq!(c.supported_passes.len(), 10);
    assert_eq!(c.supported_passes[0], PassKind::Beauty);
    assert_eq!(c.supported_passes[9], PassKind::Camera);
    let passes = conditioning_passes(&c.supported_passes).unwrap();
    assert_eq!(passes.len(), 10);
}

#[test]
fn the_default_video_model_takes_every_control() {
    let p = VideoModelProfile::default();
    assert_eq!(p.name, "generic_dense_control");
    assert!(p.supports_text_timeline && p.supports_start_end_frames && p.supports_dense_control_video);
    assert!(p.supports_depth && p.supports_pose && p.supports_segmentation);
    assert!(p.supports_camera_trajectory && p.supports_negative_prompt);
    assert_eq!(p.maximum_frames, None);
}

#[test]
fn render_inventories_check_frame_counts() {
    let passes = vec![ConditioningPass::Vector, ConditioningPass::Camera, ConditioningPass::Beauty];
    let ok = pass_inventory(&passes, 10, 19, &vec![10, 0, 10]).unwrap();
    assert_eq!(
        ok,
        vec![("beauty".to_string(), 10), ("camera".to_string(), 1), ("vector".to_string(), 10)]
    );
    assert_eq!(
        pass_inventory(&passes, 10, 19, &vec![10, 0, 9]),
        Err("pass 'beauty' produced 9 frame(s), expected 10".to_string())
    );
    assert_eq!(pass_inventory(&vec![ConditioningPass::Depth], 5, 5, &vec![1]).unwrap(), vec![("depth".to_string(), 1)]);
    assert_eq!(frame_extension(ConditioningPass::Vector), "exr");
    assert_eq!(frame_extension(ConditioningPass::DepthMetric), "exr");
    assert_eq!(frame_extension(ConditioningPass::Depth), "png");
    assert!(is_metadata_pass(ConditioningPass::PoseKeypoints));
    assert!(!is_metadata_pass(ConditioningPass::OpenPose));
}

#[test]
fn phase_timing_compares_moving_phases_with_observed_motion() {
    let phase = |start: u64, end: u64, kind: PhaseKind| CompiledPhase {
        id: String::new(),
        local_range: FrameRange { start, end },
        edit_range: FrameRange { start, end },
        kind,
        operation_indices: vec![],
        beat_ids: vec![],
    };
    let phases = vec![
        phase(0, 10, PhaseKind::Hold),
        phase(10, 40, PhaseKind::Motion),
        phase(40, 48, PhaseKind::Settle),
    ];
    assert_eq!(phase_timing_errors(&phases, &vec![12, 13, 30, 38]), vec![2, -1]);
    assert_eq!(phase_timing_errors(&phases, &vec![]), Vec::<i64>::new());
    assert_eq!(phase_timing_errors(&vec![phase(0, 10, PhaseKind::Hold)], &vec![3]), Vec::<i64>::new());
}
