//! The serialized (snake_case) names of the document's enumerations, as
//! prompt dialect tables key them.
use vstd::prelude::*;

use crate::model::{CameraRig, CompositionStrategy, CoverageRole, DepthRole, HorizontalAngle, LightKind, LightRole,
    ScreenRegion, ShotPurpose, ShotSize, Transition, VerticalAngle};

verus! {

/// The serialized name of a `ShotSize`.
pub open spec fn shot_size_key(value: ShotSize) -> Seq<char> {
    match value {
        ShotSize::ExtremeLong => "extreme_long"@,
        ShotSize::Long => "long"@,
        ShotSize::MediumLong => "medium_long"@,
        ShotSize::Medium => "medium"@,
        ShotSize::MediumCloseUp => "medium_close_up"@,
        ShotSize::CloseUp => "close_up"@,
        ShotSize::ExtremeCloseUp => "extreme_close_up"@,
        ShotSize::Insert => "insert"@,
        ShotSize::Custom => "custom"@,
    }
}

pub fn shot_size_name(value: ShotSize) -> (name: &'static str)
    ensures
        name@ == shot_size_key(value),
{
    match value {
        ShotSize::ExtremeLong => "extreme_long",
        ShotSize::Long => "long",
        ShotSize::MediumLong => "medium_long",
        ShotSize::Medium => "medium",
        ShotSize::MediumCloseUp => "medium_close_up",
        ShotSize::CloseUp => "close_up",
        ShotSize::ExtremeCloseUp => "extreme_close_up",
        ShotSize::Insert => "insert",
        ShotSize::Custom => "custom",
    }
}

/// Every `ShotSize` name, in declaration order.
pub open spec fn shot_size_keys() -> Seq<Seq<char>> {
    seq!["extreme_long"@, "long"@, "medium_long"@, "medium"@, "medium_close_up"@, "close_up"@, "extreme_close_up"@, "insert"@, "custom"@]
}

pub fn shot_size_key_list() -> (keys: Vec<&'static str>)
    ensures
        keys@.map_values(|k: &str| k@) == shot_size_keys(),
{
    let keys = vec!["extreme_long", "long", "medium_long", "medium", "medium_close_up", "close_up", "extreme_close_up", "insert", "custom"];
    assert(keys@.map_values(|k: &str| k@) =~= shot_size_keys());
    keys
}

/// The serialized name of a `HorizontalAngle`.
pub open spec fn horizontal_angle_key(value: HorizontalAngle) -> Seq<char> {
    match value {
        HorizontalAngle::Frontal => "frontal"@,
        HorizontalAngle::ThreeQuarter => "three_quarter"@,
        HorizontalAngle::Profile => "profile"@,
        HorizontalAngle::RearThreeQuarter => "rear_three_quarter"@,
        HorizontalAngle::Rear => "rear"@,
        HorizontalAngle::PointOfView => "point_of_view"@,
        HorizontalAngle::OverTheShoulder => "over_the_shoulder"@,
        HorizontalAngle::Custom => "custom"@,
    }
}

pub fn horizontal_angle_name(value: HorizontalAngle) -> (name: &'static str)
    ensures
        name@ == horizontal_angle_key(value),
{
    match value {
        HorizontalAngle::Frontal => "frontal",
        HorizontalAngle::ThreeQuarter => "three_quarter",
        HorizontalAngle::Profile => "profile",
        HorizontalAngle::RearThreeQuarter => "rear_three_quarter",
        HorizontalAngle::Rear => "rear",
        HorizontalAngle::PointOfView => "point_of_view",
        HorizontalAngle::OverTheShoulder => "over_the_shoulder",
        HorizontalAngle::Custom => "custom",
    }
}

/// Every `HorizontalAngle` name, in declaration order.
pub open spec fn horizontal_angle_keys() -> Seq<Seq<char>> {
    seq!["frontal"@, "three_quarter"@, "profile"@, "rear_three_quarter"@, "rear"@, "point_of_view"@, "over_the_shoulder"@, "custom"@]
}

pub fn horizontal_angle_key_list() -> (keys: Vec<&'static str>)
    ensures
        keys@.map_values(|k: &str| k@) == horizontal_angle_keys(),
{
    let keys = vec!["frontal", "three_quarter", "profile", "rear_three_quarter", "rear", "point_of_view", "over_the_shoulder", "custom"];
    assert(keys@.map_values(|k: &str| k@) =~= horizontal_angle_keys());
    keys
}

/// The serialized name of a `VerticalAngle`.
pub open spec fn vertical_angle_key(value: VerticalAngle) -> Seq<char> {
    match value {
        VerticalAngle::Overhead => "overhead"@,
        VerticalAngle::High => "high"@,
        VerticalAngle::EyeLevel => "eye_level"@,
        VerticalAngle::Low => "low"@,
        VerticalAngle::WormsEye => "worms_eye"@,
        VerticalAngle::Custom => "custom"@,
    }
}

pub fn vertical_angle_name(value: VerticalAngle) -> (name: &'static str)
    ensures
        name@ == vertical_angle_key(value),
{
    match value {
        VerticalAngle::Overhead => "overhead",
        VerticalAngle::High => "high",
        VerticalAngle::EyeLevel => "eye_level",
        VerticalAngle::Low => "low",
        VerticalAngle::WormsEye => "worms_eye",
        VerticalAngle::Custom => "custom",
    }
}

/// Every `VerticalAngle` name, in declaration order.
pub open spec fn vertical_angle_keys() -> Seq<Seq<char>> {
    seq!["overhead"@, "high"@, "eye_level"@, "low"@, "worms_eye"@, "custom"@]
}

pub fn vertical_angle_key_list() -> (keys: Vec<&'static str>)
    ensures
        keys@.map_values(|k: &str| k@) == vertical_angle_keys(),
{
    let keys = vec!["overhead", "high", "eye_level", "low", "worms_eye", "custom"];
    assert(keys@.map_values(|k: &str| k@) =~= vertical_angle_keys());
    keys
}

/// The serialized name of a `CoverageRole`.
pub open spec fn coverage_role_key(value: CoverageRole) -> Seq<char> {
    match value {
        CoverageRole::Master => "master"@,
        CoverageRole::TwoShot => "two_shot"@,
        CoverageRole::OverTheShoulder => "over_the_shoulder"@,
        CoverageRole::Single => "single"@,
        CoverageRole::CloseUp => "close_up"@,
        CoverageRole::PointOfView => "point_of_view"@,
        CoverageRole::Reaction => "reaction"@,
        CoverageRole::Insert => "insert"@,
        CoverageRole::Cutaway => "cutaway"@,
        CoverageRole::Detail => "detail"@,
        CoverageRole::Establishing => "establishing"@,
        CoverageRole::Custom => "custom"@,
    }
}

pub fn coverage_role_name(value: CoverageRole) -> (name: &'static str)
    ensures
        name@ == coverage_role_key(value),
{
    match value {
        CoverageRole::Master => "master",
        CoverageRole::TwoShot => "two_shot",
        CoverageRole::OverTheShoulder => "over_the_shoulder",
        CoverageRole::Single => "single",
        CoverageRole::CloseUp => "close_up",
        CoverageRole::PointOfView => "point_of_view",
        CoverageRole::Reaction => "reaction",
        CoverageRole::Insert => "insert",
        CoverageRole::Cutaway => "cutaway",
        CoverageRole::Detail => "detail",
        CoverageRole::Establishing => "establishing",
        CoverageRole::Custom => "custom",
    }
}

/// Every `CoverageRole` name, in declaration order.
pub open spec fn coverage_role_keys() -> Seq<Seq<char>> {
    seq!["master"@, "two_shot"@, "over_the_shoulder"@, "single"@, "close_up"@, "point_of_view"@, "reaction"@, "insert"@, "cutaway"@, "detail"@, "establishing"@, "custom"@]
}

pub fn coverage_role_key_list() -> (keys: Vec<&'static str>)
    ensures
        keys@.map_values(|k: &str| k@) == coverage_role_keys(),
{
    let keys = vec!["master", "two_shot", "over_the_shoulder", "single", "close_up", "point_of_view", "reaction", "insert", "cutaway", "detail", "establishing", "custom"];
    assert(keys@.map_values(|k: &str| k@) =~= coverage_role_keys());
    keys
}

/// The serialized name of a `CameraRig`.
pub open spec fn camera_rig_key(value: CameraRig) -> Seq<char> {
    match value {
        CameraRig::Locked => "locked"@,
        CameraRig::Tripod => "tripod"@,
        CameraRig::Dolly => "dolly"@,
        CameraRig::Slider => "slider"@,
        CameraRig::Jib => "jib"@,
        CameraRig::Crane => "crane"@,
        CameraRig::Handheld => "handheld"@,
        CameraRig::Shoulder => "shoulder"@,
        CameraRig::Steadicam => "steadicam"@,
        CameraRig::Gimbal => "gimbal"@,
        CameraRig::Drone => "drone"@,
        CameraRig::VehicleMount => "vehicle_mount"@,
        CameraRig::Virtual => "virtual"@,
    }
}

pub fn camera_rig_name(value: CameraRig) -> (name: &'static str)
    ensures
        name@ == camera_rig_key(value),
{
    match value {
        CameraRig::Locked => "locked",
        CameraRig::Tripod => "tripod",
        CameraRig::Dolly => "dolly",
        CameraRig::Slider => "slider",
        CameraRig::Jib => "jib",
        CameraRig::Crane => "crane",
        CameraRig::Handheld => "handheld",
        CameraRig::Shoulder => "shoulder",
        CameraRig::Steadicam => "steadicam",
        CameraRig::Gimbal => "gimbal",
        CameraRig::Drone => "drone",
        CameraRig::VehicleMount => "vehicle_mount",
        CameraRig::Virtual => "virtual",
    }
}

/// Every `CameraRig` name, in declaration order.
pub open spec fn camera_rig_keys() -> Seq<Seq<char>> {
    seq!["locked"@, "tripod"@, "dolly"@, "slider"@, "jib"@, "crane"@, "handheld"@, "shoulder"@, "steadicam"@, "gimbal"@, "drone"@, "vehicle_mount"@, "virtual"@]
}

pub fn camera_rig_key_list() -> (keys: Vec<&'static str>)
    ensures
        keys@.map_values(|k: &str| k@) == camera_rig_keys(),
{
    let keys = vec!["locked", "tripod", "dolly", "slider", "jib", "crane", "handheld", "shoulder", "steadicam", "gimbal", "drone", "vehicle_mount", "virtual"];
    assert(keys@.map_values(|k: &str| k@) =~= camera_rig_keys());
    keys
}

/// The serialized name of a `ShotPurpose`.
pub open spec fn shot_purpose_key(value: ShotPurpose) -> Seq<char> {
    match value {
        ShotPurpose::Establish => "establish"@,
        ShotPurpose::Orient => "orient"@,
        ShotPurpose::Reveal => "reveal"@,
        ShotPurpose::Emphasize => "emphasize"@,
        ShotPurpose::Observe => "observe"@,
        ShotPurpose::Identify => "identify"@,
        ShotPurpose::Connect => "connect"@,
        ShotPurpose::Isolate => "isolate"@,
        ShotPurpose::Subjective => "subjective"@,
        ShotPurpose::Reaction => "reaction"@,
        ShotPurpose::Transition => "transition"@,
        ShotPurpose::Disorient => "disorient"@,
    }
}

pub fn shot_purpose_name(value: ShotPurpose) -> (name: &'static str)
    ensures
        name@ == shot_purpose_key(value),
{
    match value {
        ShotPurpose::Establish => "establish",
        ShotPurpose::Orient => "orient",
        ShotPurpose::Reveal => "reveal",
        ShotPurpose::Emphasize => "emphasize",
        ShotPurpose::Observe => "observe",
        ShotPurpose::Identify => "identify",
        ShotPurpose::Connect => "connect",
        ShotPurpose::Isolate => "isolate",
        ShotPurpose::Subjective => "subjective",
        ShotPurpose::Reaction => "reaction",
        ShotPurpose::Transition => "transition",
        ShotPurpose::Disorient => "disorient",
    }
}

/// Every `ShotPurpose` name, in declaration order.
pub open spec fn shot_purpose_keys() -> Seq<Seq<char>> {
    seq!["establish"@, "orient"@, "reveal"@, "emphasize"@, "observe"@, "identify"@, "connect"@, "isolate"@, "subjective"@, "reaction"@, "transition"@, "disorient"@]
}

pub fn shot_purpose_key_list() -> (keys: Vec<&'static str>)
    ensures
        keys@.map_values(|k: &str| k@) == shot_purpose_keys(),
{
    let keys = vec!["establish", "orient", "reveal", "emphasize", "observe", "identify", "connect", "isolate", "subjective", "reaction", "transition", "disorient"];
    assert(keys@.map_values(|k: &str| k@) =~= shot_purpose_keys());
    keys
}

/// The serialized name of a `CompositionStrategy`.
pub open spec fn composition_strategy_key(value: CompositionStrategy) -> Seq<char> {
    match value {
        CompositionStrategy::Centered => "centered"@,
        CompositionStrategy::RuleOfThirds => "rule_of_thirds"@,
        CompositionStrategy::Symmetric => "symmetric"@,
        CompositionStrategy::Asymmetric => "asymmetric"@,
        CompositionStrategy::GoldenRatio => "golden_ratio"@,
        CompositionStrategy::Diagonal => "diagonal"@,
        CompositionStrategy::FrameWithinFrame => "frame_within_frame"@,
        CompositionStrategy::DeepFocus => "deep_focus"@,
        CompositionStrategy::Flat => "flat"@,
        CompositionStrategy::Natural => "natural"@,
    }
}

pub fn composition_strategy_name(value: CompositionStrategy) -> (name: &'static str)
    ensures
        name@ == composition_strategy_key(value),
{
    match value {
        CompositionStrategy::Centered => "centered",
        CompositionStrategy::RuleOfThirds => "rule_of_thirds",
        CompositionStrategy::Symmetric => "symmetric",
        CompositionStrategy::Asymmetric => "asymmetric",
        CompositionStrategy::GoldenRatio => "golden_ratio",
        CompositionStrategy::Diagonal => "diagonal",
        CompositionStrategy::FrameWithinFrame => "frame_within_frame",
        CompositionStrategy::DeepFocus => "deep_focus",
        CompositionStrategy::Flat => "flat",
        CompositionStrategy::Natural => "natural",
    }
}

/// Every `CompositionStrategy` name, in declaration order.
pub open spec fn composition_strategy_keys() -> Seq<Seq<char>> {
    seq!["centered"@, "rule_of_thirds"@, "symmetric"@, "asymmetric"@, "golden_ratio"@, "diagonal"@, "frame_within_frame"@, "deep_focus"@, "flat"@, "natural"@]
}

pub fn composition_strategy_key_list() -> (keys: Vec<&'static str>)
    ensures
        keys@.map_values(|k: &str| k@) == composition_strategy_keys(),
{
    let keys = vec!["centered", "rule_of_thirds", "symmetric", "asymmetric", "golden_ratio", "diagonal", "frame_within_frame", "deep_focus", "flat", "natural"];
    assert(keys@.map_values(|k: &str| k@) =~= composition_strategy_keys());
    keys
}

/// The serialized name of a `ScreenRegion`.
pub open spec fn screen_region_key(value: ScreenRegion) -> Seq<char> {
    match value {
        ScreenRegion::Left => "left"@,
        ScreenRegion::Right => "right"@,
        ScreenRegion::Top => "top"@,
        ScreenRegion::Bottom => "bottom"@,
        ScreenRegion::Center => "center"@,
    }
}

pub fn screen_region_name(value: ScreenRegion) -> (name: &'static str)
    ensures
        name@ == screen_region_key(value),
{
    match value {
        ScreenRegion::Left => "left",
        ScreenRegion::Right => "right",
        ScreenRegion::Top => "top",
        ScreenRegion::Bottom => "bottom",
        ScreenRegion::Center => "center",
    }
}

/// Every `ScreenRegion` name, in declaration order.
pub open spec fn screen_region_keys() -> Seq<Seq<char>> {
    seq!["left"@, "right"@, "top"@, "bottom"@, "center"@]
}

pub fn screen_region_key_list() -> (keys: Vec<&'static str>)
    ensures
        keys@.map_values(|k: &str| k@) == screen_region_keys(),
{
    let keys = vec!["left", "right", "top", "bottom", "center"];
    assert(keys@.map_values(|k: &str| k@) =~= screen_region_keys());
    keys
}

/// The serialized name of a `DepthRole`.
pub open spec fn depth_role_key(value: DepthRole) -> Seq<char> {
    match value {
        DepthRole::Foreground => "foreground"@,
        DepthRole::Midground => "midground"@,
        DepthRole::Background => "background"@,
    }
}

pub fn depth_role_name(value: DepthRole) -> (name: &'static str)
    ensures
        name@ == depth_role_key(value),
{
    match value {
        DepthRole::Foreground => "foreground",
        DepthRole::Midground => "midground",
        DepthRole::Background => "background",
    }
}

/// Every `DepthRole` name, in declaration order.
pub open spec fn depth_role_keys() -> Seq<Seq<char>> {
    seq!["foreground"@, "midground"@, "background"@]
}

pub fn depth_role_key_list() -> (keys: Vec<&'static str>)
    ensures
        keys@.map_values(|k: &str| k@) == depth_role_keys(),
{
    let keys = vec!["foreground", "midground", "background"];
    assert(keys@.map_values(|k: &str| k@) =~= depth_role_keys());
    keys
}

/// The serialized name of a `Transition`.
pub open spec fn transition_key(value: Transition) -> Seq<char> {
    match value {
        Transition::Cut => "cut"@,
        Transition::Dissolve => "dissolve"@,
        Transition::Fade => "fade"@,
        Transition::Wipe => "wipe"@,
        Transition::MatchCut => "match_cut"@,
        Transition::JumpCut => "jump_cut"@,
    }
}

pub fn transition_name(value: Transition) -> (name: &'static str)
    ensures
        name@ == transition_key(value),
{
    match value {
        Transition::Cut => "cut",
        Transition::Dissolve => "dissolve",
        Transition::Fade => "fade",
        Transition::Wipe => "wipe",
        Transition::MatchCut => "match_cut",
        Transition::JumpCut => "jump_cut",
    }
}

/// Every `Transition` name, in declaration order.
pub open spec fn transition_keys() -> Seq<Seq<char>> {
    seq!["cut"@, "dissolve"@, "fade"@, "wipe"@, "match_cut"@, "jump_cut"@]
}

pub fn transition_key_list() -> (keys: Vec<&'static str>)
    ensures
        keys@.map_values(|k: &str| k@) == transition_keys(),
{
    let keys = vec!["cut", "dissolve", "fade", "wipe", "match_cut", "jump_cut"];
    assert(keys@.map_values(|k: &str| k@) =~= transition_keys());
    keys
}

/// The serialized name of a `LightKind`.
pub open spec fn light_kind_key(value: LightKind) -> Seq<char> {
    match value {
        LightKind::Point => "point"@,
        LightKind::Spot => "spot"@,
        LightKind::Area => "area"@,
        LightKind::Directional => "directional"@,
        LightKind::Practical => "practical"@,
        LightKind::Environment => "environment"@,
        LightKind::EmissiveSurface => "emissive_surface"@,
    }
}

pub fn light_kind_name(value: LightKind) -> (name: &'static str)
    ensures
        name@ == light_kind_key(value),
{
    match value {
        LightKind::Point => "point",
        LightKind::Spot => "spot",
        LightKind::Area => "area",
        LightKind::Directional => "directional",
        LightKind::Practical => "practical",
        LightKind::Environment => "environment",
        LightKind::EmissiveSurface => "emissive_surface",
    }
}

/// Every `LightKind` name, in declaration order.
pub open spec fn light_kind_keys() -> Seq<Seq<char>> {
    seq!["point"@, "spot"@, "area"@, "directional"@, "practical"@, "environment"@, "emissive_surface"@]
}

pub fn light_kind_key_list() -> (keys: Vec<&'static str>)
    ensures
        keys@.map_values(|k: &str| k@) == light_kind_keys(),
{
    let keys = vec!["point", "spot", "area", "directional", "practical", "environment", "emissive_surface"];
    assert(keys@.map_values(|k: &str| k@) =~= light_kind_keys());
    keys
}

/// The serialized name of a `LightRole`.
pub open spec fn light_role_key(value: LightRole) -> Seq<char> {
    match value {
        LightRole::Key => "key"@,
        LightRole::Fill => "fill"@,
        LightRole::Back => "back"@,
        LightRole::Rim => "rim"@,
        LightRole::Background => "background"@,
        LightRole::Practical => "practical"@,
        LightRole::Ambient => "ambient"@,
        LightRole::Motivated => "motivated"@,
    }
}

pub fn light_role_name(value: LightRole) -> (name: &'static str)
    ensures
        name@ == light_role_key(value),
{
    match value {
        LightRole::Key => "key",
        LightRole::Fill => "fill",
        LightRole::Back => "back",
        LightRole::Rim => "rim",
        LightRole::Background => "background",
        LightRole::Practical => "practical",
        LightRole::Ambient => "ambient",
        LightRole::Motivated => "motivated",
    }
}

/// Every `LightRole` name, in declaration order.
pub open spec fn light_role_keys() -> Seq<Seq<char>> {
    seq!["key"@, "fill"@, "back"@, "rim"@, "background"@, "practical"@, "ambient"@, "motivated"@]
}

pub fn light_role_key_list() -> (keys: Vec<&'static str>)
    ensures
        keys@.map_values(|k: &str| k@) == light_role_keys(),
{
    let keys = vec!["key", "fill", "back", "rim", "background", "practical", "ambient", "motivated"];
    assert(keys@.map_values(|k: &str| k@) =~= light_role_keys());
    keys
}

/// Camera-operation keys of the dialect `operation` table.
pub open spec fn operation_keys() -> Seq<Seq<char>> {
    seq!["hold"@, "pan_left"@, "pan_right"@, "tilt_up"@, "tilt_down"@, "roll"@, "dolly_in"@, "dolly_out"@, "truck_left"@, "truck_right"@, "pedestal_up"@, "pedestal_down"@, "translate"@, "rotate"@, "look_at"@, "orbit"@, "follow"@, "crane_up"@, "crane_down"@, "zoom_in"@, "zoom_out"@, "rack_focus"@, "dolly_zoom"@, "handheld_noise"@, "reveal"@]
}

pub fn operation_key_list() -> (keys: Vec<&'static str>)
    ensures
        keys@.map_values(|k: &str| k@) == operation_keys(),
{
    let keys = vec!["hold", "pan_left", "pan_right", "tilt_up", "tilt_down", "roll", "dolly_in", "dolly_out", "truck_left", "truck_right", "pedestal_up", "pedestal_down", "translate", "rotate", "look_at", "orbit", "follow", "crane_up", "crane_down", "zoom_in", "zoom_out", "rack_focus", "dolly_zoom", "handheld_noise", "reveal"];
    assert(keys@.map_values(|k: &str| k@) =~= operation_keys());
    keys
}

/// Connective and modifier keys of the dialect `phrases` table.
pub open spec fn phrase_keys() -> Seq<Seq<char>> {
    seq!["very_shallow_dof"@, "shallow_dof"@, "deep_focus"@, "static"@, "framing"@, "and"@, "looking_at"@, "intent"@, "beat"@, "lighting"@, "lens"@, "over"@, "seconds"@, "then"@, "motivated_by"@, "color_binding"@, "scene"@, "notes"@, "cinematic"@, "while"@, "as"@, "to"@, "fixed_point"@]
}

pub fn phrase_key_list() -> (keys: Vec<&'static str>)
    ensures
        keys@.map_values(|k: &str| k@) == phrase_keys(),
{
    let keys = vec!["very_shallow_dof", "shallow_dof", "deep_focus", "static", "framing", "and", "looking_at", "intent", "beat", "lighting", "lens", "over", "seconds", "then", "motivated_by", "color_binding", "scene", "notes", "cinematic", "while", "as", "to", "fixed_point"];
    assert(keys@.map_values(|k: &str| k@) =~= phrase_keys());
    keys
}

/// The `Debug` name of a `ShotSize`.
pub open spec fn shot_size_debug(value: ShotSize) -> Seq<char> {
    match value {
        ShotSize::ExtremeLong => "ExtremeLong"@,
        ShotSize::Long => "Long"@,
        ShotSize::MediumLong => "MediumLong"@,
        ShotSize::Medium => "Medium"@,
        ShotSize::MediumCloseUp => "MediumCloseUp"@,
        ShotSize::CloseUp => "CloseUp"@,
        ShotSize::ExtremeCloseUp => "ExtremeCloseUp"@,
        ShotSize::Insert => "Insert"@,
        ShotSize::Custom => "Custom"@,
    }
}

pub fn shot_size_debug_name(value: ShotSize) -> (name: &'static str)
    ensures
        name@ == shot_size_debug(value),
{
    match value {
        ShotSize::ExtremeLong => "ExtremeLong",
        ShotSize::Long => "Long",
        ShotSize::MediumLong => "MediumLong",
        ShotSize::Medium => "Medium",
        ShotSize::MediumCloseUp => "MediumCloseUp",
        ShotSize::CloseUp => "CloseUp",
        ShotSize::ExtremeCloseUp => "ExtremeCloseUp",
        ShotSize::Insert => "Insert",
        ShotSize::Custom => "Custom",
    }
}

/// The `Debug` name of a `CoverageRole`.
pub open spec fn coverage_role_debug(value: CoverageRole) -> Seq<char> {
    match value {
        CoverageRole::Master => "Master"@,
        CoverageRole::TwoShot => "TwoShot"@,
        CoverageRole::OverTheShoulder => "OverTheShoulder"@,
        CoverageRole::Single => "Single"@,
        CoverageRole::CloseUp => "CloseUp"@,
        CoverageRole::PointOfView => "PointOfView"@,
        CoverageRole::Reaction => "Reaction"@,
        CoverageRole::Insert => "Insert"@,
        CoverageRole::Cutaway => "Cutaway"@,
        CoverageRole::Detail => "Detail"@,
        CoverageRole::Establishing => "Establishing"@,
        CoverageRole::Custom => "Custom"@,
    }
}

pub fn coverage_role_debug_name(value: CoverageRole) -> (name: &'static str)
    ensures
        name@ == coverage_role_debug(value),
{
    match value {
        CoverageRole::Master => "Master",
        CoverageRole::TwoShot => "TwoShot",
        CoverageRole::OverTheShoulder => "OverTheShoulder",
        CoverageRole::Single => "Single",
        CoverageRole::CloseUp => "CloseUp",
        CoverageRole::PointOfView => "PointOfView",
        CoverageRole::Reaction => "Reaction",
        CoverageRole::Insert => "Insert",
        CoverageRole::Cutaway => "Cutaway",
        CoverageRole::Detail => "Detail",
        CoverageRole::Establishing => "Establishing",
        CoverageRole::Custom => "Custom",
    }
}

/// The `Debug` name of a `CameraRig`.
pub open spec fn camera_rig_debug(value: CameraRig) -> Seq<char> {
    match value {
        CameraRig::Locked => "Locked"@,
        CameraRig::Tripod => "Tripod"@,
        CameraRig::Dolly => "Dolly"@,
        CameraRig::Slider => "Slider"@,
        CameraRig::Jib => "Jib"@,
        CameraRig::Crane => "Crane"@,
        CameraRig::Handheld => "Handheld"@,
        CameraRig::Shoulder => "Shoulder"@,
        CameraRig::Steadicam => "Steadicam"@,
        CameraRig::Gimbal => "Gimbal"@,
        CameraRig::Drone => "Drone"@,
        CameraRig::VehicleMount => "VehicleMount"@,
        CameraRig::Virtual => "Virtual"@,
    }
}

pub fn camera_rig_debug_name(value: CameraRig) -> (name: &'static str)
    ensures
        name@ == camera_rig_debug(value),
{
    match value {
        CameraRig::Locked => "Locked",
        CameraRig::Tripod => "Tripod",
        CameraRig::Dolly => "Dolly",
        CameraRig::Slider => "Slider",
        CameraRig::Jib => "Jib",
        CameraRig::Crane => "Crane",
        CameraRig::Handheld => "Handheld",
        CameraRig::Shoulder => "Shoulder",
        CameraRig::Steadicam => "Steadicam",
        CameraRig::Gimbal => "Gimbal",
        CameraRig::Drone => "Drone",
        CameraRig::VehicleMount => "VehicleMount",
        CameraRig::Virtual => "Virtual",
    }
}

} // verus!
