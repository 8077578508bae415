//! The Cinematography IR document as the validators, the continuity
//! analysis, the phase compiler, and the samplers read it.
//!
//! Identifiers, frame ranges, enumerations, and references are held as they
//! are written. Each real-valued quantity (a coordinate, an angle, a focal
//! length, ...) is held as its [`Num`] class: the interval of the real line,
//! or the non-finite value, that the document's number falls into. Every
//! check this crate makes on a number is a function of that class.
use vstd::prelude::*;

verus! {

pub type Frame = u64;

/// Where a real number lies, at the thresholds the document checks use
/// (-1, 0, 1, 360), or which non-finite value it is.
#[derive(Debug, Clone, Copy, PartialEq, Eq, Structural)]
pub enum Num {
    NaN,
    NegativeInfinity,
    /// `x < -1`
    BelowMinusOne,
    /// `x == -1`
    MinusOne,
    /// `-1 < x < 0`
    NegativeFraction,
    /// `x == 0` (either sign)
    Zero,
    /// `0 < x < 1`
    PositiveFraction,
    /// `x == 1`
    One,
    /// `1 < x <= 360`
    UpTo360,
    /// `360 < x < +inf`
    Above360,
    PositiveInfinity,
}

impl Num {
    pub open spec fn spec_is_finite(self) -> bool {
        !(self is NaN || self is NegativeInfinity || self is PositiveInfinity)
    }

    /// `x > 0` (true for `+inf`).
    pub open spec fn spec_is_positive(self) -> bool {
        self is PositiveFraction || self is One || self is UpTo360 || self is Above360 || self is PositiveInfinity
    }

    /// `x < 0` (true for `-inf`).
    pub open spec fn spec_is_negative(self) -> bool {
        self is NegativeInfinity || self is BelowMinusOne || self is MinusOne || self is NegativeFraction
    }

    /// `x.is_finite()`
    pub fn is_finite(self) -> (b: bool)
        ensures
            b == self.spec_is_finite(),
    {
        !matches!(self, Num::NaN | Num::NegativeInfinity | Num::PositiveInfinity)
    }

    /// `x > 0.0`
    pub fn is_positive(self) -> (b: bool)
        ensures
            b == self.spec_is_positive(),
    {
        matches!(self, Num::PositiveFraction | Num::One | Num::UpTo360 | Num::Above360 | Num::PositiveInfinity)
    }

    /// `x < 0.0`
    pub fn is_negative(self) -> (b: bool)
        ensures
            b == self.spec_is_negative(),
    {
        matches!(self, Num::NegativeInfinity | Num::BelowMinusOne | Num::MinusOne | Num::NegativeFraction)
    }
}

/// Each interval test in terms of the classes it admits: positive finite
/// numbers are those in (0, 1), 1, (1, 360] and (360, +inf); non-negative
/// finite ones add 0; [0, 1] is 0, (0, 1) and 1; [-1, 1] adds -1 and
/// (-1, 0); (0, 360] is (0, 1), 1 and (1, 360]. NaN and the infinities are
/// in none of them.
pub proof fn lemma_interval_classes(n: Num)
    ensures
        positive_finite(n) <==> (n is PositiveFraction || n is One || n is UpTo360 || n is Above360),
        non_negative_finite(n) <==> (n is Zero || n is PositiveFraction || n is One || n is UpTo360 || n is Above360),
        unit_interval(n) <==> (n is Zero || n is PositiveFraction || n is One),
        signed_unit_interval(n) <==> (n is MinusOne || n is NegativeFraction || n is Zero || n is PositiveFraction
            || n is One),
        full_turn_interval(n) <==> (n is PositiveFraction || n is One || n is UpTo360),
        (n is NaN || n is NegativeInfinity || n is PositiveInfinity) ==> !positive_finite(n) && !non_negative_finite(n)
            && !unit_interval(n) && !signed_unit_interval(n) && !full_turn_interval(n),
{
}

/// `value.is_finite() && value > 0.0`
pub open spec fn positive_finite(n: Num) -> bool {
    n.spec_is_finite() && n.spec_is_positive()
}

/// `value.is_finite() && value >= 0.0`
pub open spec fn non_negative_finite(n: Num) -> bool {
    n.spec_is_finite() && !n.spec_is_negative()
}

/// `value.is_finite() && (0.0..=1.0).contains(&value)`
pub open spec fn unit_interval(n: Num) -> bool {
    n is Zero || n is PositiveFraction || n is One
}

/// `(-1.0..=1.0).contains(&value)`
pub open spec fn signed_unit_interval(n: Num) -> bool {
    n is MinusOne || n is NegativeFraction || unit_interval(n)
}

/// `value > 0.0 && value <= 360.0` for a finite value.
pub open spec fn full_turn_interval(n: Num) -> bool {
    n is PositiveFraction || n is One || n is UpTo360
}

#[derive(Debug, Clone, Copy)]
pub struct Vec3 {
    pub x: Num,
    pub y: Num,
    pub z: Num,
}

#[derive(Debug, Clone, Copy)]
pub struct EulerDeg {
    pub pitch: Num,
    pub yaw: Num,
    pub roll: Num,
}

#[derive(Debug, Clone, Copy)]
pub struct Transform {
    pub position: Vec3,
    pub rotation_deg: EulerDeg,
    pub scale: Vec3,
}

/// Half-open frame interval `[start, end)`.
#[derive(Debug, Clone, Copy, PartialEq, Eq, Structural)]
pub struct FrameRange {
    pub start: Frame,
    pub end: Frame,
}

impl FrameRange {
    /// A half-open range is non-empty and not reversed.
    pub fn is_valid(self) -> (b: bool)
        ensures
            b == (self.start < self.end),
    {
        self.start < self.end
    }

    /// Number of frames covered; zero for an empty or reversed range.
    pub fn duration(self) -> (d: Frame)
        ensures
            d == (if self.start < self.end { self.end - self.start } else { 0 }),
    {
        if self.end > self.start { self.end - self.start } else { 0 }
    }
}

#[derive(Debug, Clone, Copy, PartialEq, Eq, Structural)]
pub struct FrameRate {
    pub numerator: u32,
    pub denominator: u32,
}

#[derive(Debug, Clone, Copy, PartialEq, Eq, Structural)]
pub enum Unit {
    Meters,
    Centimeters,
}

#[derive(Debug, Clone, Copy, PartialEq, Eq, Structural)]
pub enum Handedness {
    Left,
    Right,
}

#[derive(Debug, Clone, Copy, PartialEq, Eq, Structural)]
pub enum AxisName {
    X,
    Y,
    Z,
}

#[derive(Debug, Clone, Copy, PartialEq, Eq, Structural)]
pub enum SignedAxis {
    PositiveX,
    NegativeX,
    PositiveY,
    NegativeY,
    PositiveZ,
    NegativeZ,
}

/// World coordinate conventions carried by every document. `forward_axis`
/// must not be parallel to `up_axis` (validated).
#[derive(Debug, Clone, Copy, PartialEq, Eq, Structural)]
pub struct CoordinateSystem {
    pub units: Unit,
    pub handedness: Handedness,
    pub up_axis: AxisName,
    pub forward_axis: SignedAxis,
}

impl CoordinateSystem {
    /// Right-handed, Y up, -Z forward, metres.
    pub open spec fn standard_spec() -> CoordinateSystem {
        CoordinateSystem {
            units: Unit::Meters,
            handedness: Handedness::Right,
            up_axis: AxisName::Y,
            forward_axis: SignedAxis::NegativeZ,
        }
    }

    /// Right-handed, Y up, -Z forward, metres.
    pub fn standard() -> (cs: CoordinateSystem)
        ensures
            cs == Self::standard_spec(),
    {
        CoordinateSystem {
            units: Unit::Meters,
            handedness: Handedness::Right,
            up_axis: AxisName::Y,
            forward_axis: default_forward_axis(),
        }
    }
}

/// The OpenGL-style convention: the document default.
pub fn right_handed() -> (cs: CoordinateSystem)
    ensures
        cs == CoordinateSystem::standard_spec(),
{
    CoordinateSystem::standard()
}

/// Unity's convention: left-handed, Y up, +Z forward, metres.
pub fn left_handed_unity() -> (cs: CoordinateSystem)
    ensures
        cs == (CoordinateSystem {
            units: Unit::Meters,
            handedness: Handedness::Left,
            up_axis: AxisName::Y,
            forward_axis: SignedAxis::PositiveZ,
        }),
{
    CoordinateSystem {
        units: Unit::Meters,
        handedness: Handedness::Left,
        up_axis: AxisName::Y,
        forward_axis: SignedAxis::PositiveZ,
    }
}

#[derive(Debug, Clone)]
pub struct CineProject {
    pub schema_version: String,
    pub id: String,
    pub title: String,
    pub frame_rate: FrameRate,
    pub coordinate_system: CoordinateSystem,
    pub scenes: Vec<Scene>,
}

#[derive(Debug, Clone)]
pub struct Scene {
    pub id: String,
    pub title: String,
    pub duration_frames: Frame,
    pub narrative: NarrativeIntent,
    pub subjects: Vec<Subject>,
    pub markers: Vec<Marker>,
    pub axes: Vec<ContinuityAxis>,
    pub blocking: Vec<BlockingTrack>,
    pub beats: Vec<Beat>,
    pub lighting_setups: Vec<LightingSetup>,
    /// Final-edit shots. Coverage workflows may additionally declare
    /// overlapping `takes` and map them through `edit_timeline`.
    pub shots: Vec<Shot>,
    pub takes: Vec<Take>,
    pub edit_timeline: Vec<EditClip>,
}

#[derive(Debug, Clone)]
pub struct NarrativeIntent {
    pub dramatic_question: Option<String>,
    pub themes: Vec<String>,
    pub desired_audience_state: Vec<String>,
    pub emotional_arc: Vec<EmotionalBeat>,
}

#[derive(Debug, Clone)]
pub struct EmotionalBeat {
    pub frame: Frame,
    pub label: String,
    pub valence: Option<Num>,
    pub arousal: Option<Num>,
}

#[derive(Debug, Clone)]
pub struct Subject {
    pub id: String,
    pub name: String,
    pub kind: SubjectKind,
    pub initial_transform: Transform,
    pub dimensions_m: Option<Vec3>,
}

#[derive(Debug, Clone, Copy, PartialEq, Eq, Structural)]
pub enum SubjectKind {
    Character,
    Prop,
    Vehicle,
    Environment,
    Screen,
    Abstract,
}

#[derive(Debug, Clone)]
pub struct Marker {
    pub id: String,
    pub name: String,
    pub position: Vec3,
}

#[derive(Debug, Clone)]
pub struct ContinuityAxis {
    pub id: String,
    pub name: String,
    pub purpose: AxisPurpose,
    pub from: TargetRef,
    pub to: TargetRef,
    /// Both endpoints are points with numerically equal positions.
    pub coincident_points: bool,
}

#[derive(Debug, Clone, Copy, PartialEq, Eq, Structural)]
pub enum AxisPurpose {
    Relationship,
    Movement,
    Eyeline,
    Geography,
    Custom,
}

#[derive(Debug, Clone)]
pub struct BlockingTrack {
    pub subject_id: String,
    pub keyframes: Vec<BlockingKeyframe>,
}

#[derive(Debug, Clone)]
pub struct BlockingKeyframe {
    pub frame: Frame,
    pub transform: Transform,
    pub gaze_target: Option<TargetRef>,
    pub action: Option<String>,
}

#[derive(Debug, Clone)]
pub struct Beat {
    pub id: String,
    pub range: FrameRange,
    pub intent: String,
    pub emphasis: BeatEmphasis,
    pub subject_ids: Vec<String>,
}

#[derive(Debug, Clone, Copy, PartialEq, Eq, Structural)]
pub enum BeatEmphasis {
    Low,
    Medium,
    High,
    Climax,
}

#[derive(Debug, Clone)]
pub struct Shot {
    pub id: String,
    pub range: FrameRange,
    pub purpose: Vec<ShotPurpose>,
    pub coverage_role: CoverageRole,
    pub framing: Framing,
    pub camera: CameraPlan,
    pub lighting_setup_id: Option<String>,
    pub continuity: ContinuityAnnotations,
    pub transition_in: Transition,
    /// Rich transition contract; when absent `transition_in` gives the kind.
    pub transition: Option<TransitionSpec>,
    pub relations: Vec<ShotRelation>,
    pub phrases: Vec<ShotPhrase>,
    pub prohibit: Vec<Prohibition>,
    pub notes: Vec<String>,
}

#[derive(Debug, Clone, Copy, PartialEq, Eq, Structural)]
pub enum ShotPurpose {
    Establish,
    Orient,
    Reveal,
    Emphasize,
    Observe,
    Identify,
    Connect,
    Isolate,
    Subjective,
    Reaction,
    Transition,
    Disorient,
}

#[derive(Debug, Clone, Copy, PartialEq, Eq, Structural)]
pub enum CoverageRole {
    Master,
    TwoShot,
    OverTheShoulder,
    Single,
    CloseUp,
    PointOfView,
    Reaction,
    Insert,
    Cutaway,
    Detail,
    Establishing,
    Custom,
}

#[derive(Debug, Clone)]
pub struct Framing {
    pub shot_size: ShotSize,
    pub horizontal_angle: HorizontalAngle,
    pub vertical_angle: VerticalAngle,
    pub roll_deg: Num,
    pub subject_ids: Vec<String>,
    pub composition: Composition,
}

#[derive(Debug, Clone, Copy, PartialEq, Eq, Structural)]
pub enum ShotSize {
    ExtremeLong,
    Long,
    MediumLong,
    Medium,
    MediumCloseUp,
    CloseUp,
    ExtremeCloseUp,
    Insert,
    Custom,
}

#[derive(Debug, Clone, Copy, PartialEq, Eq, Structural)]
pub enum HorizontalAngle {
    Frontal,
    ThreeQuarter,
    Profile,
    RearThreeQuarter,
    Rear,
    PointOfView,
    OverTheShoulder,
    Custom,
}

#[derive(Debug, Clone, Copy, PartialEq, Eq, Structural)]
pub enum VerticalAngle {
    Overhead,
    High,
    EyeLevel,
    Low,
    WormsEye,
    Custom,
}

#[derive(Debug, Clone)]
pub struct Composition {
    pub strategy: CompositionStrategy,
    pub headroom: Option<Num>,
    pub lead_room: Option<Num>,
    pub negative_space: Option<ScreenRegion>,
    pub depth_layers: Vec<DepthLayer>,
    pub notes: Vec<String>,
}

#[derive(Debug, Clone, Copy, PartialEq, Eq, Structural)]
pub enum CompositionStrategy {
    Centered,
    RuleOfThirds,
    Symmetric,
    Asymmetric,
    GoldenRatio,
    Diagonal,
    FrameWithinFrame,
    DeepFocus,
    Flat,
    Natural,
}

#[derive(Debug, Clone, Copy, PartialEq, Eq, Structural)]
pub enum ScreenRegion {
    Left,
    Right,
    Top,
    Bottom,
    Center,
}

#[derive(Debug, Clone)]
pub struct DepthLayer {
    pub name: String,
    pub role: DepthRole,
    pub subject_ids: Vec<String>,
}

#[derive(Debug, Clone, Copy, PartialEq, Eq, Structural)]
pub enum DepthRole {
    Foreground,
    Midground,
    Background,
}

#[derive(Debug, Clone)]
pub struct CameraPlan {
    pub rig: CameraRig,
    pub initial_state: CameraState,
    pub operations: Vec<TimedCameraOperation>,
}

#[derive(Debug, Clone, Copy, PartialEq, Eq, Structural)]
pub enum CameraRig {
    Locked,
    Tripod,
    Dolly,
    Slider,
    Jib,
    Crane,
    Handheld,
    Shoulder,
    Steadicam,
    Gimbal,
    Drone,
    VehicleMount,
    Virtual,
}

#[derive(Debug, Clone)]
pub struct CameraState {
    pub transform: Transform,
    pub lens: LensState,
    pub focus: FocusState,
    pub exposure: ExposureState,
}

#[derive(Debug, Clone, Copy)]
pub struct LensState {
    pub focal_length_mm: Num,
    pub sensor_width_mm: Num,
    pub aperture_f: Num,
    pub anamorphic_squeeze: Num,
}

#[derive(Debug, Clone)]
pub struct FocusState {
    pub target: Option<TargetRef>,
    pub distance_m: Option<Num>,
}

#[derive(Debug, Clone, Copy)]
pub struct ExposureState {
    pub iso: u32,
    pub shutter_angle_deg: Num,
    pub white_balance_k: u32,
    pub nd_stops: Num,
}

#[derive(Debug, Clone)]
pub struct TimedCameraOperation {
    /// Shot-local, half-open frame range: `[start, end)`.
    pub range: FrameRange,
    pub easing: Easing,
    pub operation: CameraOperation,
}

#[derive(Debug, Clone)]
pub enum CameraOperation {
    Hold,
    Pan { degrees: Num },
    Tilt { degrees: Num },
    Roll { degrees: Num },
    Dolly { distance_m: Num },
    Truck { distance_m: Num },
    Pedestal { distance_m: Num },
    Translate { delta: Vec3, space: TransformSpace },
    Rotate { delta_deg: EulerDeg, space: TransformSpace },
    LookAt { target: TargetRef },
    Orbit { target: TargetRef, azimuth_deg: Num, elevation_deg: Num, radius_m: Option<Num> },
    Follow { target: TargetRef, offset: Vec3, lag_half_life_s: Option<Num>, damping: Num },
    Crane { delta: Vec3, look_at: Option<TargetRef> },
    Zoom { to_focal_length_mm: Num },
    RackFocus { target: TargetRef, to_distance_m: Option<Num> },
    DollyZoom { target: TargetRef, to_distance_m: Num, keep_subject_frame_fraction: Num },
    HandheldNoise { translation_amplitude_m: Num, rotation_amplitude_deg: Num, frequency_hz: Num, seed: u64 },
    Reveal { target: TargetRef, occluder: TargetRef, lateral_distance_m: Num },
}

#[derive(Debug, Clone, Copy, PartialEq, Eq, Structural)]
pub enum TransformSpace {
    World,
    CameraLocal,
}

#[derive(Debug, Clone, Copy, PartialEq, Eq, Structural)]
pub enum Easing {
    Linear,
    EaseIn,
    EaseOut,
    EaseInOut,
    SmoothStep,
    Hold,
}

#[derive(Debug, Clone)]
pub struct ContinuityAnnotations {
    pub axis_observations: Vec<AxisObservation>,
    pub screen_directions: Vec<ScreenDirectionObservation>,
    pub eyelines: Vec<EyelineObservation>,
    pub camera_azimuth_deg: Option<Num>,
    pub bridge: Option<ContinuityBridge>,
    pub spatial_reset: bool,
    pub direction_change_visible: bool,
}

#[derive(Debug, Clone)]
pub struct AxisObservation {
    pub axis_id: String,
    pub side: AxisSide,
}

#[derive(Debug, Clone, Copy, PartialEq, Eq, Structural)]
pub enum AxisSide {
    Positive,
    Negative,
    OnAxis,
}

#[derive(Debug, Clone)]
pub struct ScreenDirectionObservation {
    pub subject_id: String,
    pub direction: ScreenDirection,
}

#[derive(Debug, Clone, Copy, PartialEq, Eq, Structural)]
pub enum ScreenDirection {
    Left,
    Right,
    Stationary,
    TowardCamera,
    AwayFromCamera,
}

#[derive(Debug, Clone)]
pub struct EyelineObservation {
    pub subject_id: String,
    pub target: TargetRef,
    pub screen_direction: HorizontalDirection,
}

#[derive(Debug, Clone, Copy, PartialEq, Eq, Structural)]
pub enum HorizontalDirection {
    Left,
    Right,
    Center,
}

#[derive(Debug, Clone, Copy, PartialEq, Eq, Structural)]
pub enum ContinuityBridge {
    VisibleAxisCross,
    OnAxisShot,
    NeutralInsert,
    ReestablishingShot,
    CharacterReblocking,
    DeliberateDisorientation,
}

#[derive(Debug, Clone, Copy, PartialEq, Eq, Structural)]
pub enum Transition {
    Cut,
    Dissolve,
    Fade,
    Wipe,
    MatchCut,
    JumpCut,
}

#[derive(Debug, Clone)]
pub struct TransitionSpec {
    pub kind: Transition,
    pub duration_frames: Frame,
    pub curve: Easing,
    pub match_anchor: Option<MatchAnchor>,
    pub direction: Option<TransitionDirection>,
}

impl TransitionSpec {
    /// An instantaneous transition of `kind`.
    pub fn cut(kind: Transition) -> (t: TransitionSpec)
        ensures
            t.kind == kind,
            t.duration_frames == 0,
            t.curve == Easing::Hold,
            t.match_anchor is None,
            t.direction is None,
    {
        TransitionSpec { kind, duration_frames: 0, curve: Easing::Hold, match_anchor: None, direction: None }
    }
}

#[derive(Debug, Clone)]
pub struct MatchAnchor {
    pub subject_id: Option<String>,
    pub action: Option<String>,
    pub source_frame: Option<Frame>,
    pub target_frame: Option<Frame>,
}

#[derive(Debug, Clone, Copy, PartialEq, Eq, Structural)]
pub enum TransitionDirection {
    Left,
    Right,
    Up,
    Down,
    In,
    Out,
}

#[derive(Debug, Clone)]
pub struct ShotRelation {
    pub kind: ShotRelationKind,
    pub shot_id: String,
}

#[derive(Debug, Clone, Copy, PartialEq, Eq, Structural)]
pub enum ShotRelationKind {
    Establishes,
    NarrowsFrom,
    ReverseOf,
    ReactionTo,
    RevealsFrom,
    MatchesActionFrom,
    CrossesAxisFrom,
    ReestablishesAfter,
}

/// Higher-level cinematography phrases, in their declaration order (which
/// is also their sort order).
#[derive(Debug, Clone, Copy, PartialEq, Eq, Structural)]
pub enum ShotPhrase {
    PressurePushIn,
    SubjectLockDollyZoom,
    ForegroundParallaxReveal,
    VisibleAxisCross,
    RackFocusReveal,
    ReactionHold,
    WalkAndTalkFollow,
    OrbitRelationshipShift,
}

/// Shortcuts a generator must not take, in declaration (sort) order.
#[derive(Debug, Clone, Copy, PartialEq, Eq, Structural)]
pub enum Prohibition {
    ActorTranslationAsCameraSubstitute,
    DigitalCropAsDollySubstitute,
    BackgroundDeformationAsParallaxSubstitute,
    GlobalBlurAsRackFocusSubstitute,
    HandheldMotion,
    UnplannedCut,
}

/// Camera coverage over performance/story time. Takes may overlap.
#[derive(Debug, Clone)]
pub struct Take {
    pub id: String,
    pub performance_range: FrameRange,
    pub purpose: Vec<ShotPurpose>,
    pub coverage_role: CoverageRole,
    pub framing: Framing,
    pub camera_program: CameraPlan,
    pub lighting_setup_id: Option<String>,
    pub continuity: ContinuityAnnotations,
    pub phrases: Vec<ShotPhrase>,
    pub notes: Vec<String>,
}

/// Editorial selection from a take. `source_range` is in performance time;
/// `edit_range` is in final-edit time and may overlap for transitions.
#[derive(Debug, Clone)]
pub struct EditClip {
    pub id: String,
    pub take_id: String,
    pub source_range: FrameRange,
    pub edit_range: FrameRange,
    pub transition_in: TransitionSpec,
}

#[derive(Debug, Clone)]
pub struct LightingSetup {
    pub id: String,
    pub name: String,
    pub contrast_ratio: Option<Num>,
    pub sources: Vec<LightSource>,
    pub notes: Vec<String>,
}

#[derive(Debug, Clone)]
pub struct LightSource {
    pub id: String,
    pub kind: LightKind,
    pub role: LightRole,
    pub transform: Transform,
    pub intensity_lux: Option<Num>,
    pub color_temperature_k: u32,
    pub motivated_by: Option<String>,
}

#[derive(Debug, Clone, Copy, PartialEq, Eq, Structural)]
pub enum LightKind {
    Point,
    Spot,
    Area,
    Directional,
    Practical,
    Environment,
    EmissiveSurface,
}

#[derive(Debug, Clone, Copy, PartialEq, Eq, Structural)]
pub enum LightRole {
    Key,
    Fill,
    Back,
    Rim,
    Background,
    Practical,
    Ambient,
    Motivated,
}

#[derive(Debug, Clone)]
pub enum TargetRef {
    Subject { id: String },
    Marker { id: String },
    Point { position: Vec3 },
}

impl TargetRef {
    /// The subject id of a subject target.
    pub fn subject_id(&self) -> (id: Option<&String>)
        ensures
            match self {
                TargetRef::Subject { id: s } => id == Some(s),
                _ => id is None,
            },
    {
        match self {
            TargetRef::Subject { id } => Some(id),
            _ => None,
        }
    }
}

impl Shot {
    pub fn duration_frames(&self) -> (d: Frame)
        ensures
            d == (if self.range.start < self.range.end { self.range.end - self.range.start } else { 0 }),
    {
        self.range.duration()
    }
}

/// Default frame-rate denominator.
pub fn one_u32() -> (v: u32)
    ensures
        v == 1,
{
    1
}

/// Default forward axis: -Z.
pub fn default_forward_axis() -> (a: SignedAxis)
    ensures
        a == SignedAxis::NegativeZ,
{
    SignedAxis::NegativeZ
}

/// Default ISO.
pub fn default_iso() -> (v: u32)
    ensures
        v == 800,
{
    800
}

/// Default white balance and light colour temperature in kelvin.
pub fn default_white_balance() -> (v: u32)
    ensures
        v == 5600,
{
    5600
}

pub fn default_true() -> (b: bool)
    ensures
        b,
{
    true
}

/// Default clip transition: a plain cut.
pub fn default_cut_transition() -> (t: TransitionSpec)
    ensures
        t.kind == Transition::Cut,
        t.duration_frames == 0,
        t.curve == Easing::Hold,
        t.match_anchor is None,
        t.direction is None,
{
    TransitionSpec::cut(Transition::Cut)
}

fn copy_option_string(s: &Option<String>) -> (c: Option<String>)
    ensures
        c == *s,
{
    match s {
        Some(t) => Some(t.clone()),
        None => None,
    }
}

impl TargetRef {
    /// An equal copy.
    pub fn duplicate(&self) -> (c: TargetRef)
        ensures
            c == *self,
    {
        match self {
            TargetRef::Subject { id } => TargetRef::Subject { id: id.clone() },
            TargetRef::Marker { id } => TargetRef::Marker { id: id.clone() },
            TargetRef::Point { position } => TargetRef::Point { position: *position },
        }
    }
}

fn copy_option_target(t: &Option<TargetRef>) -> (c: Option<TargetRef>)
    ensures
        c == *t,
{
    match t {
        Some(target) => Some(target.duplicate()),
        None => None,
    }
}

impl MatchAnchor {
    /// An equal copy.
    pub fn duplicate(&self) -> (c: MatchAnchor)
        ensures
            c == *self,
    {
        MatchAnchor {
            subject_id: copy_option_string(&self.subject_id),
            action: copy_option_string(&self.action),
            source_frame: self.source_frame,
            target_frame: self.target_frame,
        }
    }
}

impl TransitionSpec {
    /// An equal copy.
    pub fn duplicate(&self) -> (c: TransitionSpec)
        ensures
            c == *self,
    {
        TransitionSpec {
            kind: self.kind,
            duration_frames: self.duration_frames,
            curve: self.curve,
            match_anchor: match &self.match_anchor {
                Some(anchor) => Some(anchor.duplicate()),
                None => None,
            },
            direction: self.direction,
        }
    }
}

impl ShotRelation {
    /// An equal copy.
    pub fn duplicate(&self) -> (c: ShotRelation)
        ensures
            c == *self,
    {
        ShotRelation { kind: self.kind, shot_id: self.shot_id.clone() }
    }
}

impl CameraOperation {
    /// An equal copy.
    pub fn duplicate(&self) -> (c: CameraOperation)
        ensures
            c == *self,
    {
        match self {
            CameraOperation::Hold => CameraOperation::Hold,
            CameraOperation::Pan { degrees } => CameraOperation::Pan { degrees: *degrees },
            CameraOperation::Tilt { degrees } => CameraOperation::Tilt { degrees: *degrees },
            CameraOperation::Roll { degrees } => CameraOperation::Roll { degrees: *degrees },
            CameraOperation::Dolly { distance_m } => CameraOperation::Dolly { distance_m: *distance_m },
            CameraOperation::Truck { distance_m } => CameraOperation::Truck { distance_m: *distance_m },
            CameraOperation::Pedestal { distance_m } => CameraOperation::Pedestal { distance_m: *distance_m },
            CameraOperation::Translate { delta, space } => CameraOperation::Translate { delta: *delta, space: *space },
            CameraOperation::Rotate { delta_deg, space } => CameraOperation::Rotate {
                delta_deg: *delta_deg,
                space: *space,
            },
            CameraOperation::LookAt { target } => CameraOperation::LookAt { target: target.duplicate() },
            CameraOperation::Orbit { target, azimuth_deg, elevation_deg, radius_m } => CameraOperation::Orbit {
                target: target.duplicate(),
                azimuth_deg: *azimuth_deg,
                elevation_deg: *elevation_deg,
                radius_m: *radius_m,
            },
            CameraOperation::Follow { target, offset, lag_half_life_s, damping } => CameraOperation::Follow {
                target: target.duplicate(),
                offset: *offset,
                lag_half_life_s: *lag_half_life_s,
                damping: *damping,
            },
            CameraOperation::Crane { delta, look_at } => CameraOperation::Crane {
                delta: *delta,
                look_at: copy_option_target(look_at),
            },
            CameraOperation::Zoom { to_focal_length_mm } => CameraOperation::Zoom {
                to_focal_length_mm: *to_focal_length_mm,
            },
            CameraOperation::RackFocus { target, to_distance_m } => CameraOperation::RackFocus {
                target: target.duplicate(),
                to_distance_m: *to_distance_m,
            },
            CameraOperation::DollyZoom { target, to_distance_m, keep_subject_frame_fraction } =>
                CameraOperation::DollyZoom {
                target: target.duplicate(),
                to_distance_m: *to_distance_m,
                keep_subject_frame_fraction: *keep_subject_frame_fraction,
            },
            CameraOperation::HandheldNoise {
                translation_amplitude_m,
                rotation_amplitude_deg,
                frequency_hz,
                seed,
            } => CameraOperation::HandheldNoise {
                translation_amplitude_m: *translation_amplitude_m,
                rotation_amplitude_deg: *rotation_amplitude_deg,
                frequency_hz: *frequency_hz,
                seed: *seed,
            },
            CameraOperation::Reveal { target, occluder, lateral_distance_m } => CameraOperation::Reveal {
                target: target.duplicate(),
                occluder: occluder.duplicate(),
                lateral_distance_m: *lateral_distance_m,
            },
        }
    }
}

impl TimedCameraOperation {
    /// An equal copy.
    pub fn duplicate(&self) -> (c: TimedCameraOperation)
        ensures
            c == *self,
    {
        TimedCameraOperation { range: self.range, easing: self.easing, operation: self.operation.duplicate() }
    }
}

} // verus!
