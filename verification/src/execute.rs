//! What execute-layer adapters export: conditioning passes, their names on
//! the command line and on disk, and the records an adapter hands back.
use vstd::prelude::*;

use crate::diagnostic::{flatten, lemma_flatten_new_step};
use crate::text::{
    decimal, all_white_space, ascii_lower, ascii_lower_seq, ascii_upper_seq, chars_of, is_white_space, lower_ascii_char, owned, push_chars,
    push_str, replace_all, replaced, split_chars, split_on, string_of, trim, trim_end, trim_start, trimmed, views,
};

verus! {

broadcast use vstd::seq_lib::group_seq_properties;

/// `std::path::PathBuf`, carried through as an opaque path.
#[verifier::external_type_specification]
#[verifier::external_body]
pub struct OpaquePathBuf(std::path::PathBuf);

/// An image or record stream an execution profile can request.
#[derive(Debug, Clone, Copy, PartialEq, Eq, Structural)]
pub enum PassKind {
    Beauty,
    MetricDepth,
    NormalizedDepth,
    Normal,
    SubjectId,
    OpticalFlow,
    PoseImage,
    PoseKeypoints,
    Occlusion,
    Camera,
}

pub open spec fn pass_kind_text(kind: PassKind) -> Seq<char> {
    match kind {
        PassKind::Beauty => "beauty"@,
        PassKind::MetricDepth => "depth_metric"@,
        PassKind::NormalizedDepth => "depth_normalized"@,
        PassKind::Normal => "normal"@,
        PassKind::SubjectId => "id"@,
        PassKind::OpticalFlow => "flow"@,
        PassKind::PoseImage => "pose"@,
        PassKind::PoseKeypoints => "pose_keypoints"@,
        PassKind::Occlusion => "occlusion"@,
        PassKind::Camera => "camera"@,
    }
}

impl PassKind {
    /// The pass's file-system name.
    pub fn name(self) -> (s: &'static str)
        ensures
            s@ == pass_kind_text(self),
    {
        match self {
            PassKind::Beauty => "beauty",
            PassKind::MetricDepth => "depth_metric",
            PassKind::NormalizedDepth => "depth_normalized",
            PassKind::Normal => "normal",
            PassKind::SubjectId => "id",
            PassKind::OpticalFlow => "flow",
            PassKind::PoseImage => "pose",
            PassKind::PoseKeypoints => "pose_keypoints",
            PassKind::Occlusion => "occlusion",
            PassKind::Camera => "camera",
        }
    }
}

#[derive(Debug, Clone, Copy, PartialEq, Eq, Structural)]
pub enum PixelEncoding {
    Png8,
    Png16,
    Exr32Float,
    Json,
    Npz,
}

#[derive(Debug, Clone, Copy, PartialEq, Eq, Structural)]
pub enum ColorSpace {
    Srgb,
    Linear,
    Data,
}

#[derive(Debug, Clone, Copy, PartialEq, Eq, Structural)]
pub enum ChannelLayout {
    Gray,
    Rgb,
    Rgba,
    Xy,
    JsonRecords,
    Matrix,
}

/// What an adapter can produce.
#[derive(Debug, Clone)]
pub struct AdapterCapabilities {
    pub supports_metric_depth: bool,
    pub supports_optical_flow: bool,
    pub supports_pose: bool,
    pub supports_lighting: bool,
    pub supports_focus: bool,
    pub supports_camera_matrices: bool,
    pub supports_transitions: bool,
    pub supported_passes: Vec<PassKind>,
}

/// Every pass kind, in declaration order.
pub open spec fn every_pass_kind() -> Seq<PassKind> {
    seq![
        PassKind::Beauty,
        PassKind::MetricDepth,
        PassKind::NormalizedDepth,
        PassKind::Normal,
        PassKind::SubjectId,
        PassKind::OpticalFlow,
        PassKind::PoseImage,
        PassKind::PoseKeypoints,
        PassKind::Occlusion,
        PassKind::Camera,
    ]
}

/// What the Blender adapter produces: every pass kind, metric depth, flow,
/// pose, lighting, focus and camera matrices, but no transitions.
pub fn blender_capabilities() -> (c: AdapterCapabilities)
    ensures
        c.supports_metric_depth,
        c.supports_optical_flow,
        c.supports_pose,
        c.supports_lighting,
        c.supports_focus,
        c.supports_camera_matrices,
        !c.supports_transitions,
        c.supported_passes@ == every_pass_kind(),
{
    let passes = vec![
        PassKind::Beauty,
        PassKind::MetricDepth,
        PassKind::NormalizedDepth,
        PassKind::Normal,
        PassKind::SubjectId,
        PassKind::OpticalFlow,
        PassKind::PoseImage,
        PassKind::PoseKeypoints,
        PassKind::Occlusion,
        PassKind::Camera,
    ];
    assert(passes@ =~= every_pass_kind());
    AdapterCapabilities {
        supports_metric_depth: true,
        supports_optical_flow: true,
        supports_pose: true,
        supports_lighting: true,
        supports_focus: true,
        supports_camera_matrices: true,
        supports_transitions: false,
        supported_passes: passes,
    }
}

/// What a target video model accepts as conditioning.
#[derive(Debug, Clone)]
pub struct VideoModelProfile {
    pub name: String,
    pub supports_text_timeline: bool,
    pub supports_start_end_frames: bool,
    pub supports_dense_control_video: bool,
    pub supports_depth: bool,
    pub supports_pose: bool,
    pub supports_segmentation: bool,
    pub supports_camera_trajectory: bool,
    pub supports_negative_prompt: bool,
    pub maximum_frames: Option<u32>,
}

/// The generic dense-control model: it takes every kind of dense control,
/// with no frame limit.
pub open spec fn is_generic_dense_model(profile: VideoModelProfile) -> bool {
    &&& profile.name@ == "generic_dense_control"@
    &&& profile.supports_text_timeline
    &&& profile.supports_start_end_frames
    &&& profile.supports_dense_control_video
    &&& profile.supports_depth
    &&& profile.supports_pose
    &&& profile.supports_segmentation
    &&& profile.supports_camera_trajectory
    &&& profile.supports_negative_prompt
    &&& profile.maximum_frames is None
}

impl Default for VideoModelProfile {
    /// A model that takes every kind of dense control, with no frame limit.
    fn default() -> (profile: VideoModelProfile)
        ensures
            is_generic_dense_model(profile),
    {
        VideoModelProfile {
            name: owned("generic_dense_control"),
            supports_text_timeline: true,
            supports_start_end_frames: true,
            supports_dense_control_video: true,
            supports_depth: true,
            supports_pose: true,
            supports_segmentation: true,
            supports_camera_trajectory: true,
            supports_negative_prompt: true,
            maximum_frames: None,
        }
    }
}

/// Where an execution wrote its bundle for one scene.
#[derive(Debug)]
pub struct ExecutionBundle {
    pub scene_id: String,
    pub root: std::path::PathBuf,
    pub manifest_path: std::path::PathBuf,
    pub complete_path: std::path::PathBuf,
    pub executed: bool,
}

/// Conditioning channels an adapter can export, in declaration order.
#[derive(Debug, Clone, Copy, PartialEq, Eq, Structural)]
pub enum ConditioningPass {
    /// Shaded clay render; source for edge/canny post-processing.
    Beauty,
    /// Normalised inverse depth, near = white.
    Depth,
    /// Metric camera-space depth in metres.
    DepthMetric,
    /// Camera-space normals encoded as RGB.
    Normal,
    /// Flat per-subject colours: segmentation / identity.
    ObjectIndex,
    /// Motion vectors.
    Vector,
    /// OpenPose-style coloured skeleton on black.
    OpenPose,
    /// Visible proxy mask used with depth to reason about occlusion.
    Occlusion,
    /// Numeric camera intrinsics/extrinsics.
    Camera,
    /// Authored pose/gaze/contact records.
    PoseKeypoints,
}

/// The directory and command-line name of a pass.
pub open spec fn pass_text(pass: ConditioningPass) -> Seq<char> {
    match pass {
        ConditioningPass::Beauty => "beauty"@,
        ConditioningPass::Depth => "depth"@,
        ConditioningPass::DepthMetric => "depth_metric"@,
        ConditioningPass::Normal => "normal"@,
        ConditioningPass::ObjectIndex => "id"@,
        ConditioningPass::Vector => "vector"@,
        ConditioningPass::OpenPose => "openpose"@,
        ConditioningPass::Occlusion => "occlusion"@,
        ConditioningPass::Camera => "camera"@,
        ConditioningPass::PoseKeypoints => "pose_keypoints"@,
    }
}

/// The pass a lower-case, trimmed name (or one of its aliases) denotes.
pub open spec fn pass_named(name: Seq<char>) -> Option<ConditioningPass> {
    if name == "beauty"@ || name == "combined"@ {
        Some(ConditioningPass::Beauty)
    } else if name == "depth"@ || name == "z"@ {
        Some(ConditioningPass::Depth)
    } else if name == "depth_metric"@ || name == "metric_depth"@ {
        Some(ConditioningPass::DepthMetric)
    } else if name == "normal"@ {
        Some(ConditioningPass::Normal)
    } else if name == "id"@ || name == "seg"@ || name == "object_index"@ || name == "index"@ {
        Some(ConditioningPass::ObjectIndex)
    } else if name == "vector"@ || name == "flow"@ {
        Some(ConditioningPass::Vector)
    } else if name == "openpose"@ || name == "pose"@ {
        Some(ConditioningPass::OpenPose)
    } else if name == "occlusion"@ || name == "occ"@ {
        Some(ConditioningPass::Occlusion)
    } else if name == "camera"@ || name == "camera_json"@ {
        Some(ConditioningPass::Camera)
    } else if name == "pose_keypoints"@ || name == "pose_json"@ {
        Some(ConditioningPass::PoseKeypoints)
    } else {
        None
    }
}

/// `ConditioningPass::parse`: the name trimmed and ASCII-lower-cased.
pub open spec fn parse_pass(text: Seq<char>) -> Option<ConditioningPass> {
    pass_named(ascii_lower_seq(trim(text)))
}

/// `v` holds exactly the characters of `name`.
fn chars_equal(v: &Vec<char>, name: &str) -> (b: bool)
    ensures
        b == (v@ == name@),
{
    let w = chars_of(name);
    if v.len() != w.len() {
        return false;
    }
    let mut i: usize = 0;
    while i < v.len()
        invariant
            i <= v.len(),
            v.len() == w.len(),
            w@ == name@,
            forall|k: int| 0 <= k < i ==> v@[k] == w@[k],
        decreases v.len() - i,
    {
        if v[i] != w[i] {
            return false;
        }
        i = i + 1;
    }
    assert(v@ =~= w@);
    true
}

fn pass_named_exec(name: &Vec<char>) -> (pass: Option<ConditioningPass>)
    ensures
        pass == pass_named(name@),
{
    if chars_equal(name, "beauty") || chars_equal(name, "combined") {
        Some(ConditioningPass::Beauty)
    } else if chars_equal(name, "depth") || chars_equal(name, "z") {
        Some(ConditioningPass::Depth)
    } else if chars_equal(name, "depth_metric") || chars_equal(name, "metric_depth") {
        Some(ConditioningPass::DepthMetric)
    } else if chars_equal(name, "normal") {
        Some(ConditioningPass::Normal)
    } else if chars_equal(name, "id") || chars_equal(name, "seg") || chars_equal(name, "object_index")
        || chars_equal(name, "index") {
        Some(ConditioningPass::ObjectIndex)
    } else if chars_equal(name, "vector") || chars_equal(name, "flow") {
        Some(ConditioningPass::Vector)
    } else if chars_equal(name, "openpose") || chars_equal(name, "pose") {
        Some(ConditioningPass::OpenPose)
    } else if chars_equal(name, "occlusion") || chars_equal(name, "occ") {
        Some(ConditioningPass::Occlusion)
    } else if chars_equal(name, "camera") || chars_equal(name, "camera_json") {
        Some(ConditioningPass::Camera)
    } else if chars_equal(name, "pose_keypoints") || chars_equal(name, "pose_json") {
        Some(ConditioningPass::PoseKeypoints)
    } else {
        None
    }
}

fn lower_chars(v: &Vec<char>) -> (w: Vec<char>)
    ensures
        w@ == ascii_lower_seq(v@),
{
    let mut w: Vec<char> = Vec::new();
    let mut i: usize = 0;
    while i < v.len()
        invariant
            i <= v.len(),
            w@ == ascii_lower_seq(v@.take(i as int)),
        decreases v.len() - i,
    {
        w.push(lower_ascii_char(v[i]));
        assert(ascii_lower_seq(v@.take(i + 1)) =~= ascii_lower_seq(v@.take(i as int)).push(ascii_lower(v@[i as int])));
        i = i + 1;
    }
    assert(v@.take(v.len() as int) =~= v@);
    w
}

fn parse_pass_chars(v: &Vec<char>) -> (pass: Option<ConditioningPass>)
    ensures
        pass == parse_pass(v@),
{
    pass_named_exec(&lower_chars(&trimmed(v)))
}

pub open spec fn unknown_pass_message(item: Seq<char>) -> Seq<char> {
    "unknown pass '"@ + trim(item) + "'"@
}

/// The list parse from piece `k` on, with the passes `acc` already taken.
pub open spec fn parse_pieces(pieces: Seq<Seq<char>>, k: int, acc: Seq<ConditioningPass>) -> Result<
    Seq<ConditioningPass>,
    Seq<char>,
>
    decreases pieces.len() - k,
{
    if k < 0 || k >= pieces.len() {
        if acc.len() == 0 {
            Err("at least one pass is required"@)
        } else {
            Ok(acc)
        }
    } else if all_white_space(pieces[k]) {
        parse_pieces(pieces, k + 1, acc)
    } else {
        match parse_pass(pieces[k]) {
            None => Err(unknown_pass_message(pieces[k])),
            Some(p) => parse_pieces(pieces, k + 1, if acc.contains(p) { acc } else { acc.push(p) }),
        }
    }
}

/// `ConditioningPass::parse_list`: the comma-separated names, blank ones
/// skipped, each pass once in order of first mention; an unknown name or an
/// empty list is an error.
pub open spec fn parse_pass_list(text: Seq<char>) -> Result<Seq<ConditioningPass>, Seq<char>> {
    parse_pieces(split_on(text, ','), 0, Seq::empty())
}

fn contains_pass(passes: &Vec<ConditioningPass>, p: ConditioningPass) -> (b: bool)
    ensures
        b == passes@.contains(p),
{
    let mut i: usize = 0;
    while i < passes.len()
        invariant
            i <= passes.len(),
            forall|k: int| 0 <= k < i ==> passes@[k] != p,
        decreases passes.len() - i,
    {
        if passes[i] == p {
            assert(passes@[i as int] == p);
            return true;
        }
        i = i + 1;
    }
    false
}

fn blank_chars(v: &Vec<char>) -> (b: bool)
    ensures
        b == all_white_space(v@),
{
    let mut i: usize = 0;
    while i < v.len()
        invariant
            i <= v.len(),
            forall|j: int| 0 <= j < i ==> is_white_space(#[trigger] v@[j]),
        decreases v.len() - i,
    {
        if !crate::text::white_space(v[i]) {
            return false;
        }
        i = i + 1;
    }
    true
}

impl ConditioningPass {
    /// Every pass, in declaration order.
    pub fn all() -> (passes: Vec<ConditioningPass>)
        ensures
            passes@ == seq![
                ConditioningPass::Beauty,
                ConditioningPass::Depth,
                ConditioningPass::DepthMetric,
                ConditioningPass::Normal,
                ConditioningPass::ObjectIndex,
                ConditioningPass::Vector,
                ConditioningPass::OpenPose,
                ConditioningPass::Occlusion,
                ConditioningPass::Camera,
                ConditioningPass::PoseKeypoints,
            ],
    {
        vec![
            ConditioningPass::Beauty,
            ConditioningPass::Depth,
            ConditioningPass::DepthMetric,
            ConditioningPass::Normal,
            ConditioningPass::ObjectIndex,
            ConditioningPass::Vector,
            ConditioningPass::OpenPose,
            ConditioningPass::Occlusion,
            ConditioningPass::Camera,
            ConditioningPass::PoseKeypoints,
        ]
    }

    /// Directory / command-line name.
    pub fn name(self) -> (s: &'static str)
        ensures
            s@ == pass_text(self),
    {
        match self {
            ConditioningPass::Beauty => "beauty",
            ConditioningPass::Depth => "depth",
            ConditioningPass::DepthMetric => "depth_metric",
            ConditioningPass::Normal => "normal",
            ConditioningPass::ObjectIndex => "id",
            ConditioningPass::Vector => "vector",
            ConditioningPass::OpenPose => "openpose",
            ConditioningPass::Occlusion => "occlusion",
            ConditioningPass::Camera => "camera",
            ConditioningPass::PoseKeypoints => "pose_keypoints",
        }
    }

    /// The pass a name or alias denotes, ignoring surrounding white space
    /// and ASCII case.
    pub fn parse(name: &str) -> (pass: Option<ConditioningPass>)
        ensures
            pass == parse_pass(name@),
    {
        parse_pass_chars(&chars_of(name))
    }

    /// Parses a comma-separated list, rejecting unknown names.
    pub fn parse_list(text: &str) -> (result: Result<Vec<ConditioningPass>, String>)
        ensures
            match result {
                Ok(passes) => parse_pass_list(text@) == Ok::<Seq<ConditioningPass>, Seq<char>>(passes@),
                Err(message) => parse_pass_list(text@) == Err::<Seq<ConditioningPass>, Seq<char>>(message@),
            },
    {
        let pieces = split_chars(&chars_of(text), ',');
        let ghost ps = views(pieces@);
        let mut passes: Vec<ConditioningPass> = Vec::new();
        let mut k: usize = 0;
        while k < pieces.len()
            invariant
                k <= pieces.len(),
                ps == views(pieces@),
                ps == split_on(text@, ','),
                parse_pass_list(text@) == parse_pieces(ps, k as int, passes@),
            decreases pieces.len() - k,
        {
            let item = &pieces[k];
            assert(item@ == ps[k as int]);
            if !blank_chars(item) {
                match parse_pass_chars(item) {
                    None => {
                        let mut message = owned("unknown pass '");
                        push_chars(&mut message, &trimmed(item));
                        push_str(&mut message, "'");
                        return Err(message);
                    },
                    Some(p) => {
                        if !contains_pass(&passes, p) {
                            passes.push(p);
                        }
                    },
                }
            }
            k = k + 1;
        }
        if passes.len() == 0 {
            return Err(owned("at least one pass is required"));
        }
        Ok(passes)
    }
}

/// The conditioning pass that exports a profile's pass kind.
pub open spec fn conditioning_of(kind: PassKind) -> ConditioningPass {
    match kind {
        PassKind::Beauty => ConditioningPass::Beauty,
        PassKind::MetricDepth => ConditioningPass::DepthMetric,
        PassKind::NormalizedDepth => ConditioningPass::Depth,
        PassKind::Normal => ConditioningPass::Normal,
        PassKind::SubjectId => ConditioningPass::ObjectIndex,
        PassKind::OpticalFlow => ConditioningPass::Vector,
        PassKind::PoseImage => ConditioningPass::OpenPose,
        PassKind::PoseKeypoints => ConditioningPass::PoseKeypoints,
        PassKind::Occlusion => ConditioningPass::Occlusion,
        PassKind::Camera => ConditioningPass::Camera,
    }
}

pub fn conditioning_for_kind(kind: PassKind) -> (pass: ConditioningPass)
    ensures
        pass == conditioning_of(kind),
{
    match kind {
        PassKind::Beauty => ConditioningPass::Beauty,
        PassKind::MetricDepth => ConditioningPass::DepthMetric,
        PassKind::NormalizedDepth => ConditioningPass::Depth,
        PassKind::Normal => ConditioningPass::Normal,
        PassKind::SubjectId => ConditioningPass::ObjectIndex,
        PassKind::OpticalFlow => ConditioningPass::Vector,
        PassKind::PoseImage => ConditioningPass::OpenPose,
        PassKind::PoseKeypoints => ConditioningPass::PoseKeypoints,
        PassKind::Occlusion => ConditioningPass::Occlusion,
        PassKind::Camera => ConditioningPass::Camera,
    }
}

/// The passes the first `n` kinds call for, each once, in order of first
/// mention.
pub open spec fn passes_for_kinds(kinds: Seq<PassKind>, n: nat) -> Seq<ConditioningPass>
    decreases n,
{
    if n == 0 {
        Seq::empty()
    } else {
        let acc = passes_for_kinds(kinds, (n - 1) as nat);
        let p = conditioning_of(kinds[n - 1]);
        if acc.contains(p) { acc } else { acc.push(p) }
    }
}

/// The conditioning passes a profile's pass kinds call for, each once in
/// order of first mention; an error when there are none.
pub fn conditioning_passes(kinds: &Vec<PassKind>) -> (result: Result<Vec<ConditioningPass>, String>)
    ensures
        match result {
            Ok(passes) => passes@ == passes_for_kinds(kinds@, kinds@.len()) && passes@.len() > 0,
            Err(message) => passes_for_kinds(kinds@, kinds@.len()).len() == 0 && message@
                == "execution profile requests no supported passes"@,
        },
{
    let mut passes: Vec<ConditioningPass> = Vec::new();
    let mut i: usize = 0;
    while i < kinds.len()
        invariant
            i <= kinds.len(),
            passes@ == passes_for_kinds(kinds@, i as nat),
        decreases kinds.len() - i,
    {
        let pass = conditioning_for_kind(kinds[i]);
        if !contains_pass(&passes, pass) {
            passes.push(pass);
        }
        i = i + 1;
    }
    if passes.len() == 0 {
        return Err(owned("execution profile requests no supported passes"));
    }
    Ok(passes)
}

/// What an adapter produced for one scene.
#[derive(Debug)]
pub struct ScenePassOutput {
    pub scene_id: String,
    pub out_dir: std::path::PathBuf,
    pub script_path: std::path::PathBuf,
    pub manifest_path: std::path::PathBuf,
    /// `true` when the external runtime actually ran and exited successfully.
    pub executed: bool,
}

#[derive(Debug)]
pub struct PassOutput {
    pub passes: Vec<ConditioningPass>,
    pub scenes: Vec<ScenePassOutput>,
    /// Runtime executable used, when one ran.
    pub runtime: Option<std::path::PathBuf>,
}

/// JSON text escaped for a single-quoted Python string literal: each
/// backslash doubled, then each single quote backslash-escaped.
pub open spec fn python_quoted(json: Seq<char>) -> Seq<char> {
    replace_all(replace_all(json, "\\"@, "\\\\"@), "'"@, "\\'"@)
}

pub fn python_single_quoted(json: &str) -> (quoted: String)
    ensures
        quoted@ == python_quoted(json@),
{
    let backslash = chars_of("\\");
    let doubled = chars_of("\\\\");
    let quote = chars_of("'");
    let escaped_quote = chars_of("\\'");
    proof {
        reveal_strlit("\\");
        reveal_strlit("'");
    }
    let step = replaced(&chars_of(json), &backslash, &doubled);
    string_of(&replaced(&step, &quote, &escaped_quote))
}

/// Text with no white space at either end is its own trim.
proof fn lemma_trim_unchanged(s: Seq<char>)
    requires
        s.len() > 0,
        !is_white_space(s[0]),
        !is_white_space(s.last()),
    ensures
        trim(s) == s,
{
}

/// Text without ASCII capitals is its own ASCII lower case.
proof fn lemma_lower_unchanged(s: Seq<char>)
    requires
        forall|i: int| 0 <= i < s.len() ==> !('A' <= #[trigger] s[i] <= 'Z'),
    ensures
        ascii_lower_seq(s) == s,
{
    assert(ascii_lower_seq(s) =~= s);
}

/// Every pass parses back from its own name.
pub proof fn lemma_pass_name_round_trip(pass: ConditioningPass)
    ensures
        parse_pass(pass_text(pass)) == Some(pass),
{
    reveal_strlit("beauty");
    reveal_strlit("combined");
    reveal_strlit("depth");
    reveal_strlit("z");
    reveal_strlit("depth_metric");
    reveal_strlit("metric_depth");
    reveal_strlit("normal");
    reveal_strlit("id");
    reveal_strlit("seg");
    reveal_strlit("object_index");
    reveal_strlit("index");
    reveal_strlit("vector");
    reveal_strlit("flow");
    reveal_strlit("openpose");
    reveal_strlit("pose");
    reveal_strlit("occlusion");
    reveal_strlit("occ");
    reveal_strlit("camera");
    reveal_strlit("camera_json");
    reveal_strlit("pose_keypoints");
    reveal_strlit("pose_json");
    let name = pass_text(pass);
    lemma_trim_unchanged(name);
    lemma_lower_unchanged(name);
}

proof fn lemma_trim_start_skips(pad: Seq<char>, s: Seq<char>)
    requires
        all_white_space(pad),
    ensures
        trim_start(pad + s) == trim_start(s),
    decreases pad.len(),
{
    if pad.len() > 0 {
        assert((pad + s).drop_first() =~= pad.drop_first() + s);
        lemma_trim_start_skips(pad.drop_first(), s);
    } else {
        assert(pad + s =~= s);
    }
}

proof fn lemma_trim_end_skips(s: Seq<char>, pad: Seq<char>)
    requires
        all_white_space(pad),
    ensures
        trim_end(s + pad) == trim_end(s),
    decreases pad.len(),
{
    if pad.len() > 0 {
        assert((s + pad).drop_last() =~= s + pad.drop_last());
        lemma_trim_end_skips(s, pad.drop_last());
    } else {
        assert(s + pad =~= s);
    }
}

/// Every pass name is made of lower-case letters and `_`, and starts and
/// ends with a letter.
proof fn lemma_pass_text_shape(pass: ConditioningPass)
    ensures
        pass_text(pass).len() > 0,
        'a' <= pass_text(pass)[0] <= 'z',
        'a' <= pass_text(pass).last() <= 'z',
        forall|i: int| 0 <= i < pass_text(pass).len() ==> ('a' <= #[trigger] pass_text(pass)[i] <= 'z') || pass_text(
            pass,
        )[i] == '_',
{
    reveal_strlit("beauty");
    reveal_strlit("depth");
    reveal_strlit("depth_metric");
    reveal_strlit("normal");
    reveal_strlit("id");
    reveal_strlit("vector");
    reveal_strlit("openpose");
    reveal_strlit("occlusion");
    reveal_strlit("camera");
    reveal_strlit("pose_keypoints");
}

/// A pass's name parses back to the pass whatever its letter case and
/// however much white space surrounds it: any text that lower-cases (ASCII)
/// to the name, with white space before and after, parses to the pass.
pub proof fn lemma_pass_name_parses_padded(pass: ConditioningPass, front: Seq<char>, name: Seq<char>, back: Seq<char>)
    requires
        all_white_space(front),
        all_white_space(back),
        ascii_lower_seq(name) == pass_text(pass),
    ensures
        parse_pass(front + name + back) == Some(pass),
{
    lemma_pass_text_shape(pass);
    let text = pass_text(pass);
    assert(name.len() == text.len());
    assert(ascii_lower(name[0]) == text[0]);
    assert(ascii_lower(name.last()) == text[text.len() - 1]);
    assert(!is_white_space(name[0]));
    assert(!is_white_space(name.last()));
    lemma_trim_start_skips(front, name + back);
    assert(front + name + back =~= front + (name + back));
    assert(trim_start(name + back) == name + back);
    lemma_trim_end_skips(name, back);
    lemma_trim_unchanged(name);
    assert(trim(front + name + back) == name);
    lemma_pass_name_round_trip(pass);
    lemma_trim_unchanged(text);
    assert forall|i: int| 0 <= i < text.len() implies !('A' <= #[trigger] text[i] <= 'Z') by {
        assert(('a' <= text[i] <= 'z') || text[i] == '_');
    }
    lemma_lower_unchanged(text);
}

/// Every pass parses back from its own name (what `ConditioningPass::name`
/// gives), and from that name in capitals between spaces (as
/// `ConditioningPass::parse` reads `format!("  {}  ", name.to_ascii_uppercase())`).
pub proof fn lemma_parse_own_name(pass: ConditioningPass)
    ensures
        parse_pass(pass_text(pass)) == Some(pass),
        parse_pass(seq![' ', ' '] + ascii_upper_seq(pass_text(pass)) + seq![' ', ' ']) == Some(pass),
{
    lemma_pass_name_round_trip(pass);
    lemma_pass_text_shape(pass);
    let text = pass_text(pass);
    let upper = ascii_upper_seq(text);
    assert forall|i: int| 0 <= i < text.len() implies #[trigger] ascii_lower(upper[i]) == text[i] by {
        assert(('a' <= text[i] <= 'z') || text[i] == '_');
    }
    assert(ascii_lower_seq(upper) =~= text);
    assert(all_white_space(seq![' ', ' ']));
    lemma_pass_name_parses_padded(pass, seq![' ', ' '], upper, seq![' ', ' ']);
}

/// The pieces that are not blank, in order.
pub open spec fn nonblank_items(pieces: Seq<Seq<char>>) -> Seq<Seq<char>>
    decreases pieces.len(),
{
    if pieces.len() == 0 {
        Seq::empty()
    } else if all_white_space(pieces[0]) {
        nonblank_items(pieces.drop_first())
    } else {
        seq![pieces[0]] + nonblank_items(pieces.drop_first())
    }
}

/// The first item that names no pass, if any.
pub open spec fn first_unknown(items: Seq<Seq<char>>) -> Option<Seq<char>>
    decreases items.len(),
{
    if items.len() == 0 {
        None
    } else if parse_pass(items[0]) is None {
        Some(items[0])
    } else {
        first_unknown(items.drop_first())
    }
}

/// The passes the items name (each item naming one).
pub open spec fn parsed_items(items: Seq<Seq<char>>) -> Seq<ConditioningPass> {
    items.map_values(|x: Seq<char>| parse_pass(x)->0)
}

/// `acc` followed by each of `passes` not taken before, in order of first
/// occurrence.
pub open spec fn add_new(acc: Seq<ConditioningPass>, passes: Seq<ConditioningPass>) -> Seq<ConditioningPass>
    decreases passes.len(),
{
    if passes.len() == 0 {
        acc
    } else {
        add_new(if acc.contains(passes[0]) { acc } else { acc.push(passes[0]) }, passes.drop_first())
    }
}

/// What a list parse that has taken `acc` makes of the remaining items.
pub open spec fn list_outcome(acc: Seq<ConditioningPass>, items: Seq<Seq<char>>) -> Result<
    Seq<ConditioningPass>,
    Seq<char>,
> {
    match first_unknown(items) {
        Some(x) => Err(unknown_pass_message(x)),
        None => {
            let r = add_new(acc, parsed_items(items));
            if r.len() == 0 {
                Err("at least one pass is required"@)
            } else {
                Ok(r)
            }
        },
    }
}

proof fn lemma_add_new_grows(acc: Seq<ConditioningPass>, passes: Seq<ConditioningPass>)
    ensures
        add_new(acc, passes).len() >= acc.len(),
        acc.len() == 0 && passes.len() > 0 ==> add_new(acc, passes).len() > 0,
    decreases passes.len(),
{
    if passes.len() > 0 {
        let next = if acc.contains(passes[0]) { acc } else { acc.push(passes[0]) };
        lemma_add_new_grows(next, passes.drop_first());
    }
}

proof fn lemma_parse_pieces_outcome(pieces: Seq<Seq<char>>, k: int, acc: Seq<ConditioningPass>)
    requires
        0 <= k <= pieces.len(),
    ensures
        parse_pieces(pieces, k, acc) == list_outcome(acc, nonblank_items(pieces.skip(k))),
    decreases pieces.len() - k,
{
    let rest = pieces.skip(k);
    if k == pieces.len() {
        assert(rest.len() == 0);
        assert(nonblank_items(rest) =~= Seq::<Seq<char>>::empty());
        assert(parsed_items(Seq::<Seq<char>>::empty()) =~= Seq::<ConditioningPass>::empty());
    } else {
        assert(rest[0] == pieces[k]);
        assert(rest.drop_first() =~= pieces.skip(k + 1));
        lemma_parse_pieces_outcome(pieces, k + 1, acc);
        if !all_white_space(pieces[k]) {
            let items = nonblank_items(rest);
            let tail = nonblank_items(pieces.skip(k + 1));
            assert(items == seq![pieces[k]] + tail);
            assert(items[0] == pieces[k]);
            assert(items.drop_first() =~= tail);
            match parse_pass(pieces[k]) {
                None => {},
                Some(p) => {
                    let next = if acc.contains(p) { acc } else { acc.push(p) };
                    lemma_parse_pieces_outcome(pieces, k + 1, next);
                    assert(parsed_items(items)[0] == p);
                    assert(parsed_items(items).drop_first() =~= parsed_items(tail));
                },
            }
        }
    }
}

/// `ConditioningPass::parse_list` in words: take the comma-separated pieces
/// that are not blank; none is an error; otherwise the first that names no
/// pass is refused by name; otherwise the passes they name, each once, in
/// order of first mention.
pub proof fn lemma_pass_list_law(text: Seq<char>)
    ensures
        ({
            let items = nonblank_items(split_on(text, ','));
            &&& items.len() == 0 ==> parse_pass_list(text) == Err::<Seq<ConditioningPass>, Seq<char>>(
                "at least one pass is required"@,
            )
            &&& first_unknown(items) matches Some(x) ==> parse_pass_list(text) == Err::<
                Seq<ConditioningPass>,
                Seq<char>,
            >(unknown_pass_message(x))
            &&& items.len() > 0 && first_unknown(items) is None ==> parse_pass_list(text) == Ok::<
                Seq<ConditioningPass>,
                Seq<char>,
            >(add_new(Seq::empty(), parsed_items(items)))
        }),
{
    let pieces = split_on(text, ',');
    assert(pieces.skip(0) =~= pieces);
    lemma_parse_pieces_outcome(pieces, 0, Seq::empty());
    let items = nonblank_items(pieces);
    lemma_add_new_grows(Seq::empty(), parsed_items(items));
    if items.len() == 0 {
        assert(parsed_items(items) =~= Seq::<ConditioningPass>::empty());
    }
}

/// A parsed pass list is never empty and names no pass twice.
pub proof fn lemma_pass_list_distinct(text: Seq<char>)
    ensures
        parse_pass_list(text) matches Ok(passes) ==> passes.len() > 0 && passes.no_duplicates(),
{
    lemma_parse_pieces_distinct(split_on(text, ','), 0, Seq::empty());
}

proof fn lemma_parse_pieces_distinct(pieces: Seq<Seq<char>>, k: int, acc: Seq<ConditioningPass>)
    requires
        acc.no_duplicates(),
    ensures
        parse_pieces(pieces, k, acc) matches Ok(passes) ==> passes.len() > 0 && passes.no_duplicates(),
    decreases pieces.len() - k,
{
    if 0 <= k < pieces.len() && !all_white_space(pieces[k]) {
        match parse_pass(pieces[k]) {
            Some(p) => {
                if !acc.contains(p) {
                    assert(acc.push(p).no_duplicates()) by {
                        assert forall|i: int, j: int| 0 <= i < j < acc.push(p).len() implies acc.push(p)[i]
                            != acc.push(p)[j] by {
                            if j == acc.len() {
                                assert(acc.contains(acc[i]));
                            }
                        }
                    }
                    lemma_parse_pieces_distinct(pieces, k + 1, acc.push(p));
                } else {
                    lemma_parse_pieces_distinct(pieces, k + 1, acc);
                }
            },
            None => {},
        }
    } else if 0 <= k < pieces.len() {
        lemma_parse_pieces_distinct(pieces, k + 1, acc);
    }
}

// ----------------------------------------------------------------------
// Checking what a render wrote
// ----------------------------------------------------------------------

/// Passes written as one metadata file rather than one image per frame.
pub open spec fn is_metadata(pass: ConditioningPass) -> bool {
    pass == ConditioningPass::Camera || pass == ConditioningPass::PoseKeypoints
}

pub fn is_metadata_pass(pass: ConditioningPass) -> (b: bool)
    ensures
        b == is_metadata(pass),
{
    pass == ConditioningPass::Camera || pass == ConditioningPass::PoseKeypoints
}

/// The extension of a pass's frame files: OpenEXR for flow and metric
/// depth, PNG otherwise.
pub fn frame_extension(pass: ConditioningPass) -> (ext: &'static str)
    ensures
        ext@ == (if pass == ConditioningPass::Vector || pass == ConditioningPass::DepthMetric { "exr"@ } else { "png"@ }),
{
    if pass == ConditioningPass::Vector || pass == ConditioningPass::DepthMetric {
        "exr"
    } else {
        "png"
    }
}

/// Frames a render of the inclusive range `first..=last` writes.
pub open spec fn frames_written(first: u64, last: u64) -> int {
    (if last >= first { last - first } else { 0 }) + 1
}

/// Every pass in order of name.
pub open spec fn passes_by_name() -> Seq<ConditioningPass> {
    seq![
        ConditioningPass::Beauty,
        ConditioningPass::Camera,
        ConditioningPass::Depth,
        ConditioningPass::DepthMetric,
        ConditioningPass::ObjectIndex,
        ConditioningPass::Normal,
        ConditioningPass::Occlusion,
        ConditioningPass::OpenPose,
        ConditioningPass::PoseKeypoints,
        ConditioningPass::Vector,
    ]
}

/// Index of the first of the first `n` image passes whose frame count
/// differs from `expected`.
pub open spec fn first_miscount(passes: Seq<ConditioningPass>, found: Seq<u64>, expected: int, n: nat) -> Option<int>
    decreases n,
{
    if n == 0 {
        None
    } else {
        match first_miscount(passes, found, expected, (n - 1) as nat) {
            Some(i) => Some(i),
            None => if !is_metadata(passes[n - 1]) && found[n - 1] != expected { Some(n - 1) } else { None },
        }
    }
}

/// The count recorded for a pass: 1 for a metadata file, otherwise the
/// frames written.
pub open spec fn inventory_count(pass: ConditioningPass, expected: int) -> int {
    if is_metadata(pass) { 1 } else { expected }
}

/// The inventory of a render: the first image pass whose count of frame
/// files (`found`, by pass) is not the number of frames rendered is an
/// error; otherwise each pass once, by name, with its count.
pub open spec fn inventory_of(passes: Seq<ConditioningPass>, found: Seq<u64>, first: u64, last: u64) -> Result<
    Seq<(Seq<char>, int)>,
    Seq<char>,
> {
    let expected = frames_written(first, last);
    match first_miscount(passes, found, expected, passes.len()) {
        Some(i) => Err(
            "pass '"@ + pass_text(passes[i]) + "' produced "@ + decimal(found[i] as nat) + " frame(s), expected "@
                + decimal(expected as nat),
        ),
        None => Ok(
            flatten(
                Seq::new(
                    10,
                    |k: int| if passes.contains(passes_by_name()[k]) {
                        seq![(pass_text(passes_by_name()[k]), inventory_count(passes_by_name()[k], expected))]
                    } else {
                        Seq::empty()
                    },
                ),
            ),
        ),
    }
}

proof fn lemma_first_miscount_stable(passes: Seq<ConditioningPass>, found: Seq<u64>, expected: int, m: nat, n: nat)
    requires
        m <= n <= passes.len(),
        first_miscount(passes, found, expected, m) is Some,
    ensures
        first_miscount(passes, found, expected, n) == first_miscount(passes, found, expected, m),
    decreases n - m,
{
    if n > m {
        lemma_first_miscount_stable(passes, found, expected, m, (n - 1) as nat);
    }
}

pub open spec fn inventory_views(entries: Seq<(String, u64)>) -> Seq<(Seq<char>, int)> {
    entries.map_values(|e: (String, u64)| (e.0@, e.1 as int))
}

/// Checks what a render of frames `first..=last` wrote: `found[i]` frame
/// files were found for `passes[i]` (metadata passes count once).
pub fn pass_inventory(passes: &Vec<ConditioningPass>, first: u64, last: u64, found: &Vec<u64>) -> (result: Result<
    Vec<(String, u64)>,
    String,
>)
    requires
        found.len() == passes.len(),
        last < u64::MAX || first > 0,
    ensures
        match result {
            Ok(entries) => inventory_of(passes@, found@, first, last) == Ok::<Seq<(Seq<char>, int)>, Seq<char>>(
                inventory_views(entries@),
            ),
            Err(message) => inventory_of(passes@, found@, first, last) == Err::<Seq<(Seq<char>, int)>, Seq<char>>(
                message@,
            ),
        },
{
    let span: u64 = if last >= first { last - first } else { 0 };
    let expected: u64 = span + 1;
    let mut i: usize = 0;
    while i < passes.len()
        invariant
            i <= passes.len(),
            found.len() == passes.len(),
            expected == frames_written(first, last),
            first_miscount(passes@, found@, expected as int, i as nat) is None,
        decreases passes.len() - i,
    {
        if !is_metadata_pass(passes[i]) && found[i] != expected {
            proof { lemma_first_miscount_stable(passes@, found@, expected as int, (i + 1) as nat, passes@.len()); }
            let mut message = owned("pass '");
            push_str(&mut message, passes[i].name());
            push_str(&mut message, "' produced ");
            crate::text::push_decimal(&mut message, found[i]);
            push_str(&mut message, " frame(s), expected ");
            crate::text::push_decimal(&mut message, expected);
            return Err(message);
        }
        i = i + 1;
    }
    let by_name = vec![
        ConditioningPass::Beauty,
        ConditioningPass::Camera,
        ConditioningPass::Depth,
        ConditioningPass::DepthMetric,
        ConditioningPass::ObjectIndex,
        ConditioningPass::Normal,
        ConditioningPass::Occlusion,
        ConditioningPass::OpenPose,
        ConditioningPass::PoseKeypoints,
        ConditioningPass::Vector,
    ];
    assert(by_name@ =~= passes_by_name());
    let ghost f = |k: int| if passes@.contains(passes_by_name()[k]) {
        seq![(pass_text(passes_by_name()[k]), inventory_count(passes_by_name()[k], expected as int))]
    } else {
        Seq::<(Seq<char>, int)>::empty()
    };
    let mut entries: Vec<(String, u64)> = Vec::new();
    let mut k: usize = 0;
    while k < 10
        invariant
            k <= 10,
            by_name@ == passes_by_name(),
            f == (|k: int| if passes@.contains(passes_by_name()[k]) {
                seq![(pass_text(passes_by_name()[k]), inventory_count(passes_by_name()[k], expected as int))]
            } else {
                Seq::<(Seq<char>, int)>::empty()
            }),
            inventory_views(entries@) == flatten(Seq::new(k as nat, f)),
        decreases 10 - k,
    {
        let p = by_name[k];
        let ghost before = entries@;
        if contains_pass(passes, p) {
            let count: u64 = if is_metadata_pass(p) { 1 } else { expected };
            entries.push((owned(p.name()), count));
        }
        assert(inventory_views(entries@) =~= inventory_views(before) + f(k as int));
        proof { lemma_flatten_new_step(k as nat, f); }
        k = k + 1;
    }
    Ok(entries)
}

// ----------------------------------------------------------------------
// Pass formats
// ----------------------------------------------------------------------

/// How a requested pass is to be written: its kind, pixel encoding, colour
/// space, channel layout and file pattern.
#[derive(Debug, Clone)]
pub struct PassFormat {
    pub kind: PassKind,
    pub encoding: PixelEncoding,
    pub color_space: ColorSpace,
    pub channels: ChannelLayout,
    pub file_pattern: String,
}

pub open spec fn format_kind(pass: ConditioningPass) -> PassKind {
    match pass {
        ConditioningPass::Beauty => PassKind::Beauty,
        ConditioningPass::Depth => PassKind::NormalizedDepth,
        ConditioningPass::DepthMetric => PassKind::MetricDepth,
        ConditioningPass::Normal => PassKind::Normal,
        ConditioningPass::ObjectIndex => PassKind::SubjectId,
        ConditioningPass::Vector => PassKind::OpticalFlow,
        ConditioningPass::OpenPose => PassKind::PoseImage,
        ConditioningPass::Occlusion => PassKind::Occlusion,
        ConditioningPass::Camera => PassKind::Camera,
        ConditioningPass::PoseKeypoints => PassKind::PoseKeypoints,
    }
}

pub open spec fn format_encoding(pass: ConditioningPass) -> PixelEncoding {
    match pass {
        ConditioningPass::Beauty | ConditioningPass::OpenPose => PixelEncoding::Png8,
        ConditioningPass::DepthMetric | ConditioningPass::Vector => PixelEncoding::Exr32Float,
        ConditioningPass::Camera | ConditioningPass::PoseKeypoints => PixelEncoding::Json,
        _ => PixelEncoding::Png16,
    }
}

pub open spec fn format_space(pass: ConditioningPass) -> ColorSpace {
    match pass {
        ConditioningPass::Beauty | ConditioningPass::OpenPose => ColorSpace::Srgb,
        _ => ColorSpace::Data,
    }
}

pub open spec fn format_channels(pass: ConditioningPass) -> ChannelLayout {
    match pass {
        ConditioningPass::Depth | ConditioningPass::DepthMetric | ConditioningPass::Occlusion => ChannelLayout::Gray,
        ConditioningPass::Vector => ChannelLayout::Xy,
        ConditioningPass::Camera => ChannelLayout::Matrix,
        ConditioningPass::PoseKeypoints => ChannelLayout::JsonRecords,
        _ => ChannelLayout::Rgb,
    }
}

pub open spec fn format_pattern(pass: ConditioningPass) -> Seq<char> {
    match pass {
        ConditioningPass::Beauty => "beauty/####.png"@,
        ConditioningPass::Depth => "depth/####.png"@,
        ConditioningPass::DepthMetric => "depth_metric/####.exr"@,
        ConditioningPass::Normal => "normal/####.png"@,
        ConditioningPass::ObjectIndex => "id/####.png"@,
        ConditioningPass::Vector => "vector/####.exr"@,
        ConditioningPass::OpenPose => "openpose/####.png"@,
        ConditioningPass::Occlusion => "occlusion/####.png"@,
        ConditioningPass::Camera => "metadata/camera.json"@,
        ConditioningPass::PoseKeypoints => "metadata/pose.json"@,
    }
}

impl PassFormat {
    /// The format in which a conditioning pass is written.
    pub fn for_conditioning(pass: ConditioningPass) -> (f: PassFormat)
        ensures
            f.kind == format_kind(pass),
            f.encoding == format_encoding(pass),
            f.color_space == format_space(pass),
            f.channels == format_channels(pass),
            f.file_pattern@ == format_pattern(pass),
    {
        let (kind, encoding, color_space, channels, pattern) = match pass {
            ConditioningPass::Beauty => (
                PassKind::Beauty,
                PixelEncoding::Png8,
                ColorSpace::Srgb,
                ChannelLayout::Rgb,
                "beauty/####.png",
            ),
            ConditioningPass::Depth => (
                PassKind::NormalizedDepth,
                PixelEncoding::Png16,
                ColorSpace::Data,
                ChannelLayout::Gray,
                "depth/####.png",
            ),
            ConditioningPass::DepthMetric => (
                PassKind::MetricDepth,
                PixelEncoding::Exr32Float,
                ColorSpace::Data,
                ChannelLayout::Gray,
                "depth_metric/####.exr",
            ),
            ConditioningPass::Normal => (
                PassKind::Normal,
                PixelEncoding::Png16,
                ColorSpace::Data,
                ChannelLayout::Rgb,
                "normal/####.png",
            ),
            ConditioningPass::ObjectIndex => (
                PassKind::SubjectId,
                PixelEncoding::Png16,
                ColorSpace::Data,
                ChannelLayout::Rgb,
                "id/####.png",
            ),
            ConditioningPass::Vector => (
                PassKind::OpticalFlow,
                PixelEncoding::Exr32Float,
                ColorSpace::Data,
                ChannelLayout::Xy,
                "vector/####.exr",
            ),
            ConditioningPass::OpenPose => (
                PassKind::PoseImage,
                PixelEncoding::Png8,
                ColorSpace::Srgb,
                ChannelLayout::Rgb,
                "openpose/####.png",
            ),
            ConditioningPass::Occlusion => (
                PassKind::Occlusion,
                PixelEncoding::Png16,
                ColorSpace::Data,
                ChannelLayout::Gray,
                "occlusion/####.png",
            ),
            ConditioningPass::Camera => (
                PassKind::Camera,
                PixelEncoding::Json,
                ColorSpace::Data,
                ChannelLayout::Matrix,
                "metadata/camera.json",
            ),
            ConditioningPass::PoseKeypoints => (
                PassKind::PoseKeypoints,
                PixelEncoding::Json,
                ColorSpace::Data,
                ChannelLayout::JsonRecords,
                "metadata/pose.json",
            ),
        };
        PassFormat { kind, encoding, color_space, channels, file_pattern: owned(pattern) }
    }
}

/// A video-model execution profile: the passes it asks for, in the
/// formats it wants them written, at a resolution and a seed.
#[derive(Debug, Clone)]
pub struct ExecutionProfile {
    pub name: String,
    pub model: VideoModelProfile,
    pub passes: Vec<PassFormat>,
    pub resolution: [u32; 2],
    pub deterministic_seed: u64,
}

impl ExecutionProfile {
    /// The generic control profile: metric and normalised depth, optical
    /// flow and camera metadata, at 1024x576 with seed 42.
    pub fn generic_control() -> (p: ExecutionProfile)
        ensures
            p.name@ == "generic_control"@,
            is_generic_dense_model(p.model),
            p.passes.len() == 4,
            p.passes@[0].kind == PassKind::MetricDepth,
            p.passes@[0].encoding == format_encoding(ConditioningPass::DepthMetric),
            p.passes@[0].color_space == format_space(ConditioningPass::DepthMetric),
            p.passes@[0].channels == format_channels(ConditioningPass::DepthMetric),
            p.passes@[0].file_pattern@ == format_pattern(ConditioningPass::DepthMetric),
            p.passes@[1].kind == PassKind::NormalizedDepth,
            p.passes@[1].encoding == format_encoding(ConditioningPass::Depth),
            p.passes@[1].color_space == format_space(ConditioningPass::Depth),
            p.passes@[1].channels == format_channels(ConditioningPass::Depth),
            p.passes@[1].file_pattern@ == format_pattern(ConditioningPass::Depth),
            p.passes@[2].kind == PassKind::OpticalFlow,
            p.passes@[2].encoding == format_encoding(ConditioningPass::Vector),
            p.passes@[2].color_space == format_space(ConditioningPass::Vector),
            p.passes@[2].channels == format_channels(ConditioningPass::Vector),
            p.passes@[2].file_pattern@ == format_pattern(ConditioningPass::Vector),
            p.passes@[3].kind == PassKind::Camera,
            p.passes@[3].encoding == format_encoding(ConditioningPass::Camera),
            p.passes@[3].color_space == format_space(ConditioningPass::Camera),
            p.passes@[3].channels == format_channels(ConditioningPass::Camera),
            p.passes@[3].file_pattern@ == format_pattern(ConditioningPass::Camera),
            p.resolution@ == seq![1024u32, 576u32],
            p.deterministic_seed == 42,
    {
        let model = VideoModelProfile::default();
        let passes = vec![
            PassFormat::for_conditioning(ConditioningPass::DepthMetric),
            PassFormat::for_conditioning(ConditioningPass::Depth),
            PassFormat::for_conditioning(ConditioningPass::Vector),
            PassFormat::for_conditioning(ConditioningPass::Camera),
        ];
        let resolution: [u32; 2] = [1024, 576];
        assert(resolution@ =~= seq![1024u32, 576u32]);
        ExecutionProfile {
            name: owned("generic_control"),
            model,
            passes,
            resolution,
            deterministic_seed: 42,
        }
    }
}

/// A request to run one scene through an adapter.
#[derive(Debug, Clone)]
pub struct ExecutionRequest {
    pub scene_id: String,
    /// The shots to bundle; all of them when empty.
    pub shot_ids: Vec<String>,
    pub frame_range: Option<crate::model::FrameRange>,
    pub profile: ExecutionProfile,
}

impl ExecutionRequest {
    /// Whether the shot named `shot_id` is bundled: every shot when the
    /// request names none, otherwise exactly the named ones.
    pub fn selects_shot(&self, shot_id: &String) -> (b: bool)
        ensures
            b == (self.shot_ids.len() == 0 || crate::text::string_views(self.shot_ids@).contains(shot_id@)),
    {
        self.shot_ids.len() == 0 || crate::validate::contains_text(&self.shot_ids, shot_id)
    }
}

} // verus!
