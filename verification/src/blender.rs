//! The Blender adapter's own rules: its options, the checks made before a
//! scene is staged or rendered, the frame range it renders, and the sidecar
//! records written beside each script.
use vstd::prelude::*;

use crate::execute::{ChannelLayout, ColorSpace, PassFormat, PassKind, PixelEncoding, conditioning_of, conditioning_for_kind, format_channels, format_encoding, format_pattern, format_space};
use crate::hash::{fnv1a, stable_hash};
use crate::model::{Frame, FrameRange};
use crate::palette::{Rgb, hex_char, hex_digit, hex_text};
use crate::text::{decimal, owned, push_char, push_decimal, push_str};

verus! {

broadcast use vstd::seq_lib::group_seq_properties;

/// Render settings for the Blender adapter.
#[derive(Debug)]
pub struct BlenderOptions {
    pub resolution: (u32, u32),
    pub samples: u32,
    pub use_dof: bool,
    /// Explicit Blender executable; otherwise `$BLENDER`, then `blender` on PATH.
    pub blender_path: Option<std::path::PathBuf>,
    /// Write scripts and manifests without launching Blender.
    pub script_only: bool,
    /// Hard runtime limit per scene. Zero disables the timeout.
    pub timeout_s: u64,
}

impl Default for BlenderOptions {
    /// 1024x576, 32 samples, no depth of field, Blender looked up at run
    /// time, rendering for real, half an hour per scene.
    fn default() -> (o: Self)
        ensures
            o.resolution == (1024u32, 576u32),
            o.samples == 32,
            !o.use_dof,
            o.blender_path is None,
            !o.script_only,
            o.timeout_s == 1800,
    {
        BlenderOptions {
            resolution: (1024, 576),
            samples: 32,
            use_dof: false,
            blender_path: None,
            script_only: false,
            timeout_s: 1800,
        }
    }
}

impl BlenderOptions {
    /// Samples per pixel handed to the renderer: never fewer than one.
    pub fn render_samples(&self) -> (n: u32)
        ensures
            n == (if self.samples == 0 { 1 } else { self.samples }),
    {
        if self.samples == 0 { 1 } else { self.samples }
    }
}


/// The arguments Blender is launched with: headless, factory settings,
/// auto-run scripts off, and exit code 70 when the Python script fails.
pub open spec fn blender_argument_list(script: Seq<char>) -> Seq<Seq<char>> {
    seq![
        "--background"@,
        "--factory-startup"@,
        "--disable-autoexec"@,
        "--python-exit-code"@,
        "70"@,
        "--python"@,
        script,
    ]
}

/// The command-line arguments that run `script` in Blender.
pub fn blender_arguments(script: &str) -> (args: Vec<String>)
    ensures
        args@.len() == 7,
        forall|i: int| 0 <= i < 7 ==> #[trigger] args@[i]@ == blender_argument_list(script@)[i],
{
    let args = vec![
        owned("--background"),
        owned("--factory-startup"),
        owned("--disable-autoexec"),
        owned("--python-exit-code"),
        owned("70"),
        owned("--python"),
        owned(script),
    ];
    args
}

// ----------------------------------------------------------------------
// Frame ranges
// ----------------------------------------------------------------------

/// The inclusive frames rendered for a request: a valid requested range
/// (start before end) clipped to the scene's last frame, otherwise the
/// whole scene.
pub open spec fn clamped_range(frame_start: Frame, frame_end: Frame, range: Option<FrameRange>) -> (u64, u64) {
    match range {
        Some(r) => if r.start < r.end {
            (
                if r.start < frame_end { r.start } else { frame_end },
                if (r.end - 1) < frame_end { (r.end - 1) as u64 } else { frame_end },
            )
        } else {
            (frame_start, frame_end)
        },
        None => (frame_start, frame_end),
    }
}

/// Clamped bounds never pass the scene's last frame, and a valid request
/// (start before end) keeps its first frame no later than its last.
pub proof fn lemma_clamped_range_in_scene(frame_start: Frame, frame_end: Frame, range: Option<FrameRange>)
    ensures
        clamped_range(frame_start, frame_end, range).1 <= frame_end,
        (range matches Some(r) && r.start < r.end) ==> clamped_range(frame_start, frame_end, range).0
            <= clamped_range(frame_start, frame_end, range).1,
{
}

/// Clamps a requested half-open range to a scene spanning
/// `frame_start..=frame_end`, as inclusive bounds.
pub fn clamp_range(frame_start: Frame, frame_end: Frame, range: Option<FrameRange>) -> (bounds: [u64; 2])
    ensures
        (bounds[0], bounds[1]) == clamped_range(frame_start, frame_end, range),
{
    match range {
        Some(r) => if r.is_valid() {
            let first = if r.start < frame_end { r.start } else { frame_end };
            let last = if r.end - 1 < frame_end { r.end - 1 } else { frame_end };
            [first, last]
        } else {
            [frame_start, frame_end]
        },
        None => [frame_start, frame_end],
    }
}

/// Frames in the inclusive range `bounds` (one when it is reversed).
pub fn expected_frame_count(bounds: [u64; 2]) -> (n: u64)
    requires
        !(bounds[0] == 0 && bounds[1] == u64::MAX),
    ensures
        n == crate::execute::frames_written(bounds[0], bounds[1]),
{
    let span: u64 = if bounds[1] >= bounds[0] { bounds[1] - bounds[0] } else { 0 };
    span + 1
}

/// The refusal when a requested range starts after the scene's last frame.
pub open spec fn range_miss_message(r: FrameRange, scene_id: Seq<char>, frame_end: Frame) -> Seq<char> {
    "frame range "@ + decimal(r.start as nat) + ".."@ + decimal(r.end as nat) + " does not intersect scene '"@
        + scene_id + "' (0.."@ + decimal(frame_end as nat + 1) + ")"@
}

/// A requested range must reach into the scene `0..=frame_end`.
pub fn check_range_reaches(range: Option<FrameRange>, scene_id: &String, frame_end: Frame) -> (result: Result<(), String>)
    ensures
        match range {
            Some(r) => if r.start > frame_end {
                result matches Err(m) && m@ == range_miss_message(r, scene_id@, frame_end)
            } else {
                result is Ok
            },
            None => result is Ok,
        },
{
    match range {
        Some(r) => {
            if r.start > frame_end {
                let mut m = owned("frame range ");
                push_decimal(&mut m, r.start);
                push_str(&mut m, "..");
                push_decimal(&mut m, r.end);
                push_str(&mut m, " does not intersect scene '");
                push_str(&mut m, scene_id.as_str());
                push_str(&mut m, "' (0..");
                push_decimal(&mut m, frame_end + 1);
                push_str(&mut m, ")");
                Err(m)
            } else {
                Ok(())
            }
        },
        None => Ok(()),
    }
}

/// Refuses a render with nothing to do or nothing to run it: no passes,
/// no staged scene, or (unless only scripts are wanted) no Blender found.
pub fn render_preflight(pass_count: usize, staged: usize, script_only: bool, runtime_found: bool) -> (result: Result<
    (),
    String,
>)
    ensures
        pass_count == 0 ==> (result matches Err(m) && m@ == "no passes requested"@),
        pass_count > 0 && staged == 0 ==> (result matches Err(m) && m@ == "no scenes staged; call apply_scene first"@),
        pass_count > 0 && staged > 0 && !script_only && !runtime_found ==> (result matches Err(m) && m@
            == "blender executable not found (set --blender PATH or $BLENDER); no scene bundle was published"@),
        result is Ok <==> (pass_count > 0 && staged > 0 && (script_only || runtime_found)),
{
    if pass_count == 0 {
        return Err(owned("no passes requested"));
    }
    if staged == 0 {
        return Err(owned("no scenes staged; call apply_scene first"));
    }
    if !script_only && !runtime_found {
        return Err(owned("blender executable not found (set --blender PATH or $BLENDER); no scene bundle was published"));
    }
    Ok(())
}


// ----------------------------------------------------------------------
// Sidecar records
// ----------------------------------------------------------------------

/// The last `n` hexadecimal digits of `v`, lower case, zero-padded
/// (`{:0nx}` when `v < 16^n`).
pub open spec fn hex_digits(v: nat, n: nat) -> Seq<char>
    decreases n,
{
    if n == 0 {
        Seq::empty()
    } else {
        hex_digits(v / 16, (n - 1) as nat).push(hex_char(v % 16))
    }
}

fn push_hex_digits(s: &mut String, v: u64, n: u64)
    ensures
        final(s)@ == old(s)@ + hex_digits(v as nat, n as nat),
    decreases n,
{
    if n > 0 {
        push_hex_digits(s, v / 16, n - 1);
        push_char(s, hex_digit((v % 16) as u8));
    }
}

/// `fnv1a64:` and the sixteen hex digits of the FNV-1a hash of `text`.
pub open spec fn fnv_tag_text(text: Seq<char>) -> Seq<char> {
    "fnv1a64:"@ + hex_digits(fnv1a(vstd::utf8::encode_utf8(text)) as nat, 16)
}

/// The content tag recorded for a source id or a serialised document.
pub fn fnv_tag(text: &str) -> (tag: String)
    ensures
        tag@ == fnv_tag_text(text@),
{
    let mut tag = owned("fnv1a64:");
    push_hex_digits(&mut tag, stable_hash(text), 16);
    tag
}

/// A shot's inclusive frame span in the sidecar.
#[derive(Debug, Clone)]
pub struct ManifestShot {
    pub id: String,
    pub frame_start: u64,
    pub frame_end: u64,
}

/// A subject's entry in the sidecar: its pass index and the flat colour the
/// identity pass paints it with.
#[derive(Debug, Clone)]
pub struct ManifestSubject {
    pub id: String,
    pub name: String,
    pub pass_index: u32,
    pub color_hex: String,
    pub color_name: String,
}

/// What each file of a scene bundle means.
#[derive(Debug, Clone)]
pub struct ManifestConventions {
    pub world: String,
    pub depth: String,
    pub normal: String,
    pub id: String,
    pub openpose: String,
    pub frames: String,
}

/// The sidecar entry of a subject painted in `color`.
pub fn manifest_subject(id: &str, name: &str, pass_index: u32, color: Rgb, color_name: &str) -> (m: ManifestSubject)
    ensures
        m.id@ == id@,
        m.name@ == name@,
        m.pass_index == pass_index,
        m.color_hex@ == hex_text(color),
        m.color_name@ == color_name@,
{
    ManifestSubject {
        id: owned(id),
        name: owned(name),
        pass_index,
        color_hex: color.hex(),
        color_name: owned(color_name),
    }
}

/// The conventions every Blender bundle follows.
pub fn manifest_conventions() -> (c: ManifestConventions)
    ensures
        c.world@ == "Blender world: X right, Y forward, Z up, metres"@,
        c.depth@
            == "16-bit PNG, linear; near = white (1.0) at depth_near_m, far = black (0.0) at depth_far_m, clamped"@,
        c.normal@
            == "16-bit PNG, linear (raw); camera-space normal stored as (x, y, -z) * 0.5 + 0.5 with x right, y up, z toward the camera (Cycles' camera space looks down +z, hence the flip)"@,
        c.id@ == "16-bit data PNG; flat palette colour per subject (see subjects[].color_hex), black background"@,
        c.openpose@ == "8-bit sRGB PNG; COCO-18 skeleton with ControlNet limb colours on black; characters only"@,
        c.frames@
            == "files use the pass_specs[].file_pattern and scene-frame numbering; shots[] gives inclusive per-shot ranges"@,
{
    ManifestConventions {
        world: owned("Blender world: X right, Y forward, Z up, metres"),
        depth: owned(
            "16-bit PNG, linear; near = white (1.0) at depth_near_m, far = black (0.0) at depth_far_m, clamped",
        ),
        normal: owned(
            "16-bit PNG, linear (raw); camera-space normal stored as (x, y, -z) * 0.5 + 0.5 with x right, y up, z toward the camera (Cycles' camera space looks down +z, hence the flip)",
        ),
        id: owned("16-bit data PNG; flat palette colour per subject (see subjects[].color_hex), black background"),
        openpose: owned("8-bit sRGB PNG; COCO-18 skeleton with ControlNet limb colours on black; characters only"),
        frames: owned(
            "files use the pass_specs[].file_pattern and scene-frame numbering; shots[] gives inclusive per-shot ranges",
        ),
    }
}


// ----------------------------------------------------------------------
// Staging a scene
// ----------------------------------------------------------------------

/// A pass kind as `{:?}` prints it.
pub open spec fn kind_debug(kind: PassKind) -> Seq<char> {
    match kind {
        PassKind::Beauty => "Beauty"@,
        PassKind::MetricDepth => "MetricDepth"@,
        PassKind::NormalizedDepth => "NormalizedDepth"@,
        PassKind::Normal => "Normal"@,
        PassKind::SubjectId => "SubjectId"@,
        PassKind::OpticalFlow => "OpticalFlow"@,
        PassKind::PoseImage => "PoseImage"@,
        PassKind::PoseKeypoints => "PoseKeypoints"@,
        PassKind::Occlusion => "Occlusion"@,
        PassKind::Camera => "Camera"@,
    }
}

fn kind_label(kind: PassKind) -> (s: &'static str)
    ensures
        s@ == kind_debug(kind),
{
    match kind {
        PassKind::Beauty => "Beauty",
        PassKind::MetricDepth => "MetricDepth",
        PassKind::NormalizedDepth => "NormalizedDepth",
        PassKind::Normal => "Normal",
        PassKind::SubjectId => "SubjectId",
        PassKind::OpticalFlow => "OpticalFlow",
        PassKind::PoseImage => "PoseImage",
        PassKind::PoseKeypoints => "PoseKeypoints",
        PassKind::Occlusion => "Occlusion",
        PassKind::Camera => "Camera",
    }
}

/// A pixel encoding as `{:?}` prints it.
pub open spec fn encoding_debug(e: PixelEncoding) -> Seq<char> {
    match e {
        PixelEncoding::Png8 => "Png8"@,
        PixelEncoding::Png16 => "Png16"@,
        PixelEncoding::Exr32Float => "Exr32Float"@,
        PixelEncoding::Json => "Json"@,
        PixelEncoding::Npz => "Npz"@,
    }
}

fn encoding_label(e: PixelEncoding) -> (s: &'static str)
    ensures
        s@ == encoding_debug(e),
{
    match e {
        PixelEncoding::Png8 => "Png8",
        PixelEncoding::Png16 => "Png16",
        PixelEncoding::Exr32Float => "Exr32Float",
        PixelEncoding::Json => "Json",
        PixelEncoding::Npz => "Npz",
    }
}

/// A colour space as `{:?}` prints it.
pub open spec fn space_debug(c: ColorSpace) -> Seq<char> {
    match c {
        ColorSpace::Srgb => "Srgb"@,
        ColorSpace::Linear => "Linear"@,
        ColorSpace::Data => "Data"@,
    }
}

fn space_label(c: ColorSpace) -> (s: &'static str)
    ensures
        s@ == space_debug(c),
{
    match c {
        ColorSpace::Srgb => "Srgb",
        ColorSpace::Linear => "Linear",
        ColorSpace::Data => "Data",
    }
}

/// A channel layout as `{:?}` prints it.
pub open spec fn channels_debug(c: ChannelLayout) -> Seq<char> {
    match c {
        ChannelLayout::Gray => "Gray"@,
        ChannelLayout::Rgb => "Rgb"@,
        ChannelLayout::Rgba => "Rgba"@,
        ChannelLayout::Xy => "Xy"@,
        ChannelLayout::JsonRecords => "JsonRecords"@,
        ChannelLayout::Matrix => "Matrix"@,
    }
}

fn channels_label(c: ChannelLayout) -> (s: &'static str)
    ensures
        s@ == channels_debug(c),
{
    match c {
        ChannelLayout::Gray => "Gray",
        ChannelLayout::Rgb => "Rgb",
        ChannelLayout::Rgba => "Rgba",
        ChannelLayout::Xy => "Xy",
        ChannelLayout::JsonRecords => "JsonRecords",
        ChannelLayout::Matrix => "Matrix",
    }
}

/// `encoding/space/channels at 'pattern'`, as the refusal spells a format.
pub open spec fn format_words(e: PixelEncoding, c: ColorSpace, ch: ChannelLayout, pattern: Seq<char>) -> Seq<char> {
    encoding_debug(e) + "/"@ + space_debug(c) + "/"@ + channels_debug(ch) + " at '"@ + pattern + "'"@
}

/// Why a requested pass cannot be staged: the adapter does not produce its
/// kind, or the request writes it otherwise than the adapter does.
pub open spec fn pass_refusal(supported: Seq<PassKind>, f: PassFormat) -> Option<Seq<char>> {
    let c = conditioning_of(f.kind);
    if !supported.contains(f.kind) {
        Some("Blender adapter does not support requested pass "@ + kind_debug(f.kind))
    } else if f.encoding != format_encoding(c) || f.color_space != format_space(c) || f.channels != format_channels(c)
        || f.file_pattern@ != format_pattern(c) {
        Some(
            "Blender adapter cannot satisfy "@ + kind_debug(f.kind) + " as "@ + format_words(
                f.encoding,
                f.color_space,
                f.channels,
                f.file_pattern@,
            ) + "; expected "@ + format_words(format_encoding(c), format_space(c), format_channels(c), format_pattern(c)),
        )
    } else {
        None
    }
}

/// The refusal of the first of the first `n` requested passes that has one.
pub open spec fn first_pass_refusal(supported: Seq<PassKind>, requested: Seq<PassFormat>, n: nat) -> Option<Seq<char>>
    decreases n,
{
    if n == 0 {
        None
    } else {
        match first_pass_refusal(supported, requested, (n - 1) as nat) {
            Some(m) => Some(m),
            None => pass_refusal(supported, requested[n - 1]),
        }
    }
}

/// The refusal for the first of the first `n` shots with a frame that has
/// neither a focus target nor a distance (`gaps[i]` is the shot's id and
/// that frame, if any).
pub open spec fn first_focus_gap(gaps: Seq<(String, Option<u64>)>, n: nat) -> Option<Seq<char>>
    decreases n,
{
    if n == 0 {
        None
    } else {
        match first_focus_gap(gaps, (n - 1) as nat) {
            Some(m) => Some(m),
            None => match gaps[n - 1].1 {
                Some(frame) => Some(
                    "cannot enable DOF: shot '"@ + gaps[n - 1].0@ + "' frame "@ + decimal(frame as nat)
                        + " has no focus target or distance"@,
                ),
                None => None,
            },
        }
    }
}

/// Why a scene cannot be staged, if it cannot: it has no frames; a pass is
/// refused; or depth of field is on and a shot loses focus somewhere.
pub open spec fn staging_refusal(
    scene_id: Seq<char>,
    duration_frames: u64,
    supported: Seq<PassKind>,
    requested: Seq<PassFormat>,
    use_dof: bool,
    gaps: Seq<(String, Option<u64>)>,
) -> Option<Seq<char>> {
    if duration_frames == 0 {
        Some("scene '"@ + scene_id + "' has no frames"@)
    } else {
        match first_pass_refusal(supported, requested, requested.len()) {
            Some(m) => Some(m),
            None => if use_dof { first_focus_gap(gaps, gaps.len()) } else { None },
        }
    }
}

fn supports(supported: &Vec<PassKind>, kind: PassKind) -> (b: bool)
    ensures
        b == supported@.contains(kind),
{
    let mut i: usize = 0;
    while i < supported.len()
        invariant
            i <= supported.len(),
            forall|j: int| 0 <= j < i ==> supported@[j] != kind,
        decreases supported.len() - i,
    {
        if supported[i] == kind {
            return true;
        }
        i = i + 1;
    }
    false
}

fn push_format_words(m: &mut String, e: PixelEncoding, c: ColorSpace, ch: ChannelLayout, pattern: &str)
    ensures
        final(m)@ == old(m)@ + format_words(e, c, ch, pattern@),
{
    push_str(m, encoding_label(e));
    push_str(m, "/");
    push_str(m, space_label(c));
    push_str(m, "/");
    push_str(m, channels_label(ch));
    push_str(m, " at '");
    push_str(m, pattern);
    push_str(m, "'");
}

fn check_pass(supported: &Vec<PassKind>, f: &PassFormat) -> (result: Result<(), String>)
    ensures
        match result {
            Ok(()) => pass_refusal(supported@, *f) is None,
            Err(m) => pass_refusal(supported@, *f) == Some(m@),
        },
{
    if !supports(supported, f.kind) {
        let mut m = owned("Blender adapter does not support requested pass ");
        push_str(&mut m, kind_label(f.kind));
        return Err(m);
    }
    let canonical = PassFormat::for_conditioning(conditioning_for_kind(f.kind));
    if f.encoding != canonical.encoding || f.color_space != canonical.color_space || f.channels != canonical.channels
        || f.file_pattern != canonical.file_pattern {
        let mut m = owned("Blender adapter cannot satisfy ");
        push_str(&mut m, kind_label(f.kind));
        push_str(&mut m, " as ");
        push_format_words(&mut m, f.encoding, f.color_space, f.channels, f.file_pattern.as_str());
        push_str(&mut m, "; expected ");
        push_format_words(&mut m, canonical.encoding, canonical.color_space, canonical.channels, canonical.file_pattern.as_str());
        return Err(m);
    }
    Ok(())
}

/// The checks made before a compiled scene is staged for rendering: the
/// scene has frames, every requested pass is one the adapter produces, in
/// the adapter's own format, and, with depth of field on, no shot has a
/// frame without focus (`focus_gaps[i]`: a shot's id and its first such
/// frame, if any).
pub fn check_staging(
    scene_id: &String,
    duration_frames: u64,
    supported: &Vec<PassKind>,
    requested: &Vec<PassFormat>,
    use_dof: bool,
    focus_gaps: &Vec<(String, Option<u64>)>,
) -> (result: Result<(), String>)
    ensures
        match result {
            Ok(()) => staging_refusal(scene_id@, duration_frames, supported@, requested@, use_dof, focus_gaps@) is None,
            Err(m) => staging_refusal(scene_id@, duration_frames, supported@, requested@, use_dof, focus_gaps@) == Some(
                m@,
            ),
        },
{
    if duration_frames == 0 {
        let mut m = owned("scene '");
        push_str(&mut m, scene_id.as_str());
        push_str(&mut m, "' has no frames");
        return Err(m);
    }
    let mut i: usize = 0;
    while i < requested.len()
        invariant
            i <= requested.len(),
            duration_frames > 0,
            first_pass_refusal(supported@, requested@, i as nat) is None,
        decreases requested.len() - i,
    {
        match check_pass(supported, &requested[i]) {
            Ok(()) => {},
            Err(m) => {
                proof {
                    assert(first_pass_refusal(supported@, requested@, (i + 1) as nat) == pass_refusal(
                        supported@,
                        requested@[i as int],
                    ));
                    lemma_first_pass_refusal_stable(supported@, requested@, (i + 1) as nat, requested@.len());
                }
                return Err(m);
            },
        }
        i = i + 1;
    }
    if use_dof {
        let mut k: usize = 0;
        while k < focus_gaps.len()
            invariant
                k <= focus_gaps.len(),
                duration_frames > 0,
                use_dof,
                first_pass_refusal(supported@, requested@, requested@.len()) is None,
                first_focus_gap(focus_gaps@, k as nat) is None,
            decreases focus_gaps.len() - k,
        {
            match focus_gaps[k].1 {
                Some(frame) => {
                    proof {
                        assert(first_focus_gap(focus_gaps@, (k + 1) as nat) is Some);
                        lemma_first_focus_gap_stable(focus_gaps@, (k + 1) as nat, focus_gaps@.len());
                    }
                    let mut m = owned("cannot enable DOF: shot '");
                    push_str(&mut m, focus_gaps[k].0.as_str());
                    push_str(&mut m, "' frame ");
                    push_decimal(&mut m, frame);
                    push_str(&mut m, " has no focus target or distance");
                    return Err(m);
                },
                None => {},
            }
            k = k + 1;
        }
    }
    Ok(())
}

proof fn lemma_first_pass_refusal_stable(supported: Seq<PassKind>, requested: Seq<PassFormat>, m: nat, n: nat)
    requires
        m <= n <= requested.len(),
        first_pass_refusal(supported, requested, m) is Some,
    ensures
        first_pass_refusal(supported, requested, n) == first_pass_refusal(supported, requested, m),
    decreases n - m,
{
    if n > m {
        lemma_first_pass_refusal_stable(supported, requested, m, (n - 1) as nat);
    }
}

proof fn lemma_first_focus_gap_stable(gaps: Seq<(String, Option<u64>)>, m: nat, n: nat)
    requires
        m <= n <= gaps.len(),
        first_focus_gap(gaps, m) is Some,
    ensures
        first_focus_gap(gaps, n) == first_focus_gap(gaps, m),
    decreases n - m,
{
    if n > m {
        lemma_first_focus_gap_stable(gaps, m, (n - 1) as nat);
    }
}

} // verus!
