//! View-layer vocabulary and the exact text rules of the encoders: overlay
//! selection and gating, media types, escaping, dash patterns, labels,
//! theme colours, and which diagnostics belong to which shot.
use vstd::prelude::*;

use crate::compiled::{CompiledPhase, PhaseKind};
use crate::diagnostic::Severity;
use crate::model::{Frame, ShotSize, SubjectKind};
use crate::palette::Rgb;
pub use crate::sample::{SamplePoint, Sampling};
use crate::solve::{solve_error_text, SolveError};
use crate::text::{
    lemma_replace_keeps_absent, lemma_replace_removes, chars_of, owned, push_chars, push_str, replace_all, replaced, split_chars, split_on, split_once,
    split_once_chars, string_of, trim, trimmed, views,
};

verus! {

broadcast use vstd::seq_lib::group_seq_properties;

// ----------------------------------------------------------------------
// Vocabulary
// ----------------------------------------------------------------------

#[derive(Debug, Clone, Copy, PartialEq, Eq, Structural)]
pub enum PanelKind {
    Plan,
    Frame,
}

#[derive(Debug, Clone, Copy, PartialEq, Eq, Structural)]
pub enum RenderIntent {
    /// Review output: labels, guides, axes, diagnostics.
    Human,
    /// Model conditioning: geometry and motion arrows only.
    Conditioning,
}

#[derive(Debug, Clone, Copy, PartialEq, Eq, Structural)]
pub enum LabelMode {
    /// Neutral colours, no names.
    Neutral,
    /// Palette colours, no names (default for conditioning).
    Color,
    /// Palette colours and subject names (default for human review).
    ColorName,
}

#[derive(Debug, Clone, Copy, PartialEq, Eq, Structural)]
pub enum GlyphShape {
    Character,
    Prop,
    Vehicle,
    Screen,
    Environment,
    Abstract,
}

/// The glyph a subject kind is drawn with.
pub open spec fn glyph_of(kind: SubjectKind) -> GlyphShape {
    match kind {
        SubjectKind::Character => GlyphShape::Character,
        SubjectKind::Prop => GlyphShape::Prop,
        SubjectKind::Vehicle => GlyphShape::Vehicle,
        SubjectKind::Environment => GlyphShape::Environment,
        SubjectKind::Screen => GlyphShape::Screen,
        SubjectKind::Abstract => GlyphShape::Abstract,
    }
}

pub fn glyph_for(kind: SubjectKind) -> (shape: GlyphShape)
    ensures
        shape == glyph_of(kind),
{
    match kind {
        SubjectKind::Character => GlyphShape::Character,
        SubjectKind::Prop => GlyphShape::Prop,
        SubjectKind::Vehicle => GlyphShape::Vehicle,
        SubjectKind::Environment => GlyphShape::Environment,
        SubjectKind::Screen => GlyphShape::Screen,
        SubjectKind::Abstract => GlyphShape::Abstract,
    }
}

#[derive(Debug, Clone, Copy, PartialEq, Eq, Structural)]
pub enum ArrowKind {
    CameraPath,
    SubjectPath,
    ScreenDirection,
    Eyeline,
    /// Screen-space motion cue drawn on frame panels (dolly, pan, ...).
    MotionCue,
}

#[derive(Debug, Clone, Copy, PartialEq, Eq, Structural)]
pub enum LineStyle {
    Solid,
    Dashed,
    Dotted,
}

#[derive(Debug, Clone, Copy, PartialEq, Eq, Structural)]
pub enum Anchor {
    Start,
    Middle,
    End,
}

#[derive(Debug, Clone, Copy, PartialEq, Eq, Structural)]
pub enum StripAxis {
    Horizontal,
    Vertical,
}

#[derive(Debug, Clone, Copy, PartialEq, Eq, Structural)]
pub enum Layout {
    /// All cells of a scene in one sheet with `columns` per row.
    Grid { columns: usize },
    Strip { axis: StripAxis },
    /// One artifact per cell.
    Separate,
    /// One HTML artifact per scene playing the cells in order.
    Animate,
}

/// A shot's phases laid out on a timeline.
#[derive(Debug, Clone)]
pub struct PhaseTimeline {
    pub phases: Vec<CompiledPhase>,
}

/// The cuts into and out of a shot.
#[derive(Debug, Clone)]
pub struct CutDiagram {
    pub previous_shot_id: Option<String>,
    pub next_shot_id: Option<String>,
}

// ----------------------------------------------------------------------
// Artifacts
// ----------------------------------------------------------------------

#[derive(Debug, Clone, Copy, PartialEq, Eq, Structural)]
pub enum MediaType {
    Svg,
    Png,
    Text,
    Html,
    Markdown,
}

impl MediaType {
    /// Every media type but PNG is text.
    pub fn is_text(self) -> (b: bool)
        ensures
            b == !(self is Png),
    {
        !matches!(self, MediaType::Png)
    }
}

/// How a view is encoded. (A PNG's pixel scale is the rasteriser's
/// business and is not carried here.)
#[derive(Debug, Clone, Copy, PartialEq, Eq, Structural)]
pub enum Encoding {
    Svg,
    Png,
    Ascii { columns: usize },
    Html,
    /// ASCII panels plus the shot's prompt text per cell.
    Markdown { columns: usize },
}

impl Encoding {
    /// The file extension of an encoded view.
    pub fn extension(&self) -> (ext: &'static str)
        ensures
            ext@ == (match *self {
                Encoding::Svg => "svg"@,
                Encoding::Png => "png"@,
                Encoding::Ascii { .. } => "txt"@,
                Encoding::Html => "html"@,
                Encoding::Markdown { .. } => "md"@,
            }),
    {
        match self {
            Encoding::Svg => "svg",
            Encoding::Png => "png",
            Encoding::Ascii { .. } => "txt",
            Encoding::Html => "html",
            Encoding::Markdown { .. } => "md",
        }
    }

    /// The media type of an encoded view.
    pub fn media_type(&self) -> (m: MediaType)
        ensures
            m == (match *self {
                Encoding::Svg => MediaType::Svg,
                Encoding::Png => MediaType::Png,
                Encoding::Ascii { .. } => MediaType::Text,
                Encoding::Html => MediaType::Html,
                Encoding::Markdown { .. } => MediaType::Markdown,
            }),
    {
        match self {
            Encoding::Svg => MediaType::Svg,
            Encoding::Png => MediaType::Png,
            Encoding::Ascii { .. } => MediaType::Text,
            Encoding::Html => MediaType::Html,
            Encoding::Markdown { .. } => MediaType::Markdown,
        }
    }
}

/// One rendered file.
#[derive(Debug, Clone)]
pub struct ViewArtifact {
    /// Suggested file name, stable across runs.
    pub name: String,
    pub media_type: MediaType,
    pub bytes: Vec<u8>,
}

/// `std::str::from_utf8`, as an `Option`: the text when `bytes` are valid
/// UTF-8 (decoded as vstd's `decode_utf8` describes), `None` otherwise.
#[verifier::external_body]
fn utf8_text(bytes: &[u8]) -> (text: Option<&str>)
    ensures
        match text {
            Some(t) => vstd::utf8::valid_utf8(bytes@) && t@ == vstd::utf8::decode_utf8(bytes@),
            None => !vstd::utf8::valid_utf8(bytes@),
        },
{
    std::str::from_utf8(bytes).ok()
}

impl ViewArtifact {
    /// The artifact's text: for a text media type whose bytes are UTF-8.
    pub fn text(&self) -> (text: Option<&str>)
        ensures
            match text {
                Some(t) => !(self.media_type is Png) && vstd::utf8::valid_utf8(self.bytes@) && t@
                    == vstd::utf8::decode_utf8(self.bytes@),
                None => self.media_type is Png || !vstd::utf8::valid_utf8(self.bytes@),
            },
    {
        if self.media_type.is_text() {
            utf8_text(self.bytes.as_slice())
        } else {
            None
        }
    }
}

#[derive(Debug)]
pub enum ViewError {
    Solve(SolveError),
    NoScene(String),
    NoSamples(String),
    Unsupported(String),
    Encode(String),
}

pub open spec fn view_error_text(e: ViewError) -> Seq<char> {
    match e {
        ViewError::Solve(error) => "cannot solve document: "@ + solve_error_text(error),
        ViewError::NoScene(id) => "no scene matched '"@ + id@ + "'"@,
        ViewError::NoSamples(id) => "scene '"@ + id@ + "' produced no sample points"@,
        ViewError::Unsupported(message) => message@,
        ViewError::Encode(message) => "encoding failed: "@ + message@,
    }
}

impl ViewError {
    /// The error as a sentence.
    pub fn message(&self) -> (text: String)
        ensures
            text@ == view_error_text(*self),
    {
        match self {
            ViewError::Solve(error) => {
                let mut text = owned("cannot solve document: ");
                push_str(&mut text, error.message().as_str());
                text
            },
            ViewError::NoScene(id) => {
                let mut text = owned("no scene matched '");
                push_str(&mut text, id.as_str());
                push_str(&mut text, "'");
                text
            },
            ViewError::NoSamples(id) => {
                let mut text = owned("scene '");
                push_str(&mut text, id.as_str());
                push_str(&mut text, "' produced no sample points");
                text
            },
            ViewError::Unsupported(message) => message.clone(),
            ViewError::Encode(message) => {
                let mut text = owned("encoding failed: ");
                push_str(&mut text, message.as_str());
                text
            },
        }
    }
}

// ----------------------------------------------------------------------
// Overlays
// ----------------------------------------------------------------------

/// Which overlays a panel may draw. Conditioning intent narrows this
/// further regardless of what is requested.
#[derive(Debug, Clone, Copy, PartialEq, Eq, Structural)]
pub struct OverlaySet {
    pub arrows: bool,
    pub subject_paths: bool,
    pub axes: bool,
    pub eyelines: bool,
    pub screen_directions: bool,
    pub guides: bool,
    pub diagnostics: bool,
    pub grid: bool,
    pub markers: bool,
}

pub open spec fn all_overlays() -> OverlaySet {
    OverlaySet {
        arrows: true,
        subject_paths: true,
        axes: true,
        eyelines: true,
        screen_directions: true,
        guides: true,
        diagnostics: true,
        grid: true,
        markers: true,
    }
}

pub open spec fn no_overlays() -> OverlaySet {
    OverlaySet {
        arrows: false,
        subject_paths: false,
        axes: false,
        eyelines: false,
        screen_directions: false,
        guides: false,
        diagnostics: false,
        grid: false,
        markers: false,
    }
}

/// What conditioning intent lets through of `set`: motion arrows and
/// subject paths.
pub open spec fn gated_overlays(set: OverlaySet, intent: RenderIntent) -> OverlaySet {
    match intent {
        RenderIntent::Human => set,
        RenderIntent::Conditioning => OverlaySet {
            arrows: set.arrows,
            subject_paths: set.subject_paths,
            ..no_overlays()
        },
    }
}

/// The effect of one overlay-list item on `set`; `None` for an unknown
/// item.
pub open spec fn overlay_step(set: OverlaySet, item: Seq<char>) -> Option<OverlaySet> {
    if item == "all"@ {
        Some(all_overlays())
    } else if item == "none"@ {
        Some(no_overlays())
    } else if item == "arrows"@ {
        Some(OverlaySet { arrows: true, ..set })
    } else if item == "subject_paths"@ || item == "paths"@ {
        Some(OverlaySet { subject_paths: true, ..set })
    } else if item == "axes"@ {
        Some(OverlaySet { axes: true, ..set })
    } else if item == "eyelines"@ {
        Some(OverlaySet { eyelines: true, ..set })
    } else if item == "screen_directions"@ || item == "directions"@ {
        Some(OverlaySet { screen_directions: true, ..set })
    } else if item == "guides"@ {
        Some(OverlaySet { guides: true, ..set })
    } else if item == "diagnostics"@ {
        Some(OverlaySet { diagnostics: true, ..set })
    } else if item == "grid"@ {
        Some(OverlaySet { grid: true, ..set })
    } else if item == "markers"@ {
        Some(OverlaySet { markers: true, ..set })
    } else {
        None
    }
}

/// The overlay list from piece `k` on, applied to `set`.
pub open spec fn parse_overlays_from(pieces: Seq<Seq<char>>, k: int, set: OverlaySet) -> Result<
    OverlaySet,
    Seq<char>,
>
    decreases pieces.len() - k,
{
    if k < 0 || k >= pieces.len() {
        Ok(set)
    } else if trim(pieces[k]).len() == 0 {
        parse_overlays_from(pieces, k + 1, set)
    } else {
        match overlay_step(set, trim(pieces[k])) {
            Some(next) => parse_overlays_from(pieces, k + 1, next),
            None => Err("unknown overlay '"@ + trim(pieces[k]) + "'"@),
        }
    }
}

/// `OverlaySet::parse_list`: comma-separated items, trimmed, blank ones
/// skipped, applied in order to the empty set.
pub open spec fn parse_overlays(text: Seq<char>) -> Result<OverlaySet, Seq<char>> {
    parse_overlays_from(split_on(text, ','), 0, no_overlays())
}

fn same_chars(v: &Vec<char>, name: &str) -> (b: bool)
    ensures
        b == (v@ == name@),
{
    let w = chars_of(name);
    if v.len() != w.len() {
        return false;
    }
    let mut i: usize = 0;
    while i < v.len()
        invariant
            i <= v.len(),
            v.len() == w.len(),
            w@ == name@,
            forall|k: int| 0 <= k < i ==> v@[k] == w@[k],
        decreases v.len() - i,
    {
        if v[i] != w[i] {
            return false;
        }
        i = i + 1;
    }
    assert(v@ =~= w@);
    true
}

fn overlay_step_exec(set: OverlaySet, item: &Vec<char>) -> (next: Option<OverlaySet>)
    ensures
        next == overlay_step(set, item@),
{
    if same_chars(item, "all") {
        Some(OverlaySet::all())
    } else if same_chars(item, "none") {
        Some(OverlaySet::none())
    } else if same_chars(item, "arrows") {
        Some(OverlaySet { arrows: true, ..set })
    } else if same_chars(item, "subject_paths") || same_chars(item, "paths") {
        Some(OverlaySet { subject_paths: true, ..set })
    } else if same_chars(item, "axes") {
        Some(OverlaySet { axes: true, ..set })
    } else if same_chars(item, "eyelines") {
        Some(OverlaySet { eyelines: true, ..set })
    } else if same_chars(item, "screen_directions") || same_chars(item, "directions") {
        Some(OverlaySet { screen_directions: true, ..set })
    } else if same_chars(item, "guides") {
        Some(OverlaySet { guides: true, ..set })
    } else if same_chars(item, "diagnostics") {
        Some(OverlaySet { diagnostics: true, ..set })
    } else if same_chars(item, "grid") {
        Some(OverlaySet { grid: true, ..set })
    } else if same_chars(item, "markers") {
        Some(OverlaySet { markers: true, ..set })
    } else {
        None
    }
}

impl OverlaySet {
    /// Every overlay.
    pub fn all() -> (set: OverlaySet)
        ensures
            set == all_overlays(),
    {
        OverlaySet {
            arrows: true,
            subject_paths: true,
            axes: true,
            eyelines: true,
            screen_directions: true,
            guides: true,
            diagnostics: true,
            grid: true,
            markers: true,
        }
    }

    /// No overlay.
    pub fn none() -> (set: OverlaySet)
        ensures
            set == no_overlays(),
    {
        OverlaySet {
            arrows: false,
            subject_paths: false,
            axes: false,
            eyelines: false,
            screen_directions: false,
            guides: false,
            diagnostics: false,
            grid: false,
            markers: false,
        }
    }

    /// Overlays a conditioning image may carry: motion arrows and subject
    /// paths.
    pub fn conditioning() -> (set: OverlaySet)
        ensures
            set == (OverlaySet { arrows: true, subject_paths: true, ..no_overlays() }),
    {
        OverlaySet { arrows: true, subject_paths: true, ..OverlaySet::none() }
    }

    /// Effective overlays after intent gating.
    pub fn gated(self, intent: RenderIntent) -> (set: OverlaySet)
        ensures
            set == gated_overlays(self, intent),
    {
        match intent {
            RenderIntent::Human => self,
            RenderIntent::Conditioning => OverlaySet {
                arrows: self.arrows,
                subject_paths: self.subject_paths,
                ..OverlaySet::none()
            },
        }
    }

    /// Parses `arrows,axes,...`; `all` and `none` are accepted.
    pub fn parse_list(text: &str) -> (result: Result<OverlaySet, String>)
        ensures
            match result {
                Ok(set) => parse_overlays(text@) == Ok::<OverlaySet, Seq<char>>(set),
                Err(message) => parse_overlays(text@) == Err::<OverlaySet, Seq<char>>(message@),
            },
    {
        let pieces = split_chars(&chars_of(text), ',');
        let ghost ps = views(pieces@);
        let mut set = OverlaySet::none();
        let mut k: usize = 0;
        while k < pieces.len()
            invariant
                k <= pieces.len(),
                ps == views(pieces@),
                ps == split_on(text@, ','),
                parse_overlays(text@) == parse_overlays_from(ps, k as int, set),
            decreases pieces.len() - k,
        {
            assert(pieces[k as int]@ == ps[k as int]);
            let item = trimmed(&pieces[k]);
            if item.len() > 0 {
                match overlay_step_exec(set, &item) {
                    Some(next) => {
                        set = next;
                    },
                    None => {
                        let mut message = owned("unknown overlay '");
                        push_chars(&mut message, &item);
                        push_str(&mut message, "'");
                        return Err(message);
                    },
                }
            }
            k = k + 1;
        }
        Ok(set)
    }
}

/// Gating is idempotent, and a gated set draws nothing that was not
/// requested.
pub proof fn lemma_gating_idempotent(set: OverlaySet, intent: RenderIntent)
    ensures
        gated_overlays(gated_overlays(set, intent), intent) == gated_overlays(set, intent),
        gated_overlays(set, intent).arrows ==> set.arrows,
        gated_overlays(set, intent).subject_paths ==> set.subject_paths,
        gated_overlays(set, intent).axes ==> set.axes,
        gated_overlays(set, intent).eyelines ==> set.eyelines,
        gated_overlays(set, intent).screen_directions ==> set.screen_directions,
        gated_overlays(set, intent).guides ==> set.guides,
        gated_overlays(set, intent).diagnostics ==> set.diagnostics,
        gated_overlays(set, intent).grid ==> set.grid,
        gated_overlays(set, intent).markers ==> set.markers,
        intent is Conditioning ==> gated_overlays(set, intent) == (OverlaySet {
            arrows: set.arrows,
            subject_paths: set.subject_paths,
            ..no_overlays()
        }),
{
}

// ----------------------------------------------------------------------
// Diagnostics on panels
// ----------------------------------------------------------------------

/// A diagnostic path belongs to a shot: it names the scene, and its first
/// `shots[...]` subscript is the shot, or a cut `a->b` into the shot.
pub open spec fn targets_shot(path: Seq<char>, scene_id: Seq<char>, shot_id: Seq<char>) -> bool {
    split_once(path, "scenes["@ + scene_id + "]"@) is Some && match split_once(path, "shots["@) {
        None => false,
        Some((_, rest)) => match split_once(rest, "]"@) {
            None => false,
            Some((inside, _)) => match split_once(inside, "->"@) {
                Some((_, next)) => next == shot_id,
                None => inside == shot_id,
            },
        },
    }
}

pub fn diagnostic_targets_shot(path: &str, scene_id: &str, shot_id: &str) -> (b: bool)
    ensures
        b == targets_shot(path@, scene_id@, shot_id@),
{
    let chars = chars_of(path);
    let mut scene_pattern = owned("scenes[");
    push_str(&mut scene_pattern, scene_id);
    push_str(&mut scene_pattern, "]");
    if split_once_chars(&chars, &chars_of(scene_pattern.as_str())).is_none() {
        return false;
    }
    let rest = match split_once_chars(&chars, &chars_of("shots[")) {
        Some(parts) => parts.1,
        None => {
            return false;
        },
    };
    let inside = match split_once_chars(&rest, &chars_of("]")) {
        Some(parts) => parts.0,
        None => {
            return false;
        },
    };
    let wanted = chars_of(shot_id);
    match split_once_chars(&inside, &chars_of("->")) {
        Some(parts) => equal_chars(&parts.1, &wanted),
        None => equal_chars(&inside, &wanted),
    }
}

fn equal_chars(a: &Vec<char>, b: &Vec<char>) -> (eq: bool)
    ensures
        eq == (a@ == b@),
{
    if a.len() != b.len() {
        return false;
    }
    let mut i: usize = 0;
    while i < a.len()
        invariant
            i <= a.len(),
            a.len() == b.len(),
            forall|k: int| 0 <= k < i ==> a@[k] == b@[k],
        decreases a.len() - i,
    {
        if a[i] != b[i] {
            return false;
        }
        i = i + 1;
    }
    assert(a@ =~= b@);
    true
}

// ----------------------------------------------------------------------
// Labels and colours
// ----------------------------------------------------------------------

pub open spec fn short_size_text(size: ShotSize) -> Seq<char> {
    match size {
        ShotSize::ExtremeLong => "ELS"@,
        ShotSize::Long => "LS"@,
        ShotSize::MediumLong => "MLS"@,
        ShotSize::Medium => "MS"@,
        ShotSize::MediumCloseUp => "MCU"@,
        ShotSize::CloseUp => "CU"@,
        ShotSize::ExtremeCloseUp => "ECU"@,
        ShotSize::Insert => "INS"@,
        ShotSize::Custom => ""@,
    }
}

/// The industry abbreviation of a shot size (empty for a custom size).
pub fn short_shot_size(size: ShotSize) -> (s: &'static str)
    ensures
        s@ == short_size_text(size),
{
    match size {
        ShotSize::ExtremeLong => "ELS",
        ShotSize::Long => "LS",
        ShotSize::MediumLong => "MLS",
        ShotSize::Medium => "MS",
        ShotSize::MediumCloseUp => "MCU",
        ShotSize::CloseUp => "CU",
        ShotSize::ExtremeCloseUp => "ECU",
        ShotSize::Insert => "INS",
        ShotSize::Custom => "",
    }
}

/// Theme colours shared by every encoder.
pub open spec fn theme_marker() -> Rgb {
    Rgb { r: 120, g: 120, b: 128 }
}

pub open spec fn theme_camera() -> Rgb {
    Rgb { r: 30, g: 30, b: 36 }
}

pub open spec fn theme_eyeline() -> Rgb {
    Rgb { r: 40, g: 90, b: 200 }
}

pub open spec fn theme_axis() -> Rgb {
    Rgb { r: 214, g: 40, b: 40 }
}

pub open spec fn theme_warning() -> Rgb {
    Rgb { r: 220, g: 130, b: 20 }
}

pub open spec fn theme_error() -> Rgb {
    Rgb { r: 200, g: 30, b: 30 }
}

/// The colour a diagnostic of `severity` is drawn in.
pub fn severity_color(severity: Severity) -> (c: Rgb)
    ensures
        c == (match severity {
            Severity::Error => theme_error(),
            Severity::Warning => theme_warning(),
        }),
{
    match severity {
        Severity::Error => Rgb { r: 200, g: 30, b: 30 },
        Severity::Warning => Rgb { r: 220, g: 130, b: 20 },
    }
}

pub open spec fn phase_label_text(kind: PhaseKind) -> Seq<char> {
    match kind {
        PhaseKind::Hold => "hold"@,
        PhaseKind::Motion => "motion"@,
        PhaseKind::Focus => "focus"@,
        PhaseKind::Reveal => "reveal"@,
        PhaseKind::Settle => "settle"@,
        PhaseKind::Mixed => "mixed"@,
    }
}

/// The caption of a phase on a timeline.
pub fn phase_label(kind: PhaseKind) -> (s: &'static str)
    ensures
        s@ == phase_label_text(kind),
{
    match kind {
        PhaseKind::Hold => "hold",
        PhaseKind::Motion => "motion",
        PhaseKind::Focus => "focus",
        PhaseKind::Reveal => "reveal",
        PhaseKind::Settle => "settle",
        PhaseKind::Mixed => "mixed",
    }
}

pub open spec fn phase_color_of(kind: PhaseKind) -> Rgb {
    match kind {
        PhaseKind::Hold | PhaseKind::Settle => theme_marker(),
        PhaseKind::Motion => theme_camera(),
        PhaseKind::Focus => theme_eyeline(),
        PhaseKind::Reveal => Rgb { r: 120, g: 84, b: 190 },
        PhaseKind::Mixed => theme_axis(),
    }
}

/// The colour of a phase on a timeline.
pub fn phase_color(kind: PhaseKind) -> (c: Rgb)
    ensures
        c == phase_color_of(kind),
{
    match kind {
        PhaseKind::Hold | PhaseKind::Settle => Rgb { r: 120, g: 120, b: 128 },
        PhaseKind::Motion => Rgb { r: 30, g: 30, b: 36 },
        PhaseKind::Focus => Rgb { r: 40, g: 90, b: 200 },
        PhaseKind::Reveal => Rgb { r: 120, g: 84, b: 190 },
        PhaseKind::Mixed => Rgb { r: 214, g: 40, b: 40 },
    }
}

pub open spec fn is_ascii_alphanumeric(c: char) -> bool {
    ('0' <= c <= '9') || ('A' <= c <= 'Z') || ('a' <= c <= 'z')
}

pub open spec fn ascii_upper(c: char) -> char {
    if 'a' <= c <= 'z' {
        ((c as u32) - 32) as char
    } else {
        c
    }
}

/// The letter a glyph is marked with: the label's first character,
/// upper-cased, when it is an ASCII letter or digit; else `fallback`.
pub open spec fn initial_of(label: Option<Seq<char>>, fallback: char) -> char {
    match label {
        Some(l) => if l.len() > 0 && is_ascii_alphanumeric(l[0]) {
            ascii_upper(l[0])
        } else {
            fallback
        },
        None => fallback,
    }
}

pub fn initial(label: &Option<String>, fallback: char) -> (c: char)
    ensures
        c == initial_of(
            match label {
                Some(l) => Some(l@),
                None => None,
            },
            fallback,
        ),
{
    match label {
        Some(l) => {
            let chars = chars_of(l.as_str());
            if chars.len() > 0 {
                let first = chars[0];
                if ('0' <= first && first <= '9') || ('A' <= first && first <= 'Z') || ('a' <= first && first <= 'z') {
                    if 'a' <= first && first <= 'z' {
                        ((first as u8) - 32) as char
                    } else {
                        first
                    }
                } else {
                    fallback
                }
            } else {
                fallback
            }
        },
        None => fallback,
    }
}

// ----------------------------------------------------------------------
// Escaping and dash patterns
// ----------------------------------------------------------------------

/// Markup escaping: `&`, `<`, `>` and `"` as entities, in that order.
pub open spec fn escaped(text: Seq<char>) -> Seq<char> {
    replace_all(
        replace_all(replace_all(replace_all(text, "&"@, "&amp;"@), "<"@, "&lt;"@), ">"@, "&gt;"@),
        "\""@,
        "&quot;"@,
    )
}

/// Escapes text for SVG and HTML.
pub fn esc(text: &str) -> (out: String)
    ensures
        out@ == escaped(text@),
{
    proof {
        reveal_strlit("&");
        reveal_strlit("<");
        reveal_strlit(">");
        reveal_strlit("\"");
    }
    let amp = replaced(&chars_of(text), &chars_of("&"), &chars_of("&amp;"));
    let lt = replaced(&amp, &chars_of("<"), &chars_of("&lt;"));
    let gt = replaced(&lt, &chars_of(">"), &chars_of("&gt;"));
    string_of(&replaced(&gt, &chars_of("\""), &chars_of("&quot;")))
}

/// Escaped text holds no raw `<`, `>` or `"`.
pub proof fn lemma_escaped_has_no_markup(text: Seq<char>)
    ensures
        !escaped(text).contains('<'),
        !escaped(text).contains('>'),
        !escaped(text).contains('"'),
{
    reveal_strlit("&");
    reveal_strlit("<");
    reveal_strlit(">");
    reveal_strlit("\"");
    reveal_strlit("&amp;");
    reveal_strlit("&lt;");
    reveal_strlit("&gt;");
    reveal_strlit("&quot;");
    assert("&"@ =~= seq!['&']);
    assert("<"@ =~= seq!['<']);
    assert(">"@ =~= seq!['>']);
    assert("\""@ =~= seq!['"']);
    let step1 = replace_all(text, "&"@, "&amp;"@);
    let step2 = replace_all(step1, "<"@, "&lt;"@);
    let step3 = replace_all(step2, ">"@, "&gt;"@);
    assert(!"&lt;"@.contains('<')) by {
        if "&lt;"@.contains('<') {
            let w = choose|w: int| 0 <= w < 4 && "&lt;"@[w] == '<';
        }
    }
    assert(!"&gt;"@.contains('<') && !"&gt;"@.contains('>')) by {
        if "&gt;"@.contains('<') {
            let w = choose|w: int| 0 <= w < 4 && "&gt;"@[w] == '<';
        }
        if "&gt;"@.contains('>') {
            let w = choose|w: int| 0 <= w < 4 && "&gt;"@[w] == '>';
        }
    }
    assert(!"&quot;"@.contains('<') && !"&quot;"@.contains('>') && !"&quot;"@.contains('"')) by {
        if "&quot;"@.contains('<') {
            let w = choose|w: int| 0 <= w < 6 && "&quot;"@[w] == '<';
        }
        if "&quot;"@.contains('>') {
            let w = choose|w: int| 0 <= w < 6 && "&quot;"@[w] == '>';
        }
        if "&quot;"@.contains('"') {
            let w = choose|w: int| 0 <= w < 6 && "&quot;"@[w] == '"';
        }
    }
    lemma_replace_removes(step1, '<', "&lt;"@);
    lemma_replace_keeps_absent(step2, ">"@, "&gt;"@, '<');
    lemma_replace_removes(step2, '>', "&gt;"@);
    lemma_replace_keeps_absent(step3, "\""@, "&quot;"@, '<');
    lemma_replace_keeps_absent(step3, "\""@, "&quot;"@, '>');
    lemma_replace_removes(step3, '"', "&quot;"@);
}

pub open spec fn dash_text(style: LineStyle) -> Seq<char> {
    match style {
        LineStyle::Solid => ""@,
        LineStyle::Dashed => " stroke-dasharray=\"6 4\""@,
        LineStyle::Dotted => " stroke-dasharray=\"1.5 3\""@,
    }
}

/// The SVG stroke attribute of a line style.
pub fn dash(style: LineStyle) -> (s: &'static str)
    ensures
        s@ == dash_text(style),
{
    match style {
        LineStyle::Solid => "",
        LineStyle::Dashed => " stroke-dasharray=\"6 4\"",
        LineStyle::Dotted => " stroke-dasharray=\"1.5 3\"",
    }
}

// ----------------------------------------------------------------------
// Markdown documents
// ----------------------------------------------------------------------

/// One sampled panel of a Markdown view: its label and scene frame, the
/// panel drawn as ASCII, and the shot's prompt when one is shown.
#[derive(Debug, Clone)]
pub struct MarkdownCell {
    pub label: String,
    pub scene_frame: Frame,
    pub ascii: String,
    pub prompt: Option<String>,
}

/// A cell's section: a heading with its label and frame, the ASCII panel
/// in a `text` block, then, for people, the shot's prompt.
pub open spec fn cell_markdown(c: MarkdownCell, human: bool) -> Seq<char> {
    "## "@ + c.label@ + " \u{b7} f"@ + crate::text::decimal(c.scene_frame as nat) + "\n\n```text\n"@ + c.ascii@
        + "```\n\n"@ + match c.prompt {
        Some(p) => if human { p@ + "\n\n"@ } else { Seq::empty() },
        None => Seq::empty(),
    }
}

/// A scene as Markdown: a title line, for people the dramatic question,
/// then each cell's section in order.
pub open spec fn markdown_text(
    scene_id: Seq<char>,
    title: Seq<char>,
    question: Option<Seq<char>>,
    human: bool,
    cells: Seq<MarkdownCell>,
) -> Seq<char> {
    "# "@ + scene_id + " \u{2014} "@ + title + "\n\n"@ + match question {
        Some(q) => if human { q + "\n\n"@ } else { Seq::empty() },
        None => Seq::empty(),
    } + crate::diagnostic::flatten(Seq::new(cells.len(), |i: int| cell_markdown(cells[i], human)))
}

/// Renders a scene's sampled panels as one Markdown document.
pub fn markdown_document(
    scene_id: &str,
    title: &str,
    question: &Option<String>,
    human: bool,
    cells: &Vec<MarkdownCell>,
) -> (out: String)
    ensures
        out@ == markdown_text(
            scene_id@,
            title@,
            match question {
                Some(q) => Some(q@),
                None => None,
            },
            human,
            cells@,
        ),
{
    let mut out = owned("# ");
    push_str(&mut out, scene_id);
    push_str(&mut out, " \u{2014} ");
    push_str(&mut out, title);
    push_str(&mut out, "\n\n");
    if human {
        match question {
            Some(q) => {
                push_str(&mut out, q.as_str());
                push_str(&mut out, "\n\n");
            },
            None => {},
        }
    }
    let ghost head = out@;
    let ghost f = |i: int| cell_markdown(cells@[i], human);
    let mut i: usize = 0;
    while i < cells.len()
        invariant
            i <= cells.len(),
            f == (|i: int| cell_markdown(cells@[i], human)),
            out@ == head + crate::diagnostic::flatten(Seq::new(i as nat, f)),
        decreases cells.len() - i,
    {
        let c = &cells[i];
        let ghost before = out@;
        push_str(&mut out, "## ");
        push_str(&mut out, c.label.as_str());
        push_str(&mut out, " \u{b7} f");
        crate::text::push_decimal(&mut out, c.scene_frame);
        push_str(&mut out, "\n\n```text\n");
        push_str(&mut out, c.ascii.as_str());
        push_str(&mut out, "```\n\n");
        if human {
            match &c.prompt {
                Some(p) => {
                    push_str(&mut out, p.as_str());
                    push_str(&mut out, "\n\n");
                },
                None => {},
            }
        }
        proof {
            crate::diagnostic::lemma_flatten_new_step(i as nat, f);
            assert(out@ =~= before + f(i as int));
        }
        i = i + 1;
    }
    proof {
        assert(Seq::new(cells@.len(), f) =~= Seq::new(cells@.len(), |i: int| cell_markdown(cells@[i], human)));
    }
    out
}

// ----------------------------------------------------------------------
// HTML pages
// ----------------------------------------------------------------------

/// A still page: the escaped title, a page at most `width` pixels wide,
/// and the inline SVG of the view.
pub open spec fn still_page_text(title: Seq<char>, width: int, svg: Seq<char>) -> Seq<char> {
    "<!doctype html>\n<html lang=\"en\"><head><meta charset=\"utf-8\"><title>"@ + escaped(title)
        + "</title><style>body{margin:0;background:#f4f4f6;display:flex;justify-content:center;align-items:center;min-height:100vh}main{width:min(100vw,"@
        + crate::text::signed_decimal(width)
        + "px)}svg{width:100%;height:auto;display:block;background:#fff}</style></head><body><main data-composition-id=\""@
        + escaped(title) + "\">"@ + svg + "</main></body></html>\n"@
}

/// An HTML page showing one view, `width` pixels wide at most.
pub fn still_page(title: &str, width: i64, svg: &str) -> (page: String)
    ensures
        page@ == still_page_text(title@, width as int, svg@),
{
    let escaped_title = esc(title);
    let mut page = owned("<!doctype html>\n<html lang=\"en\"><head><meta charset=\"utf-8\"><title>");
    push_str(&mut page, escaped_title.as_str());
    push_str(
        &mut page,
        "</title><style>body{margin:0;background:#f4f4f6;display:flex;justify-content:center;align-items:center;min-height:100vh}main{width:min(100vw,",
    );
    crate::text::push_signed_decimal(&mut page, width);
    push_str(
        &mut page,
        "px)}svg{width:100%;height:auto;display:block;background:#fff}</style></head><body><main data-composition-id=\"",
    );
    push_str(&mut page, escaped_title.as_str());
    push_str(&mut page, "\">");
    push_str(&mut page, svg);
    push_str(&mut page, "</main></body></html>\n");
    page
}

/// One frame of an animation page: it becomes current at scene time `t`.
pub open spec fn animation_frame_text(index: nat, t: Seq<char>, svg: Seq<char>) -> Seq<char> {
    "<div class=\"frame"@ + (if index == 0 { " active"@ } else { Seq::empty() }) + "\" data-frame=\""@
        + crate::text::decimal(index) + "\" data-t=\""@ + t + "\">"@ + svg + "</div>"@
}

/// An animation page: the frames (each with the text of the scene time at
/// which it becomes current, and its inline SVG) play over `duration`
/// seconds; the script seeks to the frame current at a time, and the
/// first frame's width (800 without frames) bounds the page.
pub open spec fn animation_page_text(
    title: Seq<char>,
    first_width: Option<i64>,
    duration: Seq<char>,
    fps: Seq<char>,
    frames: Seq<(String, String)>,
) -> Seq<char> {
    let width = match first_width {
        Some(w) => w as int,
        None => 800,
    };
    let count = if frames.len() == 0 { 1 } else { frames.len() };
    "<!doctype html>\n<html lang=\"en\"><head><meta charset=\"utf-8\"><title>"@ + escaped(title)
        + "</title><style>body{margin:0;background:#f4f4f6;display:flex;justify-content:center;align-items:center;min-height:100vh}main{width:min(100vw,"@
        + crate::text::signed_decimal(width)
        + "px);position:relative}.frame{display:none}.frame.active{display:block}svg{width:100%;height:auto;display:block;background:#fff}</style></head><body><main data-composition-id=\""@
        + escaped(title) + "\" data-duration=\""@ + duration + "\" data-fps=\""@ + fps + "\" data-frames=\""@
        + crate::text::decimal(count) + "\">"@ + crate::diagnostic::flatten(
        Seq::new(frames.len(), |i: int| animation_frame_text(i as nat, frames[i].0@, frames[i].1@)),
    )
        + "</main><script>(function(){var frames=Array.prototype.slice.call(document.querySelectorAll('.frame'));var times=["@
        + crate::emit::joined(frames.map_values(|f: (String, String)| f.0@), ","@) + "];var duration="@ + duration
        + ";var count=frames.length;var current=0;var timer=null;function frameAt(t){var i=0;for(var k=0;k<times.length;k++){if(times[k]<=t+1e-6)i=k;else break;}return i;}function show(i){i=Math.max(0,Math.min(count-1,i));if(i===current)return;frames[current].classList.remove('active');frames[i].classList.add('active');current=i;}function stop(){if(timer!==null){clearInterval(timer);timer=null;}}window.__insightVideo={duration:duration,ready:true,seek:function(t){stop();show(frameAt(t));}};window.__cineFrames={count:count,times:times,duration:duration,show:show,stop:stop,frameAt:frameAt};var started=Date.now();timer=setInterval(function(){var t=((Date.now()-started)/1000)%Math.max(duration,1e-3);show(frameAt(t));},40);})();</script></body></html>\n"@
}

proof fn lemma_time_views_step(before: Seq<String>, t: String, frames: Seq<(String, String)>, i: int)
    requires
        0 <= i < frames.len(),
        crate::text::string_views(before) == frames.take(i).map_values(|f: (String, String)| f.0@),
        t == frames[i].0,
    ensures
        crate::text::string_views(before.push(t)) == frames.take(i + 1).map_values(|f: (String, String)| f.0@),
{
    assert(frames.take(i + 1) =~= frames.take(i).push(frames[i]));
    assert(crate::text::string_views(before.push(t)) =~= crate::text::string_views(before).push(t@));
    assert(crate::text::string_views(before.push(t)) =~= frames.take(i + 1).map_values(|f: (String, String)| f.0@));
}

/// An HTML page that plays a scene's frames on the scene's own time base.
/// Times, duration and frame rate come as the text they are printed as.
pub fn animation_page(
    title: &str,
    first_width: Option<i64>,
    duration: &str,
    fps: &str,
    frames: &Vec<(String, String)>,
) -> (page: String)
    ensures
        page@ == animation_page_text(title@, first_width, duration@, fps@, frames@),
{
    let escaped_title = esc(title);
    let width: i64 = match first_width {
        Some(w) => w,
        None => 800,
    };
    let count: usize = if frames.len() == 0 { 1 } else { frames.len() };
    let mut page = owned("<!doctype html>\n<html lang=\"en\"><head><meta charset=\"utf-8\"><title>");
    push_str(&mut page, escaped_title.as_str());
    push_str(
        &mut page,
        "</title><style>body{margin:0;background:#f4f4f6;display:flex;justify-content:center;align-items:center;min-height:100vh}main{width:min(100vw,",
    );
    crate::text::push_signed_decimal(&mut page, width);
    push_str(
        &mut page,
        "px);position:relative}.frame{display:none}.frame.active{display:block}svg{width:100%;height:auto;display:block;background:#fff}</style></head><body><main data-composition-id=\"",
    );
    push_str(&mut page, escaped_title.as_str());
    push_str(&mut page, "\" data-duration=\"");
    push_str(&mut page, duration);
    push_str(&mut page, "\" data-fps=\"");
    push_str(&mut page, fps);
    push_str(&mut page, "\" data-frames=\"");
    crate::text::push_decimal(&mut page, count as u64);
    push_str(&mut page, "\">");
    let ghost head = page@;
    let ghost f = |i: int| animation_frame_text(i as nat, frames@[i].0@, frames@[i].1@);
    let mut times: Vec<String> = Vec::new();
    let mut i: usize = 0;
    while i < frames.len()
        invariant
            i <= frames.len(),
            f == (|i: int| animation_frame_text(i as nat, frames@[i].0@, frames@[i].1@)),
            page@ == head + crate::diagnostic::flatten(Seq::new(i as nat, f)),
            crate::text::string_views(times@) == frames@.take(i as int).map_values(|f: (String, String)| f.0@),
        decreases frames.len() - i,
    {
        let ghost before = page@;
        let ghost times_before = times@;
        push_str(&mut page, "<div class=\"frame");
        if i == 0 {
            push_str(&mut page, " active");
        }
        push_str(&mut page, "\" data-frame=\"");
        crate::text::push_decimal(&mut page, i as u64);
        push_str(&mut page, "\" data-t=\"");
        push_str(&mut page, frames[i].0.as_str());
        push_str(&mut page, "\">");
        push_str(&mut page, frames[i].1.as_str());
        push_str(&mut page, "</div>");
        times.push(frames[i].0.clone());
        proof {
            crate::diagnostic::lemma_flatten_new_step(i as nat, f);
            assert(page@ =~= before + f(i as int));
            lemma_time_views_step(times_before, frames@[i as int].0, frames@, i as int);
        }
        i = i + 1;
    }
    proof {
        assert(Seq::new(frames@.len(), f) =~= Seq::new(
            frames@.len(),
            |i: int| animation_frame_text(i as nat, frames@[i].0@, frames@[i].1@),
        ));
        assert(frames@.take(frames@.len() as int) =~= frames@);
    }
    push_str(
        &mut page,
        "</main><script>(function(){var frames=Array.prototype.slice.call(document.querySelectorAll('.frame'));var times=[",
    );
    let joined_times = crate::emit::join_with(&times, ",");
    push_str(&mut page, joined_times.as_str());
    push_str(&mut page, "];var duration=");
    push_str(&mut page, duration);
    push_str(
        &mut page,
        ";var count=frames.length;var current=0;var timer=null;function frameAt(t){var i=0;for(var k=0;k<times.length;k++){if(times[k]<=t+1e-6)i=k;else break;}return i;}function show(i){i=Math.max(0,Math.min(count-1,i));if(i===current)return;frames[current].classList.remove('active');frames[i].classList.add('active');current=i;}function stop(){if(timer!==null){clearInterval(timer);timer=null;}}window.__insightVideo={duration:duration,ready:true,seek:function(t){stop();show(frameAt(t));}};window.__cineFrames={count:count,times:times,duration:duration,show:show,stop:stop,frameAt:frameAt};var started=Date.now();timer=setInterval(function(){var t=((Date.now()-started)/1000)%Math.max(duration,1e-3);show(frameAt(t));},40);})();</script></body></html>\n",
    );
    page
}

} // verus!
