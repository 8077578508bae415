//! Command-line values: resolutions like `1024x576` and frame ranges like
//! `0..48`.
use vstd::prelude::*;

use crate::model::{Frame, FrameRange};
use crate::sample::Sampling;
use crate::text::{
    ascii_lower, ascii_lower_seq, lower_ascii_char, push_chars, chars_of, int_error_text, owned, parse_u32, parse_u32_spec, parse_u64, parse_u64_spec, split_once,
    split_once_chars, trim, trimmed, IntError,
};
use crate::view::{LabelMode, Layout, StripAxis};

verus! {

/// `WIDTHxHEIGHT`, each side trimmed and read as a decimal `u32`.
pub open spec fn resolution_of(text: Seq<char>) -> Result<(u32, u32), Seq<char>> {
    match split_once(text, "x"@) {
        None => Err("resolution must look like 1024x576"@),
        Some((w, h)) => match parse_u32_spec(trim(w)) {
            Err(e) => Err(int_error_text(e)),
            Ok(width) => match parse_u32_spec(trim(h)) {
                Err(e) => Err(int_error_text(e)),
                Ok(height) => Ok((width, height)),
            },
        },
    }
}

/// Reads an output resolution such as `1024x576`.
pub fn parse_resolution(text: &str) -> (result: Result<(u32, u32), String>)
    ensures
        match result {
            Ok(size) => resolution_of(text@) == Ok::<(u32, u32), Seq<char>>(size),
            Err(message) => resolution_of(text@) == Err::<(u32, u32), Seq<char>>(message@),
        },
{
    let parts = match split_once_chars(&chars_of(text), &chars_of("x")) {
        Some(parts) => parts,
        None => {
            return Err(owned("resolution must look like 1024x576"));
        },
    };
    let width = match parse_u32(&trimmed(&parts.0)) {
        Ok(value) => value,
        Err(e) => {
            return Err(owned(e.message()));
        },
    };
    let height = match parse_u32(&trimmed(&parts.1)) {
        Ok(value) => value,
        Err(e) => {
            return Err(owned(e.message()));
        },
    };
    Ok((width, height))
}

/// `START..END`, each side trimmed and read as a decimal frame, with
/// `START < END`.
pub open spec fn frame_range_of(text: Seq<char>) -> Result<FrameRange, Seq<char>> {
    match split_once(text, ".."@) {
        None => Err("frame range must look like 0..48"@),
        Some((s, e)) => match parse_u64_spec(trim(s)) {
            Err(err) => Err(int_error_text(err)),
            Ok(start) => match parse_u64_spec(trim(e)) {
                Err(err) => Err(int_error_text(err)),
                Ok(end) => if start < end {
                    Ok(FrameRange { start, end })
                } else {
                    Err("frame range start must be less than end"@)
                },
            },
        },
    }
}

/// Reads a half-open frame range such as `0..48`.
pub fn parse_frame_range(text: &str) -> (result: Result<FrameRange, String>)
    ensures
        match result {
            Ok(range) => frame_range_of(text@) == Ok::<FrameRange, Seq<char>>(range),
            Err(message) => frame_range_of(text@) == Err::<FrameRange, Seq<char>>(message@),
        },
{
    let parts = match split_once_chars(&chars_of(text), &chars_of("..")) {
        Some(parts) => parts,
        None => {
            return Err(owned("frame range must look like 0..48"));
        },
    };
    let start: Frame = match parse_u64(&trimmed(&parts.0)) {
        Ok(value) => value,
        Err(e) => {
            return Err(owned(e.message()));
        },
    };
    let end: Frame = match parse_u64(&trimmed(&parts.1)) {
        Ok(value) => value,
        Err(e) => {
            return Err(owned(e.message()));
        },
    };
    let range = FrameRange { start, end };
    if !range.is_valid() {
        return Err(owned("frame range start must be less than end"));
    }
    Ok(range)
}

/// How a document file is written.
#[derive(Debug, Clone, Copy, PartialEq, Eq, Structural)]
pub enum DocumentFormat {
    Yaml,
    Json,
}

/// The format a file extension (ASCII case ignored) names.
pub open spec fn format_for(extension: Option<Seq<char>>) -> Result<DocumentFormat, Seq<char>> {
    match extension {
        None => Err("input file has no extension; expected .yaml, .yml, or .json"@),
        Some(e) => {
            let lower = ascii_lower_seq(e);
            if lower == "yaml"@ || lower == "yml"@ {
                Ok(DocumentFormat::Yaml)
            } else if lower == "json"@ {
                Ok(DocumentFormat::Json)
            } else {
                Err("unsupported extension ."@ + lower + "; expected .yaml, .yml, or .json"@)
            }
        },
    }
}

fn lowered(text: &str) -> (out: Vec<char>)
    ensures
        out@ == ascii_lower_seq(text@),
{
    let v = chars_of(text);
    let mut out: Vec<char> = Vec::new();
    let mut i: usize = 0;
    while i < v.len()
        invariant
            i <= v.len(),
            v@ == text@,
            out@ == ascii_lower_seq(v@.take(i as int)),
        decreases v.len() - i,
    {
        out.push(lower_ascii_char(v[i]));
        assert(ascii_lower_seq(v@.take(i + 1)) =~= ascii_lower_seq(v@.take(i as int)).push(ascii_lower(v@[i as int])));
        i = i + 1;
    }
    assert(v@.take(v.len() as int) =~= v@);
    out
}

fn is_chars(v: &Vec<char>, name: &str) -> (b: bool)
    ensures
        b == (v@ == name@),
{
    let w = chars_of(name);
    if v.len() != w.len() {
        return false;
    }
    let mut i: usize = 0;
    while i < v.len()
        invariant
            i <= v.len(),
            v.len() == w.len(),
            w@ == name@,
            forall|k: int| 0 <= k < i ==> v@[k] == w@[k],
        decreases v.len() - i,
    {
        if v[i] != w[i] {
            return false;
        }
        i = i + 1;
    }
    assert(v@ =~= w@);
    true
}

/// Chooses the parser for a document from its file extension.
pub fn document_format(extension: Option<&str>) -> (result: Result<DocumentFormat, String>)
    ensures
        match result {
            Ok(f) => format_for(
                match extension {
                    Some(e) => Some(e@),
                    None => None,
                },
            ) == Ok::<DocumentFormat, Seq<char>>(f),
            Err(message) => format_for(
                match extension {
                    Some(e) => Some(e@),
                    None => None,
                },
            ) == Err::<DocumentFormat, Seq<char>>(message@),
        },
{
    match extension {
        None => Err(owned("input file has no extension; expected .yaml, .yml, or .json")),
        Some(e) => {
            let lower = lowered(e);
            if is_chars(&lower, "yaml") || is_chars(&lower, "yml") {
                Ok(DocumentFormat::Yaml)
            } else if is_chars(&lower, "json") {
                Ok(DocumentFormat::Json)
            } else {
                let mut message = owned("unsupported extension .");
                push_chars(&mut message, &lower);
                crate::text::push_str(&mut message, "; expected .yaml, .yml, or .json");
                Err(message)
            }
        },
    }
}

/// `"unknown <what> '<name>'"`.
pub open spec fn unknown_text(what: Seq<char>, name: Seq<char>) -> Seq<char> {
    "unknown "@ + what + " '"@ + name + "'"@
}

fn unknown_message(what: &str, name: &Vec<char>) -> (message: String)
    ensures
        message@ == unknown_text(what@, name@),
{
    let mut message = owned("unknown ");
    crate::text::push_str(&mut message, what);
    crate::text::push_str(&mut message, " '");
    push_chars(&mut message, name);
    crate::text::push_str(&mut message, "'");
    message
}

/// The label mode a command-line name selects.
pub open spec fn label_mode_named(name: Seq<char>) -> Option<LabelMode> {
    if name == "none"@ {
        Some(LabelMode::Neutral)
    } else if name == "color"@ || name == "colour"@ {
        Some(LabelMode::Color)
    } else if name == "color+name"@ || name == "colour+name"@ || name == "name"@ {
        Some(LabelMode::ColorName)
    } else {
        None
    }
}

/// Reads `none`, `color` (or `colour`) or `color+name` (or `colour+name`,
/// `name`).
pub fn parse_label_mode(text: &str) -> (result: Result<LabelMode, String>)
    ensures
        match result {
            Ok(mode) => label_mode_named(text@) == Some(mode),
            Err(message) => label_mode_named(text@) is None && message@ == unknown_text("label mode"@, text@),
        },
{
    let v = chars_of(text);
    if is_chars(&v, "none") {
        Ok(LabelMode::Neutral)
    } else if is_chars(&v, "color") || is_chars(&v, "colour") {
        Ok(LabelMode::Color)
    } else if is_chars(&v, "color+name") || is_chars(&v, "colour+name") || is_chars(&v, "name") {
        Ok(LabelMode::ColorName)
    } else {
        Err(unknown_message("label mode", &v))
    }
}

/// A decimal `usize`, as `str::parse::<usize>` reads one.
pub open spec fn usize_of(text: Seq<char>) -> Result<usize, Seq<char>> {
    match parse_u64_spec(text) {
        Err(e) => Err(int_error_text(e)),
        Ok(n) => if n <= usize::MAX {
            Ok(n as usize)
        } else {
            Err(int_error_text(IntError::PosOverflow))
        },
    }
}

/// A decimal `u32`, as `str::parse::<u32>` reads one.
pub open spec fn u32_of(text: Seq<char>) -> Result<u32, Seq<char>> {
    match parse_u32_spec(text) {
        Err(e) => Err(int_error_text(e)),
        Ok(n) => Ok(n),
    }
}

/// A decimal `u64`, as `str::parse::<u64>` reads one.
pub open spec fn u64_of(text: Seq<char>) -> Result<u64, Seq<char>> {
    match parse_u64_spec(text) {
        Err(e) => Err(int_error_text(e)),
        Ok(n) => Ok(n),
    }
}

/// A layout: `grid[:COLUMNS]` (two columns by default), `strip[:h|v]`
/// (horizontal by default), `separate`, or `animate[:FPS]`; an animation
/// rate is returned beside the layout.
pub open spec fn layout_of(text: Seq<char>) -> Result<(Layout, Option<u32>), Seq<char>> {
    match split_once(text, ":"@) {
        None => if text == "grid"@ {
            Ok((Layout::Grid { columns: 2 }, None))
        } else if text == "strip"@ {
            Ok((Layout::Strip { axis: StripAxis::Horizontal }, None))
        } else if text == "separate"@ {
            Ok((Layout::Separate, None))
        } else if text == "animate"@ {
            Ok((Layout::Animate, None))
        } else {
            Err(unknown_text("layout"@, text))
        },
        Some((head, rest)) => if head == "grid"@ {
            match usize_of(rest) {
                Ok(columns) => Ok((Layout::Grid { columns }, None)),
                Err(message) => Err(message),
            }
        } else if head == "strip"@ {
            if rest == "h"@ || rest == "horizontal"@ {
                Ok((Layout::Strip { axis: StripAxis::Horizontal }, None))
            } else if rest == "v"@ || rest == "vertical"@ {
                Ok((Layout::Strip { axis: StripAxis::Vertical }, None))
            } else {
                Err(unknown_text("strip axis"@, rest))
            }
        } else if head == "animate"@ {
            match u32_of(rest) {
                Ok(fps) => Ok((Layout::Animate, Some(fps))),
                Err(message) => Err(message),
            }
        } else {
            Err(unknown_text("layout"@, head))
        },
    }
}

fn read_usize(v: &Vec<char>) -> (result: Result<usize, String>)
    ensures
        match result {
            Ok(n) => usize_of(v@) == Ok::<usize, Seq<char>>(n),
            Err(message) => usize_of(v@) == Err::<usize, Seq<char>>(message@),
        },
{
    match parse_u64(v) {
        Err(e) => Err(owned(e.message())),
        Ok(n) => if n <= usize::MAX as u64 {
            Ok(n as usize)
        } else {
            Err(owned(IntError::PosOverflow.message()))
        },
    }
}

fn read_u32(v: &Vec<char>) -> (result: Result<u32, String>)
    ensures
        match result {
            Ok(n) => u32_of(v@) == Ok::<u32, Seq<char>>(n),
            Err(message) => u32_of(v@) == Err::<u32, Seq<char>>(message@),
        },
{
    match parse_u32(v) {
        Err(e) => Err(owned(e.message())),
        Ok(n) => Ok(n),
    }
}

fn read_u64(v: &Vec<char>) -> (result: Result<u64, String>)
    ensures
        match result {
            Ok(n) => u64_of(v@) == Ok::<u64, Seq<char>>(n),
            Err(message) => u64_of(v@) == Err::<u64, Seq<char>>(message@),
        },
{
    match parse_u64(v) {
        Err(e) => Err(owned(e.message())),
        Ok(n) => Ok(n),
    }
}

/// Reads a view layout such as `grid:3`, `strip:v` or `animate:12`.
pub fn parse_layout(text: &str) -> (result: Result<(Layout, Option<u32>), String>)
    ensures
        match result {
            Ok(layout) => layout_of(text@) == Ok::<(Layout, Option<u32>), Seq<char>>(layout),
            Err(message) => layout_of(text@) == Err::<(Layout, Option<u32>), Seq<char>>(message@),
        },
{
    let v = chars_of(text);
    proof { reveal_strlit(":"); }
    match split_once_chars(&v, &chars_of(":")) {
        None => {
            if is_chars(&v, "grid") {
                Ok((Layout::Grid { columns: 2 }, None))
            } else if is_chars(&v, "strip") {
                Ok((Layout::Strip { axis: StripAxis::Horizontal }, None))
            } else if is_chars(&v, "separate") {
                Ok((Layout::Separate, None))
            } else if is_chars(&v, "animate") {
                Ok((Layout::Animate, None))
            } else {
                Err(unknown_message("layout", &v))
            }
        },
        Some(parts) => {
            let head = &parts.0;
            let rest = &parts.1;
            if is_chars(head, "grid") {
                match read_usize(rest) {
                    Ok(columns) => Ok((Layout::Grid { columns }, None)),
                    Err(message) => Err(message),
                }
            } else if is_chars(head, "strip") {
                if is_chars(rest, "h") || is_chars(rest, "horizontal") {
                    Ok((Layout::Strip { axis: StripAxis::Horizontal }, None))
                } else if is_chars(rest, "v") || is_chars(rest, "vertical") {
                    Ok((Layout::Strip { axis: StripAxis::Vertical }, None))
                } else {
                    Err(unknown_message("strip axis", rest))
                }
            } else if is_chars(head, "animate") {
                match read_u32(rest) {
                    Ok(fps) => Ok((Layout::Animate, Some(fps))),
                    Err(message) => Err(message),
                }
            } else {
                Err(unknown_message("layout", head))
            }
        },
    }
}

/// A sampling mode: `per-shot` (`shot`), `per-beat` (`beat`),
/// `op-endpoints` (`ops`), `semantic-events` (`events`),
/// `phase-keyframes` (`phases`), `constraint-extrema` (`extrema`),
/// `cut-pairs` (`cuts`), `every:N`, or `continuous[:FPS]`.
pub open spec fn sampling_of(text: Seq<char>) -> Result<Sampling, Seq<char>> {
    match split_once(text, ":"@) {
        None => if text == "per-shot"@ || text == "shot"@ {
            Ok(Sampling::PerShot)
        } else if text == "per-beat"@ || text == "beat"@ {
            Ok(Sampling::PerBeat)
        } else if text == "op-endpoints"@ || text == "ops"@ {
            Ok(Sampling::OperationEndpoints)
        } else if text == "semantic-events"@ || text == "events"@ {
            Ok(Sampling::SemanticEvents)
        } else if text == "phase-keyframes"@ || text == "phases"@ {
            Ok(Sampling::PhaseKeyframes)
        } else if text == "constraint-extrema"@ || text == "extrema"@ {
            Ok(Sampling::ConstraintExtrema)
        } else if text == "cut-pairs"@ || text == "cuts"@ {
            Ok(Sampling::CutPairs)
        } else if text == "continuous"@ {
            Ok(Sampling::Continuous { fps: 0 })
        } else {
            Err(unknown_text("sampling"@, text))
        },
        Some((head, rest)) => if head == "every"@ {
            match u64_of(rest) {
                Ok(n) => Ok(Sampling::EveryNFrames(n)),
                Err(message) => Err(message),
            }
        } else if head == "continuous"@ {
            match u32_of(rest) {
                Ok(fps) => Ok(Sampling::Continuous { fps }),
                Err(message) => Err(message),
            }
        } else {
            Err(unknown_text("sampling"@, head))
        },
    }
}

/// Reads a sampling mode such as `per-beat`, `every:12` or `continuous:8`.
pub fn parse_sampling(text: &str) -> (result: Result<Sampling, String>)
    ensures
        match result {
            Ok(sampling) => sampling_of(text@) == Ok::<Sampling, Seq<char>>(sampling),
            Err(message) => sampling_of(text@) == Err::<Sampling, Seq<char>>(message@),
        },
{
    let v = chars_of(text);
    proof { reveal_strlit(":"); }
    match split_once_chars(&v, &chars_of(":")) {
        None => {
            if is_chars(&v, "per-shot") || is_chars(&v, "shot") {
                Ok(Sampling::PerShot)
            } else if is_chars(&v, "per-beat") || is_chars(&v, "beat") {
                Ok(Sampling::PerBeat)
            } else if is_chars(&v, "op-endpoints") || is_chars(&v, "ops") {
                Ok(Sampling::OperationEndpoints)
            } else if is_chars(&v, "semantic-events") || is_chars(&v, "events") {
                Ok(Sampling::SemanticEvents)
            } else if is_chars(&v, "phase-keyframes") || is_chars(&v, "phases") {
                Ok(Sampling::PhaseKeyframes)
            } else if is_chars(&v, "constraint-extrema") || is_chars(&v, "extrema") {
                Ok(Sampling::ConstraintExtrema)
            } else if is_chars(&v, "cut-pairs") || is_chars(&v, "cuts") {
                Ok(Sampling::CutPairs)
            } else if is_chars(&v, "continuous") {
                Ok(Sampling::Continuous { fps: 0 })
            } else {
                Err(unknown_message("sampling", &v))
            }
        },
        Some(parts) => {
            let head = &parts.0;
            let rest = &parts.1;
            if is_chars(head, "every") {
                match read_u64(rest) {
                    Ok(n) => Ok(Sampling::EveryNFrames(n)),
                    Err(message) => Err(message),
                }
            } else if is_chars(head, "continuous") {
                match read_u32(rest) {
                    Ok(fps) => Ok(Sampling::Continuous { fps }),
                    Err(message) => Err(message),
                }
            } else {
                Err(unknown_message("sampling", head))
            }
        },
    }
}

/// The sampling of a view: the one named on the command line; without one,
/// continuous sampling at the animation rate of an `animate:FPS` layout;
/// otherwise `default`.
pub open spec fn chosen_sampling(text: Option<Seq<char>>, animate_fps: Option<u32>, default: Sampling) -> Result<
    Sampling,
    Seq<char>,
> {
    match text {
        Some(t) => sampling_of(t),
        None => match animate_fps {
            Some(fps) => Ok(Sampling::Continuous { fps }),
            None => Ok(default),
        },
    }
}

pub fn choose_sampling(text: Option<&str>, animate_fps: Option<u32>, default: Sampling) -> (result: Result<
    Sampling,
    String,
>)
    ensures
        match result {
            Ok(sampling) => chosen_sampling(
                match text {
                    Some(t) => Some(t@),
                    None => None,
                },
                animate_fps,
                default,
            ) == Ok::<Sampling, Seq<char>>(sampling),
            Err(message) => chosen_sampling(
                match text {
                    Some(t) => Some(t@),
                    None => None,
                },
                animate_fps,
                default,
            ) == Err::<Sampling, Seq<char>>(message@),
        },
{
    match text {
        Some(t) => parse_sampling(t),
        None => match animate_fps {
            Some(fps) => Ok(Sampling::Continuous { fps }),
            None => Ok(default),
        },
    }
}

} // verus!
