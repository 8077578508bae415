//! A layered intermediate representation for cinematography planning, with
//! its static checks proved against their specifications.
//!
//! * `model` — the document: scenes, subjects, shots, camera programs.
//! * `validate`, `timeline`, `analyze` — structural and continuity checks.
//! * `compiled` — phases, phrases, prohibitions and the edit of a shot.
//! * `prompt`, `view`, `execute`, `compare` — the vocabulary and exact text
//!   rules of the downstream consumers.
//! * `grid`, `blender` — the character raster behind ASCII views and the
//!   Blender adapter's checks and records.
use vstd::prelude::*;

pub mod analyze;
pub mod args;
pub mod blender;
pub mod compare;
pub mod compiled;
pub mod diagnostic;
pub mod emit;
pub mod execute;
pub mod grid;
pub mod hash;
pub mod model;
pub mod names;
pub mod order;
pub mod palette;
pub mod prompt;
pub mod report;
pub mod sample;
pub mod solve;
pub mod text;
pub mod timeline;
pub mod validate;
pub mod view;

pub use analyze::analyze_continuity;
pub use diagnostic::{Diagnostic, Severity, ValidationReport};
pub use execute::{AdapterCapabilities, ChannelLayout, ColorSpace, ConditioningPass, ExecutionBundle, PassKind,
    PassOutput, PixelEncoding, VideoModelProfile};
pub use prompt::{PromptDialect, PromptOptions, ShotPrompt};
pub use report::render_summary;
pub use solve::{Fidelity, SolveError, SolveOptions};
pub use validate::validate_project;
pub use view::{ViewArtifact, ViewError};

verus! {

} // verus!
