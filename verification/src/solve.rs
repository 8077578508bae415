//! Admission of a document for solving: the solver runs only on documents
//! that validate without errors and have a usable frame rate.
use vstd::prelude::*;

use crate::diagnostic::{count_severity, Severity, ValidationReport};
use crate::model::CineProject;
use crate::text::{decimal, owned, push_decimal, push_str};
use crate::validate::{project_diags, validate_project};

verus! {

/// How much of the camera physics the solver models.
#[derive(Debug, Clone, Copy, PartialEq, Eq, Structural)]
pub enum Fidelity {
    /// Kinematic evaluation only: easing, look-at, orbit, follow, optics.
    Draft,
    /// Constraint solving with collision and dynamics.
    Full,
}

#[derive(Debug, Clone, Copy, PartialEq, Eq, Structural)]
pub struct SolveOptions {
    pub fidelity: Fidelity,
}

impl SolveOptions {
    /// Draft fidelity.
    pub fn draft() -> (options: SolveOptions)
        ensures
            options.fidelity == Fidelity::Draft,
    {
        SolveOptions { fidelity: Fidelity::Draft }
    }
}

/// Why a document was not solved.
#[derive(Debug, Clone)]
pub enum SolveError {
    /// Validation reported errors; the report says which.
    Invalid(ValidationReport),
    InvalidFrameRate,
}

pub open spec fn solve_error_text(e: SolveError) -> Seq<char> {
    match e {
        SolveError::Invalid(report) => "document has "@ + decimal(count_severity(report@, Severity::Error))
            + " validation error(s); fix them before solving"@,
        SolveError::InvalidFrameRate => "frame rate must be positive"@,
    }
}

impl SolveError {
    /// The error as a sentence.
    pub fn message(&self) -> (text: String)
        ensures
            text@ == solve_error_text(*self),
    {
        match self {
            SolveError::Invalid(report) => {
                let mut text = owned("document has ");
                push_decimal(&mut text, report.error_count() as u64);
                push_str(&mut text, " validation error(s); fix them before solving");
                text
            },
            SolveError::InvalidFrameRate => owned("frame rate must be positive"),
        }
    }
}

/// Validates `project` (with the scenes' small-angle cuts, as
/// `validate_project` takes them) and admits it for solving: the report
/// when it holds no error and the frame rate is positive, else why not.
pub fn admit_for_solving(project: &CineProject, small_angles: &Vec<Vec<Option<String>>>) -> (result: Result<
    ValidationReport,
    SolveError,
>)
    ensures
        match result {
            Ok(report) => {
                &&& report@ == project_diags(*project, small_angles@)
                &&& count_severity(report@, Severity::Error) == 0
                &&& project.frame_rate.numerator > 0 && project.frame_rate.denominator > 0
            },
            Err(SolveError::Invalid(report)) => {
                &&& report@ == project_diags(*project, small_angles@)
                &&& count_severity(report@, Severity::Error) > 0
            },
            Err(SolveError::InvalidFrameRate) => {
                &&& count_severity(project_diags(*project, small_angles@), Severity::Error) == 0
                &&& (project.frame_rate.numerator == 0 || project.frame_rate.denominator == 0)
            },
        },
{
    let report = validate_project(project, small_angles);
    if report.has_errors() {
        return Err(SolveError::Invalid(report));
    }
    if project.frame_rate.numerator == 0 || project.frame_rate.denominator == 0 {
        return Err(SolveError::InvalidFrameRate);
    }
    Ok(report)
}

} // verus!
