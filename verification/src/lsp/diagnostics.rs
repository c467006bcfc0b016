//! The diagnostic of a finding: where it is shown, and how grave the editor
//! is told it is.

use crate::range::PurlRange;
use crate::server::{Severity, VulnerabilityInformation};
use vstd::prelude::*;

verus! {

/// The levels of a diagnostic in an editor.
#[derive(Clone, Copy, Debug, PartialEq, Eq, Structural)]
pub enum DiagnosticLevel {
    Error,
    Warning,
    Information,
}

/// A place in a document as the editor counts it.
#[derive(Clone, Copy, Debug, PartialEq, Eq, Structural)]
pub struct EditorPosition {
    pub line: u32,
    pub character: u32,
}

/// A finding as the editor is told of it.
#[derive(Debug)]
pub struct Diagnostic {
    pub start: EditorPosition,
    pub end: EditorPosition,
    /// The level; a finding without severity has none.
    pub severity: Option<DiagnosticLevel>,
    pub source: String,
    pub message: String,
}

/// The level at which a severity is shown.
pub open spec fn level_spec(severity: Severity) -> Option<DiagnosticLevel> {
    match severity {
        Severity::Critical => Some(DiagnosticLevel::Error),
        Severity::High => Some(DiagnosticLevel::Warning),
        Severity::Medium => Some(DiagnosticLevel::Warning),
        Severity::Low => Some(DiagnosticLevel::Information),
        Severity::NoSeverity => None,
    }
}

pub fn diagnostic_level(severity: Severity) -> (r: Option<DiagnosticLevel>)
    ensures
        r == level_spec(severity),
{
    match severity {
        Severity::Critical => Some(DiagnosticLevel::Error),
        Severity::High => Some(DiagnosticLevel::Warning),
        Severity::Medium => Some(DiagnosticLevel::Warning),
        Severity::Low => Some(DiagnosticLevel::Information),
        Severity::NoSeverity => None,
    }
}

/// A line or column as the editor counts it: what does not fit is cut to
/// its lowest 32 bits.
pub open spec fn editor_count(n: usize) -> u32 {
    n as u32
}

fn to_editor_count(n: usize) -> (r: u32)
    ensures
        r == editor_count(n),
{
    #[verifier::truncate]
    (n as u32)
}

/// The diagnostic of a finding at the span of a declaration.
pub fn create_diagnostic(purl_range: &PurlRange, version_information: &VulnerabilityInformation)
    -> (d: Diagnostic)
    ensures
        d.start == (EditorPosition {
            line: editor_count(purl_range.range.start.row),
            character: editor_count(purl_range.range.start.col),
        }),
        d.end == (EditorPosition {
            line: editor_count(purl_range.range.end.row),
            character: editor_count(purl_range.range.end.col),
        }),
        d.severity == level_spec(version_information.severity),
        d.source@ == "vulnerability"@,
        d.message@ == version_information.summary@,
{
    Diagnostic {
        start: EditorPosition {
            line: to_editor_count(purl_range.range.start.row),
            character: to_editor_count(purl_range.range.start.col),
        },
        end: EditorPosition {
            line: to_editor_count(purl_range.range.end.row),
            character: to_editor_count(purl_range.range.end.col),
        },
        severity: diagnostic_level(version_information.severity),
        source: "vulnerability".to_owned(),
        message: version_information.summary.clone(),
    }
}

} // verus!
