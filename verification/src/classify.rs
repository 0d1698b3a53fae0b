//! The line classifier: a line is a warning, an error, or neither.
//!
//! A mark counts wherever it stands in the line, not only at its start, since
//! compilers put a file name and a position in front of it. The warning mark is
//! looked for first, so a line that carries both marks is a warning.
use vstd::prelude::*;
use crate::text::{contains, str_contains};

verus! {

/// The two kinds of diagnostic that a build's output is searched for.
#[derive(Clone, Copy, Debug, PartialEq, Eq, Structural)]
pub enum DiagnosticKind {
    Warning,
    Error,
}

/// The mark of a warning.
pub open spec fn warning_mark() -> Seq<char> {
    "warning: "@
}

/// The mark of an error.
pub open spec fn error_mark() -> Seq<char> {
    "error: "@
}

/// The warning rule: the line holds the warning mark.
pub open spec fn matches_warning(line: Seq<char>) -> bool {
    contains(line, warning_mark())
}

/// The error rule: the line holds the error mark.
pub open spec fn matches_error(line: Seq<char>) -> bool {
    contains(line, error_mark())
}

/// The kind of a line, `None` for a line that matches neither rule.
pub open spec fn line_kind(line: Seq<char>) -> Option<DiagnosticKind> {
    if matches_warning(line) {
        Some(DiagnosticKind::Warning)
    } else if matches_error(line) {
        Some(DiagnosticKind::Error)
    } else {
        None
    }
}

/// Classifies a line whose terminator has been stripped.
pub fn classify(line: &str) -> (kind: Option<DiagnosticKind>)
    ensures
        kind == line_kind(line@),
        kind == Some(DiagnosticKind::Warning) <==> matches_warning(line@),
        kind == Some(DiagnosticKind::Error) <==> !matches_warning(line@) && matches_error(line@),
        kind is None <==> !matches_warning(line@) && !matches_error(line@),
{
    if str_contains(line, "warning: ") {
        Some(DiagnosticKind::Warning)
    } else if str_contains(line, "error: ") {
        Some(DiagnosticKind::Error)
    } else {
        None
    }
}

/// A line is a warning if and only if it matches the warning rule, an error
/// if and only if it matches the error rule and not the warning rule, and
/// unmatched otherwise: exactly one of the three holds of every line.
pub proof fn lemma_exactly_one_kind(line: Seq<char>)
    ensures
        line_kind(line) == Some(DiagnosticKind::Warning) <==> matches_warning(line),
        line_kind(line) == Some(DiagnosticKind::Error) <==> !matches_warning(line)
            && matches_error(line),
        line_kind(line) is None <==> !matches_warning(line) && !matches_error(line),
{
}

/// The kind of a line depends on its text alone: lines with the same text are
/// classified alike, however often and wherever they are classified.
pub proof fn lemma_kind_depends_on_text_alone(first: &str, second: &str)
    requires
        first@ == second@,
    ensures
        line_kind(first@) == line_kind(second@),
{
}

} // verus!
