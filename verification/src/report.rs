//! The closing report of a run: the counts, the text and the exit code.
use vstd::prelude::*;
use crate::classify::{line_kind, DiagnosticKind};
use crate::decimal::{decimal, digit_char, digit_str, push_decimal, push_signed_decimal, signed_decimal};
use crate::diagnostics::{
    count_kind,
    count_lines,
    diagnostics_of,
    lemma_counts_match_lines,
    Entry,
    MatchedDiagnostics,
};

verus! {

/// The summary of one run.
#[derive(Clone, Copy, Debug, PartialEq, Eq, Structural)]
pub struct BuildReport {
    /// How many warnings were matched.
    pub total_warnings: usize,
    /// How many errors were matched.
    pub total_errors: usize,
    /// The exit code of the child process.
    pub exit_code: i32,
    /// How long the run took, in milliseconds.
    pub duration_ms: u64,
}

/// Which of the child's two streams could not be read to their end.
#[derive(Clone, Copy, Debug, PartialEq, Eq, Structural)]
pub struct ReadFailures {
    /// Reading the child's standard output failed.
    pub stdout: bool,
    /// Reading the child's standard error failed.
    pub stderr: bool,
}

/// The report of a run with the given diagnostics, exit code and duration.
pub open spec fn report_of(entries: Seq<Entry>, exit_code: i32, duration_ms: u64) -> BuildReport {
    BuildReport {
        total_warnings: count_kind(entries, DiagnosticKind::Warning) as usize,
        total_errors: count_kind(entries, DiagnosticKind::Error) as usize,
        exit_code,
        duration_ms,
    }
}

/// The exit code to leave with after a run: the child's own.
pub open spec fn leaving_code(report: BuildReport) -> i32 {
    report.exit_code
}

/// The part of a second given in milliseconds, as a decimal fraction without
/// trailing zeros; nothing at all for a whole second.
pub open spec fn fraction_text(ms: nat) -> Seq<char>
    recommends
        ms < 1000,
{
    if ms == 0 {
        Seq::empty()
    } else if ms % 100 == 0 {
        seq!['.', digit_char(ms / 100)]
    } else if ms % 10 == 0 {
        seq!['.', digit_char(ms / 100), digit_char(ms / 10 % 10)]
    } else {
        seq!['.', digit_char(ms / 100), digit_char(ms / 10 % 10), digit_char(ms % 10)]
    }
}

/// A duration in seconds, such as `0.25 sec`, `3 sec` or `12.005 sec`.
pub open spec fn duration_text(ms: nat) -> Seq<char> {
    decimal(ms / 1000) + fraction_text(ms % 1000) + " sec"@
}

/// The last line of the report. A failed child comes first, whatever was
/// matched; a successful one is told apart by whether anything was matched.
pub open spec fn status_line(exit_code: int, any_diagnostics: bool, ms: nat) -> Seq<char> {
    if exit_code != 0 {
        "Build FAILED with exit code "@ + signed_decimal(exit_code) + " ("@ + duration_text(ms)
            + ")"@
    } else if any_diagnostics {
        "Build OK but with some warnings/errors ("@ + duration_text(ms) + ")"@
    } else {
        "Build OK: no compiler warnings or errors ("@ + duration_text(ms) + ")"@
    }
}

/// The texts of the entries, one to a line.
pub open spec fn listing(entries: Seq<Entry>) -> Seq<char>
    decreases entries.len(),
{
    if entries.len() == 0 {
        Seq::empty()
    } else {
        listing(entries.drop_last()) + entries.last().1 + "\n"@
    }
}

/// The line that gives the two counts.
pub open spec fn found_line(warnings: nat, errors: nat) -> Seq<char> {
    "Found "@ + decimal(warnings) + " warnings and "@ + decimal(errors) + " errors"@
}

/// The block that lists the diagnostics and counts them: an empty line, the
/// listing and the counts. There is no block where nothing was matched.
pub open spec fn diagnostics_block(entries: Seq<Entry>, warnings: nat, errors: nat) -> Seq<
    char,
> {
    if entries.len() == 0 {
        Seq::empty()
    } else {
        "\n"@ + listing(entries) + found_line(warnings, errors) + "\n"@
    }
}

/// The notes on streams that could not be read to their end, one to a line
/// behind an empty line. There is no such block where both streams were read.
pub open spec fn failure_block(failures: ReadFailures) -> Seq<char> {
    if !failures.stdout && !failures.stderr {
        Seq::empty()
    } else {
        "\n"@ + (if failures.stdout {
            "note: the child's standard output could not be read to its end; diagnostics may be missing\n"@
        } else {
            Seq::empty()
        }) + (if failures.stderr {
            "note: the child's standard error could not be read to its end; diagnostics may be missing\n"@
        } else {
            Seq::empty()
        })
    }
}

/// The whole text of the report: the block of diagnostics, if there is one,
/// the notes on failed streams, if there are any, an empty line, and the
/// status line.
pub open spec fn report_text(report: BuildReport, entries: Seq<Entry>, failures: ReadFailures) -> Seq<
    char,
> {
    diagnostics_block(entries, report.total_warnings as nat, report.total_errors as nat)
        + failure_block(failures) + "\n"@ + status_line(
        report.exit_code as int,
        entries.len() > 0,
        report.duration_ms as nat,
    ) + "\n"@
}

/// Appends a duration given in milliseconds to `out`.
pub fn push_duration(out: &mut String, ms: u64)
    ensures
        final(out)@ == old(out)@ + duration_text(ms as nat),
{
    push_decimal(out, ms / 1000);
    let rest: u64 = ms % 1000;
    if rest != 0 {
        proof {
            reveal_strlit(".");
        }
        out.append(".");
        out.append(digit_str(rest / 100));
        if rest % 100 != 0 {
            out.append(digit_str(rest / 10 % 10));
            if rest % 10 != 0 {
                out.append(digit_str(rest % 10));
            }
        }
    }
    assert(out@ =~= old(out)@ + decimal((ms / 1000) as nat) + fraction_text(rest as nat));
    out.append(" sec");
    assert(out@ =~= old(out)@ + duration_text(ms as nat));
}

/// Appends the status line to `out`.
pub fn push_status_line(out: &mut String, exit_code: i32, any_diagnostics: bool, ms: u64)
    ensures
        final(out)@ == old(out)@ + status_line(exit_code as int, any_diagnostics, ms as nat),
{
    if exit_code != 0 {
        out.append("Build FAILED with exit code ");
        push_signed_decimal(out, exit_code);
        out.append(" (");
    } else if any_diagnostics {
        out.append("Build OK but with some warnings/errors (");
    } else {
        out.append("Build OK: no compiler warnings or errors (");
    }
    push_duration(out, ms);
    out.append(")");
    assert(out@ =~= old(out)@ + status_line(exit_code as int, any_diagnostics, ms as nat));
}

/// Counts the diagnostics by kind and puts the counts beside the child's exit
/// code and the time the run took.
pub fn build(diagnostics: &MatchedDiagnostics, exit_code: i32, duration_ms: u64) -> (report:
    BuildReport)
    ensures
        report == report_of(diagnostics@, exit_code, duration_ms),
        report.total_warnings == count_kind(diagnostics@, DiagnosticKind::Warning),
        report.total_errors == count_kind(diagnostics@, DiagnosticKind::Error),
        report.exit_code == exit_code,
        report.duration_ms == duration_ms,
{
    BuildReport {
        total_warnings: diagnostics.count(DiagnosticKind::Warning),
        total_errors: diagnostics.count(DiagnosticKind::Error),
        exit_code,
        duration_ms,
    }
}

/// Writes the report out and gives the exit code to leave with, which is the
/// child's, whatever was matched and whatever could not be read.
pub fn render(report: &BuildReport, diagnostics: &MatchedDiagnostics, failures: ReadFailures) -> (out:
    (String, i32))
    ensures
        out.0@ == report_text(*report, diagnostics@, failures),
        out.1 == leaving_code(*report),
{
    let mut text = String::new();
    let n: usize = diagnostics.len();
    if n > 0 {
        text.append("\n");
        let mut at: usize = 0;
        while at < n
            invariant
                n == diagnostics@.len(),
                at <= n,
                text@ == "\n"@ + listing(diagnostics@.take(at as int)),
            decreases n - at,
        {
            match diagnostics.get(at) {
                Some(diagnostic) => {
                    text.append(diagnostic.text());
                    text.append("\n");
                    assert(diagnostics@.take(at + 1).drop_last() =~= diagnostics@.take(
                        at as int,
                    ));
                    assert(text@ =~= "\n"@ + listing(diagnostics@.take(at + 1)));
                },
                None => {},
            }
            at += 1;
        }
        assert(diagnostics@.take(at as int) =~= diagnostics@);
        text.append("Found ");
        push_decimal(&mut text, report.total_warnings as u64);
        text.append(" warnings and ");
        push_decimal(&mut text, report.total_errors as u64);
        text.append(" errors");
        text.append("\n");
        assert(text@ =~= diagnostics_block(
            diagnostics@,
            report.total_warnings as nat,
            report.total_errors as nat,
        ));
    }
    assert(text@ =~= diagnostics_block(
        diagnostics@,
        report.total_warnings as nat,
        report.total_errors as nat,
    ));
    let ghost block = text@;
    if failures.stdout || failures.stderr {
        text.append("\n");
        if failures.stdout {
            text.append(
                "note: the child's standard output could not be read to its end; diagnostics may be missing\n",
            );
        }
        if failures.stderr {
            text.append(
                "note: the child's standard error could not be read to its end; diagnostics may be missing\n",
            );
        }
    }
    assert(text@ =~= block + failure_block(failures));
    text.append("\n");
    push_status_line(&mut text, report.exit_code, n > 0, report.duration_ms);
    text.append("\n");
    assert(text@ =~= report_text(*report, diagnostics@, failures));
    (text, report.exit_code)
}

/// Closes a run: counts the diagnostics, writes the report out and gives the
/// exit code to leave with, which is the child's.
pub fn summarize(
    diagnostics: &MatchedDiagnostics,
    exit_code: i32,
    duration_ms: u64,
    failures: ReadFailures,
) -> (out: (String, i32))
    ensures
        out.0@ == report_text(
            report_of(diagnostics@, exit_code, duration_ms),
            diagnostics@,
            failures,
        ),
        out.1 == exit_code,
{
    let report = build(diagnostics, exit_code, duration_ms);
    render(&report, diagnostics, failures)
}

/// The exit code passes through: the code to leave with is the child's,
/// whatever diagnostics were found.
pub proof fn lemma_exit_code_passes_through(entries: Seq<Entry>, exit_code: i32, duration_ms: u64)
    ensures
        leaving_code(report_of(entries, exit_code, duration_ms)) == exit_code,
{
}

/// The counts of a report are right: where the lines of a run, in whatever
/// order they arrived, hold so many warnings and so many errors by the
/// classifier's rules, the report of their diagnostics gives those numbers.
pub proof fn lemma_report_counts_lines(lines: Seq<Seq<char>>, exit_code: i32, duration_ms: u64)
    requires
        lines.len() <= usize::MAX,
    ensures
        report_of(diagnostics_of(lines), exit_code, duration_ms).total_warnings == count_lines(
            lines,
            DiagnosticKind::Warning,
        ),
        report_of(diagnostics_of(lines), exit_code, duration_ms).total_errors == count_lines(
            lines,
            DiagnosticKind::Error,
        ),
{
    lemma_counts_match_lines(lines, DiagnosticKind::Warning);
    lemma_counts_match_lines(lines, DiagnosticKind::Error);
    lines.lemma_filter_len(|line: Seq<char>| line_kind(line) == Some(DiagnosticKind::Warning));
    lines.lemma_filter_len(|line: Seq<char>| line_kind(line) == Some(DiagnosticKind::Error));
}

} // verus!
