use mymake::classify::DiagnosticKind;
use mymake::decimal::{digit_str, push_decimal, push_signed_decimal};
use mymake::diagnostics::{Diagnostic, MatchedDiagnostics};
use mymake::report::{
    build, push_duration, push_status_line, render, summarize, BuildReport, ReadFailures,
};

const NONE: ReadFailures = ReadFailures { stdout: false, stderr: false };

fn decimal(n: u64) -> String {
    let mut out = String::new();
    push_decimal(&mut out, n);
    out
}

fn signed(n: i32) -> String {
    let mut out = String::new();
    push_signed_decimal(&mut out, n);
    out
}

fn duration(ms: u64) -> String {
    let mut out = String::new();
    push_duration(&mut out, ms);
    out
}

fn status(exit_code: i32, any: bool, ms: u64) -> String {
    let mut out = String::new();
    push_status_line(&mut out, exit_code, any, ms);
    out
}

fn matched(lines: &[&str]) -> MatchedDiagnostics {
    let mut out = MatchedDiagnostics::new();
    for line in lines {
        out.record(String::from(*line));
    }
    out
}

#[test]
fn digits_are_written_out() {
    let want = ["0", "1", "2", "3", "4", "5", "6", "7", "8", "9"];
    for d in 0..10u64 {
        assert_eq!(digit_str(d), want[d as usize]);
    }
}

#[test]
fn decimal_has_no_leading_zeros() {
    assert_eq!(decimal(0), "0");
    assert_eq!(decimal(7), "7");
    assert_eq!(decimal(10), "10");
    assert_eq!(decimal(105), "105");
    assert_eq!(decimal(12345), "12345");
    assert_eq!(decimal(u64::MAX), "18446744073709551615");
}

#[test]
fn decimal_is_appended_to_what_is_there() {
    let mut out = String::from("n = ");
    push_decimal(&mut out, 42);
    assert_eq!(out, "n = 42");
}

#[test]
fn decimal_agrees_with_std() {
    for n in [0u64, 1, 9, 10, 11, 99, 100, 101, 999, 1000, 65535, 4294967296] {
        assert_eq!(decimal(n), n.to_string());
    }
}

#[test]
fn signed_decimal_carries_the_sign() {
    assert_eq!(signed(0), "0");
    assert_eq!(signed(2), "2");
    assert_eq!(signed(255), "255");
    assert_eq!(signed(-1), "-1");
    assert_eq!(signed(i32::MAX), "2147483647");
    assert_eq!(signed(i32::MIN), "-2147483648");
}

#[test]
fn duration_is_given_in_seconds() {
    assert_eq!(duration(0), "0 sec");
    assert_eq!(duration(1), "0.001 sec");
    assert_eq!(duration(10), "0.01 sec");
    assert_eq!(duration(100), "0.1 sec");
    assert_eq!(duration(250), "0.25 sec");
    assert_eq!(duration(999), "0.999 sec");
    assert_eq!(duration(1000), "1 sec");
    assert_eq!(duration(1500), "1.5 sec");
    assert_eq!(duration(1230), "1.23 sec");
    assert_eq!(duration(2000), "2 sec");
    assert_eq!(duration(12005), "12.005 sec");
    assert_eq!(duration(60_000), "60 sec");
    assert_eq!(duration(3_600_050), "3600.05 sec");
}

#[test]
fn duration_reads_as_a_float_of_seconds_does() {
    for ms in [0u64, 1, 7, 10, 99, 100, 101, 110, 999, 1000, 1001, 1010, 1100, 4321, 86_400_000] {
        let seconds = (ms as f64) / 1e3;
        assert_eq!(duration(ms), format!("{seconds} sec"));
    }
}

#[test]
fn status_line_of_a_failed_build() {
    assert_eq!(status(2, false, 1500), "Build FAILED with exit code 2 (1.5 sec)");
    assert_eq!(status(1, true, 0), "Build FAILED with exit code 1 (0 sec)");
    assert_eq!(status(-1, true, 20), "Build FAILED with exit code -1 (0.02 sec)");
    assert_eq!(status(255, false, 3000), "Build FAILED with exit code 255 (3 sec)");
}

#[test]
fn status_line_of_a_build_with_diagnostics() {
    assert_eq!(status(0, true, 1234), "Build OK but with some warnings/errors (1.234 sec)");
}

#[test]
fn status_line_of_a_clean_build() {
    assert_eq!(status(0, false, 800), "Build OK: no compiler warnings or errors (0.8 sec)");
}

#[test]
fn build_counts_by_kind() {
    let out = matched(&[
        "warning: a",
        "plain",
        "error: b",
        "warning: c",
        "x.c:1: warning: d",
        "error: with warning: inside",
    ]);
    let report = build(&out, 0, 10);
    assert_eq!(
        report,
        BuildReport { total_warnings: 4, total_errors: 1, exit_code: 0, duration_ms: 10 }
    );
    assert_eq!(out.count(DiagnosticKind::Warning), 4);
    assert_eq!(out.count(DiagnosticKind::Error), 1);
    assert_eq!(out.len(), 5);
}

#[test]
fn build_of_nothing_counts_nothing() {
    let out = MatchedDiagnostics::new();
    let report = build(&out, 3, 0);
    assert_eq!(
        report,
        BuildReport { total_warnings: 0, total_errors: 0, exit_code: 3, duration_ms: 0 }
    );
    assert!(out.is_empty());
}

#[test]
fn render_lists_and_counts_the_diagnostics() {
    let out = matched(&["warning: a", "plain", "error: b", "warning: c"]);
    let report = build(&out, 0, 1500);
    let (text, code) = render(&report, &out, NONE);
    assert_eq!(
        text,
        "\nwarning: a\nerror: b\nwarning: c\nFound 2 warnings and 1 errors\n\n\
         Build OK but with some warnings/errors (1.5 sec)\n"
    );
    assert_eq!(code, 0);
}

#[test]
fn render_of_a_clean_build_has_no_block() {
    let out = MatchedDiagnostics::new();
    let report = build(&out, 0, 2000);
    let (text, code) = render(&report, &out, NONE);
    assert_eq!(text, "\nBuild OK: no compiler warnings or errors (2 sec)\n");
    assert_eq!(code, 0);
}

#[test]
fn render_puts_failure_before_diagnostics() {
    let out = matched(&["error: undefined reference to 'foo'"]);
    let report = build(&out, 1, 30);
    let (text, code) = render(&report, &out, NONE);
    assert_eq!(
        text,
        "\nerror: undefined reference to 'foo'\nFound 0 warnings and 1 errors\n\n\
         Build FAILED with exit code 1 (0.03 sec)\n"
    );
    assert_eq!(code, 1);
}

#[test]
fn exit_code_passes_through() {
    for with_diagnostics in [false, true] {
        let out = if with_diagnostics { matched(&["warning: w"]) } else { matched(&[]) };
        for code in 0..=255 {
            let report = build(&out, code, 5);
            assert_eq!(report.exit_code, code);
            assert_eq!(render(&report, &out, NONE).1, code);
        }
    }
}

#[test]
fn record_keeps_the_order_of_arrival() {
    let mut out = MatchedDiagnostics::new();
    assert!(out.record(String::from("error: first")));
    assert!(!out.record(String::from("nothing")));
    assert!(out.record(String::from("warning: second")));
    assert!(out.record(String::from("error: third")));
    assert_eq!(out.len(), 3);
    let kinds: Vec<DiagnosticKind> = (0..3).map(|at| out.get(at).unwrap().kind()).collect();
    assert_eq!(
        kinds,
        vec![DiagnosticKind::Error, DiagnosticKind::Warning, DiagnosticKind::Error]
    );
    let texts: Vec<&str> = (0..3).map(|at| out.get(at).unwrap().text()).collect();
    assert_eq!(texts, vec!["error: first", "warning: second", "error: third"]);
    assert!(out.get(3).is_none());
}

#[test]
fn diagnostic_is_made_of_a_matching_line_only() {
    assert!(Diagnostic::from_line(String::from("plain")).is_none());
    let made = Diagnostic::from_line(String::from("a warning: b")).unwrap();
    assert_eq!(made.kind(), DiagnosticKind::Warning);
    assert_eq!(made.text(), "a warning: b");
    let copy = made.clone();
    assert_eq!(copy.kind(), DiagnosticKind::Warning);
    assert_eq!(copy.text(), "a warning: b");
}

#[test]
fn render_notes_a_stream_that_could_not_be_read() {
    let out = matched(&["warning: a"]);
    let report = build(&out, 0, 100);
    let (text, code) = render(&report, &out, ReadFailures { stdout: false, stderr: true });
    assert_eq!(
        text,
        "\nwarning: a\nFound 1 warnings and 0 errors\n\n\
         note: the child's standard error could not be read to its end; diagnostics may be missing\n\n\
         Build OK but with some warnings/errors (0.1 sec)\n"
    );
    assert_eq!(code, 0);
}

#[test]
fn render_notes_both_streams_in_their_order() {
    let out = MatchedDiagnostics::new();
    let report = build(&out, 4, 0);
    let (text, code) = render(&report, &out, ReadFailures { stdout: true, stderr: true });
    assert_eq!(
        text,
        "\nnote: the child's standard output could not be read to its end; diagnostics may be missing\n\
         note: the child's standard error could not be read to its end; diagnostics may be missing\n\n\
         Build FAILED with exit code 4 (0 sec)\n"
    );
    assert_eq!(code, 4);
    let (text, _) = render(&report, &out, ReadFailures { stdout: true, stderr: false });
    assert_eq!(
        text,
        "\nnote: the child's standard output could not be read to its end; diagnostics may be missing\n\n\
         Build FAILED with exit code 4 (0 sec)\n"
    );
}

#[test]
fn summarize_builds_and_renders() {
    let out = matched(&["error: e", "warning: w", "error: f"]);
    let (text, code) = summarize(&out, 7, 2500, NONE);
    assert_eq!(
        text,
        "\nerror: e\nwarning: w\nerror: f\nFound 1 warnings and 2 errors\n\n\
         Build FAILED with exit code 7 (2.5 sec)\n"
    );
    assert_eq!(code, 7);
    let report = build(&out, 7, 2500);
    assert_eq!(render(&report, &out, NONE), (text, code));
}
