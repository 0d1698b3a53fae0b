use mymake::classify::{classify, DiagnosticKind};
use mymake::text::{chars_of, find, matches_at, str_contains, str_starts_with};

#[test]
fn warning_line_is_a_warning() {
    assert_eq!(classify("warning: unused variable x"), Some(DiagnosticKind::Warning));
}

#[test]
fn error_line_is_an_error() {
    assert_eq!(
        classify("error: undefined reference to 'foo'"),
        Some(DiagnosticKind::Error)
    );
}

#[test]
fn ordinary_line_is_unmatched() {
    assert_eq!(classify("compiling foo.c"), None);
    assert_eq!(classify(""), None);
}

#[test]
fn mark_counts_in_the_middle_of_a_line() {
    assert_eq!(
        classify("foo.c:12:5: warning: unused variable 'x'"),
        Some(DiagnosticKind::Warning)
    );
    assert_eq!(
        classify("foo.c:3:1: error: expected ';'"),
        Some(DiagnosticKind::Error)
    );
}

#[test]
fn warning_wins_over_error() {
    assert_eq!(
        classify("error: this is treated as warning: really"),
        Some(DiagnosticKind::Warning)
    );
    assert_eq!(
        classify("warning: converted to error: yes"),
        Some(DiagnosticKind::Warning)
    );
}

#[test]
fn mark_needs_its_colon_and_space() {
    assert_eq!(classify("warning:"), None);
    assert_eq!(classify("warning :"), None);
    assert_eq!(classify("error:no space"), None);
    assert_eq!(classify("Warning: capital"), None);
    assert_eq!(classify("warning: "), Some(DiagnosticKind::Warning));
    assert_eq!(classify("error: "), Some(DiagnosticKind::Error));
}

#[test]
fn classifying_twice_gives_the_same_kind() {
    let lines = [
        "warning: a",
        "error: b",
        "plain",
        "x warning: error: y",
        "",
        "h\u{e9}llo error: w\u{f6}rld",
    ];
    for line in lines {
        assert_eq!(classify(line), classify(line));
        let copy = String::from(line);
        assert_eq!(classify(line), classify(copy.as_str()));
    }
}

#[test]
fn exactly_one_classification_holds() {
    let lines = ["warning: a", "error: b", "plain", "error: warning: ", "warning: error: "];
    for line in lines {
        let warning = line.contains("warning: ");
        let error = line.contains("error: ");
        let kind = classify(line);
        assert_eq!(kind == Some(DiagnosticKind::Warning), warning);
        assert_eq!(kind == Some(DiagnosticKind::Error), !warning && error);
        assert_eq!(kind.is_none(), !warning && !error);
    }
}

#[test]
fn chars_of_gives_the_characters() {
    assert_eq!(chars_of("a\u{e9}z"), vec!['a', '\u{e9}', 'z']);
    assert_eq!(chars_of(""), Vec::<char>::new());
}

#[test]
fn find_gives_the_first_position() {
    let text = chars_of("abcabc");
    assert_eq!(find(&text, &chars_of("bc")), Some(1));
    assert_eq!(find(&text, &chars_of("abc")), Some(0));
    assert_eq!(find(&text, &chars_of("c")), Some(2));
    assert_eq!(find(&text, &chars_of("cab")), Some(2));
    assert_eq!(find(&text, &chars_of("abcabc")), Some(0));
    assert_eq!(find(&text, &chars_of("")), Some(0));
    assert_eq!(find(&text, &chars_of("abcabca")), None);
    assert_eq!(find(&text, &chars_of("cb")), None);
    assert_eq!(find(&chars_of(""), &chars_of("")), Some(0));
    assert_eq!(find(&chars_of(""), &chars_of("a")), None);
}

#[test]
fn find_counts_characters_not_bytes() {
    let text = chars_of("\u{e9}\u{e9}x");
    assert_eq!(find(&text, &chars_of("x")), Some(2));
}

#[test]
fn matches_at_compares_in_place() {
    let text = chars_of("hello");
    assert!(matches_at(&text, &chars_of("ell"), 1));
    assert!(!matches_at(&text, &chars_of("ell"), 0));
    assert!(matches_at(&text, &chars_of(""), 5));
    assert!(matches_at(&text, &chars_of("lo"), 3));
}

#[test]
fn str_contains_agrees_with_std() {
    let texts = ["", "a", "warning: ", "xwarning: y", "warning:", "aaab", "\u{e9}error: "];
    let pats = ["", "a", "warning: ", "error: ", "ab", "b", "\u{e9}"];
    for text in texts {
        for pat in pats {
            assert_eq!(str_contains(text, pat), text.contains(pat));
            assert_eq!(str_starts_with(text, pat), text.starts_with(pat));
        }
    }
}

#[test]
fn str_starts_with_looks_at_the_start_only() {
    assert!(str_starts_with("Unknown signal 77", "Unknown signal "));
    assert!(!str_starts_with("An Unknown signal ", "Unknown signal "));
    assert!(!str_starts_with("Unknown", "Unknown signal "));
}
