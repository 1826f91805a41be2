use rye::cli::ColorConfig;
use rye::outcome::Outcome;
use rye::report::{Color, OutputFormat, Printer, Report, Segment, Stream};
use rye::test::{Location, TestDesc, TestName};

fn desc(raw: &str) -> TestDesc {
    TestDesc {
        ignored: false,
        name: TestName {
            raw: String::from(raw),
        },
        location: Location {
            file: String::from("src/lib.rs"),
            line: 10,
            column: 1,
        },
    }
}

fn view(out: &[Segment]) -> Vec<(String, Option<Color>)> {
    out.iter().map(|s| (s.text.clone(), s.color)).collect()
}

fn plain(text: &str) -> (String, Option<Color>) {
    (String::from(text), None)
}

fn colored(text: &str, color: Color) -> (String, Option<Color>) {
    (String::from(text), Some(color))
}

fn joined(out: &[Segment]) -> String {
    out.iter().map(|s| s.text.as_str()).collect()
}

#[test]
fn list_of_tests_with_count() {
    let a = desc("k::alpha");
    let b = desc("k::beta");
    let printer = Printer::new(OutputFormat::Pretty, ColorConfig::Never);
    let out = printer.print_list(&vec![&a, &b]);
    assert_eq!(joined(&out), "alpha: test\nbeta: test\n\n2 tests, 0 benchmarks\n");
}

#[test]
fn list_of_one_test_and_of_none() {
    let a = desc("k::alpha");
    let printer = Printer::new(OutputFormat::Pretty, ColorConfig::Never);
    assert_eq!(
        joined(&printer.print_list(&vec![&a])),
        "alpha: test\n\n1 test, 0 benchmarks\n"
    );
    assert_eq!(joined(&printer.print_list(&vec![])), "0 tests, 0 benchmarks\n");
}

#[test]
fn terse_list_has_no_count() {
    let a = desc("k::alpha");
    let printer = Printer::new(OutputFormat::Terse, ColorConfig::Never);
    assert_eq!(joined(&printer.print_list(&vec![&a])), "alpha: test\n");
    assert_eq!(joined(&printer.print_list(&vec![])), "");
}

#[test]
fn pretty_results() {
    let d = desc("k::case");
    let printer = Printer::new(OutputFormat::Pretty, ColorConfig::Always);
    let passed = Outcome::passed();
    let failed = Outcome::failed();
    let measured = Outcome::measured(1234, 56);
    assert!(
        view(&printer.print_result_pretty(&d, 8, Some(&passed)))
            == vec![
                plain("test case     ... "),
                colored("ok", Color::Green),
                plain("\n")
            ]
    );
    assert!(
        view(&printer.print_result_pretty(&d, 2, Some(&failed)))
            == vec![
                plain("test case ... "),
                colored("FAILED", Color::Red),
                plain("\n")
            ]
    );
    assert!(
        view(&printer.print_result_pretty(&d, 4, Some(&measured)))
            == vec![
                plain("test case ... "),
                colored("bench", Color::Cyan),
                plain(":        1234 ns/iter (+/- 56)\n")
            ]
    );
    assert!(
        view(&printer.print_result_pretty(&d, 4, None))
            == vec![
                plain("test case ... "),
                colored("ignored", Color::Yellow),
                plain("\n")
            ]
    );
}

#[test]
fn uncolored_results() {
    let d = desc("k::case");
    let printer = Printer::new(OutputFormat::Pretty, ColorConfig::Never);
    let passed = Outcome::passed();
    assert!(
        view(&printer.print_result_pretty(&d, 4, Some(&passed)))
            == vec![plain("test case ... "), plain("ok"), plain("\n")]
    );
}

#[test]
fn terse_results() {
    let d = desc("k::case");
    let printer = Printer::new(OutputFormat::Terse, ColorConfig::Never);
    let passed = Outcome::passed();
    let failed = Outcome::failed();
    let measured = Outcome::measured(7, 0);
    assert_eq!(joined(&printer.print_result_terse(&d, 4, Some(&passed))), ".");
    assert_eq!(joined(&printer.print_result_terse(&d, 4, Some(&failed))), "F");
    assert_eq!(joined(&printer.print_result_terse(&d, 4, None)), "i");
    assert_eq!(
        joined(&printer.print_result_terse(&d, 4, Some(&measured))),
        "test case ... bench:           7 ns/iter (+/- 0)\n"
    );
}

#[test]
fn result_streams_by_format() {
    let d = desc("k::case");
    let passed = Outcome::passed();
    let (stream, out) = Printer::new(OutputFormat::Pretty, ColorConfig::Never).print_result(&d, 4, Some(&passed));
    assert!(stream == Stream::Stdout);
    assert_eq!(joined(&out), "test case ... ok\n");
    let (stream, out) = Printer::new(OutputFormat::Terse, ColorConfig::Never).print_result(&d, 4, Some(&passed));
    assert!(stream == Stream::Stdout);
    assert_eq!(joined(&out), ".");
    let (stream, out) = Printer::new(OutputFormat::Json, ColorConfig::Always).print_result(&d, 4, Some(&passed));
    assert!(stream == Stream::Stderr);
    assert!(
        view(&out)
            == vec![
                colored("warning", Color::Yellow),
                plain(": JSON format is not supported\n")
            ]
    );
}

#[test]
fn report_of_passing_run() {
    let a = desc("k::a");
    let b = desc("k::b");
    let c = desc("k::c");
    let report = Report {
        passed: vec![&a],
        failed: vec![],
        measured: vec![(&b, (10, 1))],
        ignored: vec![],
        filtered_out: vec![&c],
    };
    assert_eq!(report.status().code(), 0);
    let printer = Printer::new(OutputFormat::Pretty, ColorConfig::Always);
    assert!(
        view(&report.print(&printer))
            == vec![
                plain("\n"),
                plain("test result: "),
                colored("ok", Color::Green),
                plain(". 1 passed; 0 failed; 0 ignored; 1 measured; 1 filtered out\n"),
            ]
    );
}

#[test]
fn report_of_failing_run() {
    let a = desc("k::a");
    let b = desc("k::b");
    let c = desc("k::c");
    let report = Report {
        passed: vec![&a],
        failed: vec![(&b, Some(String::from("boom"))), (&c, Some(String::from("bang\n")))],
        measured: vec![],
        ignored: vec![&a],
        filtered_out: vec![],
    };
    assert_eq!(report.status().code(), 101);
    let printer = Printer::new(OutputFormat::Pretty, ColorConfig::Never);
    assert_eq!(
        joined(&report.print(&printer)),
        "\nfailures:\n---- b ----\nboom\n---- c ----\nbang\n\nfailures:\n    b\n    c\n\ntest result: FAILED. 1 passed; 2 failed; 1 ignored; 0 measured; 0 filtered out\n"
    );
}

#[test]
fn report_failure_without_message() {
    let b = desc("k::b");
    let report = Report {
        passed: vec![],
        failed: vec![(&b, None)],
        measured: vec![],
        ignored: vec![],
        filtered_out: vec![],
    };
    let printer = Printer::new(OutputFormat::Terse, ColorConfig::Never);
    assert_eq!(
        joined(&report.print(&printer)),
        "\nfailures:\n---- b ----\n\nfailures:\n    b\n\ntest result: FAILED. 0 passed; 1 failed; 0 ignored; 0 measured; 0 filtered out\n"
    );
}

#[test]
fn skipped_lists_ignored_then_filtered_out() {
    let a = desc("k::a");
    let b = desc("k::b");
    let c = desc("k::c");
    let report = Report {
        passed: vec![],
        failed: vec![],
        measured: vec![],
        ignored: vec![&a],
        filtered_out: vec![&b, &c],
    };
    let skipped: Vec<(String, &str)> = report
        .skipped()
        .into_iter()
        .map(|(d, why)| (String::from(d.name()), why))
        .collect();
    assert_eq!(
        skipped,
        vec![
            (String::from("a"), "ignored"),
            (String::from("b"), "filtered out"),
            (String::from("c"), "filtered out"),
        ]
    );
}

#[test]
fn short_report() {
    let a = desc("k::a");
    let b = desc("k::b");
    let c = desc("k::c");
    let report = Report {
        passed: vec![&a],
        failed: vec![(&b, Some(String::from("boom")))],
        measured: vec![],
        ignored: vec![&c],
        filtered_out: vec![&c],
    };
    let printer = Printer::new(OutputFormat::Pretty, ColorConfig::Always);
    let out = printer.print_report(&report);
    assert_eq!(
        joined(&out),
        "\nfailures:\n---- b ----\nboom\n\nfailures:\n    b\n\ntest result: FAILED. 1 passed; 1 failed; 1 filtered out\n"
    );
    assert!(out.iter().any(|s| s.text == "FAILED" && s.color == Some(Color::Red)));
    let passing = Report {
        passed: vec![&a, &b],
        failed: vec![],
        measured: vec![],
        ignored: vec![],
        filtered_out: vec![],
    };
    assert!(
        view(&printer.print_report(&passing))
            == vec![
                plain("\n"),
                plain("test result: "),
                colored("ok", Color::Green),
                plain(". 2 passed; 0 failed; 0 filtered out\n"),
            ]
    );
}

#[test]
fn message_line_break_prints_once() {
    let a = desc("k::a");
    let printer = Printer::new(OutputFormat::Pretty, ColorConfig::Never);
    let with = Report {
        passed: vec![],
        failed: vec![(&a, Some(String::from("boom\n")))],
        measured: vec![],
        ignored: vec![],
        filtered_out: vec![],
    };
    let without = Report {
        passed: vec![],
        failed: vec![(&a, Some(String::from("boom")))],
        measured: vec![],
        ignored: vec![],
        filtered_out: vec![],
    };
    assert_eq!(joined(&with.print(&printer)), joined(&without.print(&printer)));
    assert_eq!(
        joined(&printer.print_report(&with)),
        joined(&printer.print_report(&without))
    );
}
