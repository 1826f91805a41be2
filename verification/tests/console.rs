use rye::cli::ColorConfig;
use rye::console::ConsoleReporter;
use rye::log_reporter::{LogLevel, LogReporter};
use rye::report::{Color, Segment};
use rye::reporter::{Outcome, Summary, TestCaseSummary};
use rye::test::{Location, TestDesc, TestName};

fn location(line: u32) -> Location {
    Location {
        file: String::from("tests/it.rs"),
        line,
        column: 5,
    }
}

fn desc(raw: &str) -> TestDesc {
    TestDesc {
        ignored: false,
        name: TestName {
            raw: String::from(raw),
        },
        location: location(3),
    }
}

fn joined(out: &[Segment]) -> String {
    out.iter().map(|s| s.text.as_str()).collect()
}

fn colors(out: &[Segment]) -> Vec<Option<Color>> {
    out.iter().map(|s| s.color).collect()
}

#[test]
fn announces_the_run() {
    let reporter = ConsoleReporter::new(ColorConfig::Never);
    assert_eq!(joined(&reporter.test_run_starting(3)), "running 3 tests\n");
    assert_eq!(joined(&reporter.test_run_starting(1)), "running 1 tests\n");
}

#[test]
fn test_case_lines() {
    let d = desc("k::case");
    let at = location(7);
    let reporter = ConsoleReporter::new(ColorConfig::Always);
    let passed = TestCaseSummary {
        desc: &d,
        outcome: Outcome::Passed,
    };
    let out = reporter.print_test_case_summary(&passed);
    assert_eq!(joined(&out), "test case ... ok\n");
    assert!(colors(&out) == vec![None, Some(Color::Green), None]);
    let skipped = TestCaseSummary {
        desc: &d,
        outcome: Outcome::Skipped {
            location: &at,
            reason: String::from("later"),
        },
    };
    let out = reporter.print_test_case_summary(&skipped);
    assert_eq!(joined(&out), "test case ... skipped\n");
    assert!(colors(&out) == vec![None, Some(Color::Yellow), None]);
    let failed = TestCaseSummary {
        desc: &d,
        outcome: Outcome::Panicked(String::from("oops")),
    };
    let out = reporter.print_test_case_summary(&failed);
    assert_eq!(joined(&out), "test case ... FAILED\n");
    assert!(colors(&out) == vec![None, Some(Color::Red), None]);
}

#[test]
fn summary_of_passing_run() {
    let a = desc("k::a");
    let b = desc("k::b");
    let at = location(9);
    let mut summary = Summary::empty();
    summary.append(TestCaseSummary {
        desc: &a,
        outcome: Outcome::Passed,
    });
    summary.append(TestCaseSummary {
        desc: &b,
        outcome: Outcome::Skipped {
            location: &at,
            reason: String::from("no network"),
        },
    });
    summary.filtered_out.push(&a);
    assert!(summary.is_passed());
    let out = ConsoleReporter::new(ColorConfig::Never).print_summary(&summary);
    assert_eq!(
        joined(&out),
        "\ntest result: ok. 1 passed; 0 failed; 1 skipped; 1 filtered out\n"
    );
}

#[test]
fn summary_of_failing_run() {
    let a = desc("k::a");
    let b = desc("k::b");
    let c = desc("k::c");
    let at = location(12);
    let mut summary = Summary::empty();
    summary.append(TestCaseSummary {
        desc: &a,
        outcome: Outcome::Errored(String::from("bad input")),
    });
    summary.append(TestCaseSummary {
        desc: &b,
        outcome: Outcome::Failed {
            location: &at,
            reason: String::from("expected 1"),
        },
    });
    summary.append(TestCaseSummary {
        desc: &c,
        outcome: Outcome::Panicked(String::from("index out of bounds")),
    });
    assert!(!summary.is_passed());
    let out = ConsoleReporter::new(ColorConfig::Never).print_summary(&summary);
    assert_eq!(
        joined(&out),
        "\nfailures:\n\
         ---- a at tests/it.rs:3:5 ----\nbad input\n\n\
         ---- b at tests/it.rs:3:5 ----\ntests/it.rs:12:5 expected 1\n\n\
         ---- c at tests/it.rs:3:5 ----\nindex out of bounds\n\n\
         \nfailures:\n    a\n    b\n    c\n\
         \ntest result: FAILED. 0 passed; 3 failed; 0 skipped; 0 filtered out\n"
    );
}

#[test]
fn log_records() {
    let d = desc("k::case");
    let at = location(2);
    let log = LogReporter::new();
    let r = log.test_run_starting(2);
    assert!(r.level == LogLevel::Info);
    assert_eq!(r.message, "running 2 tests");
    assert_eq!(log.test_run_starting(1).message, "running 1 test");
    let r = log.test_case_starting(&d);
    assert!(r.level == LogLevel::Info);
    assert_eq!(r.message, "start: case");
    let r = log.test_case_ended(&TestCaseSummary {
        desc: &d,
        outcome: Outcome::Passed,
    });
    assert!(r.level == LogLevel::Info);
    assert_eq!(r.message, "case: ok");
    let r = log.test_case_ended(&TestCaseSummary {
        desc: &d,
        outcome: Outcome::Errored(String::from("e")),
    });
    assert!(r.level == LogLevel::Error);
    assert_eq!(r.message, "case: FAILED");
    let r = log.test_case_ended(&TestCaseSummary {
        desc: &d,
        outcome: Outcome::Skipped {
            location: &at,
            reason: String::new(),
        },
    });
    assert!(r.level == LogLevel::Info);
    assert_eq!(r.message, "case: skipped");
}

#[test]
fn log_record_of_run_status() {
    let d = desc("k::case");
    let log = LogReporter::new();
    let mut summary = Summary::empty();
    summary.append(TestCaseSummary {
        desc: &d,
        outcome: Outcome::Passed,
    });
    let r = log.test_run_ended(&summary);
    assert!(r.level == LogLevel::Info);
    assert_eq!(r.message, "test status: ok");
    summary.append(TestCaseSummary {
        desc: &d,
        outcome: Outcome::Panicked(String::from("p")),
    });
    let r = log.test_run_ended(&summary);
    assert!(r.level == LogLevel::Error);
    assert_eq!(r.message, "test status: FAILED");
}
