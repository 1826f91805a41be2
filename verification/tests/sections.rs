use rye::context::Context;
use rye::reporter::Outcome;
use rye::run::run_blocking;
use rye::test::{LeafSection, Location, Section, TestDesc, TestName, TestPlan};
use std::cell::RefCell;

type HistoryLog = (&'static str, Option<String>);

fn location() -> Location {
    Location {
        file: String::from("tests/sections.rs"),
        line: 1,
        column: 1,
    }
}

fn desc() -> TestDesc {
    TestDesc {
        ignored: false,
        name: TestName {
            raw: String::from("rye::test_case"),
        },
        location: location(),
    }
}

fn section(id: u64, name: &str) -> Section {
    Section {
        id,
        name: String::from(name),
        location: location(),
    }
}

fn append_history(history: &RefCell<Vec<HistoryLog>>, ctx: &Context<'_>, msg: &'static str) {
    let current = ctx.current_section_name().map(String::from);
    history.borrow_mut().push((msg, current));
}

fn expected(entries: &[(&'static str, Option<&str>)]) -> Vec<HistoryLog> {
    entries
        .iter()
        .map(|(msg, sec)| (*msg, sec.map(String::from)))
        .collect()
}

fn no_section_history() -> Vec<HistoryLog> {
    let desc = desc();
    let plans = TestPlan::for_leaves(&vec![]);
    let history = RefCell::new(vec![]);
    let summary = run_blocking(&desc, &plans, |mut ctx| {
        append_history(&history, &ctx, "test");
        (ctx, Ok(Ok(())))
    });
    assert!(matches!(summary.outcome, Outcome::Passed));
    history.into_inner()
}

fn one_section_history() -> Vec<HistoryLog> {
    let s1 = section(1, "section1");
    let desc = desc();
    let plans = TestPlan::for_leaves(&vec![LeafSection {
        id: 1,
        ancestors: vec![],
    }]);
    let history = RefCell::new(vec![]);
    let summary = run_blocking(&desc, &plans, |mut ctx| {
        append_history(&history, &ctx, "setup");
        let e = ctx.enter_section(&s1);
        if e.enabled() {
            append_history(&history, &ctx, "section1");
        }
        ctx.leave_section(e);
        append_history(&history, &ctx, "teardown");
        (ctx, Ok(Ok(())))
    });
    assert!(matches!(summary.outcome, Outcome::Passed));
    history.into_inner()
}

fn multi_section_history() -> Vec<HistoryLog> {
    let s1 = section(1, "section1");
    let s2 = section(2, "section2");
    let desc = desc();
    let plans = TestPlan::for_leaves(&vec![
        LeafSection {
            id: 1,
            ancestors: vec![],
        },
        LeafSection {
            id: 2,
            ancestors: vec![],
        },
    ]);
    let history = RefCell::new(vec![]);
    let summary = run_blocking(&desc, &plans, |mut ctx| {
        append_history(&history, &ctx, "setup");
        let e = ctx.enter_section(&s1);
        if e.enabled() {
            append_history(&history, &ctx, "section1");
        }
        ctx.leave_section(e);
        let e = ctx.enter_section(&s2);
        if e.enabled() {
            append_history(&history, &ctx, "section2");
        }
        ctx.leave_section(e);
        append_history(&history, &ctx, "teardown");
        (ctx, Ok(Ok(())))
    });
    assert!(matches!(summary.outcome, Outcome::Passed));
    history.into_inner()
}

fn nested_section_history(with_test_line: bool) -> Vec<HistoryLog> {
    let s1 = section(1, "section1");
    let s2 = section(2, "section2");
    let s3 = section(3, "section3");
    let s4 = section(4, "section4");
    let desc = desc();
    let plans = TestPlan::for_leaves(&vec![
        LeafSection {
            id: 2,
            ancestors: vec![1],
        },
        LeafSection {
            id: 3,
            ancestors: vec![1],
        },
        LeafSection {
            id: 4,
            ancestors: vec![],
        },
    ]);
    let history = RefCell::new(vec![]);
    let summary = run_blocking(&desc, &plans, |mut ctx| {
        append_history(&history, &ctx, "setup");
        let e1 = ctx.enter_section(&s1);
        if e1.enabled() {
            append_history(&history, &ctx, "section1:setup");
            let e = ctx.enter_section(&s2);
            if e.enabled() {
                append_history(&history, &ctx, "section2");
            }
            ctx.leave_section(e);
            let e = ctx.enter_section(&s3);
            if e.enabled() {
                append_history(&history, &ctx, "section3");
            }
            ctx.leave_section(e);
            append_history(&history, &ctx, "section1:teardown");
        }
        ctx.leave_section(e1);
        if with_test_line {
            append_history(&history, &ctx, "test");
        }
        let e = ctx.enter_section(&s4);
        if e.enabled() {
            append_history(&history, &ctx, "section4");
        }
        e.leave(&mut ctx);
        append_history(&history, &ctx, "teardown");
        (ctx, Ok(Ok(())))
    });
    assert!(matches!(summary.outcome, Outcome::Passed));
    history.into_inner()
}

fn nested_expected() -> Vec<HistoryLog> {
    expected(&[
        // phase 1
        ("setup", None),
        ("section1:setup", Some("section1")),
        ("section2", Some("section2")),
        ("section1:teardown", Some("section1")),
        ("teardown", None),
        // phase 2
        ("setup", None),
        ("section1:setup", Some("section1")),
        ("section3", Some("section3")),
        ("section1:teardown", Some("section1")),
        ("teardown", None),
        // phase 3
        ("setup", None),
        ("section4", Some("section4")),
        ("teardown", None),
    ])
}

#[test]
fn executor_no_section() {
    assert_eq!(no_section_history(), expected(&[("test", None)]));
}

#[test]
fn executor_one_section() {
    assert_eq!(
        one_section_history(),
        expected(&[
            ("setup", None),
            ("section1", Some("section1")),
            ("teardown", None)
        ])
    );
}

#[test]
fn executor_multi_section() {
    assert_eq!(
        multi_section_history(),
        expected(&[
            // phase 1
            ("setup", None),
            ("section1", Some("section1")),
            ("teardown", None),
            // phase 2
            ("setup", None),
            ("section2", Some("section2")),
            ("teardown", None),
        ])
    );
}

#[test]
fn executor_nested_section() {
    assert_eq!(nested_section_history(false), nested_expected());
}

#[test]
fn test_no_section() {
    assert_eq!(no_section_history(), expected(&[("test", None)]));
}

#[test]
fn test_one_section() {
    assert_eq!(
        one_section_history(),
        expected(&[
            ("setup", None),
            ("section1", Some("section1")),
            ("teardown", None)
        ])
    );
}

#[test]
fn test_multi_section() {
    assert_eq!(
        multi_section_history(),
        expected(&[
            // phase 1
            ("setup", None),
            ("section1", Some("section1")),
            ("teardown", None),
            // phase 2
            ("setup", None),
            ("section2", Some("section2")),
            ("teardown", None),
        ])
    );
}

#[test]
fn test_nested_section() {
    assert_eq!(nested_section_history(false), nested_expected());
}

#[test]
fn nested_section_with_code_between_sections() {
    assert_eq!(
        nested_section_history(true),
        expected(&[
            // phase 1
            ("setup", None),
            ("section1:setup", Some("section1")),
            ("section2", Some("section2")),
            ("section1:teardown", Some("section1")),
            ("test", None),
            ("teardown", None),
            // phase 2
            ("setup", None),
            ("section1:setup", Some("section1")),
            ("section3", Some("section3")),
            ("section1:teardown", Some("section1")),
            ("test", None),
            ("teardown", None),
            // phase 3
            ("setup", None),
            ("test", None),
            ("section4", Some("section4")),
            ("teardown", None),
        ])
    );
}

#[test]
fn run_stops_at_first_declared_outcome() {
    let s1 = section(1, "section1");
    let s2 = section(2, "section2");
    let desc = desc();
    let loc = location();
    let plans = TestPlan::for_leaves(&vec![
        LeafSection {
            id: 1,
            ancestors: vec![],
        },
        LeafSection {
            id: 2,
            ancestors: vec![],
        },
    ]);
    let runs = RefCell::new(0usize);
    let summary = run_blocking(&desc, &plans, |mut ctx| {
        *runs.borrow_mut() += 1;
        let e = ctx.enter_section(&s1);
        if e.enabled() {
            let terminated = ctx.skip(&loc, String::from("not today"));
            assert_eq!(terminated, "test function is explicitly terminated");
            ctx.leave_section(e);
            return (ctx, Err(terminated));
        }
        ctx.leave_section(e);
        let e = ctx.enter_section(&s2);
        ctx.leave_section(e);
        (ctx, Ok(Ok(())))
    });
    assert_eq!(*runs.borrow(), 1);
    match summary.outcome {
        Outcome::Skipped { reason, location } => {
            assert_eq!(reason, "not today");
            assert_eq!(location.line, 1);
        }
        _ => panic!("expected a skipped outcome"),
    }
}

#[test]
fn run_reports_error_and_panic() {
    let desc = desc();
    let plans = TestPlan::for_leaves(&vec![]);
    let summary = run_blocking(&desc, &plans, |ctx| (ctx, Ok(Err(String::from("boom")))));
    assert!(matches!(summary.outcome, Outcome::Errored(ref e) if e == "boom"));
    let summary = run_blocking(&desc, &plans, |ctx| (ctx, Err(String::from("panicked"))));
    assert!(matches!(summary.outcome, Outcome::Panicked(ref p) if p == "panicked"));
}

#[test]
fn declared_failure_ends_the_run_as_failed() {
    let desc = desc();
    let loc = location();
    let plans = TestPlan::for_leaves(&vec![]);
    let summary = run_blocking(&desc, &plans, |mut ctx| {
        let terminated = ctx.fail(&loc, String::from("bad state"));
        (ctx, Err(terminated))
    });
    match summary.outcome {
        Outcome::Failed { reason, .. } => assert_eq!(reason, "bad state"),
        _ => panic!("expected a failed outcome"),
    }
}

#[test]
fn check_outcome_reads_declared_outcome_on_panic() {
    let loc = location();
    let plan = TestPlan {
        target: None,
        ancestors: vec![],
    };
    let mut ctx = Context::new(&plan);
    assert!(ctx.check_outcome(Ok(Ok(()))).is_none());
    assert!(matches!(
        ctx.check_outcome(Ok(Err(String::from("e")))),
        Some(Outcome::Errored(ref e)) if e == "e"
    ));
    assert!(matches!(
        ctx.check_outcome(Err(String::from("p"))),
        Some(Outcome::Panicked(ref p)) if p == "p"
    ));
    let _ = ctx.skip(&loc, String::from("later"));
    assert!(ctx.is_declared());
    assert!(matches!(
        ctx.check_outcome(Err(String::from("test function is explicitly terminated"))),
        Some(Outcome::Skipped { ref reason, .. }) if reason == "later"
    ));
    assert!(!ctx.is_declared());
}

#[test]
fn balanced_sections_restore_the_context() {
    let s1 = section(1, "section1");
    let s2 = section(2, "section2");
    let s3 = section(3, "section3");
    let plan = TestPlan {
        target: Some(2),
        ancestors: vec![1],
    };
    let mut ctx = Context::new(&plan);
    let outer = ctx.enter_section(&s1);
    assert!(outer.enabled());
    let e2 = ctx.enter_section(&s2);
    assert!(e2.enabled());
    assert_eq!(ctx.current_section_name(), Some("section2"));
    ctx.leave_section(e2);
    let e3 = ctx.enter_section(&s3);
    assert!(!e3.enabled());
    let inner = ctx.enter_section(&s2);
    assert_eq!(ctx.current_section_name(), Some("section2"));
    ctx.leave_section(inner);
    assert_eq!(ctx.current_section_name(), Some("section3"));
    ctx.leave_section(e3);
    assert_eq!(ctx.current_section_name(), Some("section1"));
    ctx.leave_section(outer);
    assert_eq!(ctx.current_section_name(), None);
    assert!(!ctx.is_declared());
}
