use rye::context::Context;
use rye::driver::{make_driver_outcome, run_sections};
use rye::outcome::OutcomeKind;
use rye::result::{run_all_sections, Summary, TestInner, TestResult};
use rye::test::{LeafSection, Location, Section, TestDesc, TestName, TestPlan};
use std::cell::RefCell;

type HistoryLog = (&'static str, Option<String>);

fn location() -> Location {
    Location {
        file: String::from("tests/runner.rs"),
        line: 1,
        column: 1,
    }
}

fn desc() -> TestDesc {
    TestDesc {
        ignored: false,
        name: TestName {
            raw: String::from("rye::test_case"),
        },
        location: location(),
    }
}

fn section(id: u64, name: &str) -> Section {
    let s = Section::new(id, String::from(name), location());
    assert_eq!(s.id, id);
    assert_eq!(s.name, name);
    s
}

fn leaf(id: u64, ancestors: Vec<u64>) -> LeafSection {
    LeafSection { id, ancestors }
}

fn append_history(history: &RefCell<Vec<HistoryLog>>, ctx: &Context<'_>, msg: &'static str) {
    let current = ctx.current_section_name().map(String::from);
    history.borrow_mut().push((msg, current));
}

fn expected(entries: &[(&'static str, Option<&str>)]) -> Vec<HistoryLog> {
    entries
        .iter()
        .map(|(msg, sec)| (*msg, sec.map(String::from)))
        .collect()
}

#[test]
fn runner_test_no_section() {
    let desc = desc();
    let plans = TestPlan::for_leaves(&vec![]);
    let history = RefCell::new(vec![]);
    let r = run_all_sections(&desc, &plans, |ctx| {
        append_history(&history, &ctx, "test");
        (ctx, Ok(None))
    });
    assert!(r.is_success());
    assert_eq!(history.into_inner(), expected(&[("test", None)]));
}

#[test]
fn runner_test_one_section() {
    let s1 = section(1, "section1");
    let desc = desc();
    let plans = TestPlan::for_leaves(&vec![leaf(1, vec![])]);
    let history = RefCell::new(vec![]);
    let r = run_all_sections(&desc, &plans, |mut ctx| {
        append_history(&history, &ctx, "setup");
        let e = ctx.enter_section(&s1);
        if e.enabled() {
            append_history(&history, &ctx, "section1");
        }
        ctx.leave_section(e);
        append_history(&history, &ctx, "teardown");
        (ctx, Ok(None))
    });
    assert!(r.is_success());
    assert_eq!(
        history.into_inner(),
        expected(&[
            ("setup", None),
            ("section1", Some("section1")),
            ("teardown", None)
        ])
    );
}

#[test]
fn runner_test_multi_section() {
    let s1 = section(1, "section1");
    let s2 = section(2, "section2");
    let desc = desc();
    let plans = TestPlan::for_leaves(&vec![leaf(1, vec![]), leaf(2, vec![])]);
    let history = RefCell::new(vec![]);
    let r = run_all_sections(&desc, &plans, |mut ctx| {
        append_history(&history, &ctx, "setup");
        let e = ctx.enter_section(&s1);
        if e.enabled() {
            append_history(&history, &ctx, "section1");
        }
        ctx.leave_section(e);
        let e = ctx.enter_section(&s2);
        if e.enabled() {
            append_history(&history, &ctx, "section2");
        }
        ctx.leave_section(e);
        append_history(&history, &ctx, "teardown");
        (ctx, Ok(None))
    });
    assert!(r.is_success());
    assert_eq!(
        history.into_inner(),
        expected(&[
            // phase 1
            ("setup", None),
            ("section1", Some("section1")),
            ("teardown", None),
            // phase 2
            ("setup", None),
            ("section2", Some("section2")),
            ("teardown", None),
        ])
    );
}

#[test]
fn runner_test_nested_section() {
    let s1 = section(1, "section1");
    let s2 = section(2, "section2");
    let s3 = section(3, "section3");
    let s4 = section(4, "section4");
    let desc = desc();
    let plans = TestPlan::for_leaves(&vec![leaf(2, vec![1]), leaf(3, vec![1]), leaf(4, vec![])]);
    let history = RefCell::new(vec![]);
    let r = run_all_sections(&desc, &plans, |mut ctx| {
        append_history(&history, &ctx, "setup");
        let e1 = ctx.enter_section(&s1);
        if e1.enabled() {
            append_history(&history, &ctx, "section1:setup");
            let e = ctx.enter_section(&s2);
            if e.enabled() {
                append_history(&history, &ctx, "section2");
            }
            ctx.leave_section(e);
            let e = ctx.enter_section(&s3);
            if e.enabled() {
                append_history(&history, &ctx, "section3");
            }
            ctx.leave_section(e);
            append_history(&history, &ctx, "section1:teardown");
        }
        ctx.leave_section(e1);
        append_history(&history, &ctx, "test");
        let e = ctx.enter_section(&s4);
        if e.enabled() {
            append_history(&history, &ctx, "section4");
        }
        ctx.leave_section(e);
        append_history(&history, &ctx, "teardown");
        (ctx, Ok(None))
    });
    assert!(r.is_success());
    assert_eq!(
        history.into_inner(),
        expected(&[
            // phase 1
            ("setup", None),
            ("section1:setup", Some("section1")),
            ("section2", Some("section2")),
            ("section1:teardown", Some("section1")),
            ("test", None),
            ("teardown", None),
            // phase 2
            ("setup", None),
            ("section1:setup", Some("section1")),
            ("section3", Some("section3")),
            ("section1:teardown", Some("section1")),
            ("test", None),
            ("teardown", None),
            // phase 3
            ("setup", None),
            ("test", None),
            ("section4", Some("section4")),
            ("teardown", None),
        ])
    );
}

#[test]
fn runner_gathers_messages_of_every_failing_section() {
    let s1 = section(1, "section1");
    let s2 = section(2, "section2");
    let s3 = section(3, "section3");
    let desc = desc();
    let plans = TestPlan::for_leaves(&vec![leaf(1, vec![]), leaf(2, vec![]), leaf(3, vec![])]);
    let runs = RefCell::new(0usize);
    let r = run_all_sections(&desc, &plans, |mut ctx| {
        *runs.borrow_mut() += 1;
        let e = ctx.enter_section(&s1);
        let first = e.enabled();
        ctx.leave_section(e);
        let e = ctx.enter_section(&s2);
        let second = e.enabled();
        ctx.leave_section(e);
        let e = ctx.enter_section(&s3);
        ctx.leave_section(e);
        if first {
            (ctx, Ok(Some(String::from("first failed\n"))))
        } else if second {
            (ctx, Err(String::from("second panicked\n")))
        } else {
            (ctx, Ok(None))
        }
    });
    assert_eq!(*runs.borrow(), 3);
    assert!(r.result == TestResult::Failed);
    assert!(!r.is_success());
    assert_eq!(
        r.error_message.as_deref(),
        Some("first failed\nsecond panicked\n")
    );
}

#[test]
fn test_inner_collects_and_ends() {
    let desc = desc();
    let mut inner = TestInner::new(&desc);
    inner.collect_result(Ok(None));
    let r = inner.end();
    assert!(r.result == TestResult::Passed);
    assert_eq!(r.error_message, None);

    inner.collect_result(Ok(Some(String::from("a"))));
    inner.collect_result(Ok(None));
    inner.collect_result(Err(String::from("b")));
    let r = inner.end();
    assert!(r.result == TestResult::Failed);
    assert_eq!(r.error_message.as_deref(), Some("ab"));
    let r = inner.end();
    assert!(r.result == TestResult::Passed);
}

#[test]
fn driver_sections_stop_at_first_panic() {
    let s1 = section(1, "section1");
    let s2 = section(2, "section2");
    let plans = TestPlan::for_leaves(&vec![leaf(1, vec![]), leaf(2, vec![]), leaf(3, vec![])]);
    let runs = RefCell::new(0usize);
    let r = run_sections(&plans, |mut ctx| {
        *runs.borrow_mut() += 1;
        let e = ctx.enter_section(&s1);
        ctx.leave_section(e);
        let e = ctx.enter_section(&s2);
        let second = e.enabled();
        ctx.leave_section(e);
        if second {
            (ctx, Err(String::from("boom")))
        } else {
            (ctx, Ok(()))
        }
    });
    assert_eq!(*runs.borrow(), 2);
    assert_eq!(r, Err(String::from("boom")));

    let runs = RefCell::new(0usize);
    let r = run_sections(&plans, |ctx| {
        *runs.borrow_mut() += 1;
        (ctx, Ok(()))
    });
    assert_eq!(*runs.borrow(), 3);
    assert_eq!(r, Ok(()));
}

#[test]
fn driver_outcomes() {
    let o = make_driver_outcome(Ok(()), None);
    assert!(*o.kind() == OutcomeKind::Passed);
    assert_eq!(o.err_msg(), None);
    let o = make_driver_outcome(Ok(()), Some(String::from("expected a")));
    assert!(*o.kind() == OutcomeKind::Failed);
    assert_eq!(o.err_msg(), Some("expected a"));
    let o = make_driver_outcome(Err(String::from("panicked")), None);
    assert_eq!(o.err_msg(), Some("panicked\n"));
    let o = make_driver_outcome(Err(String::from("panicked")), Some(String::from("expected a")));
    assert!(*o.kind() == OutcomeKind::Failed);
    assert_eq!(o.err_msg(), Some("panicked\nexpected a\n"));
}

#[test]
fn summary_succeeds_iff_nothing_failed() {
    let desc = desc();
    let mut summary = Summary::default();
    assert!(summary.is_success());
    let mut inner = TestInner::new(&desc);
    summary.append(inner.end());
    summary.filtered_out.push(&desc);
    assert!(summary.is_success());
    inner.collect_result(Err(String::from("panicked")));
    summary.append(inner.end());
    assert!(!summary.is_success());
    summary.append(inner.end());
    assert!(!summary.is_success());
    assert_eq!(summary.passed.len(), 2);
    assert_eq!(summary.failed.len(), 1);
}
