use rye::reporter::Outcome;
use rye::run::TestRun;
use rye::test::{LeafSection, Location, TestDesc, TestName, TestPlan};
use rye::text::{
    contains_str, decimal_string, find_str, push_padded_left, push_padded_right, str_equal, str_lt,
};

#[test]
fn decimal_rendering() {
    assert_eq!(decimal_string(0), "0");
    assert_eq!(decimal_string(7), "7");
    assert_eq!(decimal_string(1204), "1204");
    assert_eq!(decimal_string(u64::MAX), "18446744073709551615");
}

#[test]
fn substring_search() {
    assert_eq!(find_str("tests::alpha", "::"), Some(5));
    assert_eq!(find_str("abcabc", "ca"), Some(2));
    assert_eq!(find_str("abc", ""), Some(0));
    assert_eq!(find_str("abc", "abcd"), None);
    assert_eq!(find_str("abc", "x"), None);
    assert!(contains_str("slow_case", "slow"));
    assert!(!contains_str("fast_case", "slow"));
}

#[test]
fn string_order_and_equality() {
    assert!(str_lt("alpha", "beta"));
    assert!(!str_lt("beta", "alpha"));
    assert!(str_lt("ab", "abc"));
    assert!(!str_lt("abc", "abc"));
    assert!(str_lt("Z", "a"));
    assert!(str_equal("same", "same"));
    assert!(!str_equal("same", "sane"));
    assert!(!str_equal("a", "ab"));
}

#[test]
fn padding() {
    let mut s = String::from("[");
    push_padded_right(&mut s, "ab", 5);
    s.push(']');
    assert_eq!(s, "[ab   ]");
    let mut s = String::new();
    push_padded_left(&mut s, "42", 6);
    assert_eq!(s, "    42");
    let mut s = String::new();
    push_padded_left(&mut s, "toolong", 3);
    push_padded_right(&mut s, "x", 0);
    assert_eq!(s, "toolongx");
}

#[test]
fn location_rendering() {
    let l = Location {
        file: String::from("src/lib.rs"),
        line: 42,
        column: 9,
    };
    assert_eq!(l.to_string(), "src/lib.rs:42:9");
}

#[test]
fn plans_for_leaves() {
    let plans = TestPlan::for_leaves(&vec![]);
    assert_eq!(plans.len(), 1);
    assert_eq!(plans[0].target, None);
    assert!(!plans[0].is_enabled(1));

    let plans = TestPlan::for_leaves(&vec![
        LeafSection {
            id: 3,
            ancestors: vec![1, 2],
        },
        LeafSection {
            id: 4,
            ancestors: vec![],
        },
    ]);
    assert_eq!(plans.len(), 2);
    assert_eq!(plans[0].target, Some(3));
    assert!(plans[0].is_enabled(3));
    assert!(plans[0].is_enabled(1));
    assert!(plans[0].is_enabled(2));
    assert!(!plans[0].is_enabled(4));
    assert!(plans[1].is_enabled(4));
    assert!(!plans[1].is_enabled(1));
}

#[test]
fn test_run_progress() {
    let desc = TestDesc {
        ignored: false,
        name: TestName {
            raw: String::from("k::case"),
        },
        location: Location {
            file: String::from("f.rs"),
            line: 1,
            column: 1,
        },
    };
    let plans = TestPlan::for_leaves(&vec![
        LeafSection {
            id: 1,
            ancestors: vec![],
        },
        LeafSection {
            id: 2,
            ancestors: vec![],
        },
        LeafSection {
            id: 3,
            ancestors: vec![],
        },
    ]);
    let mut run = TestRun::new(&plans);
    assert_eq!(run.next_plan().map(|p| p.target), Some(Some(1)));
    run.record(None);
    assert_eq!(run.next_plan().map(|p| p.target), Some(Some(2)));
    run.record(Some(Outcome::Errored(String::from("e"))));
    assert!(run.next_plan().is_none());
    let summary = run.finish(&desc);
    assert!(matches!(summary.outcome, Outcome::Errored(ref e) if e == "e"));

    let mut run = TestRun::new(&plans);
    run.record(None);
    run.record(None);
    run.record(None);
    assert!(run.next_plan().is_none());
    assert!(matches!(run.finish(&desc).outcome, Outcome::Passed));
}
