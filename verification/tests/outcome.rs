use rye::outcome::{make_outcome, Outcome, OutcomeKind};

#[test]
fn outcome_constructors() {
    assert!(*Outcome::passed().kind() == OutcomeKind::Passed);
    assert!(*Outcome::failed().kind() == OutcomeKind::Failed);
    assert!(
        *Outcome::measured(3, 4).kind()
            == OutcomeKind::Measured {
                average: 3,
                variance: 4
            }
    );
    assert_eq!(Outcome::passed().err_msg(), None);
    let o = Outcome::failed().error_message(String::from("why"));
    assert!(*o.kind() == OutcomeKind::Failed);
    assert_eq!(o.err_msg(), Some("why"));
}

#[test]
fn outcome_of_success() {
    let o = make_outcome(Ok(None), None);
    assert!(*o.kind() == OutcomeKind::Passed);
    assert_eq!(o.err_msg(), None);
}

#[test]
fn outcome_of_error_and_panic() {
    let o = make_outcome(Ok(Some(Some(String::from("bad")))), None);
    assert!(*o.kind() == OutcomeKind::Failed);
    assert_eq!(o.err_msg(), Some("bad"));
    let o = make_outcome(Ok(Some(None)), None);
    assert!(*o.kind() == OutcomeKind::Failed);
    assert_eq!(o.err_msg(), Some("<unknown>"));
    let o = make_outcome(Err(String::from("panicked at x")), None);
    assert!(*o.kind() == OutcomeKind::Failed);
    assert_eq!(o.err_msg(), Some("panicked at x"));
}

#[test]
fn outcome_with_unmet_expectations() {
    let o = make_outcome(Ok(None), Some(String::from("expected 1 == 2")));
    assert!(*o.kind() == OutcomeKind::Failed);
    assert_eq!(o.err_msg(), Some("expected 1 == 2\n"));
    let o = make_outcome(Err(String::from("boom\n")), Some(String::from("also this")));
    assert_eq!(o.err_msg(), Some("boom\nalso this\n"));
}
