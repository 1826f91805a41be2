//! The outcome of performing one test or benchmark, as the console driver
//! records it.

use crate::text::{push_all, push_char, string_of};
use vstd::prelude::*;
use vstd::string::*;

verus! {

/// The kind of an outcome.
#[derive(PartialEq, Eq, Structural)]
pub enum OutcomeKind {
    Passed,
    Failed,
    Measured { average: u64, variance: u64 },
}

/// The outcome of performing a test.
pub struct Outcome {
    kind: OutcomeKind,
    err_msg: Option<String>,
}

impl Outcome {
    /// The kind of this outcome.
    pub closed spec fn kind_view(&self) -> OutcomeKind {
        self.kind
    }

    /// The characters of the error message, if any.
    pub closed spec fn message(&self) -> Option<Seq<char>> {
        match self.err_msg {
            Some(m) => Some(m@),
            None => None,
        }
    }

    fn new(kind: OutcomeKind) -> (r: Self)
        ensures
            r.kind_view() == kind,
            r.message() is None,
    {
        Outcome { kind, err_msg: None }
    }

    /// Create an `Outcome` representing that the test passed.
    pub fn passed() -> (r: Self)
        ensures
            r.kind_view() == OutcomeKind::Passed,
            r.message() is None,
    {
        Self::new(OutcomeKind::Passed)
    }

    /// Create an `Outcome` representing that the test or benchmark failed.
    pub fn failed() -> (r: Self)
        ensures
            r.kind_view() == OutcomeKind::Failed,
            r.message() is None,
    {
        Self::new(OutcomeKind::Failed)
    }

    /// Create an `Outcome` representing that the benchmark test was successfully run.
    pub fn measured(average: u64, variance: u64) -> (r: Self)
        ensures
            r.kind_view() == (OutcomeKind::Measured { average, variance }),
            r.message() is None,
    {
        Self::new(OutcomeKind::Measured { average, variance })
    }

    /// Specify the error message.
    pub fn error_message(self, err_msg: String) -> (r: Self)
        ensures
            r.kind_view() == self.kind_view(),
            r.message() == Some(err_msg@),
    {
        Outcome { err_msg: Some(err_msg), ..self }
    }

    /// The kind of this outcome.
    pub fn kind(&self) -> (r: &OutcomeKind)
        ensures
            *r == self.kind_view(),
    {
        &self.kind
    }

    /// The error message, if any.
    pub fn err_msg(&self) -> (r: Option<&str>)
        ensures
            match self.message() {
                Some(m) => r is Some && r->0@ == m,
                None => r is None,
            },
    {
        match &self.err_msg {
            Some(m) => Some(m.as_str()),
            None => None,
        }
    }
}

/// The message of a run that returned a failing result: the rendering of its
/// error, or `<unknown>` when it has none.
pub open spec fn failure_text(error: Option<Seq<char>>) -> Seq<char> {
    match error {
        Some(e) => e,
        None => "<unknown>"@,
    }
}

/// The error message of a finished test (`None`: it passed). `result` is
/// `Ok(None)` when the test returned success, `Ok(Some(e))` when it returned a
/// failure whose error renders as `e` (or has none), `Err(p)` when it panicked
/// with the rendering `p`; `disappoints` renders the unmet expectations, each
/// appended on a line of its own.
pub open spec fn outcome_message(
    result: Result<Option<Option<Seq<char>>>, Seq<char>>,
    disappoints: Option<Seq<char>>,
) -> Option<Seq<char>> {
    let base: Option<Seq<char>> = match result {
        Ok(None) => None,
        Ok(Some(e)) => Some(failure_text(e)),
        Err(p) => Some(p),
    };
    match disappoints {
        Some(d) => Some(
            (match base {
                Some(b) => b,
                None => Seq::empty(),
            }) + d + seq!['\n'],
        ),
        None => base,
    }
}

/// A test passes exactly when it returned success and no expectation went
/// unmet. A failing test's message starts with what ended it (the panic, or
/// the returned error, `<unknown>` when it has none), and unmet expectations
/// are added after it on a line of their own.
pub proof fn law_outcome_message(
    result: Result<Option<Option<Seq<char>>>, Seq<char>>,
    disappoints: Option<Seq<char>>,
)
    ensures
        outcome_message(result, disappoints) is None <==> (result == Ok::<
            Option<Option<Seq<char>>>,
            Seq<char>,
        >(None) && disappoints is None),
        result matches Err(p) ==> outcome_message(result, disappoints) matches Some(m) && m.len()
            >= p.len() && m.subrange(0, p.len() as int) == p,
        result matches Ok(Some(Some(e))) ==> outcome_message(result, disappoints) matches Some(m)
            && m.len() >= e.len() && m.subrange(0, e.len() as int) == e,
        result matches Ok(Some(None)) ==> outcome_message(result, None) == Some("<unknown>"@),
        disappoints matches Some(d) ==> outcome_message(result, disappoints) matches Some(m) && {
            let before = match outcome_message(result, None) {
                Some(b) => b,
                None => Seq::empty(),
            };
            m == before + d + seq!['\n']
        },
{
    match result {
        Err(p) => {
            let m = outcome_message(result, disappoints)->0;
            match disappoints {
                Some(d) => {
                    assert(m.subrange(0, p.len() as int) =~= p);
                },
                None => {
                    assert(m.subrange(0, p.len() as int) =~= p);
                },
            }
        },
        Ok(Some(Some(e))) => {
            let m = outcome_message(result, disappoints)->0;
            assert(m.subrange(0, e.len() as int) =~= e);
        },
        _ => {},
    }
}

/// The outcome of a finished test: failed with the message when there is
/// one, passed otherwise.
pub fn make_outcome(result: Result<Option<Option<String>>, String>, disappoints: Option<String>) -> (r: Outcome)
    ensures
        ({
            let res_view: Result<Option<Option<Seq<char>>>, Seq<char>> = match result {
                Ok(None) => Ok(None),
                Ok(Some(Some(e))) => Ok(Some(Some(e@))),
                Ok(Some(None)) => Ok(Some(None)),
                Err(p) => Err(p@),
            };
            let d_view: Option<Seq<char>> = match disappoints {
                Some(d) => Some(d@),
                None => None,
            };
            match outcome_message(res_view, d_view) {
                Some(m) => r.kind_view() == OutcomeKind::Failed && r.message() == Some(m),
                None => r.kind_view() == OutcomeKind::Passed && r.message() is None,
            }
        }),
{
    let mut error_message: Option<String> = match result {
        Ok(None) => None,
        Ok(Some(Some(e))) => Some(e),
        Ok(Some(None)) => Some(string_of("<unknown>")),
        Err(p) => Some(p),
    };
    match disappoints {
        Some(d) => {
            let mut msg = match error_message {
                Some(m) => m,
                None => String::new(),
            };
            push_all(&mut msg, d.as_str());
            push_char(&mut msg, '\n');
            error_message = Some(msg);
        },
        None => {},
    }
    match error_message {
        Some(msg) => Outcome::failed().error_message(msg),
        None => Outcome::passed(),
    }
}

} // verus!
