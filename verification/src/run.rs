//! Running one test case: the test function runs once per plan, in order,
//! until a run yields an outcome.

use crate::context::{run_outcome, Context};
use crate::reporter::{Outcome, TestCaseSummary};
use crate::test::{TestDesc, TestPlan};
use vstd::prelude::*;

verus! {

/// The outcome of a test case whose runs gave `results`, in order: the first
/// outcome a run yielded, or `Passed` when none yielded one.
pub open spec fn first_outcome<'a>(results: Seq<Option<Outcome<'a>>>) -> Outcome<'a>
    decreases results.len(),
{
    if results.len() == 0 {
        Outcome::Passed
    } else if results[0] is Some {
        results[0]->0
    } else {
        first_outcome(results.drop_first())
    }
}

/// `results` is what the runs of a test case with `num_plans` plans gave:
/// every run but the last yielded nothing, and the runs stop early only
/// after a run that yielded an outcome.
pub open spec fn complete_runs<'a>(results: Seq<Option<Outcome<'a>>>, num_plans: nat) -> bool {
    &&& results.len() <= num_plans
    &&& forall|i: int| 0 <= i < results.len() - 1 ==> #[trigger] results[i] is None
    &&& results.len() < num_plans ==> results.len() > 0 && results.last() is Some
}

/// The progress of the runs of one test case.
pub struct TestRun<'a> {
    plans: &'a Vec<TestPlan>,
    next: usize,
    outcome: Option<Outcome<'a>>,
    results: Ghost<Seq<Option<Outcome<'a>>>>,
}

impl<'a> TestRun<'a> {
    /// The plans of the test case.
    pub closed spec fn plans(&self) -> Seq<TestPlan> {
        self.plans@
    }

    /// What the runs so far have given, in order.
    pub closed spec fn results(&self) -> Seq<Option<Outcome<'a>>> {
        self.results@
    }

    /// Whether no run remains: every plan ran, or a run yielded an outcome.
    pub open spec fn finished(&self) -> bool {
        self.results().len() >= self.plans().len() || (self.results().len() > 0
            && self.results().last() is Some)
    }

    /// The internal consistency of the progress record.
    pub closed spec fn wf(&self) -> bool {
        &&& self.next == self.results@.len()
        &&& self.next <= self.plans.len()
        &&& forall|i: int| 0 <= i < self.results@.len() - 1 ==> #[trigger] self.results@[i] is None
        &&& self.outcome == (if self.results@.len() == 0 {
            None
        } else {
            self.results@.last()
        })
    }

    /// Start the runs of a test case with these plans.
    pub fn new(plans: &'a Vec<TestPlan>) -> (r: Self)
        ensures
            r.wf(),
            r.plans() == plans@,
            r.results().len() == 0,
    {
        TestRun { plans, next: 0, outcome: None, results: Ghost(Seq::empty()) }
    }

    /// The plan of the next run, or `None` when no run remains.
    pub fn next_plan(&self) -> (r: Option<&'a TestPlan>)
        requires
            self.wf(),
        ensures
            self.finished() ==> r is None,
            !self.finished() ==> r == Some(&self.plans()[self.results().len() as int]),
    {
        if self.outcome.is_some() || self.next >= self.plans.len() {
            None
        } else {
            Some(&self.plans[self.next])
        }
    }

    /// Record what the next run gave.
    pub fn record(&mut self, result: Option<Outcome<'a>>)
        requires
            old(self).wf(),
            !old(self).finished(),
        ensures
            final(self).wf(),
            final(self).plans() == old(self).plans(),
            final(self).results() == old(self).results().push(result),
    {
        self.next = self.next + 1;
        self.results = Ghost(self.results@.push(result));
        self.outcome = result;
    }

    /// The result of the test case once no run remains.
    pub fn finish(self, desc: &'a TestDesc) -> (r: TestCaseSummary<'a>)
        requires
            self.wf(),
            self.finished(),
        ensures
            r.desc == desc,
            r.outcome == first_outcome(self.results()),
            complete_runs(self.results(), self.plans().len()),
    {
        proof {
            lemma_first_outcome_last(self.results@);
        }
        let outcome = match self.outcome {
            Some(outcome) => outcome,
            None => Outcome::Passed,
        };
        TestCaseSummary { desc, outcome }
    }
}

/// When every result but the last is empty, the first outcome is the last
/// result's, or `Passed`.
proof fn lemma_first_outcome_last<'a>(results: Seq<Option<Outcome<'a>>>)
    requires
        forall|i: int| 0 <= i < results.len() - 1 ==> #[trigger] results[i] is None,
    ensures
        first_outcome(results) == (if results.len() == 0 || results.last() is None {
            Outcome::Passed
        } else {
            results.last()->0
        }),
    decreases results.len(),
{
    if results.len() == 1 {
        assert(results.drop_first().len() == 0);
        assert(first_outcome(results.drop_first()) == Outcome::<'a>::Passed);
    } else if results.len() > 1 {
        assert(results[0] is None);
        let rest = results.drop_first();
        assert forall|i: int| 0 <= i < rest.len() - 1 implies #[trigger] rest[i] is None by {
            assert(rest[i] == results[i + 1]);
        }
        lemma_first_outcome_last(rest);
        assert(rest.last() == results.last());
    }
}

/// What the `k`-th run of `f` may have given: `f`, started in a fresh
/// context under `plan`, may end in a context and with a result from which the
/// run's outcome is read.
pub open spec fn possible_run<'a, F: Fn(Context<'a>) -> (Context<'a>, Result<Result<(), String>, String>)>(
    f: F,
    plan: &'a TestPlan,
    result: Option<Outcome<'a>>,
) -> bool {
    exists|out: (Context<'a>, Result<Result<(), String>, String>)|
        #[trigger] f.ensures((Context::fresh(plan),), out) && result == run_outcome(
            out.0.declared(),
            out.1,
        )
}

/// Run a test function that does not block on futures: once per plan, in
/// order, each time in a fresh context, until a run yields an outcome (an
/// error, a panic, or a declared skip or failure).
///
/// `f` takes the context of the run and gives it back with `Ok(Ok(()))` when
/// the test body returned normally, `Ok(Err(e))` when it returned an error and
/// `Err(p)` when it panicked.
pub fn run_blocking<'a, F>(desc: &'a TestDesc, plans: &'a Vec<TestPlan>, f: F) -> (r: TestCaseSummary<'a>)
    where
        F: Fn(Context<'a>) -> (Context<'a>, Result<Result<(), String>, String>),
    requires
        forall|c: Context<'a>| #[trigger] f.requires((c,)),
        forall|c: Context<'a>, out: (Context<'a>, Result<Result<(), String>, String>)|
            #[trigger] f.ensures((c,), out) && out.1 is Ok && out.1->Ok_0 is Ok ==> out.0.declared()
                is None,
    ensures
        r.desc == desc,
        exists|results: Seq<Option<Outcome<'a>>>|
            {
                &&& complete_runs(results, plans@.len())
                &&& r.outcome == first_outcome(results)
                &&& forall|k: int|
                    0 <= k < results.len() ==> #[trigger] possible_run(f, &plans@[k], results[k])
            },
        plans@.len() == 0 ==> r.outcome is Passed,
{
    let mut run = TestRun::new(plans);
    loop
        invariant
            run.wf(),
            run.plans() == plans@,
            forall|c: Context<'a>| #[trigger] f.requires((c,)),
            forall|c: Context<'a>, out: (Context<'a>, Result<Result<(), String>, String>)|
                #[trigger] f.ensures((c,), out) && out.1 is Ok && out.1->Ok_0 is Ok
                    ==> out.0.declared() is None,
            forall|k: int|
                0 <= k < run.results().len() ==> #[trigger] possible_run(
                    f,
                    &plans@[k],
                    run.results()[k],
                ),
        ensures
            run.wf(),
            run.finished(),
            run.plans() == plans@,
            forall|k: int|
                0 <= k < run.results().len() ==> #[trigger] possible_run(
                    f,
                    &plans@[k],
                    run.results()[k],
                ),
        decreases plans@.len() - run.results().len(),
    {
        match run.next_plan() {
            None => break,
            Some(plan) => {
                let ctx = Context::new(plan);
                let out = f(ctx);
                proof {
                    assert(f.ensures((Context::fresh(plan),), out));
                }
                let (mut ctx, result) = out;
                let outcome = ctx.check_outcome(result);
                proof {
                    assert(possible_run(f, plan, outcome));
                }
                let ghost before = run.results();
                run.record(outcome);
                assert(run.results()[before.len() as int] == outcome);
            },
        }
    }
    let ghost results = run.results();
    let r = run.finish(desc);
    assert(complete_runs(results, plans@.len()) && r.outcome == first_outcome(results));
    r
}

/// A test case's outcome is that of its last run, which is the first and only
/// run that yielded an outcome; when no run yields one, every plan runs and the
/// test case passes.
pub proof fn law_outcome_of_first_failing_run<'a>(results: Seq<Option<Outcome<'a>>>, num_plans: nat)
    requires
        complete_runs(results, num_plans),
    ensures
        results.len() > 0 && results.last() is Some ==> first_outcome(results) == results.last()->0,
        (forall|i: int| 0 <= i < results.len() ==> #[trigger] results[i] is None) ==> results.len()
            == num_plans && first_outcome(results) is Passed,
{
    lemma_first_outcome_last(results);
    if forall|i: int| 0 <= i < results.len() ==> #[trigger] results[i] is None {
        if results.len() < num_plans {
            assert(results[results.len() - 1] is None);
        }
    }
}

} // verus!
