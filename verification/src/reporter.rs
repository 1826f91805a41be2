//! Results of test cases and their aggregation into a summary of a run.

use crate::test::{Location, TestDesc};
use vstd::prelude::*;

verus! {

/// How one test case ended.
pub enum Outcome<'a> {
    /// Every run of the test function returned normally.
    Passed,
    /// The test function returned an error (its rendering).
    Errored(String),
    /// The test case marked itself as skipped.
    Skipped { location: &'a Location, reason: String },
    /// The test case marked itself as failed.
    Failed { location: &'a Location, reason: String },
    /// The test function panicked (the rendering of the panic).
    Panicked(String),
}

impl<'a> Outcome<'a> {
    /// Whether this outcome counts as a failure of the test case.
    pub open spec fn is_failure(&self) -> bool {
        self is Errored || self is Failed || self is Panicked
    }
}

/// The result of one test case.
pub struct TestCaseSummary<'a> {
    pub desc: &'a TestDesc,
    pub outcome: Outcome<'a>,
}

/// The results of a whole test run, grouped by outcome.
pub struct Summary<'a> {
    pub passed: Vec<TestCaseSummary<'a>>,
    pub failed: Vec<TestCaseSummary<'a>>,
    pub skipped: Vec<TestCaseSummary<'a>>,
    pub filtered_out: Vec<&'a TestDesc>,
}

/// A summary holds each result in the group that its outcome names.
pub open spec fn grouped<'a>(s: Summary<'a>) -> bool {
    &&& forall|i: int| 0 <= i < s.passed@.len() ==> #[trigger] s.passed@[i].outcome is Passed
    &&& forall|i: int| 0 <= i < s.failed@.len() ==> #[trigger] s.failed@[i].outcome.is_failure()
    &&& forall|i: int| 0 <= i < s.skipped@.len() ==> #[trigger] s.skipped@[i].outcome is Skipped
}

/// The passed, failed and skipped results once `results` are appended, in
/// order, to a summary holding the groups `groups`.
pub open spec fn groups_after<'a>(
    groups: (Seq<TestCaseSummary<'a>>, Seq<TestCaseSummary<'a>>, Seq<TestCaseSummary<'a>>),
    results: Seq<TestCaseSummary<'a>>,
) -> (Seq<TestCaseSummary<'a>>, Seq<TestCaseSummary<'a>>, Seq<TestCaseSummary<'a>>)
    decreases results.len(),
{
    if results.len() == 0 {
        groups
    } else {
        let (p, f, k) = groups_after(groups, results.drop_last());
        let r = results.last();
        match r.outcome {
            Outcome::Passed => (p.push(r), f, k),
            Outcome::Skipped { .. } => (p, f, k.push(r)),
            _ => (p, f.push(r), k),
        }
    }
}

/// Appending results one at a time is appending them all at once.
pub proof fn lemma_groups_after_step<'a>(
    groups: (Seq<TestCaseSummary<'a>>, Seq<TestCaseSummary<'a>>, Seq<TestCaseSummary<'a>>),
    results: Seq<TestCaseSummary<'a>>,
    r: TestCaseSummary<'a>,
)
    ensures
        groups_after(groups, results.push(r)) == groups_after(groups_after(groups, results), seq![r]),
{
    reveal_with_fuel(groups_after, 2);
    assert(results.push(r).drop_last() =~= results);
    assert(seq![r].drop_last() =~= Seq::<TestCaseSummary<'a>>::empty());
    assert(seq![r].last() == r);
    assert(results.push(r).last() == r);
}

/// A run whose results were appended to the empty summary passes exactly
/// when none of its results is a failure; every result lands in one group.
pub proof fn law_run_passes_iff_no_failure<'a>(results: Seq<TestCaseSummary<'a>>)
    ensures
        groups_after((Seq::empty(), Seq::empty(), Seq::empty()), results).1.len() == 0 <==> forall|i: int|
            0 <= i < results.len() ==> !(#[trigger] results[i].outcome.is_failure()),
        groups_after((Seq::empty(), Seq::empty(), Seq::empty()), results).0.len() + groups_after(
            (Seq::empty(), Seq::empty(), Seq::empty()),
            results,
        ).1.len() + groups_after((Seq::empty(), Seq::empty(), Seq::empty()), results).2.len()
            == results.len(),
    decreases results.len(),
{
    if results.len() > 0 {
        let init = results.drop_last();
        law_run_passes_iff_no_failure(init);
        if forall|i: int| 0 <= i < results.len() ==> !(#[trigger] results[i].outcome.is_failure()) {
            assert forall|i: int| 0 <= i < init.len() implies !(#[trigger] init[i].outcome.is_failure()) by {
                assert(init[i] == results[i]);
            }
            assert(!results[results.len() - 1].outcome.is_failure());
        } else if groups_after((Seq::empty(), Seq::empty(), Seq::empty()), init).1.len() == 0 {
            if !results.last().outcome.is_failure() {
                assert forall|i: int| 0 <= i < results.len() implies !(
                #[trigger] results[i].outcome.is_failure()) by {
                    if i < init.len() {
                        assert(init[i] == results[i]);
                    }
                }
            }
        }
    }
}

impl<'a> Summary<'a> {
    /// The number of results recorded so far (filtered-out tests excluded).
    pub open spec fn num_results(&self) -> nat {
        self.passed@.len() + self.failed@.len() + self.skipped@.len()
    }

    /// A summary with no results.
    pub fn empty() -> (r: Self)
        ensures
            r.passed@.len() == 0,
            r.failed@.len() == 0,
            r.skipped@.len() == 0,
            r.filtered_out@.len() == 0,
    {
        Summary { passed: Vec::new(), failed: Vec::new(), skipped: Vec::new(), filtered_out: Vec::new() }
    }

    /// Whether the run passed: no test case failed.
    pub fn is_passed(&self) -> (r: bool)
        ensures
            r == (self.failed@.len() == 0),
    {
        self.failed.len() == 0
    }

    /// Record the result of one test case in the group its outcome belongs to:
    /// passed, failed (error, explicit failure or panic) or skipped.
    pub fn append(&mut self, result: TestCaseSummary<'a>)
        ensures
            final(self).filtered_out@ == old(self).filtered_out@,
            (final(self).passed@, final(self).failed@, final(self).skipped@) == groups_after(
                (old(self).passed@, old(self).failed@, old(self).skipped@),
                seq![result],
            ),
            grouped(*old(self)) ==> grouped(*final(self)),
            final(self).num_results() == old(self).num_results() + 1,
            (final(self).failed@.len() == 0) == (old(self).failed@.len() == 0
                && !result.outcome.is_failure()),
            result.outcome is Passed ==> {
                &&& final(self).passed@ == old(self).passed@.push(result)
                &&& final(self).failed@ == old(self).failed@
                &&& final(self).skipped@ == old(self).skipped@
            },
            result.outcome.is_failure() ==> {
                &&& final(self).passed@ == old(self).passed@
                &&& final(self).failed@ == old(self).failed@.push(result)
                &&& final(self).skipped@ == old(self).skipped@
            },
            result.outcome is Skipped ==> {
                &&& final(self).passed@ == old(self).passed@
                &&& final(self).failed@ == old(self).failed@
                &&& final(self).skipped@ == old(self).skipped@.push(result)
            },
    {
        proof {
            reveal_with_fuel(groups_after, 2);
            assert(seq![result].drop_last() =~= Seq::<TestCaseSummary<'a>>::empty());
            assert(seq![result].last() == result);
        }
        match result.outcome {
            Outcome::Passed => self.passed.push(result),
            Outcome::Errored(..) | Outcome::Failed { .. } | Outcome::Panicked(..) => self.failed.push(
                result,
            ),
            Outcome::Skipped { .. } => self.skipped.push(result),
        }
    }
}

} // verus!
