//! Pass/fail results of test cases whose sections each run once: the error
//! messages of all runs are gathered, and a test passes when there is none.

use crate::report::opt_view;
use crate::context::Context;
use crate::test::{TestDesc, TestPlan};
use crate::text::push_all;
use vstd::prelude::*;

verus! {

/// Whether a test case passed.
#[derive(Clone, Copy, PartialEq, Eq, Structural)]
pub enum TestResult {
    Passed,
    Failed,
}

/// The result of one test case and the error messages of its runs.
pub struct TestCaseResult<'a> {
    pub desc: &'a TestDesc,
    pub result: TestResult,
    pub error_message: Option<String>,
}

impl<'a> TestCaseResult<'a> {
    /// Whether the test case passed.
    pub fn is_success(&self) -> (r: bool)
        ensures
            r == (self.result == TestResult::Passed),
    {
        match self.result {
            TestResult::Passed => true,
            _ => false,
        }
    }
}

/// The results of a run, split into passed and failed test cases.
pub struct Summary<'a> {
    pub passed: Vec<TestCaseResult<'a>>,
    pub failed: Vec<TestCaseResult<'a>>,
    pub filtered_out: Vec<&'a TestDesc>,
}

impl<'a> Default for Summary<'a> {
    fn default() -> (r: Self)
        ensures
            r.passed@.len() == 0,
            r.failed@.len() == 0,
            r.filtered_out@.len() == 0,
    {
        Summary { passed: Vec::new(), failed: Vec::new(), filtered_out: Vec::new() }
    }
}

impl<'a> Summary<'a> {
    /// Whether the run succeeded: no test case failed.
    pub fn is_success(&self) -> (r: bool)
        ensures
            r == (self.failed@.len() == 0),
    {
        self.failed.len() == 0
    }

    /// Record a result with the passed or the failed test cases.
    pub fn append(&mut self, result: TestCaseResult<'a>)
        ensures
            final(self).filtered_out@ == old(self).filtered_out@,
            (final(self).passed@, final(self).failed@) == after_appends(
                old(self).passed@,
                old(self).failed@,
                seq![result],
            ),
            result.result == TestResult::Passed ==> final(self).passed@ == old(self).passed@.push(
                result,
            ) && final(self).failed@ == old(self).failed@,
            result.result == TestResult::Failed ==> final(self).failed@ == old(self).failed@.push(
                result,
            ) && final(self).passed@ == old(self).passed@,
    {
        proof {
            reveal_with_fuel(after_appends, 2);
            assert(seq![result].drop_last() =~= Seq::<TestCaseResult<'a>>::empty());
            assert(seq![result].last() == result);
        }
        match result.result {
            TestResult::Passed => {
                self.passed.push(result);
            },
            TestResult::Failed => {
                self.failed.push(result);
            },
        }
    }
}

/// The passed and failed results once `results` are appended, in order, to
/// a summary holding `passed` and `failed`.
pub open spec fn after_appends<'a>(
    passed: Seq<TestCaseResult<'a>>,
    failed: Seq<TestCaseResult<'a>>,
    results: Seq<TestCaseResult<'a>>,
) -> (Seq<TestCaseResult<'a>>, Seq<TestCaseResult<'a>>)
    decreases results.len(),
{
    if results.len() == 0 {
        (passed, failed)
    } else {
        let (p, f) = after_appends(passed, failed, results.drop_last());
        let r = results.last();
        if r.result == TestResult::Passed {
            (p.push(r), f)
        } else {
            (p, f.push(r))
        }
    }
}

/// Appending results one at a time is appending them all at once.
pub proof fn lemma_after_appends_step<'a>(
    passed: Seq<TestCaseResult<'a>>,
    failed: Seq<TestCaseResult<'a>>,
    results: Seq<TestCaseResult<'a>>,
    r: TestCaseResult<'a>,
)
    ensures
        after_appends(passed, failed, results.push(r)) == after_appends(
            after_appends(passed, failed, results).0,
            after_appends(passed, failed, results).1,
            seq![r],
        ),
{
    reveal_with_fuel(after_appends, 2);
    assert(results.push(r).drop_last() =~= results);
    assert(seq![r].drop_last() =~= Seq::<TestCaseResult<'a>>::empty());
    assert(seq![r].last() == r);
    assert(results.push(r).last() == r);
}

/// A summary built by appending results to the empty one succeeds exactly
/// when none of the results failed; every result is kept, passed or failed.
pub proof fn law_summary_success<'a>(results: Seq<TestCaseResult<'a>>)
    ensures
        after_appends(Seq::empty(), Seq::empty(), results).1.len() == 0 <==> forall|i: int|
            0 <= i < results.len() ==> #[trigger] results[i].result == TestResult::Passed,
        after_appends(Seq::empty(), Seq::empty(), results).0.len() + after_appends(
            Seq::empty(),
            Seq::empty(),
            results,
        ).1.len() == results.len(),
    decreases results.len(),
{
    if results.len() > 0 {
        let init = results.drop_last();
        law_summary_success(init);
        if forall|i: int| 0 <= i < results.len() ==> #[trigger] results[i].result == TestResult::Passed {
            assert forall|i: int| 0 <= i < init.len() implies #[trigger] init[i].result
                == TestResult::Passed by {
                assert(init[i] == results[i]);
            }
            assert(results[results.len() - 1].result == TestResult::Passed);
        } else if after_appends(Seq::empty(), Seq::empty(), init).1.len() == 0 {
            assert forall|i: int| 0 <= i < init.len() implies #[trigger] init[i].result
                == TestResult::Passed by {}
            if results.last().result == TestResult::Passed {
                assert forall|i: int| 0 <= i < results.len() implies #[trigger] results[i].result
                    == TestResult::Passed by {
                    if i < init.len() {
                        assert(init[i] == results[i]);
                    }
                }
            }
        }
    }
}

/// The messages gathered so far with `more` appended.
pub open spec fn gathered(so_far: Option<Seq<char>>, more: Seq<char>) -> Option<Seq<char>> {
    Some(
        match so_far {
            Some(m) => m,
            None => Seq::empty(),
        } + more,
    )
}

/// Gathers the error messages of the runs of one test case.
pub struct TestInner<'a> {
    desc: &'a TestDesc,
    error_message: Option<String>,
}

impl<'a> TestInner<'a> {
    /// The test case.
    pub closed spec fn desc_view(&self) -> &'a TestDesc {
        self.desc
    }

    /// The messages gathered so far.
    pub closed spec fn messages(&self) -> Option<Seq<char>> {
        opt_view(self.error_message)
    }

    /// Start gathering for the test case `desc`.
    pub fn new(desc: &'a TestDesc) -> (r: Self)
        ensures
            r.desc_view() == desc,
            r.messages() is None,
    {
        TestInner { desc, error_message: None }
    }

    /// Record how one run ended: `Ok(None)` when it succeeded, `Ok(Some(m))`
    /// when it returned a failure rendered as `m`, `Err(p)` when it panicked
    /// with the rendering `p`. Messages are appended to those gathered so far.
    pub fn collect_result(&mut self, result: Result<Option<String>, String>)
        ensures
            final(self).desc_view() == old(self).desc_view(),
            final(self).messages() == (match result {
                Ok(None) => old(self).messages(),
                Ok(Some(m)) => gathered(old(self).messages(), m@),
                Err(p) => gathered(old(self).messages(), p@),
            }),
    {
        let more = match result {
            Ok(None) => {
                return ;
            },
            Ok(Some(m)) => m,
            Err(p) => p,
        };
        let mut msg = match self.error_message.take() {
            Some(m) => m,
            None => String::new(),
        };
        push_all(&mut msg, more.as_str());
        self.error_message = Some(msg);
    }

    /// The result of the test case: failed with the gathered messages when
    /// there are any, passed otherwise. Nothing stays gathered.
    pub fn end(&mut self) -> (r: TestCaseResult<'a>)
        ensures
            r.desc == old(self).desc_view(),
            opt_view(r.error_message) == old(self).messages(),
            r.result == (if old(self).messages() is None {
                TestResult::Passed
            } else {
                TestResult::Failed
            }),
            final(self).messages() is None,
            final(self).desc_view() == old(self).desc_view(),
    {
        let error_message = self.error_message.take();
        let result = if error_message.is_none() {
            TestResult::Passed
        } else {
            TestResult::Failed
        };
        TestCaseResult { desc: self.desc, result, error_message }
    }
}

/// The messages gathered from runs that ended as `results` (in order).
pub open spec fn gather_all(results: Seq<Result<Option<Seq<char>>, Seq<char>>>) -> Option<Seq<char>>
    decreases results.len(),
{
    if results.len() == 0 {
        None
    } else {
        let so_far = gather_all(results.drop_last());
        match results.last() {
            Ok(None) => so_far,
            Ok(Some(m)) => gathered(so_far, m),
            Err(p) => gathered(so_far, p),
        }
    }
}

/// A test case whose sections each ran once passes (no message gathered)
/// exactly when every run succeeded.
pub proof fn law_passes_iff_every_run_succeeded(results: Seq<Result<Option<Seq<char>>, Seq<char>>>)
    ensures
        gather_all(results) is None <==> forall|i: int|
            0 <= i < results.len() ==> #[trigger] results[i] == Ok::<Option<Seq<char>>, Seq<char>>(None),
    decreases results.len(),
{
    if results.len() > 0 {
        let init = results.drop_last();
        law_passes_iff_every_run_succeeded(init);
        if gather_all(results) is None {
            assert forall|i: int| 0 <= i < results.len() implies #[trigger] results[i] == Ok::<
                Option<Seq<char>>,
                Seq<char>,
            >(None) by {
                if i < results.len() - 1 {
                    assert(init[i] == results[i]);
                }
            }
        } else {
            if forall|i: int|
                0 <= i < results.len() ==> #[trigger] results[i] == Ok::<Option<Seq<char>>, Seq<char>>(None) {
                assert(results[results.len() - 1] == Ok::<Option<Seq<char>>, Seq<char>>(None));
                assert forall|i: int| 0 <= i < init.len() implies #[trigger] init[i] == Ok::<
                    Option<Seq<char>>,
                    Seq<char>,
                >(None) by {
                    assert(init[i] == results[i]);
                }
            }
        }
    }
}

/// The text of how one run ended.
pub open spec fn run_view(r: Result<Option<String>, String>) -> Result<Option<Seq<char>>, Seq<char>> {
    match r {
        Ok(None) => Ok(None),
        Ok(Some(m)) => Ok(Some(m@)),
        Err(p) => Err(p@),
    }
}

/// `result` is how a run of `f` under `plan`, started in a fresh context,
/// may have ended.
pub open spec fn possible_section_run<'a, F: Fn(Context<'a>) -> (Context<'a>, Result<Option<String>, String>)>(
    f: F,
    plan: &'a TestPlan,
    result: Result<Option<Seq<char>>, Seq<char>>,
) -> bool {
    exists|out: (Context<'a>, Result<Option<String>, String>)|
        #[trigger] f.ensures((Context::fresh(plan),), out) && result == run_view(out.1)
}

/// Run a test function once per plan, every plan in order, each time in a
/// fresh context, and gather the messages of the runs that failed.
///
/// `f` takes the context of the run and gives it back with `Ok(None)` when
/// the body succeeded, `Ok(Some(m))` when it returned a failure rendered as
/// `m` and `Err(p)` when it panicked.
pub fn run_all_sections<'a, F>(desc: &'a TestDesc, plans: &'a Vec<TestPlan>, f: F) -> (r: TestCaseResult<'a>)
    where
        F: Fn(Context<'a>) -> (Context<'a>, Result<Option<String>, String>),
    requires
        forall|c: Context<'a>| #[trigger] f.requires((c,)),
    ensures
        r.desc == desc,
        exists|results: Seq<Result<Option<Seq<char>>, Seq<char>>>|
            {
                &&& results.len() == plans@.len()
                &&& forall|k: int|
                    0 <= k < results.len() ==> #[trigger] possible_section_run(
                        f,
                        &plans@[k],
                        results[k],
                    )
                &&& opt_view(r.error_message) == gather_all(results)
                &&& r.result == (if gather_all(results) is None {
                    TestResult::Passed
                } else {
                    TestResult::Failed
                })
            },
{
    let mut inner = TestInner::new(desc);
    let ghost mut results: Seq<Result<Option<Seq<char>>, Seq<char>>> = Seq::empty();
    let mut i: usize = 0;
    while i < plans.len()
        invariant
            i <= plans@.len(),
            results.len() == i,
            inner.desc_view() == desc,
            inner.messages() == gather_all(results),
            forall|c: Context<'a>| #[trigger] f.requires((c,)),
            forall|k: int|
                0 <= k < results.len() ==> #[trigger] possible_section_run(f, &plans@[k], results[k]),
        decreases plans@.len() - i,
    {
        let ctx = Context::new(&plans[i]);
        let out = f(ctx);
        let ghost rv = run_view(out.1);
        proof {
            assert(f.ensures((Context::fresh(&plans@[i as int]),), out));
            assert(possible_section_run(f, &plans@[i as int], rv));
        }
        let (_ctx, result) = out;
        inner.collect_result(result);
        proof {
            let next = results.push(rv);
            assert(next.drop_last() =~= results);
            assert forall|k: int| 0 <= k < next.len() implies #[trigger] possible_section_run(
                f,
                &plans@[k],
                next[k],
            ) by {
                if k < results.len() {
                    assert(next[k] == results[k]);
                }
            }
            results = next;
        }
        i = i + 1;
    }
    inner.end()
}

} // verus!
