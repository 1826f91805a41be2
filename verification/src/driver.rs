//! The decisions of the console test driver: which tests are ignored, how
//! wide the name column is, and how outcomes are collected into a report.

use crate::outcome::{Outcome, OutcomeKind};
use crate::report::{opt_view, Report};
use crate::cli::{Args, ExitStatus};
use crate::context::Context;
use crate::test::TestPlan;
use crate::session::{all_well_named, filtered_by, find_conflict, first_conflict, names_of};
use crate::test::TestDesc;
use crate::text::{push_all, push_char, string_of};
use vstd::string::*;
use vstd::prelude::*;
use vstd::utf8::encode_utf8;

verus! {

/// Whether a test is ignored: it is marked ignored and ignored tests are not
/// requested, or tests are not to be run at all.
pub open spec fn ignored_spec(desc_ignored: bool, run_ignored: bool, run_tests: bool) -> bool {
    (desc_ignored && !run_ignored) || !run_tests
}

/// Which tests run: none when tests are not to be run; otherwise every test
/// not marked ignored, and a test marked ignored only when ignored tests are
/// requested.
pub proof fn law_ignored_tests(desc_ignored: bool, run_ignored: bool, run_tests: bool)
    ensures
        !run_tests ==> ignored_spec(desc_ignored, run_ignored, run_tests),
        run_tests && !desc_ignored ==> !ignored_spec(desc_ignored, run_ignored, run_tests),
        run_tests && desc_ignored ==> (ignored_spec(desc_ignored, run_ignored, run_tests) <==> !run_ignored),
{
}

/// Whether a test is ignored in this run.
pub fn is_ignored(desc_ignored: bool, run_ignored: bool, run_tests: bool) -> (r: bool)
    ensures
        r == ignored_spec(desc_ignored, run_ignored, run_tests),
{
    (desc_ignored && !run_ignored) || !run_tests
}

/// The length in bytes of a name, as `str::len` gives it.
pub open spec fn byte_len(name: Seq<char>) -> nat {
    (encode_utf8(name).len() as usize) as nat
}

/// The byte length of the longest name in `names` (0 for none).
pub open spec fn max_len(names: Seq<Seq<char>>) -> nat
    decreases names.len(),
{
    if names.len() == 0 {
        0
    } else {
        let rest = max_len(names.drop_last());
        if byte_len(names.last()) > rest {
            byte_len(names.last())
        } else {
            rest
        }
    }
}

/// The width of the name column: the length in bytes of the longest test name.
pub fn max_name_length(tests: &Vec<&TestDesc>) -> (r: usize)
    requires
        all_well_named(tests@),
    ensures
        r == max_len(names_of(tests@)),
{
    let ghost names = names_of(tests@);
    let mut m: usize = 0;
    let mut i: usize = 0;
    while i < tests.len()
        invariant
            i <= tests@.len(),
            names == names_of(tests@),
            all_well_named(tests@),
            m == max_len(names.take(i as int)),
        decreases tests@.len() - i,
    {
        let len = tests[i].name().len();
        assert(names.take(i + 1).drop_last() =~= names.take(i as int));
        if len > m {
            m = len;
        }
        i = i + 1;
    }
    assert(names.take(tests@.len() as int) =~= names);
    m
}

/// A result entry whose outcome has the given kind.
pub open spec fn entry_passed<'a>(e: (&'a TestDesc, Option<Outcome>)) -> bool {
    e.1 is Some && e.1->0.kind_view() is Passed
}

/// A result entry of a failed test.
pub open spec fn entry_failed<'a>(e: (&'a TestDesc, Option<Outcome>)) -> bool {
    e.1 is Some && e.1->0.kind_view() is Failed
}

/// A result entry of a benchmark.
pub open spec fn entry_measured<'a>(e: (&'a TestDesc, Option<Outcome>)) -> bool {
    e.1 is Some && e.1->0.kind_view() is Measured
}

/// A result entry of an ignored test.
pub open spec fn entry_ignored<'a>(e: (&'a TestDesc, Option<Outcome>)) -> bool {
    e.1 is None
}

/// The failed test and its message, as recorded in a report.
pub open spec fn failed_entry<'a>(e: (&'a TestDesc, Option<Outcome>)) -> (&'a TestDesc, Option<Seq<char>>) {
    (e.0, e.1->0.message())
}

/// The benchmark and its figures, as recorded in a report.
pub open spec fn measured_entry<'a>(e: (&'a TestDesc, Option<Outcome>)) -> (&'a TestDesc, (u64, u64)) {
    match e.1->0.kind_view() {
        OutcomeKind::Measured { average, variance } => (e.0, (average, variance)),
        _ => (e.0, (0, 0)),
    }
}

/// The test of a result entry.
pub open spec fn entry_desc<'a>(e: (&'a TestDesc, Option<Outcome>)) -> &'a TestDesc {
    e.0
}

/// `r` reports the results of a run (in order): passed, failed (with their
/// messages), benchmarks and ignored tests each keep the order of `results`,
/// and every result lands in exactly one of them.
pub open spec fn reports<'a>(r: Report<'a>, results: Seq<(&'a TestDesc, Option<Outcome>)>) -> bool {
    &&& r.passed@.len() + r.failed@.len() + r.measured@.len() + r.ignored@.len() == results.len()
    &&& r.passed@ == results.filter(|e: (&'a TestDesc, Option<Outcome>)| entry_passed(e)).map_values(
        |e: (&'a TestDesc, Option<Outcome>)| entry_desc(e),
    )
    &&& r.failed@.map_values(|f: (&'a TestDesc, Option<String>)| (f.0, opt_view(f.1))) == results.filter(
        |e: (&'a TestDesc, Option<Outcome>)| entry_failed(e),
    ).map_values(|e: (&'a TestDesc, Option<Outcome>)| failed_entry(e))
    &&& r.measured@ == results.filter(|e: (&'a TestDesc, Option<Outcome>)| entry_measured(e)).map_values(
        |e: (&'a TestDesc, Option<Outcome>)| measured_entry(e),
    )
    &&& r.ignored@ == results.filter(|e: (&'a TestDesc, Option<Outcome>)| entry_ignored(e)).map_values(
        |e: (&'a TestDesc, Option<Outcome>)| entry_desc(e),
    )
}

/// The report of a run, from each test that ran with its outcome (`None`:
/// ignored) and the tests filtered out: passed, failed (with their messages),
/// benchmarks and ignored tests each keep the order of `results`.
pub fn build_report<'a>(results: &Vec<(&'a TestDesc, Option<Outcome>)>, filtered_out: Vec<&'a TestDesc>) -> (r:
    Report<'a>)
    ensures
        r.filtered_out@ == filtered_out@,
        reports(r, results@),
{
    let ghost input = results@;
    let ghost fp = |e: (&'a TestDesc, Option<Outcome>)| entry_passed(e);
    let ghost ff = |e: (&'a TestDesc, Option<Outcome>)| entry_failed(e);
    let ghost fm = |e: (&'a TestDesc, Option<Outcome>)| entry_measured(e);
    let ghost fi = |e: (&'a TestDesc, Option<Outcome>)| entry_ignored(e);
    let ghost gd = |e: (&'a TestDesc, Option<Outcome>)| entry_desc(e);
    let ghost gf = |e: (&'a TestDesc, Option<Outcome>)| failed_entry(e);
    let ghost gm = |e: (&'a TestDesc, Option<Outcome>)| measured_entry(e);
    let ghost vf = |f: (&'a TestDesc, Option<String>)| (f.0, opt_view(f.1));
    let mut passed: Vec<&'a TestDesc> = Vec::new();
    let mut failed: Vec<(&'a TestDesc, Option<String>)> = Vec::new();
    let mut measured: Vec<(&'a TestDesc, (u64, u64))> = Vec::new();
    let mut ignored: Vec<&'a TestDesc> = Vec::new();
    let mut i: usize = 0;
    assert(input.take(0) =~= Seq::<(&'a TestDesc, Option<Outcome>)>::empty());
    while i < results.len()
        invariant
            i <= input.len(),
            input == results@,
            fp == (|e: (&'a TestDesc, Option<Outcome>)| entry_passed(e)),
            ff == (|e: (&'a TestDesc, Option<Outcome>)| entry_failed(e)),
            fm == (|e: (&'a TestDesc, Option<Outcome>)| entry_measured(e)),
            fi == (|e: (&'a TestDesc, Option<Outcome>)| entry_ignored(e)),
            gd == (|e: (&'a TestDesc, Option<Outcome>)| entry_desc(e)),
            gf == (|e: (&'a TestDesc, Option<Outcome>)| failed_entry(e)),
            gm == (|e: (&'a TestDesc, Option<Outcome>)| measured_entry(e)),
            vf == (|f: (&'a TestDesc, Option<String>)| (f.0, opt_view(f.1))),
            passed@ == input.take(i as int).filter(fp).map_values(gd),
            failed@.map_values(vf) == input.take(i as int).filter(ff).map_values(gf),
            measured@ == input.take(i as int).filter(fm).map_values(gm),
            ignored@ == input.take(i as int).filter(fi).map_values(gd),
            passed@.len() + failed@.len() + measured@.len() + ignored@.len() == i,
        decreases input.len() - i,
    {
        let entry = &results[i];
        let ghost e = input[i as int];
        let ghost pre = input.take(i as int);
        assert(input.take(i + 1) == pre.push(e));
        proof {
            pre.lemma_filter_push(e, fp);
            pre.lemma_filter_push(e, ff);
            pre.lemma_filter_push(e, fm);
            pre.lemma_filter_push(e, fi);
        }
        let ghost old_failed = failed@;
        match &entry.1 {
            Some(outcome) => match outcome.kind() {
                OutcomeKind::Passed => {
                    passed.push(entry.0);
                    assert(passed@ =~= pre.filter(fp).push(e).map_values(gd));
                },
                OutcomeKind::Failed => {
                    let msg = match outcome.err_msg() {
                        Some(m) => Some(string_of(m)),
                        None => None,
                    };
                    failed.push((entry.0, msg));
                    assert(failed@.map_values(vf) =~= old_failed.map_values(vf).push(vf(failed@.last())));
                    assert(failed@.map_values(vf) =~= pre.filter(ff).push(e).map_values(gf));
                },
                OutcomeKind::Measured { average, variance } => {
                    measured.push((entry.0, (*average, *variance)));
                    assert(measured@ =~= pre.filter(fm).push(e).map_values(gm));
                },
            },
            None => {
                ignored.push(entry.0);
                assert(ignored@ =~= pre.filter(fi).push(e).map_values(gd));
            },
        }
        i = i + 1;
    }
    assert(input.take(input.len() as int) =~= input);
    Report { passed, failed, measured, ignored, filtered_out }
}

/// The message of the console driver for a test name registered twice.
pub open spec fn driver_conflict_message(name: Seq<char>) -> Seq<char> {
    "the test name is conflicted: "@ + name
}

/// Check that the test names are unique; otherwise the message naming the
/// first test whose name was already taken.
pub fn check_unique_names<'a>(tests: &Vec<&'a TestDesc>) -> (r: Result<(), String>)
    requires
        all_well_named(tests@),
    ensures
        r is Ok <==> first_conflict(names_of(tests@)) == -1,
        r is Err ==> r->Err_0@ == driver_conflict_message(
            names_of(tests@)[first_conflict(names_of(tests@))],
        ),
{
    match find_conflict(tests) {
        Some(k) => {
            let mut msg = string_of("the test name is conflicted: ");
            push_all(&mut msg, tests[k].name());
            Err(msg)
        },
        None => Ok(()),
    }
}

/// The tests of a console run: those that run and those filtered out, each
/// in registration order.
pub struct PreparedTests<'a> {
    pub pending: Vec<&'a TestDesc>,
    pub filtered_out: Vec<&'a TestDesc>,
}

/// Prepare the tests of a console run: a name registered twice is an error,
/// reported for the first test whose name was already taken; otherwise the
/// tests are split into those that run and those that `args` filters out,
/// both keeping the registration order.
pub fn prepare_tests<'a>(args: &Args, tests: &Vec<&'a TestDesc>) -> (r: Result<PreparedTests<'a>, String>)
    requires
        all_well_named(tests@),
    ensures
        r is Err <==> first_conflict(names_of(tests@)) >= 0,
        r is Err ==> r->Err_0@ == driver_conflict_message(
            names_of(tests@)[first_conflict(names_of(tests@))],
        ),
        r is Ok ==> r->Ok_0.pending@ == tests@.filter(|t: &'a TestDesc| !filtered_by(args, t))
            && r->Ok_0.filtered_out@ == tests@.filter(|t: &'a TestDesc| filtered_by(args, t)),
{
    match find_conflict(tests) {
        Some(k) => {
            let mut msg = string_of("the test name is conflicted: ");
            push_all(&mut msg, tests[k].name());
            return Err(msg);
        },
        None => {},
    }
    let ghost keep = |t: &'a TestDesc| !filtered_by(args, t);
    let ghost drop = |t: &'a TestDesc| filtered_by(args, t);
    let mut pending: Vec<&'a TestDesc> = Vec::new();
    let mut filtered_out: Vec<&'a TestDesc> = Vec::new();
    let mut i: usize = 0;
    assert(tests@.take(0) =~= Seq::<&'a TestDesc>::empty());
    while i < tests.len()
        invariant
            i <= tests@.len(),
            keep == (|t: &'a TestDesc| !filtered_by(args, t)),
            drop == (|t: &'a TestDesc| filtered_by(args, t)),
            all_well_named(tests@),
            pending@ == tests@.take(i as int).filter(keep),
            filtered_out@ == tests@.take(i as int).filter(drop),
        decreases tests@.len() - i,
    {
        let t = tests[i];
        assert(tests@.take(i + 1) == tests@.take(i as int).push(t));
        proof {
            tests@.take(i as int).lemma_filter_push(t, drop);
            tests@.take(i as int).lemma_filter_push(t, keep);
        }
        if args.is_filtered_out(t.name()) {
            filtered_out.push(t);
        } else {
            pending.push(t);
        }
        i = i + 1;
    }
    assert(tests@.take(tests@.len() as int) =~= tests@);
    Ok(PreparedTests { pending, filtered_out })
}

/// What a run of a test body gave: `Ok(())` when it returned, `Err(p)` when
/// it panicked with the rendering `p`.
pub open spec fn body_view(r: Result<(), String>) -> Result<(), Seq<char>> {
    match r {
        Ok(()) => Ok(()),
        Err(p) => Err(p@),
    }
}

/// `result` is how a run of `f` under `plan`, started in a fresh context,
/// may have ended.
pub open spec fn possible_body_run<'a, F: Fn(Context<'a>) -> (Context<'a>, Result<(), String>)>(
    f: F,
    plan: &'a TestPlan,
    result: Result<(), Seq<char>>,
) -> bool {
    exists|out: (Context<'a>, Result<(), String>)|
        #[trigger] f.ensures((Context::fresh(plan),), out) && result == body_view(out.1)
}

/// The runs of a test body ended as `results`: each returned but the last,
/// which panicked when not every plan ran.
pub open spec fn body_runs(results: Seq<Result<(), Seq<char>>>, num_plans: nat) -> bool {
    &&& results.len() <= num_plans
    &&& forall|i: int| 0 <= i < results.len() - 1 ==> #[trigger] results[i] is Ok
    &&& results.len() < num_plans ==> results.len() > 0 && results.last() is Err
}

/// The panic that ended the runs, if any.
pub open spec fn body_result(results: Seq<Result<(), Seq<char>>>) -> Result<(), Seq<char>> {
    if results.len() > 0 && results.last() is Err {
        results.last()
    } else {
        Ok(())
    }
}

/// Run a test body once per plan, in order, each time in a fresh context,
/// until a run panics; the result is that panic, or `Ok(())` when every run
/// returned.
///
/// `f` takes the context of the run and gives it back with `Ok(())` when the
/// body returned and `Err(p)` when it panicked.
pub fn run_sections<'a, F>(plans: &'a Vec<TestPlan>, f: F) -> (r: Result<(), String>)
    where
        F: Fn(Context<'a>) -> (Context<'a>, Result<(), String>),
    requires
        forall|c: Context<'a>| #[trigger] f.requires((c,)),
    ensures
        exists|results: Seq<Result<(), Seq<char>>>|
            {
                &&& body_runs(results, plans@.len())
                &&& body_view(r) == body_result(results)
                &&& forall|k: int|
                    0 <= k < results.len() ==> #[trigger] possible_body_run(f, &plans@[k], results[k])
            },
{
    let ghost mut results: Seq<Result<(), Seq<char>>> = Seq::empty();
    let mut i: usize = 0;
    while i < plans.len()
        invariant
            i <= plans@.len(),
            results.len() == i,
            forall|c: Context<'a>| #[trigger] f.requires((c,)),
            forall|k: int| 0 <= k < results.len() ==> #[trigger] results[k] is Ok,
            forall|k: int|
                0 <= k < results.len() ==> #[trigger] possible_body_run(f, &plans@[k], results[k]),
        decreases plans@.len() - i,
    {
        let ctx = Context::new(&plans[i]);
        let out = f(ctx);
        let ghost rv = body_view(out.1);
        proof {
            assert(f.ensures((Context::fresh(&plans@[i as int]),), out));
            assert(possible_body_run(f, &plans@[i as int], rv));
        }
        let (_ctx, result) = out;
        let ghost next = results.push(rv);
        assert forall|k: int| 0 <= k < next.len() implies #[trigger] possible_body_run(
            f,
            &plans@[k],
            next[k],
        ) by {
            if k < results.len() {
                assert(next[k] == results[k]);
            }
        }
        match result {
            Err(p) => {
                proof {
                    assert(forall|k: int| 0 <= k < next.len() - 1 ==> next[k] == results[k]);
                    assert(body_runs(next, plans@.len()));
                    assert(body_view(Err(p)) == body_result(next));
                }
                return Err(p);
            },
            Ok(()) => {},
        }
        proof {
            results = next;
        }
        i = i + 1;
    }
    proof {
        if results.len() > 0 {
            assert(results[results.len() - 1] is Ok);
        }
        assert(body_runs(results, plans@.len()));
        assert(body_view(Ok(())) == body_result(results));
    }
    Ok(())
}

/// The error message of a test run by the console driver (`None`: it
/// passed): the panic and the unmet expectations, each ending a line, or the
/// unmet expectations alone when the test returned.
pub open spec fn driver_message(result: Result<(), Seq<char>>, disappoints: Option<Seq<char>>) -> Option<
    Seq<char>,
> {
    match result {
        Ok(()) => disappoints,
        Err(p) => Some(
            p + seq!['\n'] + match disappoints {
                Some(d) => d + seq!['\n'],
                None => Seq::empty(),
            },
        ),
    }
}

/// The outcome of a test run by the console driver: failed with the message
/// when there is one, passed otherwise. `result` is the panic that ended the
/// runs, if any; `disappoints` renders the unmet expectations.
pub fn make_driver_outcome(result: Result<(), String>, disappoints: Option<String>) -> (r: Outcome)
    ensures
        match driver_message(
            body_view(result),
            match disappoints {
                Some(d) => Some(d@),
                None => None,
            },
        ) {
            Some(m) => r.kind_view() == OutcomeKind::Failed && r.message() == Some(m),
            None => r.kind_view() == OutcomeKind::Passed && r.message() is None,
        },
{
    match result {
        Ok(()) => match disappoints {
            None => Outcome::passed(),
            Some(d) => Outcome::failed().error_message(d),
        },
        Err(p) => {
            let mut msg = p;
            push_char(&mut msg, '\n');
            match disappoints {
                Some(d) => {
                    push_all(&mut msg, d.as_str());
                    push_char(&mut msg, '\n');
                },
                None => {},
            }
            Outcome::failed().error_message(msg)
        },
    }
}

/// The settings of a console run that decide which tests run: whether tests
/// run at all, and whether tests marked ignored run.
#[derive(Clone, Copy)]
pub struct RunSettings {
    pub run_ignored: bool,
    pub run_tests: bool,
}

/// Whether the test is ignored in a run with these settings.
pub open spec fn ignored_in<'a>(settings: RunSettings, d: &'a TestDesc) -> bool {
    ignored_spec(d.ignored, settings.run_ignored, settings.run_tests)
}

/// `results` is how the pending tests of a run went: one entry per pending
/// test, in order; an ignored test has no outcome and never ran, any other
/// has an outcome that its run may give.
pub open spec fn pending_results<'a, F: Fn(&'a TestDesc) -> Outcome>(
    pending: Seq<&'a TestDesc>,
    settings: RunSettings,
    run: F,
    results: Seq<(&'a TestDesc, Option<Outcome>)>,
) -> bool {
    &&& results.len() == pending.len()
    &&& forall|i: int|
        #![trigger results[i]]
        0 <= i < results.len() ==> {
            &&& results[i].0 == pending[i]
            &&& (results[i].1 is None <==> ignored_in(settings, pending[i]))
            &&& results[i].1 is Some ==> run.ensures((pending[i],), results[i].1->0)
        }
}

/// The ignored tests of a report built from such results are exactly the
/// pending tests that the settings ignore, in order.
proof fn lemma_ignored_bucket<'a>(
    pending: Seq<&'a TestDesc>,
    settings: RunSettings,
    results: Seq<(&'a TestDesc, Option<Outcome>)>,
)
    requires
        results.len() == pending.len(),
        forall|i: int|
            #![trigger results[i]]
            0 <= i < results.len() ==> results[i].0 == pending[i] && (results[i].1 is None
                <==> ignored_in(settings, pending[i])),
    ensures
        results.filter(|e: (&'a TestDesc, Option<Outcome>)| entry_ignored(e)).map_values(
            |e: (&'a TestDesc, Option<Outcome>)| entry_desc(e),
        ) == pending.filter(|d: &'a TestDesc| ignored_in(settings, d)),
    decreases results.len(),
{
    let fi = |e: (&'a TestDesc, Option<Outcome>)| entry_ignored(e);
    let gd = |e: (&'a TestDesc, Option<Outcome>)| entry_desc(e);
    let fp = |d: &'a TestDesc| ignored_in(settings, d);
    if results.len() == 0 {
        assert(results.filter(fi) =~= Seq::<(&'a TestDesc, Option<Outcome>)>::empty());
        assert(pending.filter(fp) =~= Seq::<&'a TestDesc>::empty());
    } else {
        let n = results.len() - 1;
        let rs = results.drop_last();
        let ps = pending.drop_last();
        assert forall|i: int| #![trigger rs[i]] 0 <= i < rs.len() implies rs[i].0 == ps[i] && (
        rs[i].1 is None <==> ignored_in(settings, ps[i])) by {
            assert(rs[i] == results[i]);
            assert(ps[i] == pending[i]);
        }
        lemma_ignored_bucket(ps, settings, rs);
        assert(results == rs.push(results[n]));
        assert(pending == ps.push(pending[n]));
        rs.lemma_filter_push(results[n], fi);
        ps.lemma_filter_push(pending[n], fp);
        assert(results[n].0 == pending[n]);
        if results[n].1 is None {
            assert(results.filter(fi).map_values(gd) =~= rs.filter(fi).map_values(gd).push(
                pending[n],
            ));
        } else {
            assert(results.filter(fi).map_values(gd) =~= rs.filter(fi).map_values(gd));
        }
    }
}

/// Run the pending tests of a console run in order, and report them: a test
/// that the settings ignore does not run (`skip` is told of it), any other
/// runs through `run`. The report holds the pending tests, each in exactly
/// one list by how it went, the ignored ones being exactly those that the
/// settings ignore; the filtered-out tests are reported as given.
pub fn run_pending<'a, F, G>(
    pending: &Vec<&'a TestDesc>,
    filtered_out: Vec<&'a TestDesc>,
    settings: RunSettings,
    run: F,
    skip: G,
) -> (r: Report<'a>)
    where
        F: Fn(&'a TestDesc) -> Outcome,
        G: Fn(&'a TestDesc),
    requires
        forall|d: &'a TestDesc| #[trigger] run.requires((d,)),
        forall|d: &'a TestDesc| #[trigger] skip.requires((d,)),
    ensures
        r.filtered_out@ == filtered_out@,
        exists|results: Seq<(&'a TestDesc, Option<Outcome>)>|
            pending_results(pending@, settings, run, results) && #[trigger] reports(r, results),
        r.ignored@ == pending@.filter(|d: &'a TestDesc| ignored_in(settings, d)),
        r.passed@.len() + r.failed@.len() + r.measured@.len() + r.ignored@.len() == pending@.len(),
{
    let mut results: Vec<(&'a TestDesc, Option<Outcome>)> = Vec::new();
    let mut i: usize = 0;
    while i < pending.len()
        invariant
            i <= pending@.len(),
            results@.len() == i,
            forall|d: &'a TestDesc| #[trigger] run.requires((d,)),
            forall|d: &'a TestDesc| #[trigger] skip.requires((d,)),
            forall|k: int|
                #![trigger results@[k]]
                0 <= k < i ==> {
                    &&& results@[k].0 == pending@[k]
                    &&& (results@[k].1 is None <==> ignored_in(settings, pending@[k]))
                    &&& results@[k].1 is Some ==> run.ensures((pending@[k],), results@[k].1->0)
                },
        decreases pending@.len() - i,
    {
        let d = pending[i];
        if is_ignored(d.ignored, settings.run_ignored, settings.run_tests) {
            skip(d);
            results.push((d, None));
        } else {
            let o = run(d);
            results.push((d, Some(o)));
        }
        i = i + 1;
    }
    let ghost rs = results@;
    let r = build_report(&results, filtered_out);
    proof {
        lemma_ignored_bucket(pending@, settings, rs);
        assert(pending_results(pending@, settings, run, rs));
    }
    r
}

/// The exit status that ends a console run before any test runs: failure
/// when a name is registered twice, success when the tests are only listed;
/// `None` when the tests run.
pub fn early_status<'a>(prepared: &Result<PreparedTests<'a>, String>, list: bool) -> (r: Option<ExitStatus>)
    ensures
        match prepared {
            Err(_) => r matches Some(s) && s.0 == 101,
            Ok(_) => if list {
                r matches Some(s) && s.0 == 0
            } else {
                r is None
            },
        },
{
    match prepared {
        Err(_) => Some(ExitStatus::failed()),
        Ok(_) => if list {
            Some(ExitStatus::ok())
        } else {
            None
        },
    }
}

} // verus!
