//! Planning a test run: test names must be unique, filtered tests are set
//! aside, and the remaining tests run in the order of their names.

use crate::cli::{Args, ExitStatus};
use crate::reporter::Summary;
use crate::test::TestDesc;
use crate::text::{
    lemma_lex_lt_total,
    lemma_lex_lt_transitive,
    decimal,
    decimal_string,
    lex_lt,
    plural_suffix,
    push_all,
    str_equal,
    str_lt,
    string_of,
};
use vstd::prelude::*;
use vstd::string::*;

verus! {

broadcast use vstd::seq_lib::group_to_multiset_ensures;

/// The names of the tests, in order.
pub open spec fn names_of<'a>(tests: Seq<&'a TestDesc>) -> Seq<Seq<char>> {
    tests.map_values(|t: &'a TestDesc| t.name_view())
}

/// Every test has a name of the `crate::path` form.
pub open spec fn all_well_named<'a>(tests: Seq<&'a TestDesc>) -> bool {
    forall|i: int| 0 <= i < tests.len() ==> #[trigger] tests[i].well_named()
}

/// The first position at or after `k` whose name occurs earlier, or -1.
pub open spec fn conflict_from(names: Seq<Seq<char>>, k: int) -> int
    decreases names.len() - k,
{
    if k < 0 || k >= names.len() {
        -1
    } else if names.take(k).contains(names[k]) {
        k
    } else {
        conflict_from(names, k + 1)
    }
}

/// The first position whose name occurs earlier in `names`, or -1 when the
/// names are unique.
pub open spec fn first_conflict(names: Seq<Seq<char>>) -> int {
    conflict_from(names, 0)
}

/// The error reported for a test name registered twice.
pub open spec fn conflict_message(name: Seq<char>) -> Seq<char> {
    "the test name '"@ + name + "' is conflicted"@
}

/// The names of the tests are in strictly increasing order.
pub open spec fn sorted_by_name<'a>(s: Seq<&'a TestDesc>) -> bool {
    forall|i: int, j: int|
        0 <= i < j < s.len() ==> lex_lt(#[trigger] s[i].name_view(), #[trigger] s[j].name_view())
}

/// No name occurs twice.
pub open spec fn distinct_names(names: Seq<Seq<char>>) -> bool {
    forall|i: int, j: int| 0 <= i < j < names.len() ==> #[trigger] names[i] != #[trigger] names[j]
}

/// Past `k`, a search that finds no conflict means no name from `k` on
/// occurs before its position.
proof fn lemma_conflict_from(names: Seq<Seq<char>>, k: int)
    requires
        0 <= k,
        conflict_from(names, k) == -1,
    ensures
        forall|j: int| k <= j < names.len() ==> !#[trigger] names.take(j).contains(names[j]),
    decreases names.len() - k,
{
    if k < names.len() {
        lemma_conflict_from(names, k + 1);
    }
}

/// A search from `k` finds nothing, or a position at or after `k` whose name
/// occurs before it.
proof fn lemma_conflict_found(names: Seq<Seq<char>>, k: int)
    requires
        0 <= k,
    ensures
        conflict_from(names, k) == -1 || (k <= conflict_from(names, k) < names.len() && names.take(
            conflict_from(names, k),
        ).contains(names[conflict_from(names, k)])),
    decreases names.len() - k,
{
    if k < names.len() && !names.take(k).contains(names[k]) {
        lemma_conflict_found(names, k + 1);
    }
}

/// A name registered twice is a conflict and nothing else is: the names have
/// a conflict exactly when two of them are equal, and the conflict reported
/// is a name equal to an earlier one, the first such in order.
pub proof fn law_conflict_iff_repeated_name(names: Seq<Seq<char>>)
    ensures
        first_conflict(names) == -1 <==> distinct_names(names),
        first_conflict(names) >= 0 ==> {
            let k = first_conflict(names);
            &&& k < names.len()
            &&& exists|i: int| 0 <= i < k && names[i] == names[k]
            &&& forall|j: int, i: int| 0 <= i < j < k ==> names[i] != names[j]
        },
{
    lemma_conflict_found(names, 0);
    if first_conflict(names) == -1 {
        lemma_no_conflict_distinct(names);
    } else {
        let k = first_conflict(names);
        let i = choose|i: int| 0 <= i < k && names.take(k)[i] == names[k];
        assert(names[i] == names[k]);
        assert(!distinct_names(names));
        lemma_conflict_prefix(names, k);
    }
}

/// Before the first conflict every name is new.
proof fn lemma_conflict_prefix(names: Seq<Seq<char>>, k: int)
    requires
        0 <= k <= names.len(),
        first_conflict(names) == k,
    ensures
        forall|j: int, i: int| 0 <= i < j < k ==> names[i] != names[j],
{
    lemma_conflict_walk(names, 0, k);
    assert forall|j: int, i: int| 0 <= i < j < k implies names[i] != names[j] by {
        assert(!names.take(j).contains(names[j]));
        if names[i] == names[j] {
            assert(names.take(j)[i] == names[j]);
        }
    }
}

/// Searching from `m` up to the conflict `k` passes only new names.
proof fn lemma_conflict_walk(names: Seq<Seq<char>>, m: int, k: int)
    requires
        0 <= m <= k <= names.len(),
        conflict_from(names, m) == k,
    ensures
        forall|j: int| m <= j < k ==> !#[trigger] names.take(j).contains(names[j]),
    decreases k - m,
{
    if m < k {
        assert(!names.take(m).contains(names[m]));
        lemma_conflict_walk(names, m + 1, k);
    }
}

/// Names without a conflict are distinct.
pub proof fn lemma_no_conflict_distinct(names: Seq<Seq<char>>)
    requires
        first_conflict(names) == -1,
    ensures
        distinct_names(names),
{
    lemma_conflict_from(names, 0);
    assert forall|i: int, j: int| 0 <= i < j < names.len() implies #[trigger] names[i]
        != #[trigger] names[j] by {
        assert(names.take(j)[i] == names[i]);
        if names[i] == names[j] {
            assert(names.take(j).contains(names[j]));
        }
    }
}

/// Whether `args` filters the test out of the run.
pub open spec fn filtered_by<'a>(args: &Args, t: &'a TestDesc) -> bool {
    args.filters_out(t.name_view())
}

/// The tests of a run, split into those that run (sorted by name) and those
/// filtered out (in registration order).
pub struct RunPlan<'a> {
    pub registered: Vec<&'a TestDesc>,
    pub filtered_out: Vec<&'a TestDesc>,
}

/// The position of the first test whose name was already registered.
pub fn find_conflict<'a>(tests: &Vec<&'a TestDesc>) -> (r: Option<usize>)
    requires
        all_well_named(tests@),
    ensures
        match r {
            Some(k) => k < tests@.len() && k as int == first_conflict(names_of(tests@)),
            None => first_conflict(names_of(tests@)) == -1,
        },
{
    let ghost names = names_of(tests@);
    let mut k: usize = 0;
    while k < tests.len()
        invariant
            k <= tests@.len(),
            names == names_of(tests@),
            all_well_named(tests@),
            first_conflict(names) == conflict_from(names, k as int),
        decreases tests@.len() - k,
    {
        let name = tests[k].name();
        let mut j: usize = 0;
        while j < k
            invariant
                j <= k < tests@.len(),
                names == names_of(tests@),
                all_well_named(tests@),
                name@ == names[k as int],
                first_conflict(names) == conflict_from(names, k as int),
                forall|i: int| 0 <= i < j ==> names[i] != names[k as int],
            decreases k - j,
        {
            if str_equal(tests[j].name(), name) {
                assert(names.take(k as int)[j as int] == names[k as int]);
                assert(names.take(k as int).contains(names[k as int]));
                return Some(k);
            }
            j = j + 1;
        }
        assert(!names.take(k as int).contains(names[k as int])) by {
            if names.take(k as int).contains(names[k as int]) {
                let i = choose|i: int| 0 <= i < k && names.take(k as int)[i] == names[k as int];
                assert(names[i] == names[k as int]);
            }
        }
        k = k + 1;
    }
    None
}

/// Insert `x`, whose name no test of `v` has, into `v` at the place of its
/// name.
fn insert_by_name<'a>(v: &mut Vec<&'a TestDesc>, x: &'a TestDesc)
    requires
        sorted_by_name(old(v)@),
        all_well_named(old(v)@),
        x.well_named(),
        forall|k: int| 0 <= k < old(v)@.len() ==> #[trigger] old(v)@[k].name_view() != x.name_view(),
    ensures
        sorted_by_name(final(v)@),
        all_well_named(final(v)@),
        final(v)@.to_multiset() == old(v)@.to_multiset().insert(x),
        forall|k: int|
            0 <= k < final(v)@.len() ==> #[trigger] final(v)@[k] == x || old(v)@.contains(final(v)@[k]),
{
    let ghost old_v = v@;
    let name = x.name();
    let mut p: usize = 0;
    loop
        invariant
            p <= v@.len(),
            v@ == old_v,
            all_well_named(v@),
            name@ == x.name_view(),
            forall|k: int| 0 <= k < p ==> !lex_lt(name@, #[trigger] v@[k].name_view()),
        ensures
            p <= v@.len(),
            v@ == old_v,
            forall|k: int| 0 <= k < p ==> !lex_lt(name@, #[trigger] v@[k].name_view()),
            p < v@.len() ==> lex_lt(name@, v@[p as int].name_view()),
        decreases v@.len() - p,
    {
        if p >= v.len() {
            break;
        }
        if str_lt(name, v[p].name()) {
            break;
        }
        p = p + 1;
    }
    v.insert(p, x);
    proof {
        let nv = v@;
        assert(nv == old_v.insert(p as int, x));
        assert forall|i: int, j: int| 0 <= i < j < nv.len() implies lex_lt(
            #[trigger] nv[i].name_view(),
            #[trigger] nv[j].name_view(),
        ) by {
            if j < p {
                assert(nv[i] == old_v[i] && nv[j] == old_v[j]);
            } else if j == p {
                assert(nv[i] == old_v[i]);
                lemma_lex_lt_total(old_v[i].name_view(), x.name_view());
            } else if i < p {
                assert(nv[i] == old_v[i] && nv[j] == old_v[j - 1]);
            } else if i == p {
                let y = old_v[j - 1];
                assert(nv[j] == y);
                if j - 1 > p {
                    lemma_lex_lt_transitive(
                        x.name_view(),
                        old_v[p as int].name_view(),
                        y.name_view(),
                    );
                }
            } else {
                assert(nv[i] == old_v[i - 1] && nv[j] == old_v[j - 1]);
            }
        }
        assert forall|i: int| 0 <= i < nv.len() implies #[trigger] nv[i].well_named() by {
            if i < p {
                assert(nv[i] == old_v[i]);
            } else if i > p {
                assert(nv[i] == old_v[i - 1]);
            }
        }
        assert forall|k: int| 0 <= k < nv.len() implies #[trigger] nv[k] == x || old_v.contains(
            nv[k],
        ) by {
            if k < p {
                assert(nv[k] == old_v[k]);
            } else if k > p {
                assert(nv[k] == old_v[k - 1]);
            }
        }
    }
}

/// Plan a run of `tests` under `args`. A name registered twice is an error,
/// reported for the first test whose name was already taken. Otherwise the
/// tests that `args` filters out are set aside in registration order, and
/// the others are sorted by name.
pub fn plan_tests<'a>(args: &Args, tests: &Vec<&'a TestDesc>) -> (r: Result<RunPlan<'a>, String>)
    requires
        all_well_named(tests@),
    ensures
        r is Err <==> first_conflict(names_of(tests@)) >= 0,
        r is Err ==> r->Err_0@ == conflict_message(
            names_of(tests@)[first_conflict(names_of(tests@))],
        ),
        r is Ok ==> {
            let plan = r->Ok_0;
            &&& plan.filtered_out@ == tests@.filter(|t: &'a TestDesc| filtered_by(args, t))
            &&& plan.registered@.to_multiset() == tests@.filter(
                |t: &'a TestDesc| !filtered_by(args, t),
            ).to_multiset()
            &&& sorted_by_name(plan.registered@)
            &&& plan.registered@.to_multiset().add(plan.filtered_out@.to_multiset())
                == tests@.to_multiset()
        },
{
    match find_conflict(tests) {
        Some(k) => {
            let mut msg = string_of("the test name '");
            push_all(&mut msg, tests[k].name());
            push_all(&mut msg, "' is conflicted");
            return Err(msg);
        },
        None => {},
    }
    proof {
        lemma_no_conflict_distinct(names_of(tests@));
    }
    let ghost names = names_of(tests@);
    let ghost keep = |t: &'a TestDesc| !filtered_by(args, t);
    let ghost drop = |t: &'a TestDesc| filtered_by(args, t);
    let mut registered: Vec<&'a TestDesc> = Vec::new();
    let mut filtered_out: Vec<&'a TestDesc> = Vec::new();
    let mut i: usize = 0;
    assert(tests@.take(0) =~= Seq::<&'a TestDesc>::empty());
    assert(registered@.to_multiset().add(filtered_out@.to_multiset()) =~= tests@.take(
        0,
    ).to_multiset());
    while i < tests.len()
        invariant
            i <= tests@.len(),
            keep == (|t: &'a TestDesc| !filtered_by(args, t)),
            drop == (|t: &'a TestDesc| filtered_by(args, t)),
            all_well_named(tests@),
            all_well_named(registered@),
            sorted_by_name(registered@),
            names == names_of(tests@),
            distinct_names(names),
            forall|k: int|
                0 <= k < registered@.len() ==> exists|m: int|
                    0 <= m < i && #[trigger] registered@[k] == tests@[m],
            filtered_out@ == tests@.take(i as int).filter(drop),
            registered@.to_multiset() == tests@.take(i as int).filter(keep).to_multiset(),
            registered@.to_multiset().add(filtered_out@.to_multiset()) == tests@.take(
                i as int,
            ).to_multiset(),
        decreases tests@.len() - i,
    {
        let t = tests[i];
        assert(tests@.take(i + 1) == tests@.take(i as int).push(t));
        proof {
            tests@.take(i as int).lemma_filter_push(t, drop);
            tests@.take(i as int).lemma_filter_push(t, keep);
        }
        let out = args.is_filtered_out(t.name());
        assert(out == filtered_by(args, t));
        if out {
            assert(drop(t) && !keep(t));
            filtered_out.push(t);
            assert forall|k: int| 0 <= k < registered@.len() implies exists|m: int|
                0 <= m < i + 1 && #[trigger] registered@[k] == tests@[m] by {
                let m = choose|m: int| 0 <= m < i && #[trigger] registered@[k] == tests@[m];
                assert(0 <= m < i + 1);
            }
        } else {
            assert(!drop(t) && keep(t));
            assert forall|k: int| 0 <= k < registered@.len() implies #[trigger] registered@[k].name_view()
                != t.name_view() by {
                let m = choose|m: int| 0 <= m < i && #[trigger] registered@[k] == tests@[m];
                assert(names[m] == registered@[k].name_view());
                assert(names[i as int] == t.name_view());
            }
            let ghost before = registered@;
            insert_by_name(&mut registered, t);
            assert forall|k: int| 0 <= k < registered@.len() implies exists|m: int|
                0 <= m < i + 1 && #[trigger] registered@[k] == tests@[m] by {
                if registered@[k] == t {
                    assert(tests@[i as int] == t);
                } else {
                    assert(before.contains(registered@[k]));
                    let q = choose|q: int| 0 <= q < before.len() && before[q] == registered@[k];
                    let m = choose|m: int| 0 <= m < i && #[trigger] before[q] == tests@[m];
                    assert(registered@[k] == tests@[m]);
                }
            }
        }
        assert(filtered_out@ == tests@.take(i + 1).filter(drop));
        assert(registered@.to_multiset() == tests@.take(i + 1).filter(keep).to_multiset());
        assert(registered@.to_multiset().add(filtered_out@.to_multiset()) =~= tests@.take(
            i + 1,
        ).to_multiset());
        i = i + 1;
    }
    assert(tests@.take(tests@.len() as int) =~= tests@);
    Ok(RunPlan { registered, filtered_out })
}

/// The lines listing the tests of a run: `name: test` for each, a blank line
/// when there is at least one, then the number of tests.
pub open spec fn list_lines_spec(names: Seq<Seq<char>>) -> Seq<Seq<char>> {
    names.map_values(|n: Seq<char>| n + ": test"@) + (if names.len() != 0 {
        seq![Seq::<char>::empty()]
    } else {
        Seq::empty()
    }) + seq![decimal(names.len()) + " test"@ + plural_suffix(names.len())]
}

/// The lines that list the tests of a run (printed one per line).
pub fn list_lines<'a>(tests: &Vec<&'a TestDesc>) -> (r: Vec<String>)
    requires
        all_well_named(tests@),
    ensures
        r@.map_values(|l: String| l@) == list_lines_spec(names_of(tests@)),
{
    let ghost names = names_of(tests@);
    let mut lines: Vec<String> = Vec::new();
    let mut num_tests: usize = 0;
    while num_tests < tests.len()
        invariant
            num_tests <= tests@.len(),
            names == names_of(tests@),
            all_well_named(tests@),
            lines@.map_values(|l: String| l@) == names.take(num_tests as int).map_values(
                |n: Seq<char>| n + ": test"@,
            ),
        decreases tests@.len() - num_tests,
    {
        let mut line = string_of(tests[num_tests].name());
        push_all(&mut line, ": test");
        let ghost before = lines@;
        lines.push(line);
        num_tests = num_tests + 1;
        assert(lines@.map_values(|l: String| l@) =~= before.map_values(|l: String| l@).push(
            names[num_tests - 1] + ": test"@,
        ));
        assert(names.take(num_tests as int).map_values(|n: Seq<char>| n + ": test"@)
            =~= names.take(num_tests - 1).map_values(|n: Seq<char>| n + ": test"@).push(
            names[num_tests - 1] + ": test"@,
        ));
    }
    assert(names.take(names.len() as int) =~= names);
    if num_tests != 0 {
        let ghost before = lines@;
        lines.push(String::new());
        assert(lines@.map_values(|l: String| l@) =~= before.map_values(|l: String| l@).push(
            Seq::<char>::empty(),
        ));
    }
    let mut last = decimal_string(num_tests as u64);
    push_all(&mut last, " test");
    if num_tests != 1 {
        push_all(&mut last, "s");
    }
    proof {
        reveal_strlit("s");
    }
    assert(num_tests == names.len());
    assert(last@ =~= decimal(names.len()) + " test"@ + plural_suffix(names.len()));
    let ghost before = lines@;
    lines.push(last);
    assert(lines@.map_values(|l: String| l@) =~= before.map_values(|l: String| l@).push(
        decimal(names.len()) + " test"@ + plural_suffix(names.len()),
    ));
    assert(lines@.map_values(|l: String| l@) =~= list_lines_spec(names));
    lines
}

/// The exit status of a finished run: success exactly when no test failed.
pub fn run_status<'a>(summary: &Summary<'a>) -> (r: ExitStatus)
    ensures
        r.0 == (if summary.failed@.len() == 0 {
            0i32
        } else {
            101i32
        }),
{
    if summary.is_passed() {
        ExitStatus::ok()
    } else {
        ExitStatus::failed()
    }
}

} // verus!
