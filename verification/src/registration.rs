//! Registration of test cases, and the registry that a test session keeps:
//! every name registered once, each test marked when the filters leave it out.

use crate::cli::Args;
use crate::session::conflict_message;
use crate::test::TestDesc;
use crate::text::{lemma_lex_lt_total, lemma_lex_lt_transitive, lex_lt, push_all, str_equal, str_lt, string_of};
use vstd::prelude::*;

verus! {

/// The error of a registration.
pub struct RegistryError {
    message: String,
}

impl RegistryError {
    /// The text of the error.
    pub closed spec fn message_view(&self) -> Seq<char> {
        self.message@
    }

    /// An error caused by `cause`.
    pub fn new(cause: String) -> (r: Self)
        ensures
            r.message_view() == cause@,
    {
        RegistryError { message: cause }
    }

    /// The text of the error.
    pub fn message(&self) -> (r: &str)
        ensures
            r@ == self.message_view(),
    {
        self.message.as_str()
    }
}

/// The registry of test cases.
pub trait Registry<'a> {
    /// Register a test case.
    fn add_test(&mut self, desc: &'a TestDesc) -> Result<(), RegistryError>
        requires
            desc.well_named(),
    ;
}

/// The registration of one or more test cases.
pub trait Registration<'a> {
    /// Register a collection of test cases in the registry.
    fn register<R: Registry<'a>>(&self, registry: &mut R) -> Result<(), RegistryError>;
}

/// The names of the tests are pairwise distinct.
pub open spec fn unique_names<'a>(tests: Seq<Test<'a>>) -> bool {
    forall|i: int, j: int|
        0 <= i < j < tests.len() ==> #[trigger] tests[i].desc.name_view() != #[trigger] tests[
            j
        ].desc.name_view()
}

/// A test registered in a session, and whether the filters leave it out.
#[derive(Clone, Copy)]
pub struct Test<'a> {
    pub desc: &'a TestDesc,
    pub filtered_out: bool,
}

/// The registry of a test session: the tests registered so far, in order,
/// with pairwise distinct names.
pub struct MainRegistry<'a> {
    args: &'a Args,
    registered: Vec<Test<'a>>,
}

impl<'a> MainRegistry<'a> {
    /// The filters the registry applies.
    pub closed spec fn args_view(&self) -> &'a Args {
        self.args
    }

    /// The tests registered so far.
    pub closed spec fn tests(&self) -> Seq<Test<'a>> {
        self.registered@
    }

    /// The names of registered tests are well formed and pairwise distinct.
    #[verifier::type_invariant]
    closed spec fn wf(&self) -> bool {
        &&& forall|i: int|
            0 <= i < self.registered@.len() ==> #[trigger] self.registered@[i].desc.well_named()
        &&& forall|i: int, j: int|
            0 <= i < j < self.registered@.len() ==> #[trigger] self.registered@[i].desc.name_view()
                != #[trigger] self.registered@[j].desc.name_view()
    }

    /// An empty registry applying the filters of `args`.
    pub fn new(args: &'a Args) -> (r: Self)
        ensures
            r.args_view() == args,
            r.tests().len() == 0,
    {
        MainRegistry { args, registered: Vec::new() }
    }

    /// The tests registered, in registration order.
    pub fn into_tests(self) -> (r: Vec<Test<'a>>)
        ensures
            r@ == self.tests(),
    {
        self.registered
    }
}

/// The names of the tests are in strictly increasing order.
pub open spec fn tests_sorted<'a>(s: Seq<Test<'a>>) -> bool {
    forall|i: int, j: int|
        0 <= i < j < s.len() ==> lex_lt(#[trigger] s[i].desc.name_view(), #[trigger] s[j].desc.name_view())
}

/// Every test has a name of the `crate::path` form.
pub open spec fn tests_well_named<'a>(s: Seq<Test<'a>>) -> bool {
    forall|i: int| 0 <= i < s.len() ==> #[trigger] s[i].desc.well_named()
}

/// Insert `x`, whose name no test of `v` has, into `v` at the place of its
/// name.
fn insert_test_by_name<'a>(v: &mut Vec<Test<'a>>, x: Test<'a>)
    requires
        tests_sorted(old(v)@),
        tests_well_named(old(v)@),
        x.desc.well_named(),
        forall|k: int| 0 <= k < old(v)@.len() ==> #[trigger] old(v)@[k].desc.name_view() != x.desc.name_view(),
    ensures
        tests_sorted(final(v)@),
        tests_well_named(final(v)@),
        final(v)@.to_multiset() == old(v)@.to_multiset().insert(x),
{
    broadcast use vstd::seq_lib::group_to_multiset_ensures;

    let ghost old_v = v@;
    let name = x.desc.name();
    let mut p: usize = 0;
    loop
        invariant
            p <= v@.len(),
            v@ == old_v,
            tests_well_named(v@),
            name@ == x.desc.name_view(),
            forall|k: int| 0 <= k < p ==> !lex_lt(name@, #[trigger] v@[k].desc.name_view()),
        ensures
            p <= v@.len(),
            v@ == old_v,
            forall|k: int| 0 <= k < p ==> !lex_lt(name@, #[trigger] v@[k].desc.name_view()),
            p < v@.len() ==> lex_lt(name@, v@[p as int].desc.name_view()),
        decreases v@.len() - p,
    {
        if p >= v.len() {
            break;
        }
        if str_lt(name, v[p].desc.name()) {
            break;
        }
        p = p + 1;
    }
    let ghost xv = x;
    v.insert(p, x);
    proof {
        let nv = v@;
        assert(nv == old_v.insert(p as int, xv));
        assert forall|i: int, j: int| 0 <= i < j < nv.len() implies lex_lt(
            #[trigger] nv[i].desc.name_view(),
            #[trigger] nv[j].desc.name_view(),
        ) by {
            if j < p {
                assert(nv[i] == old_v[i] && nv[j] == old_v[j]);
            } else if j == p {
                assert(nv[i] == old_v[i]);
                lemma_lex_lt_total(old_v[i].desc.name_view(), xv.desc.name_view());
            } else if i < p {
                assert(nv[i] == old_v[i] && nv[j] == old_v[j - 1]);
            } else if i == p {
                let y = old_v[j - 1];
                assert(nv[j] == y);
                if j - 1 > p {
                    lemma_lex_lt_transitive(
                        xv.desc.name_view(),
                        old_v[p as int].desc.name_view(),
                        y.desc.name_view(),
                    );
                }
            } else {
                assert(nv[i] == old_v[i - 1] && nv[j] == old_v[j - 1]);
            }
        }
        assert forall|i: int| 0 <= i < nv.len() implies #[trigger] nv[i].desc.well_named() by {
            if i < p {
                assert(nv[i] == old_v[i]);
            } else if i > p {
                assert(nv[i] == old_v[i - 1]);
            }
        }
    }
}

/// The registered tests sorted by name: the same tests, in strictly
/// increasing order of their names.
pub fn sort_tests_by_name<'a>(tests: Vec<Test<'a>>) -> (r: Vec<Test<'a>>)
    requires
        tests_well_named(tests@),
        unique_names(tests@),
    ensures
        tests_sorted(r@),
        tests_well_named(r@),
        r@.to_multiset() == tests@.to_multiset(),
{
    broadcast use vstd::seq_lib::group_to_multiset_ensures;

    let mut sorted: Vec<Test<'a>> = Vec::new();
    let mut i: usize = 0;
    assert(tests@.take(0) =~= Seq::<Test<'a>>::empty());
    while i < tests.len()
        invariant
            i <= tests@.len(),
            tests_well_named(tests@),
            unique_names(tests@),
            tests_sorted(sorted@),
            tests_well_named(sorted@),
            sorted@.to_multiset() == tests@.take(i as int).to_multiset(),
        decreases tests@.len() - i,
    {
        let t = tests[i];
        assert(tests@.take(i + 1) == tests@.take(i as int).push(t));
        assert forall|k: int| 0 <= k < sorted@.len() implies #[trigger] sorted@[k].desc.name_view()
            != t.desc.name_view() by {
            sorted@.to_multiset_ensures();
            tests@.take(i as int).to_multiset_ensures();
            assert(sorted@.contains(sorted@[k]));
            assert(tests@.take(i as int).to_multiset().count(sorted@[k]) > 0);
            assert(tests@.take(i as int).contains(sorted@[k]));
            let m = choose|m: int| 0 <= m < i && tests@.take(i as int)[m] == sorted@[k];
            assert(tests@[m] == sorted@[k]);
            assert(tests@[i as int] == t);
        }
        insert_test_by_name(&mut sorted, t);
        proof {
            tests@.take(i as int).to_multiset_ensures();
            assert(tests@.take(i as int).push(t).to_multiset() =~= tests@.take(
                i as int,
            ).to_multiset().insert(t));
        }
        i = i + 1;
    }
    assert(tests@.take(tests@.len() as int) =~= tests@);
    sorted
}

/// The names of tests whose filter mark is `filtered_out`, in order.
pub open spec fn marked<'a>(tests: Seq<Test<'a>>, filtered_out: bool) -> Seq<&'a TestDesc> {
    tests.filter(|t: Test<'a>| t.filtered_out == filtered_out).map_values(|t: Test<'a>| t.desc)
}

/// Split the registered tests into those that run and those filtered out,
/// both in the given order.
pub fn split_filtered<'a>(tests: &Vec<Test<'a>>) -> (r: (Vec<&'a TestDesc>, Vec<&'a TestDesc>))
    ensures
        r.0@ == marked(tests@, false),
        r.1@ == marked(tests@, true),
{
    let ghost run = |t: Test<'a>| t.filtered_out == false;
    let ghost out = |t: Test<'a>| t.filtered_out == true;
    let ghost d = |t: Test<'a>| t.desc;
    let mut running: Vec<&'a TestDesc> = Vec::new();
    let mut filtered_out: Vec<&'a TestDesc> = Vec::new();
    let mut i: usize = 0;
    assert(tests@.take(0) =~= Seq::<Test<'a>>::empty());
    while i < tests.len()
        invariant
            i <= tests@.len(),
            run == (|t: Test<'a>| t.filtered_out == false),
            out == (|t: Test<'a>| t.filtered_out == true),
            d == (|t: Test<'a>| t.desc),
            running@ == tests@.take(i as int).filter(run).map_values(d),
            filtered_out@ == tests@.take(i as int).filter(out).map_values(d),
        decreases tests@.len() - i,
    {
        let t = tests[i];
        assert(tests@.take(i + 1) == tests@.take(i as int).push(t));
        proof {
            tests@.take(i as int).lemma_filter_push(t, run);
            tests@.take(i as int).lemma_filter_push(t, out);
        }
        if t.filtered_out {
            filtered_out.push(t.desc);
            assert(filtered_out@ =~= tests@.take(i + 1).filter(out).map_values(d));
        } else {
            running.push(t.desc);
            assert(running@ =~= tests@.take(i + 1).filter(run).map_values(d));
        }
        i = i + 1;
    }
    assert(tests@.take(tests@.len() as int) =~= tests@);
    (running, filtered_out)
}

impl<'a> Registry<'a> for MainRegistry<'a> {
    /// Register `desc`, marked filtered out when the filters leave it out;
    /// a name that is already registered is refused.
    fn add_test(&mut self, desc: &'a TestDesc) -> (r: Result<(), RegistryError>)
        ensures
            final(self).args_view() == old(self).args_view(),
            unique_names(final(self).tests()),
            (exists|i: int|
                0 <= i < old(self).tests().len() && #[trigger] old(self).tests()[i].desc.name_view()
                    == desc.name_view()) <==> r is Err,
            r is Err ==> final(self).tests() == old(self).tests() && r->Err_0.message_view()
                == conflict_message(desc.name_view()),
            r is Ok ==> final(self).tests() == old(self).tests().push(
                Test { desc, filtered_out: old(self).args_view().filters_out(desc.name_view()) },
            ),
    {
        proof {
            use_type_invariant(&*self);
        }
        let name = desc.name();
        let filtered_out = self.args.is_filtered_out(name);
        let mut i: usize = 0;
        while i < self.registered.len()
            invariant
                i <= self.registered@.len(),
                name@ == desc.name_view(),
                self.registered@ == old(self).registered@,
                self.args == old(self).args,
                forall|k: int|
                    0 <= k < self.registered@.len() ==> #[trigger] self.registered@[k].desc.well_named(),
                forall|k: int|
                    0 <= k < i ==> #[trigger] self.registered@[k].desc.name_view() != name@,
            decreases self.registered@.len() - i,
        {
            if str_equal(self.registered[i].desc.name(), name) {
                let mut msg = string_of("the test name '");
                push_all(&mut msg, name);
                push_all(&mut msg, "' is conflicted");
                proof {
                    use_type_invariant(&*self);
                }
                return Err(RegistryError::new(msg));
            }
            i = i + 1;
        }
        let mut registered: Vec<Test<'a>> = Vec::new();
        std::mem::swap(&mut registered, &mut self.registered);
        registered.push(Test { desc, filtered_out });
        self.registered = registered;
        proof {
            use_type_invariant(&*self);
        }
        Ok(())
    }
}

} // verus!
