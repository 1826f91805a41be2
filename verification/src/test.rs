//! Descriptions of test cases: names, source locations, sections and the
//! execution plans that select which sections run.

use crate::text::{
    contains_seq, decimal, decimal_string, find, find_str, lemma_find_contains, lemma_find_from, occurs_at,
    push_all, push_char, string_of,
};
use vstd::prelude::*;
use vstd::string::*;

verus! {

/// The identifier of a section inside one test case.
pub type SectionId = u64;

/// A position in a source file.
pub struct Location {
    pub file: String,
    pub line: u32,
    pub column: u32,
}

/// `file:line:column`, the rendering of a location.
pub open spec fn location_text(file: Seq<char>, line: u32, column: u32) -> Seq<char> {
    file + seq![':'] + decimal(line as nat) + seq![':'] + decimal(column as nat)
}

impl Location {
    /// The text `file:line:column` of this location.
    pub fn to_string(&self) -> (r: String)
        ensures
            r@ == location_text(self.file@, self.line, self.column),
    {
        let mut s = string_of(self.file.as_str());
        push_char(&mut s, ':');
        let line = decimal_string(self.line as u64);
        push_all(&mut s, line.as_str());
        push_char(&mut s, ':');
        let column = decimal_string(self.column as u64);
        push_all(&mut s, column.as_str());
        s
    }
}

/// The separator between the crate name and the path of a test.
pub open spec fn path_separator() -> Seq<char> {
    seq![':', ':']
}

/// The name of a test: the raw path with everything up to and including
/// the first `::` removed.
pub open spec fn test_name_of(raw: Seq<char>) -> Seq<char> {
    raw.skip(find(raw, path_separator()) + 2)
}

/// The name of a test is what follows the first `::` of its raw path: the
/// path is a first component without `::`, then `::`, then the name.
pub proof fn law_test_name(raw: Seq<char>)
    requires
        contains_seq(raw, path_separator()),
    ensures
        exists|k: int|
            #[trigger] occurs_at(raw, path_separator(), k) && (forall|j: int|
                0 <= j < k ==> !#[trigger] occurs_at(raw, path_separator(), j)) && test_name_of(raw)
                == raw.skip(k + 2),
{
    lemma_find_contains(raw, path_separator());
    lemma_find_from(raw, path_separator(), 0);
    let k = find(raw, path_separator());
    assert(occurs_at(raw, path_separator(), k));
}

/// The raw `module_path::name` of a test function.
pub struct TestName {
    pub raw: String,
}

impl TestName {
    /// The test's path relative to the crate root: the raw path without its
    /// first `::`-separated component.
    pub fn as_ref(&self) -> (r: &str)
        requires
            contains_seq(self.raw@, path_separator()),
        ensures
            r@ == test_name_of(self.raw@),
    {
        proof {
            lemma_find_contains(self.raw@, path_separator());
            reveal_strlit("::");
        }
        let sep = "::";
        assert(sep@ =~= path_separator());
        let pos = find_str(self.raw.as_str(), sep);
        match pos {
            Some(i) => {
                let len = self.raw.as_str().unicode_len();
                self.raw.as_str().substring_char(i + 2, len)
            },
            None => {
                // unreachable: the separator occurs
                self.raw.as_str()
            },
        }
    }
}

/// Metadata about a test case.
pub struct TestDesc {
    pub name: TestName,
    pub location: Location,
    /// Whether the test is marked to be ignored unless ignored tests are
    /// requested.
    pub ignored: bool,
}

impl TestDesc {
    /// Whether the raw path of this test has the `crate::path` form.
    pub open spec fn well_named(&self) -> bool {
        contains_seq(self.name.raw@, path_separator())
    }

    /// The name of this test, as `name` returns it.
    pub open spec fn name_view(&self) -> Seq<char> {
        test_name_of(self.name.raw@)
    }

    /// Return the name of the test case: its path relative to the root module.
    pub fn name(&self) -> (r: &str)
        requires
            self.well_named(),
        ensures
            r@ == self.name_view(),
    {
        self.name.as_ref()
    }
}

/// A section of a test body.
pub struct Section {
    pub id: SectionId,
    pub name: String,
    pub location: Location,
}

impl Section {
    /// The section `id` named `name`, declared at `location`.
    pub fn new(id: SectionId, name: String, location: Location) -> (r: Self)
        ensures
            r.id == id,
            r.name == name,
            r.location == location,
    {
        Section { id, name, location }
    }
}

/// One run of a test case: the leaf section it targets (if any) and the
/// ancestors of that section, which must be entered on the way to it.
pub struct TestPlan {
    pub target: Option<SectionId>,
    pub ancestors: Vec<SectionId>,
}

/// Whether a plan with this target and these ancestors enters section `id`.
pub open spec fn plan_enables(target: Option<SectionId>, ancestors: Seq<SectionId>, id: SectionId) -> bool {
    target == Some(id) || ancestors.contains(id)
}

impl TestPlan {
    /// Whether this plan enters the section `id`.
    pub open spec fn enables(&self, id: SectionId) -> bool {
        plan_enables(self.target, self.ancestors@, id)
    }

    /// Whether the section `id` is entered when running under this plan:
    /// it is the target or one of the target's ancestors.
    pub fn is_enabled(&self, id: SectionId) -> (r: bool)
        ensures
            r == self.enables(id),
    {
        let is_target = match self.target {
            Some(target) => target == id,
            None => false,
        };
        if is_target {
            return true;
        }
        let mut i: usize = 0;
        while i < self.ancestors.len()
            invariant
                i <= self.ancestors@.len(),
                forall|k: int| 0 <= k < i ==> self.ancestors@[k] != id,
            decreases self.ancestors@.len() - i,
        {
            if self.ancestors[i] == id {
                return true;
            }
            i = i + 1;
        }
        false
    }
}

/// A leaf section of a test body: a section with no section inside it, and
/// the sections that enclose it.
pub struct LeafSection {
    pub id: SectionId,
    pub ancestors: Vec<SectionId>,
}

/// The plans of a test case with these leaf sections, in order: one per leaf,
/// targeting it; a body without sections runs once, with no target.
pub open spec fn leaf_plans_spec(leaves: Seq<(SectionId, Seq<SectionId>)>) -> Seq<(Option<SectionId>, Seq<SectionId>)> {
    if leaves.len() == 0 {
        seq![(None, Seq::empty())]
    } else {
        leaves.map_values(|l: (SectionId, Seq<SectionId>)| (Some(l.0), l.1))
    }
}

/// The target and ancestors of each plan.
pub open spec fn plans_view(plans: Seq<TestPlan>) -> Seq<(Option<SectionId>, Seq<SectionId>)> {
    plans.map_values(|p: TestPlan| (p.target, p.ancestors@))
}

/// The id and ancestors of each leaf.
pub open spec fn leaves_view(leaves: Seq<LeafSection>) -> Seq<(SectionId, Seq<SectionId>)> {
    leaves.map_values(|l: LeafSection| (l.id, l.ancestors@))
}

fn copy_ids(ids: &Vec<SectionId>) -> (r: Vec<SectionId>)
    ensures
        r@ == ids@,
{
    let mut r: Vec<SectionId> = Vec::new();
    let mut i: usize = 0;
    while i < ids.len()
        invariant
            i <= ids@.len(),
            r@ == ids@.take(i as int),
        decreases ids@.len() - i,
    {
        r.push(ids[i]);
        i = i + 1;
        assert(r@ =~= ids@.take(i as int));
    }
    assert(ids@.take(ids@.len() as int) =~= ids@);
    r
}

impl TestPlan {
    /// The plans of a test case from its leaf sections: the body runs once
    /// per leaf, in order, targeting that leaf; without sections it runs once.
    pub fn for_leaves(leaves: &Vec<LeafSection>) -> (r: Vec<TestPlan>)
        ensures
            plans_view(r@) == leaf_plans_spec(leaves_view(leaves@)),
    {
        let mut plans: Vec<TestPlan> = Vec::new();
        if leaves.len() == 0 {
            plans.push(TestPlan { target: None, ancestors: Vec::new() });
            assert(plans_view(plans@) =~= leaf_plans_spec(leaves_view(leaves@)));
            return plans;
        }
        let ghost lv = leaves_view(leaves@);
        let mut i: usize = 0;
        while i < leaves.len()
            invariant
                i <= leaves@.len(),
                lv == leaves_view(leaves@),
                plans_view(plans@) == lv.take(i as int).map_values(
                    |l: (SectionId, Seq<SectionId>)| (Some(l.0), l.1),
                ),
            decreases leaves@.len() - i,
        {
            let leaf = &leaves[i];
            let plan = TestPlan { target: Some(leaf.id), ancestors: copy_ids(&leaf.ancestors) };
            let ghost before = plans@;
            plans.push(plan);
            i = i + 1;
            assert(plans_view(plans@) =~= plans_view(before).push((Some(leaf.id), leaf.ancestors@)));
            assert(lv.take(i as int).map_values(|l: (SectionId, Seq<SectionId>)| (Some(l.0), l.1))
                =~= lv.take(i - 1).map_values(|l: (SectionId, Seq<SectionId>)| (Some(l.0), l.1)).push(
                (Some(leaf.id), leaf.ancestors@),
            ));
        }
        assert(lv.take(lv.len() as int) =~= lv);
        plans
    }
}

/// The section mechanism: a test body with leaf sections runs once per leaf,
/// in the order of the leaves; run `k` enters exactly the `k`-th leaf and the
/// sections that enclose it, so every leaf's code runs exactly once. A body
/// without sections runs once and enters no section.
pub proof fn law_each_leaf_runs_once_in_order(leaves: Seq<(SectionId, Seq<SectionId>)>, id: SectionId)
    ensures
        leaves.len() == 0 ==> leaf_plans_spec(leaves).len() == 1 && !plan_enables(
            leaf_plans_spec(leaves)[0].0,
            leaf_plans_spec(leaves)[0].1,
            id,
        ),
        leaves.len() > 0 ==> leaf_plans_spec(leaves).len() == leaves.len(),
        forall|k: int|
            0 <= k < leaves.len() ==> (plan_enables(
                #[trigger] leaf_plans_spec(leaves)[k].0,
                leaf_plans_spec(leaves)[k].1,
                id,
            ) <==> (id == leaves[k].0 || leaves[k].1.contains(id))),
        forall|k: int, j: int|
            0 <= k < leaves.len() && 0 <= j < leaves.len() && leaves[k].0 != leaves[j].0
                ==> #[trigger] leaf_plans_spec(leaves)[k].0 != #[trigger] leaf_plans_spec(leaves)[j].0,
{
}

} // verus!
