//! The state of one run of a test function: which plan it follows, the
//! section it is in, and the outcome it has declared.

use crate::reporter::Outcome;
use crate::text::string_of;
use crate::test::{Location, Section, TestPlan};
use vstd::prelude::*;

verus! {

/// Context values while running the test case.
pub struct Context<'a> {
    plan: &'a TestPlan,
    current_section: Option<&'a Section>,
    outcome: Option<Outcome<'a>>,
}

/// What entering a section returns: whether its body runs, and the section
/// to return to when it is left.
pub struct EnterSection<'a> {
    enabled: bool,
    last_section: Option<&'a Section>,
}

impl<'a> EnterSection<'a> {
    /// Whether the section's body runs under the current plan.
    pub closed spec fn is_enabled(&self) -> bool {
        self.enabled
    }

    /// The section that was current when this one was entered.
    pub closed spec fn previous(&self) -> Option<&'a Section> {
        self.last_section
    }

    /// Whether the section's body runs under the current plan.
    pub fn enabled(&self) -> (r: bool)
        ensures
            r == self.is_enabled(),
    {
        self.enabled
    }

    /// Leave the section: the enclosing section becomes current again.
    pub fn leave(self, ctx: &mut Context<'a>)
        ensures
            *final(ctx) == old(ctx).left(self),
            final(ctx).section() == self.previous(),
            final(ctx).plan() == old(ctx).plan(),
            final(ctx).declared() == old(ctx).declared(),
    {
        ctx.leave_section(self)
    }
}

impl<'a> Context<'a> {
    /// The plan this run follows.
    pub closed spec fn plan(&self) -> &'a TestPlan {
        self.plan
    }

    /// The section the run is in, if any.
    pub closed spec fn section(&self) -> Option<&'a Section> {
        self.current_section
    }

    /// The outcome the test declared in this run (skipped or failed), if any.
    pub closed spec fn declared(&self) -> Option<Outcome<'a>> {
        self.outcome
    }

    /// The context a run under `plan` starts in.
    pub closed spec fn fresh(plan: &'a TestPlan) -> Context<'a> {
        Context { plan, current_section: None, outcome: None }
    }

    /// The context once `section` is entered.
    pub closed spec fn entered(self, section: &'a Section) -> Context<'a> {
        Context { current_section: Some(section), ..self }
    }

    /// What entering `section` in this context returns.
    pub closed spec fn entry(self, section: &'a Section) -> EnterSection<'a> {
        EnterSection { enabled: self.plan.enables(section.id), last_section: self.current_section }
    }

    /// The context once the section entered with `enter` is left.
    pub closed spec fn left(self, enter: EnterSection<'a>) -> Context<'a> {
        Context { current_section: enter.last_section, ..self }
    }

    /// A fresh context for one run under `plan`: outside any section, with
    /// no outcome declared.
    pub fn new(plan: &'a TestPlan) -> (r: Self)
        ensures
            r == Context::fresh(plan),
            r.plan() == plan,
            r.section() is None,
            r.declared() is None,
    {
        Context { plan, current_section: None, outcome: None }
    }

    /// The name of the section the run is in.
    pub fn current_section_name(&self) -> (r: Option<&str>)
        ensures
            match self.section() {
                Some(s) => r is Some && r->0@ == s.name@,
                None => r is None,
            },
    {
        match self.current_section {
            Some(section) => Some(section.name.as_str()),
            None => None,
        }
    }

    /// Enter `section`: it becomes the current section, and its body is
    /// enabled exactly when the plan targets it or one of its descendants.
    pub fn enter_section(&mut self, section: &'a Section) -> (r: EnterSection<'a>)
        ensures
            r == old(self).entry(section),
            *final(self) == old(self).entered(section),
            r.is_enabled() == old(self).plan().enables(section.id),
            r.previous() == old(self).section(),
            final(self).section() == Some(section),
            final(self).plan() == old(self).plan(),
            final(self).declared() == old(self).declared(),
    {
        let enabled = self.plan.is_enabled(section.id);
        let last_section = self.current_section;
        self.current_section = Some(section);
        EnterSection { enabled, last_section }
    }

    /// Leave the section entered by `enter`: the section that was current
    /// before it becomes current again.
    pub fn leave_section(&mut self, enter: EnterSection<'a>)
        ensures
            *final(self) == old(self).left(enter),
            final(self).section() == enter.previous(),
            final(self).plan() == old(self).plan(),
            final(self).declared() == old(self).declared(),
    {
        self.current_section = enter.last_section;
    }

    /// Whether the run has declared an outcome (skipped or failed).
    pub fn is_declared(&self) -> (r: bool)
        ensures
            r == self.declared() is Some,
    {
        self.outcome.is_some()
    }

    /// Mark the test case as skipped at `location` for `reason`, and give the
    /// message of the panic that ends the test body at once: the caller
    /// panics with it, and `check_outcome` then reads the panic as the
    /// declared skip.
    pub fn skip(&mut self, location: &'a Location, reason: String) -> (r: String)
        requires
            old(self).declared() is None,
        ensures
            final(self).declared() == Some(Outcome::Skipped { location, reason }),
            final(self).section() == old(self).section(),
            final(self).plan() == old(self).plan(),
            r@ == termination_message(),
    {
        self.outcome = Some(Outcome::Skipped { location, reason });
        self.exit()
    }

    /// Mark the test case as failed at `location` for `reason`, and give the
    /// message of the panic that ends the test body at once: the caller
    /// panics with it, and `check_outcome` then reads the panic as the
    /// declared failure.
    pub fn fail(&mut self, location: &'a Location, reason: String) -> (r: String)
        requires
            old(self).declared() is None,
        ensures
            final(self).declared() == Some(Outcome::Failed { location, reason }),
            final(self).section() == old(self).section(),
            final(self).plan() == old(self).plan(),
            r@ == termination_message(),
    {
        self.outcome = Some(Outcome::Failed { location, reason });
        self.exit()
    }

    /// The message of the panic that ends a test body early.
    fn exit(&self) -> (r: String)
        ensures
            r@ == termination_message(),
    {
        string_of("test function is explicitly terminated")
    }

    /// The outcome of one run, from what the test function did: `Ok(Ok(()))`
    /// when it returned normally (having declared nothing), `Ok(Err(e))` when
    /// it returned an error and `Err(p)` when it panicked. A panic yields the
    /// outcome the test declared before it, if any (and leaves none
    /// declared), and a panicked outcome otherwise.
    pub fn check_outcome(&mut self, result: Result<Result<(), String>, String>) -> (r: Option<
        Outcome<'a>,
    >)
        requires
            result is Ok && result->Ok_0 is Ok ==> old(self).declared() is None,
        ensures
            r == run_outcome(old(self).declared(), result),
            final(self).declared() == (match result {
                Err(_) => None,
                _ => old(self).declared(),
            }),
            final(self).section() == old(self).section(),
            final(self).plan() == old(self).plan(),
    {
        match result {
            Ok(Ok(())) => None,
            Ok(Err(err)) => Some(Outcome::Errored(err)),
            Err(unwind) => match self.outcome.take() {
                Some(outcome) => Some(outcome),
                None => Some(Outcome::Panicked(unwind)),
            },
        }
    }
}

/// The message of the panic with which `skip` and `fail` end a test body.
pub open spec fn termination_message() -> Seq<char> {
    "test function is explicitly terminated"@
}

/// Leaving a section undoes entering it: the context is the one before the
/// section was entered, wherever the body of the section left the current
/// section, as long as it declared nothing; and the section's body runs exactly
/// when the plan enables the section.
pub proof fn law_leave_undoes_enter<'a>(ctx: Context<'a>, section: &'a Section, inner: Context<'a>)
    requires
        inner.plan() == ctx.plan(),
        inner.declared() == ctx.declared(),
    ensures
        ctx.entered(section).left(ctx.entry(section)) == ctx,
        inner.left(ctx.entry(section)) == ctx,
        ctx.entered(section).section() == Some(section),
        ctx.entry(section).is_enabled() == ctx.plan().enables(section.id),
        ctx.entry(section).previous() == ctx.section(),
{
}

/// One step of a test body as far as sections go: entering a section, or
/// leaving the section entered last.
pub enum SectionStep<'a> {
    Enter(&'a Section),
    Leave,
}

/// The context and the entries of the sections still open after `steps`,
/// starting from `ctx` with the entries `open`; `None` when a step leaves a
/// section while none is open.
pub closed spec fn run_steps<'a>(ctx: Context<'a>, open: Seq<EnterSection<'a>>, steps: Seq<SectionStep<'a>>) -> Option<
    (Context<'a>, Seq<EnterSection<'a>>),
>
    decreases steps.len(),
{
    if steps.len() == 0 {
        Some((ctx, open))
    } else {
        match steps[0] {
            SectionStep::Enter(s) => run_steps(
                ctx.entered(s),
                open.push(ctx.entry(s)),
                steps.drop_first(),
            ),
            SectionStep::Leave => if open.len() == 0 {
                None
            } else {
                run_steps(ctx.left(open.last()), open.drop_last(), steps.drop_first())
            },
        }
    }
}

/// The state reached from `start` with the sections `opened` still open, in
/// order of entering, and their entries `open`.
spec fn nested_from<'a>(
    start: Context<'a>,
    ctx: Context<'a>,
    open: Seq<EnterSection<'a>>,
    opened: Seq<&'a Section>,
) -> bool {
    &&& ctx.plan == start.plan
    &&& ctx.outcome == start.outcome
    &&& open.len() == opened.len()
    &&& open.len() == 0 ==> ctx == start
    &&& open.len() > 0 ==> {
        &&& ctx.current_section == Some(opened.last())
        &&& open[0].last_section == start.current_section
        &&& forall|k: int| 0 < k < open.len() ==> #[trigger] open[k].last_section == Some(opened[k - 1])
    }
}

proof fn lemma_nested_steps<'a>(
    start: Context<'a>,
    ctx: Context<'a>,
    open: Seq<EnterSection<'a>>,
    opened: Seq<&'a Section>,
    steps: Seq<SectionStep<'a>>,
)
    requires
        nested_from(start, ctx, open, opened),
    ensures
        run_steps(ctx, open, steps) matches Some((end, still_open)) ==> (still_open.len() == 0
            ==> end == start),
    decreases steps.len(),
{
    if steps.len() > 0 {
        match steps[0] {
            SectionStep::Enter(s) => {
                let c1 = ctx.entered(s);
                let o1 = open.push(ctx.entry(s));
                let p1 = opened.push(s);
                assert forall|k: int| 0 < k < o1.len() implies #[trigger] o1[k].last_section == Some(
                    p1[k - 1],
                ) by {
                    if k < open.len() {
                        assert(o1[k] == open[k]);
                        assert(p1[k - 1] == opened[k - 1]);
                    }
                }
                lemma_nested_steps(start, c1, o1, p1, steps.drop_first());
            },
            SectionStep::Leave => {
                if open.len() > 0 {
                    let c1 = ctx.left(open.last());
                    let o1 = open.drop_last();
                    let p1 = opened.drop_last();
                    if o1.len() > 0 {
                        assert(open[o1.len() as int].last_section == Some(opened[o1.len() - 1]));
                        assert forall|k: int| 0 < k < o1.len() implies #[trigger] o1[k].last_section
                            == Some(p1[k - 1]) by {
                            assert(o1[k] == open[k]);
                        }
                    }
                    lemma_nested_steps(start, c1, o1, p1, steps.drop_first());
                }
            },
        }
    }
}

/// Sections nest like a stack: after any sequence of entering and leaving
/// sections that leaves no section open (and never leaves one that is not
/// open), the context is the one it started as.
pub proof fn law_balanced_sections_restore<'a>(ctx: Context<'a>, steps: Seq<SectionStep<'a>>)
    ensures
        run_steps(ctx, Seq::empty(), steps) matches Some((end, still_open)) ==> (still_open.len()
            == 0 ==> end == ctx),
{
    lemma_nested_steps(ctx, ctx, Seq::empty(), Seq::empty(), steps);
}

/// The outcome of one run, given the outcome the test declared and how the
/// test function ended (`None`: the run passed and the next plan follows).
pub open spec fn run_outcome<'a>(declared: Option<Outcome<'a>>, result: Result<Result<(), String>, String>) -> Option<Outcome<'a>> {
    match result {
        Ok(Ok(())) => None,
        Ok(Err(err)) => Some(Outcome::Errored(err)),
        Err(unwind) => match declared {
            Some(o) => Some(o),
            None => Some(Outcome::Panicked(unwind)),
        },
    }
}

} // verus!
