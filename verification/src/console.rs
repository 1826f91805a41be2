//! The console rendering of test case results and of the summary of a run.

use crate::cli::ColorConfig;
use crate::report::{emit, emit_str, plain, segs, styled_color, Color, Segment};
use crate::reporter::{grouped, Outcome, Summary, TestCaseSummary};
use crate::test::{location_text, Location, TestDesc};
use crate::text::{decimal, decimal_string, push_all, string_of};
use vstd::prelude::*;
use vstd::string::*;

verus! {

/// The styled status word of a test case's outcome.
pub open spec fn status_of<'a>(config: ColorConfig, outcome: Outcome<'a>) -> (Seq<char>, Option<Color>) {
    match outcome {
        Outcome::Passed => ("ok"@, styled_color(config, Color::Green)),
        Outcome::Skipped { .. } => ("skipped"@, styled_color(config, Color::Yellow)),
        _ => ("FAILED"@, styled_color(config, Color::Red)),
    }
}

/// The status word of a test case's line names how it ended: `FAILED` in
/// red exactly when the outcome is a failure (an error, an explicit failure
/// or a panic), `ok` in green exactly when it passed, `skipped` in yellow
/// exactly when it was skipped.
pub proof fn law_status_word<'a>(config: ColorConfig, outcome: Outcome<'a>)
    ensures
        status_of(config, outcome) == ("FAILED"@, styled_color(config, Color::Red)) <==> outcome.is_failure(),
        status_of(config, outcome) == ("ok"@, styled_color(config, Color::Green)) <==> outcome is Passed,
        status_of(config, outcome) == ("skipped"@, styled_color(config, Color::Yellow)) <==> outcome is Skipped,
{
    reveal_strlit("FAILED");
    reveal_strlit("ok");
    reveal_strlit("skipped");
    assert("FAILED"@ != "ok"@) by {
        assert("FAILED"@.len() != "ok"@.len());
    }
    assert("FAILED"@ != "skipped"@) by {
        assert("FAILED"@[0] != "skipped"@[0]);
    }
    assert("ok"@ != "skipped"@) by {
        assert("ok"@.len() != "skipped"@.len());
    }
}

/// The text of a location.
pub open spec fn loc_view(l: &Location) -> Seq<char> {
    location_text(l.file@, l.line, l.column)
}

/// The explanation of a failure, as printed under its header.
pub open spec fn failure_text<'a>(outcome: Outcome<'a>) -> Seq<char> {
    match outcome {
        Outcome::Errored(err) => err@ + "\n"@,
        Outcome::Panicked(unwind) => unwind@ + "\n"@,
        Outcome::Failed { location, reason } => loc_view(location) + " "@ + reason@ + "\n"@,
        _ => Seq::empty(),
    }
}

/// The block describing one failed test case.
pub open spec fn console_failure<'a>(r: TestCaseSummary<'a>) -> Seq<(Seq<char>, Option<Color>)> {
    seq![
        plain("---- "@ + r.desc.name_view() + " at "@ + loc_view(&r.desc.location) + " ----\n"@),
        plain(failure_text(r.outcome)),
        plain("\n"@),
    ]
}

/// The blocks of the failed test cases, in order.
pub open spec fn console_failures<'a>(failed: Seq<TestCaseSummary<'a>>) -> Seq<(Seq<char>, Option<Color>)>
    decreases failed.len(),
{
    if failed.len() == 0 {
        Seq::empty()
    } else {
        console_failures(failed.drop_last()) + console_failure(failed.last())
    }
}

/// The indented names of the failed test cases.
pub open spec fn console_failure_names<'a>(failed: Seq<TestCaseSummary<'a>>) -> Seq<(Seq<char>, Option<Color>)> {
    failed.map_values(|r: TestCaseSummary<'a>| plain("    "@ + r.desc.name_view() + "\n"@))
}

/// The rendering of a run's summary.
pub open spec fn console_summary<'a>(config: ColorConfig, s: Summary<'a>) -> Seq<(Seq<char>, Option<Color>)> {
    let status = if s.failed@.len() == 0 {
        ("ok"@, styled_color(config, Color::Green))
    } else {
        ("FAILED"@, styled_color(config, Color::Red))
    };
    (if s.failed@.len() == 0 {
        Seq::empty()
    } else {
        seq![plain("\n"@), plain("failures:\n"@)] + console_failures(s.failed@) + seq![
            plain("\n"@),
            plain("failures:\n"@),
        ] + console_failure_names(s.failed@)
    }) + seq![
        plain("\n"@),
        plain("test result: "@),
        status,
        plain("."@),
        plain(
            " "@ + decimal(s.passed@.len()) + " passed; "@ + decimal(s.failed@.len())
                + " failed; "@ + decimal(s.skipped@.len()) + " skipped; "@ + decimal(
                s.filtered_out@.len(),
            ) + " filtered out\n"@,
        ),
    ]
}

/// Every test case named in the summary has a name of the `crate::path` form.
pub open spec fn summary_well_named<'a>(s: Summary<'a>) -> bool {
    forall|i: int| 0 <= i < s.failed@.len() ==> #[trigger] s.failed@[i].desc.well_named()
}

/// Reports test results on the console.
pub struct ConsoleReporter {
    color: ColorConfig,
}

impl ConsoleReporter {
    /// The color configuration.
    pub closed spec fn color_view(&self) -> ColorConfig {
        self.color
    }

    /// A reporter that colors its output according to `color`.
    pub fn new(color: ColorConfig) -> (r: Self)
        ensures
            r.color_view() == color,
    {
        ConsoleReporter { color }
    }

    fn styled(&self, text: &str, color: Color) -> (r: Segment)
        ensures
            r.text@ == text@,
            r.color == styled_color(self.color_view(), color),
    {
        let c = match self.color {
            ColorConfig::Never => None,
            _ => Some(color),
        };
        Segment { text: string_of(text), color: c }
    }

    /// The announcement of a run of `num_tests` tests.
    pub fn test_run_starting(&self, num_tests: usize) -> (r: Vec<Segment>)
        ensures
            segs(r@) == seq![plain("running "@ + decimal(num_tests as nat) + " tests\n"@)],
    {
        let mut line = string_of("running ");
        push_all(&mut line, decimal_string(num_tests as u64).as_str());
        push_all(&mut line, " tests\n");
        let mut out: Vec<Segment> = Vec::new();
        emit(&mut out, line, None);
        out
    }

    /// The line reporting how one test case ended: its name and its status.
    pub fn print_test_case_summary<'a>(&self, summary: &TestCaseSummary<'a>) -> (r: Vec<Segment>)
        requires
            summary.desc.well_named(),
        ensures
            segs(r@) == seq![
                plain("test "@ + summary.desc.name_view() + " ... "@),
                status_of(self.color_view(), summary.outcome),
                plain("\n"@),
            ],
    {
        let status = match summary.outcome {
            Outcome::Passed => self.styled("ok", Color::Green),
            Outcome::Errored(..) | Outcome::Failed { .. } | Outcome::Panicked(..) => self.styled(
                "FAILED",
                Color::Red,
            ),
            Outcome::Skipped { .. } => self.styled("skipped", Color::Yellow),
        };
        let mut out: Vec<Segment> = Vec::new();
        let mut head = string_of("test ");
        push_all(&mut head, summary.desc.name());
        push_all(&mut head, " ... ");
        emit(&mut out, head, None);
        emit(&mut out, status.text, status.color);
        emit_str(&mut out, "\n", None);
        assert(segs(out@) =~= seq![
            plain("test "@ + summary.desc.name_view() + " ... "@),
            status_of(self.color_view(), summary.outcome),
            plain("\n"@),
        ]);
        out
    }

    /// The summary of a run: each failure with its name, location and cause,
    /// the names of the failed test cases, then the counts of each kind.
    pub fn print_summary<'a>(&self, summary: &Summary<'a>) -> (r: Vec<Segment>)
        requires
            grouped(*summary),
            summary_well_named(*summary),
        ensures
            segs(r@) == console_summary(self.color_view(), *summary),
    {
        let mut out: Vec<Segment> = Vec::new();
        let ghost failed = summary.failed@;
        if summary.failed.len() != 0 {
            emit_str(&mut out, "\n", None);
            emit_str(&mut out, "failures:\n", None);
            let mut i: usize = 0;
            while i < summary.failed.len()
                invariant
                    i <= failed.len(),
                    failed == summary.failed@,
                    grouped(*summary),
                    summary_well_named(*summary),
                    segs(out@) == seq![plain("\n"@), plain("failures:\n"@)] + console_failures(
                        failed.take(i as int),
                    ),
                decreases failed.len() - i,
            {
                let result = &summary.failed[i];
                let mut header = string_of("---- ");
                push_all(&mut header, result.desc.name());
                push_all(&mut header, " at ");
                push_all(&mut header, result.desc.location.to_string().as_str());
                push_all(&mut header, " ----\n");
                emit(&mut out, header, None);
                let mut cause = String::new();
                match &result.outcome {
                    Outcome::Errored(err) => {
                        push_all(&mut cause, err.as_str());
                        push_all(&mut cause, "\n");
                    },
                    Outcome::Panicked(unwind) => {
                        push_all(&mut cause, unwind.as_str());
                        push_all(&mut cause, "\n");
                    },
                    Outcome::Failed { location, reason } => {
                        push_all(&mut cause, location.to_string().as_str());
                        push_all(&mut cause, " ");
                        push_all(&mut cause, reason.as_str());
                        push_all(&mut cause, "\n");
                    },
                    _ => {
                        // a failed result always has a failing outcome
                    },
                }
                assert(cause@ =~= failure_text(result.outcome));
                emit(&mut out, cause, None);
                emit_str(&mut out, "\n", None);
                proof {
                    let t = failed.take(i + 1);
                    assert(t.drop_last() =~= failed.take(i as int));
                    assert(t.last() == failed[i as int]);
                }
                i = i + 1;
                assert(segs(out@) =~= seq![plain("\n"@), plain("failures:\n"@)] + console_failures(
                    failed.take(i as int),
                ));
            }
            emit_str(&mut out, "\n", None);
            emit_str(&mut out, "failures:\n", None);
            let ghost prefix = segs(out@);
            let mut j: usize = 0;
            while j < summary.failed.len()
                invariant
                    j <= failed.len(),
                    failed == summary.failed@,
                    summary_well_named(*summary),
                    segs(out@) == prefix + console_failure_names(failed.take(j as int)),
                decreases failed.len() - j,
            {
                let mut line = string_of("    ");
                push_all(&mut line, summary.failed[j].desc.name());
                push_all(&mut line, "\n");
                emit(&mut out, line, None);
                j = j + 1;
                assert(console_failure_names(failed.take(j as int)) =~= console_failure_names(
                    failed.take(j - 1),
                ).push(plain("    "@ + failed[j - 1].desc.name_view() + "\n"@)));
                assert(segs(out@) =~= prefix + console_failure_names(failed.take(j as int)));
            }
            assert(failed.take(failed.len() as int) =~= failed);
        }
        emit_str(&mut out, "\n", None);
        emit_str(&mut out, "test result: ", None);
        let status = if summary.is_passed() {
            self.styled("ok", Color::Green)
        } else {
            self.styled("FAILED", Color::Red)
        };
        emit(&mut out, status.text, status.color);
        emit_str(&mut out, ".", None);
        let mut counts = string_of(" ");
        push_all(&mut counts, decimal_string(summary.passed.len() as u64).as_str());
        push_all(&mut counts, " passed; ");
        push_all(&mut counts, decimal_string(summary.failed.len() as u64).as_str());
        push_all(&mut counts, " failed; ");
        push_all(&mut counts, decimal_string(summary.skipped.len() as u64).as_str());
        push_all(&mut counts, " skipped; ");
        push_all(&mut counts, decimal_string(summary.filtered_out.len() as u64).as_str());
        push_all(&mut counts, " filtered out\n");
        emit(&mut out, counts, None);
        assert(segs(out@) =~= console_summary(self.color_view(), *summary));
        out
    }
}

} // verus!
