//! The report of a test suite execution and its rendering for the console.
//! Output is a sequence of text segments, each with the color it is styled
//! in; writing them to a terminal is left to the caller.

use crate::cli::{ColorConfig, ExitStatus};
use crate::outcome::{Outcome, OutcomeKind};
use crate::test::TestDesc;
use crate::text::{
    decimal,
    decimal_string,
    pad_left,
    pad_right,
    plural_suffix,
    push_all,
    push_padded_left,
    push_padded_right,
    string_of,
};
use vstd::prelude::*;
use vstd::string::*;

verus! {

/// A terminal color.
#[derive(Clone, Copy, PartialEq, Eq, Structural)]
pub enum Color {
    Green,
    Red,
    Yellow,
    Cyan,
}

/// The format of per-test output.
#[derive(Clone, Copy, PartialEq, Eq, Structural)]
pub enum OutputFormat {
    Pretty,
    Terse,
    Json,
}

/// The stream a piece of output goes to.
#[derive(Clone, Copy, PartialEq, Eq, Structural)]
pub enum Stream {
    Stdout,
    Stderr,
}

/// A piece of output text and the color it is styled in (if any).
pub struct Segment {
    pub text: String,
    pub color: Option<Color>,
}

/// The text and color of each segment.
pub open spec fn segs(v: Seq<Segment>) -> Seq<(Seq<char>, Option<Color>)> {
    v.map_values(|s: Segment| (s.text@, s.color))
}

/// An unstyled piece of text.
pub open spec fn plain(text: Seq<char>) -> (Seq<char>, Option<Color>) {
    (text, None)
}

/// The color a styled text shows in under a color configuration: none when
/// coloring is turned off.
pub open spec fn styled_color(config: ColorConfig, c: Color) -> Option<Color> {
    match config {
        ColorConfig::Never => None,
        _ => Some(c),
    }
}

/// Coloring is off exactly under `never`; otherwise a styled text shows in
/// its own color.
pub proof fn law_styled_color(config: ColorConfig, c: Color)
    ensures
        styled_color(config, c) is None <==> config == ColorConfig::Never,
        styled_color(config, c) matches Some(shown) ==> shown == c,
{
}

pub(crate) fn emit(out: &mut Vec<Segment>, text: String, color: Option<Color>)
    ensures
        segs(final(out)@) == segs(old(out)@).push((text@, color)),
{
    let ghost t = text@;
    out.push(Segment { text, color });
    assert(segs(out@) =~= segs(old(out)@).push((t, color)));
}

pub(crate) fn emit_str(out: &mut Vec<Segment>, text: &str, color: Option<Color>)
    ensures
        segs(final(out)@) == segs(old(out)@).push((text@, color)),
{
    emit(out, string_of(text), color);
}

/// The lines listing tests: `name: test` for each, then, unless quiet, a
/// blank line (when there are tests) and the count of tests.
pub open spec fn list_segments(names: Seq<Seq<char>>, quiet: bool) -> Seq<(Seq<char>, Option<Color>)> {
    names.map_values(|n: Seq<char>| plain(n + ": test\n"@)) + if quiet {
        Seq::empty()
    } else {
        (if names.len() != 0 {
            seq![plain("\n"@)]
        } else {
            Seq::empty()
        }) + seq![
            plain(
                decimal(names.len()) + " test"@ + plural_suffix(names.len()) + ", 0 benchmark"@
                    + plural_suffix(0) + "\n"@,
            ),
        ]
    }
}

/// The line of a test's result in the pretty format (`None`: ignored).
pub open spec fn pretty_result(
    config: ColorConfig,
    name: Seq<char>,
    width: nat,
    kind: Option<OutcomeKind>,
) -> Seq<(Seq<char>, Option<Color>)> {
    let head = plain("test "@ + pad_right(name, width) + " ... "@);
    match kind {
        Some(OutcomeKind::Passed) => seq![head, ("ok"@, styled_color(config, Color::Green)), plain("\n"@)],
        Some(OutcomeKind::Failed) => seq![
            head,
            ("FAILED"@, styled_color(config, Color::Red)),
            plain("\n"@),
        ],
        Some(OutcomeKind::Measured { average, variance }) => seq![
            head,
            ("bench"@, styled_color(config, Color::Cyan)),
            plain(
                ": "@ + pad_left(decimal(average as nat), 11) + " ns/iter (+/- "@ + decimal(
                    variance as nat,
                ) + ")\n"@,
            ),
        ],
        None => seq![head, ("ignored"@, styled_color(config, Color::Yellow)), plain("\n"@)],
    }
}

/// The mark of a test's result in the terse format (benchmarks use the
/// pretty format).
pub open spec fn terse_result(
    config: ColorConfig,
    name: Seq<char>,
    width: nat,
    kind: Option<OutcomeKind>,
) -> Seq<(Seq<char>, Option<Color>)> {
    match kind {
        Some(OutcomeKind::Passed) => seq![plain("."@)],
        Some(OutcomeKind::Failed) => seq![plain("F"@)],
        Some(OutcomeKind::Measured { .. }) => pretty_result(config, name, width, kind),
        None => seq![plain("i"@)],
    }
}

/// The result line of a test names how it ended: in the pretty format after
/// the padded name, `ok` (green) for a pass, `FAILED` (red) for a failure,
/// `bench` (cyan) for a benchmark and `ignored` (yellow) for an ignored test;
/// in the terse format the single mark `.`, `F` or `i`, with benchmarks
/// shown as in the pretty format.
pub proof fn law_result_words(config: ColorConfig, name: Seq<char>, width: nat, kind: Option<OutcomeKind>)
    ensures
        pretty_result(config, name, width, kind)[0] == plain("test "@ + pad_right(name, width) + " ... "@),
        pretty_result(config, name, width, kind)[1] == ("ok"@, styled_color(config, Color::Green))
            <==> kind == Some(OutcomeKind::Passed),
        pretty_result(config, name, width, kind)[1] == ("FAILED"@, styled_color(config, Color::Red))
            <==> kind == Some(OutcomeKind::Failed),
        pretty_result(config, name, width, kind)[1] == ("bench"@, styled_color(config, Color::Cyan))
            <==> kind matches Some(OutcomeKind::Measured { .. }),
        pretty_result(config, name, width, kind)[1] == ("ignored"@, styled_color(config, Color::Yellow))
            <==> kind is None,
        terse_result(config, name, width, kind) == seq![plain("."@)] <==> kind == Some(OutcomeKind::Passed),
        terse_result(config, name, width, kind) == seq![plain("F"@)] <==> kind == Some(OutcomeKind::Failed),
        terse_result(config, name, width, kind) == seq![plain("i"@)] <==> kind is None,
        kind matches Some(OutcomeKind::Measured { .. }) ==> terse_result(config, name, width, kind)
            == pretty_result(config, name, width, kind),
{
    reveal_strlit("ok");
    reveal_strlit("FAILED");
    reveal_strlit("bench");
    reveal_strlit("ignored");
    reveal_strlit(".");
    reveal_strlit("F");
    reveal_strlit("i");
    reveal_strlit("test ");
    assert("ok"@.len() == 2 && "FAILED"@.len() == 6 && "bench"@.len() == 5 && "ignored"@.len() == 7);
    assert("."@[0] != "F"@[0] && "."@[0] != "i"@[0] && "F"@[0] != "i"@[0]);
    let dot = seq![plain("."@)];
    let eff = seq![plain("F"@)];
    let eye = seq![plain("i"@)];
    assert(dot != eff) by {
        assert(dot[0] != eff[0]);
    }
    assert(dot != eye) by {
        assert(dot[0] != eye[0]);
    }
    assert(eff != eye) by {
        assert(eff[0] != eye[0]);
    }
    let p = pretty_result(config, name, width, kind);
    assert(p.len() == 3 && p[0] == plain("test "@ + pad_right(name, width) + " ... "@));
    if kind matches Some(OutcomeKind::Measured { .. }) {
        assert(p.len() == 3);
        assert(terse_result(config, name, width, kind).len() == 3);
        assert(seq![plain("."@)].len() == 1);
    }
}

/// The block describing one failed test: a header with its name, then its
/// error message (if any), ending with a line break.
pub open spec fn failure_detail(name: Seq<char>, msg: Option<Seq<char>>) -> Seq<(Seq<char>, Option<Color>)> {
    seq![plain("---- "@ + name + " ----\n"@)] + match msg {
        Some(m) => if m.len() > 0 && m.last() == '\n' {
            seq![plain(m)]
        } else {
            seq![plain(m), plain("\n"@)]
        },
        None => Seq::empty(),
    }
}

/// The blocks of all failed tests, in order.
pub open spec fn failure_details(failed: Seq<(Seq<char>, Option<Seq<char>>)>) -> Seq<(Seq<char>, Option<Color>)>
    decreases failed.len(),
{
    if failed.len() == 0 {
        Seq::empty()
    } else {
        failure_details(failed.drop_last()) + failure_detail(failed.last().0, failed.last().1)
    }
}

/// The indented list of failed test names.
pub open spec fn failure_names(failed: Seq<(Seq<char>, Option<Seq<char>>)>) -> Seq<(Seq<char>, Option<Color>)> {
    failed.map_values(|f: (Seq<char>, Option<Seq<char>>)| plain("    "@ + f.0 + "\n"@))
}

/// The failures of a run, when there are any: the details of each failed
/// test, then their names.
pub open spec fn failures_block(failed: Seq<(Seq<char>, Option<Seq<char>>)>) -> Seq<(Seq<char>, Option<Color>)> {
    if failed.len() == 0 {
        Seq::empty()
    } else {
        seq![plain("\n"@), plain("failures:\n"@)] + failure_details(failed) + seq![
            plain("\n"@),
            plain("failures:\n"@),
        ] + failure_names(failed)
    }
}

/// The styled status of a run: `ok` when no test failed, `FAILED` otherwise.
pub open spec fn run_status_segment(config: ColorConfig, num_failed: nat) -> (Seq<char>, Option<Color>) {
    if num_failed == 0 {
        ("ok"@, styled_color(config, Color::Green))
    } else {
        ("FAILED"@, styled_color(config, Color::Red))
    }
}

/// The rendering of a report: the failures (if any), then the result line.
pub open spec fn report_segments(
    config: ColorConfig,
    passed: nat,
    failed: Seq<(Seq<char>, Option<Seq<char>>)>,
    ignored: nat,
    measured: nat,
    filtered_out: nat,
) -> Seq<(Seq<char>, Option<Color>)> {
    failures_block(failed) + seq![
        plain("\n"@),
        plain("test result: "@),
        run_status_segment(config, failed.len()),
        plain(
            ". "@ + decimal(passed) + " passed; "@ + decimal(failed.len()) + " failed; "@
                + decimal(ignored) + " ignored; "@ + decimal(measured) + " measured; "@
                + decimal(filtered_out) + " filtered out\n"@,
        ),
    ]
}

/// The short rendering of a report, without ignored tests and benchmarks:
/// the failures (if any), then a result line counting passed, failed and
/// filtered-out tests.
pub open spec fn short_report_segments(
    config: ColorConfig,
    passed: nat,
    failed: Seq<(Seq<char>, Option<Seq<char>>)>,
    filtered_out: nat,
) -> Seq<(Seq<char>, Option<Color>)> {
    failures_block(failed) + seq![
        plain("\n"@),
        plain("test result: "@),
        run_status_segment(config, failed.len()),
        plain(
            ". "@ + decimal(passed) + " passed; "@ + decimal(failed.len()) + " failed; "@
                + decimal(filtered_out) + " filtered out\n"@,
        ),
    ]
}

/// The text that rendered segments print, colors aside.
pub open spec fn joined(v: Seq<(Seq<char>, Option<Color>)>) -> Seq<char>
    decreases v.len(),
{
    if v.len() == 0 {
        Seq::empty()
    } else {
        joined(v.drop_last()) + v.last().0
    }
}

proof fn lemma_joined_concat(a: Seq<(Seq<char>, Option<Color>)>, b: Seq<(Seq<char>, Option<Color>)>)
    ensures
        joined(a + b) == joined(a) + joined(b),
    decreases b.len(),
{
    if b.len() == 0 {
        assert(a + b =~= a);
        assert(joined(a) + joined(b) =~= joined(a));
    } else {
        lemma_joined_concat(a, b.drop_last());
        assert((a + b).drop_last() =~= a + b.drop_last());
        assert((a + b).last() == b.last());
        assert(joined(a) + joined(b.drop_last()) + b.last().0 =~= joined(a) + (joined(b.drop_last())
            + b.last().0));
    }
}

/// The text printed for a failure's message: the message ending in exactly
/// one added line break unless it already ends with one; nothing without a
/// message.
pub open spec fn message_text(msg: Option<Seq<char>>) -> Seq<char> {
    match msg {
        Some(m) => if m.len() > 0 && m.last() == '\n' {
            m
        } else {
            m.push('\n')
        },
        None => Seq::empty(),
    }
}

/// Two lists of failed tests that print the same text: the same names, in
/// order, with messages that print the same.
pub open spec fn same_failure_text(
    f1: Seq<(Seq<char>, Option<Seq<char>>)>,
    f2: Seq<(Seq<char>, Option<Seq<char>>)>,
) -> bool {
    &&& f1.len() == f2.len()
    &&& forall|i: int|
        #![trigger f1[i], f2[i]]
        0 <= i < f1.len() ==> f1[i].0 == f2[i].0 && message_text(f1[i].1) == message_text(f2[i].1)
}

proof fn lemma_failure_detail_text(name: Seq<char>, msg: Option<Seq<char>>)
    ensures
        joined(failure_detail(name, msg)) == "---- "@ + name + " ----\n"@ + message_text(msg),
{
    reveal_with_fuel(joined, 4);
    reveal_strlit("\n");
    let h = seq![plain("---- "@ + name + " ----\n"@)];
    match msg {
        Some(m) => {
            if m.len() > 0 && m.last() == '\n' {
                assert((h + seq![plain(m)]).drop_last() =~= h);
                assert(h.drop_last() =~= Seq::<(Seq<char>, Option<Color>)>::empty());
            } else {
                let t = h + seq![plain(m), plain("\n"@)];
                assert(t.drop_last() =~= h + seq![plain(m)]);
                assert((h + seq![plain(m)]).drop_last() =~= h);
                assert(h.drop_last() =~= Seq::<(Seq<char>, Option<Color>)>::empty());
                assert("\n"@ =~= seq!['\n']);
                assert("---- "@ + name + " ----\n"@ + m + "\n"@ =~= "---- "@ + name + " ----\n"@
                    + m.push('\n'));
            }
        },
        None => {
            assert(h + Seq::<(Seq<char>, Option<Color>)>::empty() =~= h);
            assert(h.drop_last() =~= Seq::<(Seq<char>, Option<Color>)>::empty());
            assert("---- "@ + name + " ----\n"@ + Seq::<char>::empty() =~= "---- "@ + name
                + " ----\n"@);
        },
    }
}

proof fn lemma_failures_text(f1: Seq<(Seq<char>, Option<Seq<char>>)>, f2: Seq<(Seq<char>, Option<Seq<char>>)>)
    requires
        same_failure_text(f1, f2),
    ensures
        joined(failure_details(f1)) == joined(failure_details(f2)),
        failure_names(f1) == failure_names(f2),
        joined(failures_block(f1)) == joined(failures_block(f2)),
    decreases f1.len(),
{
    if f1.len() > 0 {
        let i1 = f1.drop_last();
        let i2 = f2.drop_last();
        assert forall|i: int| #![trigger i1[i], i2[i]] 0 <= i < i1.len() implies i1[i].0 == i2[i].0
            && message_text(i1[i].1) == message_text(i2[i].1) by {
            assert(i1[i] == f1[i] && i2[i] == f2[i]);
        }
        lemma_failures_text(i1, i2);
        let n = f1.len() - 1;
        assert(f1[n].0 == f2[n].0 && message_text(f1[n].1) == message_text(f2[n].1));
        lemma_joined_concat(failure_details(i1), failure_detail(f1.last().0, f1.last().1));
        lemma_joined_concat(failure_details(i2), failure_detail(f2.last().0, f2.last().1));
        lemma_failure_detail_text(f1.last().0, f1.last().1);
        lemma_failure_detail_text(f2.last().0, f2.last().1);
        assert(failure_names(f1) =~= failure_names(f2)) by {
            assert forall|i: int| 0 <= i < f1.len() implies failure_names(f1)[i] == failure_names(
                f2,
            )[i] by {
                assert(f1[i].0 == f2[i].0);
            }
        }
        let pre = seq![plain("\n"@), plain("failures:\n"@)];
        let mid = seq![plain("\n"@), plain("failures:\n"@)];
        lemma_joined_concat(pre, failure_details(f1));
        lemma_joined_concat(pre, failure_details(f2));
        lemma_joined_concat(pre + failure_details(f1), mid);
        lemma_joined_concat(pre + failure_details(f2), mid);
        lemma_joined_concat(pre + failure_details(f1) + mid, failure_names(f1));
        lemma_joined_concat(pre + failure_details(f2) + mid, failure_names(f2));
    }
}

/// What a report prints does not depend on whether a failure's message ends
/// with its line break: each message ends with exactly one. Two reports whose
/// failed tests print the same text (the same names, and messages equal but
/// for a final line break that one of them lacks) print the same text, in
/// the full and in the short form.
pub proof fn law_message_line_break(
    config: ColorConfig,
    passed: nat,
    f1: Seq<(Seq<char>, Option<Seq<char>>)>,
    f2: Seq<(Seq<char>, Option<Seq<char>>)>,
    ignored: nat,
    measured: nat,
    filtered_out: nat,
)
    requires
        same_failure_text(f1, f2),
    ensures
        joined(report_segments(config, passed, f1, ignored, measured, filtered_out)) == joined(
            report_segments(config, passed, f2, ignored, measured, filtered_out),
        ),
        joined(short_report_segments(config, passed, f1, filtered_out)) == joined(
            short_report_segments(config, passed, f2, filtered_out),
        ),
        forall|m: Seq<char>|
            !(m.len() > 0 && m.last() == '\n') ==> #[trigger] message_text(Some(m)) == message_text(
                Some(m.push('\n')),
            ),
{
    lemma_failures_text(f1, f2);
    let t1 = seq![
        plain("\n"@),
        plain("test result: "@),
        run_status_segment(config, f1.len()),
        plain(
            ". "@ + decimal(passed) + " passed; "@ + decimal(f1.len()) + " failed; "@ + decimal(ignored)
                + " ignored; "@ + decimal(measured) + " measured; "@ + decimal(filtered_out)
                + " filtered out\n"@,
        ),
    ];
    lemma_joined_concat(failures_block(f1), t1);
    lemma_joined_concat(failures_block(f2), t1);
    let t2 = seq![
        plain("\n"@),
        plain("test result: "@),
        run_status_segment(config, f1.len()),
        plain(
            ". "@ + decimal(passed) + " passed; "@ + decimal(f1.len()) + " failed; "@ + decimal(
                filtered_out,
            ) + " filtered out\n"@,
        ),
    ];
    lemma_joined_concat(failures_block(f1), t2);
    lemma_joined_concat(failures_block(f2), t2);
    assert forall|m: Seq<char>| !(m.len() > 0 && m.last() == '\n') implies #[trigger] message_text(
        Some(m),
    ) == message_text(Some(m.push('\n'))) by {
        let m2 = m.push('\n');
        assert(m2.len() > 0);
        assert(m2.last() == '\n');
    }
}

/// A report on test suite execution.
pub struct Report<'a> {
    /// Passed test cases.
    pub passed: Vec<&'a TestDesc>,
    /// Failed test cases with the error messages.
    pub failed: Vec<(&'a TestDesc, Option<String>)>,
    /// Benchmark results: average and variance.
    pub measured: Vec<(&'a TestDesc, (u64, u64))>,
    /// Test cases skipped because they do not satisfy the execution conditions.
    pub ignored: Vec<&'a TestDesc>,
    /// Test cases filtered out.
    pub filtered_out: Vec<&'a TestDesc>,
}

/// The text of an optional message.
pub open spec fn opt_view(m: Option<String>) -> Option<Seq<char>> {
    match m {
        Some(s) => Some(s@),
        None => None,
    }
}

impl<'a> Report<'a> {
    /// The failed tests as names and message texts.
    pub open spec fn failed_view(&self) -> Seq<(Seq<char>, Option<Seq<char>>)> {
        self.failed@.map_values(
            |f: (&'a TestDesc, Option<String>)| (f.0.name_view(), opt_view(f.1)),
        )
    }

    /// Every test named in the report has a name of the `crate::path` form.
    pub open spec fn well_named(&self) -> bool {
        forall|i: int| 0 <= i < self.failed@.len() ==> #[trigger] self.failed@[i].0.well_named()
    }

    /// Return an exit status used as a result of the test process: success
    /// exactly when no test failed.
    pub fn status(&self) -> (r: ExitStatus)
        ensures
            r.0 == (if self.failed@.len() == 0 {
                0i32
            } else {
                101i32
            }),
    {
        if self.failed.len() == 0 {
            ExitStatus::ok()
        } else {
            ExitStatus::failed()
        }
    }

    /// The skipped test cases with why they were skipped: the ignored ones,
    /// then the filtered-out ones.
    pub fn skipped(&self) -> (r: Vec<(&'a TestDesc, &'static str)>)
        ensures
            r@.len() == self.ignored@.len() + self.filtered_out@.len(),
            forall|i: int|
                #![trigger r@[i]]
                0 <= i < self.ignored@.len() ==> r@[i].0 == self.ignored@[i] && r@[i].1@
                    == "ignored"@,
            forall|i: int|
                #![trigger r@[i]]
                self.ignored@.len() <= i < r@.len() ==> r@[i].0 == self.filtered_out@[i
                    - self.ignored@.len()] && r@[i].1@ == "filtered out"@,
    {
        let mut r: Vec<(&'a TestDesc, &'static str)> = Vec::new();
        let mut i: usize = 0;
        while i < self.ignored.len()
            invariant
                i <= self.ignored@.len(),
                r@.len() == i,
                forall|k: int|
                    #![trigger r@[k]]
                    0 <= k < i ==> r@[k].0 == self.ignored@[k] && r@[k].1@ == "ignored"@,
            decreases self.ignored@.len() - i,
        {
            r.push((self.ignored[i], "ignored"));
            i = i + 1;
        }
        let mut j: usize = 0;
        while j < self.filtered_out.len()
            invariant
                j <= self.filtered_out@.len(),
                r@.len() == self.ignored@.len() + j,
                forall|k: int|
                    #![trigger r@[k]]
                    0 <= k < self.ignored@.len() ==> r@[k].0 == self.ignored@[k] && r@[k].1@
                        == "ignored"@,
                forall|k: int|
                    #![trigger r@[k]]
                    self.ignored@.len() <= k < r@.len() ==> r@[k].0 == self.filtered_out@[k
                        - self.ignored@.len()] && r@[k].1@ == "filtered out"@,
            decreases self.filtered_out@.len() - j,
        {
            r.push((self.filtered_out[j], "filtered out"));
            j = j + 1;
        }
        r
    }

    /// Render the report: the details and names of failed tests, then the
    /// result line with the count of each kind of test.
    pub fn print(&self, printer: &Printer) -> (r: Vec<Segment>)
        requires
            self.well_named(),
        ensures
            segs(r@) == report_segments(
                printer.color_view(),
                self.passed@.len(),
                self.failed_view(),
                self.ignored@.len(),
                self.measured@.len(),
                self.filtered_out@.len(),
            ),
    {
        let mut out: Vec<Segment> = Vec::new();
        emit_failures(&mut out, &self.failed);
        emit_str(&mut out, "\n", None);
        emit_str(&mut out, "test result: ", None);
        let status = printer.run_status(self.failed.len());
        emit(&mut out, status.text, status.color);
        let mut counts = string_of(". ");
        push_all(&mut counts, decimal_string(self.passed.len() as u64).as_str());
        push_all(&mut counts, " passed; ");
        push_all(&mut counts, decimal_string(self.failed.len() as u64).as_str());
        push_all(&mut counts, " failed; ");
        push_all(&mut counts, decimal_string(self.ignored.len() as u64).as_str());
        push_all(&mut counts, " ignored; ");
        push_all(&mut counts, decimal_string(self.measured.len() as u64).as_str());
        push_all(&mut counts, " measured; ");
        push_all(&mut counts, decimal_string(self.filtered_out.len() as u64).as_str());
        push_all(&mut counts, " filtered out\n");
        emit(&mut out, counts, None);
        assert(segs(out@) =~= report_segments(
            printer.color_view(),
            self.passed@.len(),
            self.failed_view(),
            self.ignored@.len(),
            self.measured@.len(),
            self.filtered_out@.len(),
        ));
        out
    }
}

/// Append the failures block of these failed tests.
fn emit_failures<'a>(out: &mut Vec<Segment>, failed: &Vec<(&'a TestDesc, Option<String>)>)
    requires
        forall|i: int| 0 <= i < failed@.len() ==> #[trigger] failed@[i].0.well_named(),
    ensures
        segs(final(out)@) == segs(old(out)@) + failures_block(
            failed@.map_values(|f: (&'a TestDesc, Option<String>)| (f.0.name_view(), opt_view(f.1))),
        ),
{
    let ghost fv = failed@.map_values(
        |f: (&'a TestDesc, Option<String>)| (f.0.name_view(), opt_view(f.1)),
    );
    let ghost start = segs(out@);
    if failed.len() == 0 {
        assert(segs(out@) =~= start + failures_block(fv));
        return ;
    }
    emit_str(out, "\n", None);
    emit_str(out, "failures:\n", None);
    let mut i: usize = 0;
    while i < failed.len()
        invariant
            i <= failed@.len(),
            failed@.len() > 0,
            fv == failed@.map_values(
                |f: (&'a TestDesc, Option<String>)| (f.0.name_view(), opt_view(f.1)),
            ),
            forall|k: int| 0 <= k < failed@.len() ==> #[trigger] failed@[k].0.well_named(),
            segs(out@) == start + seq![plain("\n"@), plain("failures:\n"@)] + failure_details(
                fv.take(i as int),
            ),
        decreases failed@.len() - i,
    {
        let (desc, msg) = &failed[i];
        let mut header = string_of("---- ");
        push_all(&mut header, desc.name());
        push_all(&mut header, " ----\n");
        emit(out, header, None);
        match msg {
            Some(m) => {
                let len = m.as_str().unicode_len();
                let ends_with_newline = len > 0 && m.as_str().get_char(len - 1) == '\n';
                emit_str(out, m.as_str(), None);
                if !ends_with_newline {
                    emit_str(out, "\n", None);
                }
            },
            None => {},
        }
        proof {
            let t = fv.take(i + 1);
            assert(t.drop_last() =~= fv.take(i as int));
            assert(t.last() == fv[i as int]);
        }
        i = i + 1;
        assert(segs(out@) =~= start + seq![plain("\n"@), plain("failures:\n"@)] + failure_details(
            fv.take(i as int),
        ));
    }
    emit_str(out, "\n", None);
    emit_str(out, "failures:\n", None);
    let ghost prefix = segs(out@);
    let mut j: usize = 0;
    while j < failed.len()
        invariant
            j <= failed@.len(),
            fv == failed@.map_values(
                |f: (&'a TestDesc, Option<String>)| (f.0.name_view(), opt_view(f.1)),
            ),
            forall|k: int| 0 <= k < failed@.len() ==> #[trigger] failed@[k].0.well_named(),
            segs(out@) == prefix + failure_names(fv.take(j as int)),
        decreases failed@.len() - j,
    {
        let mut line = string_of("    ");
        push_all(&mut line, failed[j].0.name());
        push_all(&mut line, "\n");
        emit(out, line, None);
        j = j + 1;
        assert(failure_names(fv.take(j as int)) =~= failure_names(fv.take(j - 1)).push(
            plain("    "@ + fv[j - 1].0 + "\n"@),
        ));
        assert(segs(out@) =~= prefix + failure_names(fv.take(j as int)));
    }
    assert(fv.take(fv.len() as int) =~= fv);
    assert(segs(out@) =~= start + failures_block(fv));
}

/// Renders per-test output under a format and a color configuration.
pub struct Printer {
    format: OutputFormat,
    color: ColorConfig,
}

impl Printer {
    /// The output format.
    pub closed spec fn format_view(&self) -> OutputFormat {
        self.format
    }

    /// The color configuration.
    pub closed spec fn color_view(&self) -> ColorConfig {
        self.color
    }

    /// A printer for this format and color configuration.
    pub fn new(format: OutputFormat, color: ColorConfig) -> (r: Self)
        ensures
            r.format_view() == format,
            r.color_view() == color,
    {
        Printer { format, color }
    }

    /// `text` styled in `color` (plain when coloring is turned off).
    pub fn styled(&self, text: &str, color: Color) -> (r: Segment)
        ensures
            r.text@ == text@,
            r.color == styled_color(self.color_view(), color),
    {
        let c = match self.color {
            ColorConfig::Never => None,
            _ => Some(color),
        };
        Segment { text: string_of(text), color: c }
    }

    /// The styled status of a run with `num_failed` failed tests.
    fn run_status(&self, num_failed: usize) -> (r: Segment)
        ensures
            (r.text@, r.color) == run_status_segment(self.color_view(), num_failed as nat),
    {
        if num_failed == 0 {
            self.styled("ok", Color::Green)
        } else {
            self.styled("FAILED", Color::Red)
        }
    }

    /// Render a report in the short form: the details and names of failed
    /// tests, then the counts of passed, failed and filtered-out tests.
    pub fn print_report(&self, report: &Report) -> (r: Vec<Segment>)
        requires
            report.well_named(),
        ensures
            segs(r@) == short_report_segments(
                self.color_view(),
                report.passed@.len(),
                report.failed_view(),
                report.filtered_out@.len(),
            ),
    {
        let mut out: Vec<Segment> = Vec::new();
        emit_failures(&mut out, &report.failed);
        emit_str(&mut out, "\n", None);
        emit_str(&mut out, "test result: ", None);
        let status = self.run_status(report.failed.len());
        emit(&mut out, status.text, status.color);
        let mut counts = string_of(". ");
        push_all(&mut counts, decimal_string(report.passed.len() as u64).as_str());
        push_all(&mut counts, " passed; ");
        push_all(&mut counts, decimal_string(report.failed.len() as u64).as_str());
        push_all(&mut counts, " failed; ");
        push_all(&mut counts, decimal_string(report.filtered_out.len() as u64).as_str());
        push_all(&mut counts, " filtered out\n");
        emit(&mut out, counts, None);
        assert(segs(out@) =~= short_report_segments(
            self.color_view(),
            report.passed@.len(),
            report.failed_view(),
            report.filtered_out@.len(),
        ));
        out
    }

    /// List the tests by name; unless the format is terse, end with their count.
    pub fn print_list(&self, tests: &Vec<&TestDesc>) -> (r: Vec<Segment>)
        requires
            forall|i: int| 0 <= i < tests@.len() ==> #[trigger] tests@[i].well_named(),
        ensures
            segs(r@) == list_segments(
                tests@.map_values(|t: &TestDesc| t.name_view()),
                self.format_view() == OutputFormat::Terse,
            ),
    {
        let ghost names = tests@.map_values(|t: &TestDesc| t.name_view());
        let quiet = match self.format {
            OutputFormat::Terse => true,
            _ => false,
        };
        let mut out: Vec<Segment> = Vec::new();
        let mut num_tests: usize = 0;
        while num_tests < tests.len()
            invariant
                num_tests <= tests@.len(),
                names == tests@.map_values(|t: &TestDesc| t.name_view()),
                forall|i: int| 0 <= i < tests@.len() ==> #[trigger] tests@[i].well_named(),
                segs(out@) == names.take(num_tests as int).map_values(
                    |n: Seq<char>| plain(n + ": test\n"@),
                ),
            decreases tests@.len() - num_tests,
        {
            let mut line = string_of(tests[num_tests].name());
            push_all(&mut line, ": test\n");
            emit(&mut out, line, None);
            num_tests = num_tests + 1;
            assert(names.take(num_tests as int).map_values(|n: Seq<char>| plain(n + ": test\n"@))
                =~= names.take(num_tests - 1).map_values(|n: Seq<char>| plain(n + ": test\n"@)).push(
                plain(names[num_tests - 1] + ": test\n"@),
            ));
        }
        assert(names.take(names.len() as int) =~= names);
        if !quiet {
            if num_tests != 0 {
                emit_str(&mut out, "\n", None);
            }
            let mut line = decimal_string(num_tests as u64);
            push_all(&mut line, " test");
            if num_tests != 1 {
                push_all(&mut line, "s");
            }
            push_all(&mut line, ", 0 benchmarks\n");
            proof {
                reveal_strlit("s");
                reveal_strlit(", 0 benchmarks\n");
                reveal_strlit(", 0 benchmark");
                reveal_strlit("\n");
                assert(", 0 benchmarks\n"@ =~= ", 0 benchmark"@ + plural_suffix(0) + "\n"@);
                assert(line@ =~= decimal(names.len()) + " test"@ + plural_suffix(names.len())
                    + ", 0 benchmark"@ + plural_suffix(0) + "\n"@);
            }
            emit(&mut out, line, None);
        }
        assert(num_tests == names.len());
        if quiet {
            assert(segs(out@) =~= list_segments(names, quiet));
        } else {
            assert(segs(out@) =~= list_segments(names, quiet));
        }
        out
    }

    /// The result of one test in the format of this printer, and the stream
    /// it goes to (a warning on standard error for the unsupported JSON format).
    pub fn print_result(&self, desc: &TestDesc, name_length: usize, outcome: Option<&Outcome>) -> (r: (
        Stream,
        Vec<Segment>,
    ))
        requires
            desc.well_named(),
        ensures
            ({
                let kind = match outcome {
                    Some(o) => Some(o.kind_view()),
                    None => None,
                };
                match self.format_view() {
                    OutputFormat::Pretty => r.0 == Stream::Stdout && segs(r.1@) == pretty_result(
                        self.color_view(),
                        desc.name_view(),
                        name_length as nat,
                        kind,
                    ),
                    OutputFormat::Terse => r.0 == Stream::Stdout && segs(r.1@) == terse_result(
                        self.color_view(),
                        desc.name_view(),
                        name_length as nat,
                        kind,
                    ),
                    OutputFormat::Json => r.0 == Stream::Stderr && segs(r.1@) == seq![
                        ("warning"@, styled_color(self.color_view(), Color::Yellow)),
                        plain(": JSON format is not supported\n"@),
                    ],
                }
            }),
    {
        match self.format {
            OutputFormat::Pretty => (Stream::Stdout, self.print_result_pretty(desc, name_length, outcome)),
            OutputFormat::Terse => (Stream::Stdout, self.print_result_terse(desc, name_length, outcome)),
            OutputFormat::Json => {
                let mut out: Vec<Segment> = Vec::new();
                let warning = self.styled("warning", Color::Yellow);
                emit(&mut out, warning.text, warning.color);
                emit_str(&mut out, ": JSON format is not supported\n", None);
                assert(segs(out@) =~= seq![
                    ("warning"@, styled_color(self.color_view(), Color::Yellow)),
                    plain(": JSON format is not supported\n"@),
                ]);
                (Stream::Stderr, out)
            },
        }
    }

    /// The result of one test in the pretty format: its name padded to
    /// `name_length`, then the styled status.
    pub fn print_result_pretty(&self, desc: &TestDesc, name_length: usize, outcome: Option<&Outcome>) -> (r:
        Vec<Segment>)
        requires
            desc.well_named(),
        ensures
            segs(r@) == pretty_result(
                self.color_view(),
                desc.name_view(),
                name_length as nat,
                match outcome {
                    Some(o) => Some(o.kind_view()),
                    None => None,
                },
            ),
    {
        let mut out: Vec<Segment> = Vec::new();
        let mut head = string_of("test ");
        push_padded_right(&mut head, desc.name(), name_length);
        push_all(&mut head, " ... ");
        emit(&mut out, head, None);
        match outcome {
            Some(o) => match o.kind() {
                OutcomeKind::Passed => {
                    let s = self.styled("ok", Color::Green);
                    emit(&mut out, s.text, s.color);
                    emit_str(&mut out, "\n", None);
                },
                OutcomeKind::Failed => {
                    let s = self.styled("FAILED", Color::Red);
                    emit(&mut out, s.text, s.color);
                    emit_str(&mut out, "\n", None);
                },
                OutcomeKind::Measured { average, variance } => {
                    let s = self.styled("bench", Color::Cyan);
                    emit(&mut out, s.text, s.color);
                    let mut tail = string_of(": ");
                    push_padded_left(&mut tail, decimal_string(*average).as_str(), 11);
                    push_all(&mut tail, " ns/iter (+/- ");
                    push_all(&mut tail, decimal_string(*variance).as_str());
                    push_all(&mut tail, ")\n");
                    emit(&mut out, tail, None);
                },
            },
            None => {
                let s = self.styled("ignored", Color::Yellow);
                emit(&mut out, s.text, s.color);
                emit_str(&mut out, "\n", None);
            },
        }
        let ghost kind = match outcome {
            Some(o) => Some(o.kind_view()),
            None => None,
        };
        assert(segs(out@) =~= pretty_result(
            self.color_view(),
            desc.name_view(),
            name_length as nat,
            kind,
        ));
        out
    }

    /// The result of one test in the terse format: a single mark, except for
    /// benchmarks, which use the pretty format.
    pub fn print_result_terse(&self, desc: &TestDesc, name_length: usize, outcome: Option<&Outcome>) -> (r:
        Vec<Segment>)
        requires
            desc.well_named(),
        ensures
            segs(r@) == terse_result(
                self.color_view(),
                desc.name_view(),
                name_length as nat,
                match outcome {
                    Some(o) => Some(o.kind_view()),
                    None => None,
                },
            ),
    {
        let mark = match outcome {
            Some(o) => match o.kind() {
                OutcomeKind::Passed => ".",
                OutcomeKind::Failed => "F",
                OutcomeKind::Measured { .. } => {
                    return self.print_result_pretty(desc, name_length, outcome);
                },
            },
            None => "i",
        };
        let mut out: Vec<Segment> = Vec::new();
        emit_str(&mut out, mark, None);
        let ghost kind = match outcome {
            Some(o) => Some(o.kind_view()),
            None => None,
        };
        assert(segs(out@) =~= terse_result(
            self.color_view(),
            desc.name_view(),
            name_length as nat,
            kind,
        ));
        out
    }
}

} // verus!
