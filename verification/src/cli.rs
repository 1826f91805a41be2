//! Command-line settings of a test run: filters, colors and exit statuses.

use crate::text::{contains_seq, contains_str, occurs_at, push_all, str_equal, string_of};
use vstd::prelude::*;
use vstd::string::*;

verus! {

/// Exit status code used as a result of the test process.
pub struct ExitStatus(pub i32);

impl ExitStatus {
    /// The status of a successful run (code 0).
    pub fn ok() -> (r: ExitStatus)
        ensures
            r.0 == 0,
    {
        ExitStatus(0)
    }

    /// The status of a failed run (code 101).
    pub fn failed() -> (r: ExitStatus)
        ensures
            r.0 == 101,
    {
        ExitStatus(101)
    }

    /// Return the raw exit code.
    pub fn code(self) -> (r: i32)
        ensures
            r == self.0,
    {
        self.0
    }
}

/// The color configuration.
#[derive(Clone, Copy, PartialEq, Eq, Structural)]
pub enum ColorConfig {
    Auto,
    Always,
    Never,
}

/// The message of a rejected `--color` argument.
pub open spec fn color_error_message(value: Seq<char>) -> Seq<char> {
    "argument for --color must be auto, always, or never (was "@ + value + ")"@
}

impl ColorConfig {
    /// Parse the argument of `--color`: `auto`, `always` or `never`.
    pub fn from_str(s: &str) -> (r: Result<ColorConfig, String>)
        ensures
            s@ == "auto"@ ==> r == Ok::<ColorConfig, String>(ColorConfig::Auto),
            s@ == "always"@ ==> r == Ok::<ColorConfig, String>(ColorConfig::Always),
            s@ == "never"@ ==> r == Ok::<ColorConfig, String>(ColorConfig::Never),
            s@ != "auto"@ && s@ != "always"@ && s@ != "never"@ ==> r is Err && r->Err_0@
                == color_error_message(s@),
    {
        proof {
            reveal_strlit("auto");
            reveal_strlit("always");
            reveal_strlit("never");
            assert("auto"@.len() == 4);
            assert("always"@.len() == 6);
            assert("never"@.len() == 5);
        }
        if str_equal(s, "auto") {
            Ok(ColorConfig::Auto)
        } else if str_equal(s, "always") {
            Ok(ColorConfig::Always)
        } else if str_equal(s, "never") {
            Ok(ColorConfig::Never)
        } else {
            let mut msg = string_of("argument for --color must be auto, always, or never (was ");
            push_all(&mut msg, s);
            push_all(&mut msg, ")");
            Err(msg)
        }
    }
}

/// Command line arguments.
pub struct Args {
    pub list_tests: bool,
    pub filter_pattern: Option<String>,
    pub filter_exact: bool,
    pub color: ColorConfig,
    pub skip_patterns: Vec<String>,
}

/// Whether a test named `name` matches the pattern `pat`: equal to it when
/// matching exactly, containing it otherwise.
pub open spec fn matches_filter(exact: bool, name: Seq<char>, pat: Seq<char>) -> bool {
    if exact {
        name == pat
    } else {
        contains_seq(name, pat)
    }
}

impl Args {
    /// Whether the test named `name` is left out of the run: it does not match
    /// the filter pattern (when there is one), or it matches a skip pattern.
    pub open spec fn filters_out(&self, name: Seq<char>) -> bool {
        ||| (self.filter_pattern is Some && !matches_filter(
            self.filter_exact,
            name,
            self.filter_pattern->0@,
        ))
        ||| exists|i: int|
            0 <= i < self.skip_patterns@.len() && matches_filter(
                self.filter_exact,
                name,
                #[trigger] self.skip_patterns@[i]@,
            )
    }

    fn matches_filter(&self, test_name: &str, pat: &str) -> (r: bool)
        ensures
            r == matches_filter(self.filter_exact, test_name@, pat@),
    {
        if self.filter_exact {
            str_equal(test_name, pat)
        } else {
            contains_str(test_name, pat)
        }
    }

    /// Whether the test named `test_name` is filtered out of the run.
    pub fn is_filtered_out(&self, test_name: &str) -> (r: bool)
        ensures
            r == self.filters_out(test_name@),
    {
        let fails_filter = match &self.filter_pattern {
            Some(pat) => !self.matches_filter(test_name, pat.as_str()),
            None => false,
        };
        if fails_filter {
            return true;
        }
        let mut i: usize = 0;
        while i < self.skip_patterns.len()
            invariant
                i <= self.skip_patterns@.len(),
                forall|k: int|
                    0 <= k < i ==> !matches_filter(
                        self.filter_exact,
                        test_name@,
                        #[trigger] self.skip_patterns@[k]@,
                    ),
            decreases self.skip_patterns@.len() - i,
        {
            if self.matches_filter(test_name, self.skip_patterns[i].as_str()) {
                return true;
            }
            i = i + 1;
        }
        false
    }
}

/// How the filters select the tests of a run: without a filter pattern and
/// skip patterns every test runs; with a filter pattern only tests whose name
/// contains it (equals it, when matching exactly) may run; a test whose name
/// contains (equals) a skip pattern never runs; and with a substring filter
/// alone, a test runs exactly when its name contains the filter.
pub proof fn law_filter_selection(args: &Args, name: Seq<char>)
    ensures
        args.filter_pattern is None && args.skip_patterns@.len() == 0 ==> !args.filters_out(name),
        args.filter_pattern is Some && !args.filters_out(name) ==> matches_filter(
            args.filter_exact,
            name,
            args.filter_pattern->0@,
        ),
        forall|i: int|
            0 <= i < args.skip_patterns@.len() && matches_filter(
                args.filter_exact,
                name,
                #[trigger] args.skip_patterns@[i]@,
            ) ==> args.filters_out(name),
        !args.filter_exact && args.filter_pattern is Some && args.skip_patterns@.len() == 0 ==> (
        args.filters_out(name) <==> !contains_seq(name, args.filter_pattern->0@)),
{
}

/// What matching a filter pattern means: with exact matching a name matches
/// exactly the pattern equal to it; otherwise it matches a pattern that
/// occurs somewhere in it, the empty pattern included. So with an exact
/// filter and no skip patterns, a test is filtered out exactly when its name
/// differs from the filter.
pub proof fn law_filter_matching(args: &Args, name: Seq<char>, pat: Seq<char>)
    ensures
        matches_filter(true, name, pat) <==> name == pat,
        matches_filter(false, name, pat) <==> exists|i: int|
            0 <= i && i + pat.len() <= name.len() && #[trigger] name.subrange(i, i + pat.len()) == pat,
        matches_filter(false, name, Seq::empty()),
        matches_filter(false, name, name),
        args.filter_exact && args.filter_pattern is Some && args.skip_patterns@.len() == 0 ==> (
        args.filters_out(name) <==> name != args.filter_pattern->0@),
{
    assert(name.subrange(0, 0) =~= Seq::<char>::empty());
    assert(occurs_at(name, Seq::empty(), 0));
    assert(name.subrange(0, name.len() as int) =~= name);
    assert(occurs_at(name, name, 0));
    if matches_filter(false, name, pat) {
        let i = choose|i: int| occurs_at(name, pat, i);
        assert(name.subrange(i, i + pat.len()) == pat);
    }
    if exists|i: int|
        0 <= i && i + pat.len() <= name.len() && #[trigger] name.subrange(i, i + pat.len()) == pat {
        let i = choose|i: int|
            0 <= i && i + pat.len() <= name.len() && #[trigger] name.subrange(i, i + pat.len()) == pat;
        assert(occurs_at(name, pat, i));
    }
}

} // verus!
