//! Parsing the command line of a test binary with getopts.

use crate::cli::{color_error_message, Args, ColorConfig};
use vstd::prelude::*;
use vstd::string::*;
use vstd::utf8::is_ascii_chars;

verus! {

#[verifier::external_type_specification]
#[verifier::external_body]
pub struct ExOptions(getopts::Options);

#[verifier::external_type_specification]
#[verifier::external_body]
pub struct ExMatches(getopts::Matches);

/// The option groups an `Options` holds, in order: short name, long name,
/// description, hint, whether it takes an argument (1) or not (0), and
/// whether it may occur more than once (1) or at most once (0). Every
/// `Options` of this crate is made by `options_new` and grown by the `opt*`
/// wrappers, so it keeps getopts' default parsing style (free arguments may
/// be mixed with options) and its long-only mode stays off; the names
/// `getopts_parse` and `getopts_usage` stand for parsing and usage under
/// those defaults.
pub uninterp spec fn option_groups(o: getopts::Options) -> Seq<(Seq<char>, Seq<char>, Seq<char>, Seq<char>, int, int)>;

/// What a `Matches` holds: the names (short, long) of the option groups it
/// was parsed against, one per option, in order; the values given to each
/// option in order of the command line, without their positions (`None` for
/// an occurrence without a value); and the free arguments. An option name is
/// looked up among the groups as getopts' `find_opt` does (`find_group`).
pub uninterp spec fn matches_content(m: getopts::Matches) -> (
    Seq<(Seq<char>, Seq<char>)>,
    Seq<Seq<Option<Seq<char>>>>,
    Seq<Seq<char>>,
);

/// The result of getopts' `Options::parse` on these option groups and
/// arguments: the values of each option and the free arguments, or the
/// rendering of the failure.
pub uninterp spec fn getopts_parse(
    groups: Seq<(Seq<char>, Seq<char>, Seq<char>, Seq<char>, int, int)>,
    args: Seq<Seq<char>>,
) -> Result<(Seq<Seq<Option<Seq<char>>>>, Seq<Seq<char>>), Seq<char>>;

/// The short and long names of option groups.
pub open spec fn group_names(groups: Seq<(Seq<char>, Seq<char>, Seq<char>, Seq<char>, int, int)>) -> Seq<(Seq<char>, Seq<char>)> {
    groups.map_values(|g: (Seq<char>, Seq<char>, Seq<char>, Seq<char>, int, int)| (g.0, g.1))
}

/// Option names as getopts accepts them: a short name of at most one
/// character, a long name of none or more than one, not both empty.
pub open spec fn valid_names(short: Seq<char>, long: Seq<char>) -> bool {
    &&& short.len() <= 1
    &&& long.len() != 1
    &&& short.len() + long.len() > 0
    &&& is_ascii_chars(short)
    &&& is_ascii_chars(long)
}

/// The first group whose main name is the short name `nm` (a group with a
/// short name and no long name), or -1.
pub open spec fn find_short_main(names: Seq<(Seq<char>, Seq<char>)>, nm: Seq<char>, i: int) -> int
    decreases names.len() - i,
{
    if i < 0 || i >= names.len() {
        -1
    } else if names[i].1.len() == 0 && names[i].0 == nm {
        i
    } else {
        find_short_main(names, nm, i + 1)
    }
}

/// The first group that has `nm` as the short alias of its long name, or -1.
pub open spec fn find_short_alias(names: Seq<(Seq<char>, Seq<char>)>, nm: Seq<char>, i: int) -> int
    decreases names.len() - i,
{
    if i < 0 || i >= names.len() {
        -1
    } else if names[i].1.len() != 0 && names[i].0 == nm {
        i
    } else {
        find_short_alias(names, nm, i + 1)
    }
}

/// The first group whose main name is the long name `nm` (a group with a
/// non-empty long name), or -1.
pub open spec fn find_long(names: Seq<(Seq<char>, Seq<char>)>, nm: Seq<char>, i: int) -> int
    decreases names.len() - i,
{
    if i < 0 || i >= names.len() {
        -1
    } else if names[i].1.len() != 0 && names[i].1 == nm {
        i
    } else {
        find_long(names, nm, i + 1)
    }
}

/// The group an option name refers to, as getopts looks it up: a
/// one-character name is a short name, found first among the groups known by
/// it alone; failing that, a group that has it as the alias of a long name
/// stands for the first group with that long name. A longer name is a long
/// name.
pub open spec fn find_group(names: Seq<(Seq<char>, Seq<char>)>, nm: Seq<char>) -> int {
    if nm.len() == 1 {
        if find_short_main(names, nm, 0) >= 0 {
            find_short_main(names, nm, 0)
        } else if find_short_alias(names, nm, 0) >= 0 {
            find_long(names, names[find_short_alias(names, nm, 0)].1, 0)
        } else {
            -1
        }
    } else {
        find_long(names, nm, 0)
    }
}

/// Whether the option name refers to one of the groups.
pub open spec fn defined(names: Seq<(Seq<char>, Seq<char>)>, nm: Seq<char>) -> bool {
    nm.len() > 0 && is_ascii_chars(nm) && 0 <= find_group(names, nm) < names.len()
}

/// The values matched for the option named `nm`.
pub open spec fn values_of(
    content: (Seq<(Seq<char>, Seq<char>)>, Seq<Seq<Option<Seq<char>>>>, Seq<Seq<char>>),
    nm: Seq<char>,
) -> Seq<Option<Seq<char>>> {
    content.1[find_group(content.0, nm)]
}

/// The values that are strings.
pub open spec fn given_strings(vals: Seq<Option<Seq<char>>>) -> Seq<Seq<char>> {
    vals.filter(|v: Option<Seq<char>>| v is Some).map_values(|v: Option<Seq<char>>| v->0)
}

/// Create a blank set of options (`Options::new`).
#[verifier::external_body]
fn options_new() -> (r: getopts::Options)
    ensures
        option_groups(r) == Seq::<(Seq<char>, Seq<char>, Seq<char>, Seq<char>, int, int)>::empty(),
{
    getopts::Options::new()
}

/// Add an optional flag without argument (`Options::optflag`).
#[verifier::external_body]
fn options_optflag(opts: &mut getopts::Options, short_name: &str, long_name: &str, desc: &str)
    requires
        valid_names(short_name@, long_name@),
    ensures
        option_groups(*final(opts)) == option_groups(*old(opts)).push(
            (short_name@, long_name@, desc@, ""@, 0, 0),
        ),
{
    opts.optflag(short_name, long_name, desc);
}

/// Add an optional option taking an argument (`Options::optopt`).
#[verifier::external_body]
fn options_optopt(opts: &mut getopts::Options, short_name: &str, long_name: &str, desc: &str, hint: &str)
    requires
        valid_names(short_name@, long_name@),
    ensures
        option_groups(*final(opts)) == option_groups(*old(opts)).push(
            (short_name@, long_name@, desc@, hint@, 1, 0),
        ),
{
    opts.optopt(short_name, long_name, desc, hint);
}

/// Add an option taking an argument that may occur several times
/// (`Options::optmulti`).
#[verifier::external_body]
fn options_optmulti(opts: &mut getopts::Options, short_name: &str, long_name: &str, desc: &str, hint: &str)
    requires
        valid_names(short_name@, long_name@),
    ensures
        option_groups(*final(opts)) == option_groups(*old(opts)).push(
            (short_name@, long_name@, desc@, hint@, 1, 1),
        ),
{
    opts.optmulti(short_name, long_name, desc, hint);
}

/// Parse arguments against the options (`Options::parse`); a failure is
/// given as its rendering.
#[verifier::external_body]
fn options_parse(opts: &getopts::Options, args: &Vec<String>) -> (r: Result<getopts::Matches, String>)
    ensures
        match r {
            Ok(m) => getopts_parse(option_groups(*opts), args@.map_values(|s: String| s@)) == Ok::<
                (Seq<Seq<Option<Seq<char>>>>, Seq<Seq<char>>),
                Seq<char>,
            >((matches_content(m).1, matches_content(m).2)) && matches_content(m).0 == group_names(
                option_groups(*opts),
            ),
            Err(e) => getopts_parse(option_groups(*opts), args@.map_values(|s: String| s@)) == Err::<
                (Seq<Seq<Option<Seq<char>>>>, Seq<Seq<char>>),
                Seq<char>,
            >(e@),
        },
{
    match opts.parse(args) {
        Ok(m) => Ok(m),
        Err(f) => Err(f.to_string()),
    }
}

/// The usage message of getopts' `Options::usage` for these option groups
/// after this brief line.
pub uninterp spec fn getopts_usage(groups: Seq<(Seq<char>, Seq<char>, Seq<char>, Seq<char>, int, int)>, brief: Seq<char>) -> Seq<char>;

/// The usage message of the options after a brief line (`Options::usage`).
#[verifier::external_body]
fn options_usage(opts: &getopts::Options, brief: &str) -> (r: String)
    ensures
        r@ == getopts_usage(option_groups(*opts), brief@),
{
    opts.usage(brief)
}

/// Whether the option was matched (`Matches::opt_present`).
#[verifier::external_body]
fn matches_opt_present(m: &getopts::Matches, name: &str) -> (r: bool)
    requires
        defined(matches_content(*m).0, name@),
    ensures
        r == (values_of(matches_content(*m), name@).len() > 0),
{
    m.opt_present(name)
}

/// The argument of the first match of the option, when it has one
/// (`Matches::opt_str`).
#[verifier::external_body]
fn matches_opt_str(m: &getopts::Matches, name: &str) -> (r: Option<String>)
    requires
        defined(matches_content(*m).0, name@),
    ensures
        ({
            let vals = values_of(matches_content(*m), name@);
            match r {
                Some(s) => vals.len() > 0 && vals[0] == Some(s@),
                None => vals.len() == 0 || vals[0] is None,
            }
        }),
{
    m.opt_str(name)
}

/// The arguments of all matches of the option (`Matches::opt_strs`).
#[verifier::external_body]
fn matches_opt_strs(m: &getopts::Matches, name: &str) -> (r: Vec<String>)
    requires
        defined(matches_content(*m).0, name@),
    ensures
        r@.map_values(|s: String| s@) == given_strings(values_of(matches_content(*m), name@)),
{
    m.opt_strs(name)
}

/// The free arguments (the `free` field of `Matches`).
#[verifier::external_body]
fn matches_free(m: &getopts::Matches) -> (r: Vec<String>)
    ensures
        r@.map_values(|s: String| s@) == matches_content(*m).2,
{
    m.free.clone()
}

/// The option groups of a test binary's command line.
pub open spec fn harness_groups() -> Seq<(Seq<char>, Seq<char>, Seq<char>, Seq<char>, int, int)> {
    seq![
        ("h"@, "help"@, "Display this message (longer with --help)"@, ""@, 0, 0),
        (""@, "list"@, "List all tests and benchmarks"@, ""@, 0, 0),
        (""@, "exact"@, "Exactly match filters rather than by substring"@, ""@, 0, 0),
        (""@, "color"@, color_description(), "auto|always|never"@, 1, 0),
        (
            ""@,
            "skip"@,
            "Skip tests whose names contain FILTER (this flag can be used multiple times)"@,
            "FILTER"@,
            1,
            1,
        ),
        (""@, "ignored"@, ""@, ""@, 0, 0),
        (""@, "test"@, ""@, ""@, 0, 0),
        (""@, "bench"@, ""@, ""@, 0, 0),
        (""@, "nocapture"@, ""@, ""@, 0, 0),
        ("q"@, "quiet"@, ""@, ""@, 0, 0),
        (""@, "logfile"@, ""@, "PATH"@, 1, 0),
        (""@, "test-threads"@, ""@, "n_threads"@, 1, 0),
        (""@, "format"@, ""@, ""@, 1, 0),
        ("Z"@, ""@, ""@, "unstable-options"@, 1, 0),
    ]
}

/// The description of `--color`.
pub open spec fn color_description() -> Seq<char> {
    "Configure coloring of output:
                auto   = colorize if stdout is a tty and tests are run on serially (default);
                always = always colorize output;
                never  = never colorize output;"@
}

/// Where the options that a test binary reads are found among its groups.
proof fn lemma_harness_lookups()
    ensures
        find_group(group_names(harness_groups()), "h"@) == 0,
        find_group(group_names(harness_groups()), "list"@) == 1,
        find_group(group_names(harness_groups()), "exact"@) == 2,
        find_group(group_names(harness_groups()), "color"@) == 3,
        find_group(group_names(harness_groups()), "skip"@) == 4,
        "h"@.len() > 0 && is_ascii_chars("h"@),
        "list"@.len() > 0 && is_ascii_chars("list"@),
        "exact"@.len() > 0 && is_ascii_chars("exact"@),
        "color"@.len() > 0 && is_ascii_chars("color"@),
        "skip"@.len() > 0 && is_ascii_chars("skip"@),
{
    reveal_strlit("h");
    reveal_strlit("help");
    reveal_strlit("");
    reveal_strlit("list");
    reveal_strlit("exact");
    reveal_strlit("color");
    reveal_strlit("skip");
    reveal_strlit("ignored");
    reveal_strlit("test");
    reveal_strlit("bench");
    reveal_strlit("nocapture");
    reveal_strlit("q");
    reveal_strlit("quiet");
    reveal_strlit("logfile");
    reveal_strlit("test-threads");
    reveal_strlit("format");
    reveal_strlit("Z");
    let names = group_names(harness_groups());
    assert(names =~= seq![
        ("h"@, "help"@),
        (""@, "list"@),
        (""@, "exact"@),
        (""@, "color"@),
        (""@, "skip"@),
        (""@, "ignored"@),
        (""@, "test"@),
        (""@, "bench"@),
        (""@, "nocapture"@),
        ("q"@, "quiet"@),
        (""@, "logfile"@),
        (""@, "test-threads"@),
        (""@, "format"@),
        ("Z"@, ""@),
    ]);
    assert("Z"@[0] == 'Z' && "h"@[0] == 'h' && "q"@[0] == 'q');
    assert("help"@[0] == 'h' && "list"@[0] == 'l' && "exact"@[0] == 'e' && "color"@[0] == 'c');
    assert("skip"@[0] == 's');
    reveal_with_fuel(find_short_main, 15);
    reveal_with_fuel(find_short_alias, 2);
    reveal_with_fuel(find_long, 6);
    assert(find_short_main(names, "h"@, 0) == -1);
    assert(find_short_alias(names, "h"@, 0) == 0);
    assert(find_long(names, "help"@, 0) == 0);
    assert(find_long(names, "list"@, 0) == 1);
    assert(find_long(names, "exact"@, 0) == 2);
    assert(find_long(names, "color"@, 0) == 3);
    assert(find_long(names, "skip"@, 0) == 4);
}

/// The arguments handed to getopts: the command line without the program name.
pub open spec fn parsed_args(args: Seq<Seq<char>>) -> Seq<Seq<char>> {
    if args.len() >= 1 {
        args.skip(1)
    } else {
        args
    }
}

/// The parsed command line as plain values: `None` when help was requested;
/// otherwise whether tests are listed, the filter pattern, whether it matches
/// exactly, the `--color` argument and the skip patterns.
pub open spec fn parse_outcome(parsed: Result<(Seq<Seq<Option<Seq<char>>>>, Seq<Seq<char>>), Seq<char>>) -> Result<
    Option<(bool, Option<Seq<char>>, bool, Option<Seq<char>>, Seq<Seq<char>>)>,
    Seq<char>,
> {
    match parsed {
        Err(e) => Err(e),
        Ok((vals, free)) => {
            let content = (group_names(harness_groups()), vals, free);
            if values_of(content, "h"@).len() > 0 {
                Ok(None)
            } else {
                let color_vals = values_of(content, "color"@);
                let color = if color_vals.len() > 0 && color_vals[0] is Some {
                    Some(color_vals[0]->0)
                } else {
                    None
                };
                Ok(
                    Some(
                        (
                            values_of(content, "list"@).len() > 0,
                            if free.len() > 0 {
                                Some(free[0])
                            } else {
                                None
                            },
                            values_of(content, "exact"@).len() > 0,
                            color,
                            given_strings(values_of(content, "skip"@)),
                        ),
                    ),
                )
            }
        },
    }
}

/// The color configuration named by the `--color` argument (auto when absent).
pub open spec fn color_of(arg: Option<Seq<char>>) -> Result<ColorConfig, Seq<char>> {
    match arg {
        None => Ok(ColorConfig::Auto),
        Some(s) => if s == "auto"@ {
            Ok(ColorConfig::Auto)
        } else if s == "always"@ {
            Ok(ColorConfig::Always)
        } else if s == "never"@ {
            Ok(ColorConfig::Never)
        } else {
            Err(color_error_message(s))
        },
    }
}

/// Each setting of a test run comes from its own option of a test binary,
/// read from the values getopts matched for each option group (in the order
/// of the groups): help is requested exactly when `-h`/`--help` was given;
/// otherwise tests are listed exactly when `--list` was given, the filter
/// matches exactly exactly when `--exact` was given, `--color` gives the
/// first value it was given, every value of `--skip` is a skip pattern, and
/// the first free argument is the filter.
pub proof fn law_settings_from_options(vals: Seq<Seq<Option<Seq<char>>>>, free: Seq<Seq<char>>)
    requires
        vals.len() == harness_groups().len(),
    ensures
        harness_groups()[0].0 == "h"@ && harness_groups()[0].1 == "help"@,
        harness_groups()[1].1 == "list"@,
        harness_groups()[2].1 == "exact"@,
        harness_groups()[3].1 == "color"@,
        harness_groups()[4].1 == "skip"@,
        vals[0].len() > 0 <==> parse_outcome(Ok((vals, free))) == Ok::<
            Option<(bool, Option<Seq<char>>, bool, Option<Seq<char>>, Seq<Seq<char>>)>,
            Seq<char>,
        >(None),
        vals[0].len() == 0 ==> parse_outcome(Ok((vals, free))) is Ok && parse_outcome(
            Ok((vals, free)),
        )->Ok_0 is Some,
        parse_outcome(Ok((vals, free))) matches Ok(Some((list, filter, exact, color, skips))) ==> {
            &&& list == (vals[1].len() > 0)
            &&& exact == (vals[2].len() > 0)
            &&& color == (if vals[3].len() > 0 && vals[3][0] is Some {
                vals[3][0]
            } else {
                None
            })
            &&& skips == vals[4].filter(|v: Option<Seq<char>>| v is Some).map_values(
                |v: Option<Seq<char>>| v->0,
            )
            &&& filter == (if free.len() > 0 {
                Some(free[0])
            } else {
                None
            })
        },
{
    lemma_harness_lookups();
}

/// The command-line parser of a test binary.
pub struct Parser {
    args: Vec<String>,
    opts: getopts::Options,
}

impl Parser {
    /// The arguments to parse.
    pub closed spec fn args_view(&self) -> Seq<Seq<char>> {
        self.args@.map_values(|s: String| s@)
    }

    /// The options are those of a test binary.
    pub closed spec fn wf(&self) -> bool {
        option_groups(self.opts) == harness_groups()
    }

    /// A parser of `args` (the program name first) with the options of a
    /// test binary; those only kept for compatibility with the built-in
    /// harness are accepted and ignored.
    pub fn new(args: Vec<String>) -> (r: Self)
        ensures
            r.wf(),
            r.args_view() == args@.map_values(|s: String| s@),
    {
        proof {
            reveal_strlit("h");
            reveal_strlit("help");
            reveal_strlit("");
            reveal_strlit("list");
            reveal_strlit("exact");
            reveal_strlit("color");
            reveal_strlit("skip");
            reveal_strlit("ignored");
            reveal_strlit("test");
            reveal_strlit("bench");
            reveal_strlit("nocapture");
            reveal_strlit("q");
            reveal_strlit("quiet");
            reveal_strlit("logfile");
            reveal_strlit("test-threads");
            reveal_strlit("format");
            reveal_strlit("Z");
        }
        let mut opts = options_new();
        options_optflag(&mut opts, "h", "help", "Display this message (longer with --help)");
        options_optflag(&mut opts, "", "list", "List all tests and benchmarks");
        options_optflag(&mut opts, "", "exact", "Exactly match filters rather than by substring");
        options_optopt(
            &mut opts,
            "",
            "color",
            "Configure coloring of output:
                auto   = colorize if stdout is a tty and tests are run on serially (default);
                always = always colorize output;
                never  = never colorize output;",
            "auto|always|never",
        );
        options_optmulti(
            &mut opts,
            "",
            "skip",
            "Skip tests whose names contain FILTER (this flag can be used multiple times)",
            "FILTER",
        );
        // reserved for compatibility with the built-in test harness
        options_optflag(&mut opts, "", "ignored", "");
        options_optflag(&mut opts, "", "test", "");
        options_optflag(&mut opts, "", "bench", "");
        options_optflag(&mut opts, "", "nocapture", "");
        options_optflag(&mut opts, "q", "quiet", "");
        options_optopt(&mut opts, "", "logfile", "", "PATH");
        options_optopt(&mut opts, "", "test-threads", "", "n_threads");
        options_optopt(&mut opts, "", "format", "", "");
        options_optopt(&mut opts, "Z", "", "", "unstable-options");
        assert(option_groups(opts) =~= harness_groups());
        Parser { args, opts }
    }

    /// The usage message, after the brief line `brief`.
    pub fn usage(&self, brief: &str) -> (r: String)
        requires
            self.wf(),
        ensures
            r@ == getopts_usage(harness_groups(), brief@),
    {
        options_usage(&self.opts, brief)
    }

    /// Parse the command line: `Ok(None)` when help is requested, the error
    /// message when getopts or the `--color` argument rejects it.
    pub fn parse(&self) -> (r: Result<Option<Args>, String>)
        requires
            self.wf(),
        ensures
            parsed_as(r, parse_outcome(getopts_parse(harness_groups(), parsed_args(self.args_view())))),
    {
        let mut tail: Vec<String> = Vec::new();
        let start: usize = if self.args.len() >= 1 {
            1
        } else {
            0
        };
        let mut i: usize = start;
        while i < self.args.len()
            invariant
                start <= i <= self.args@.len(),
                start == (if self.args@.len() >= 1 { 1int } else { 0int }),
                tail@.map_values(|s: String| s@) == self.args_view().subrange(start as int, i as int),
            decreases self.args@.len() - i,
        {
            let ghost before = tail@;
            tail.push(self.args[i].clone());
            i = i + 1;
            assert(tail@.map_values(|s: String| s@) =~= before.map_values(|s: String| s@).push(
                self.args@[i - 1]@,
            ));
            assert(self.args_view().subrange(start as int, i as int) =~= self.args_view().subrange(
                start as int,
                i - 1,
            ).push(self.args@[i - 1]@));
        }
        assert(tail@.map_values(|s: String| s@) =~= parsed_args(self.args_view()));
        match options_parse(&self.opts, &tail) {
            Ok(m) => args_from_matches(&m),
            Err(e) => Err(e),
        }
    }
}

/// The result `r` of parsing a command line is the plain `outcome`: the
/// error message, `None` for a help request, or the settings it gives, with
/// the `--color` argument read as a color configuration (rejected when it
/// names none).
pub open spec fn parsed_as(
    r: Result<Option<Args>, String>,
    outcome: Result<Option<(bool, Option<Seq<char>>, bool, Option<Seq<char>>, Seq<Seq<char>>)>, Seq<char>>,
) -> bool {
    match outcome {
        Err(e) => r is Err && r->Err_0@ == e,
        Ok(None) => r is Ok && r->Ok_0 is None,
        Ok(Some((list_tests, filter, exact, color, skips))) => match color_of(color) {
            Err(e) => r is Err && r->Err_0@ == e,
            Ok(c) => r is Ok && r->Ok_0 is Some && {
                let a = r->Ok_0->0;
                &&& a.list_tests == list_tests
                &&& a.filter_exact == exact
                &&& a.color == c
                &&& a.skip_patterns@.map_values(|s: String| s@) == skips
                &&& match a.filter_pattern {
                    Some(p) => filter == Some(p@),
                    None => filter is None,
                }
            },
        },
    }
}

/// The settings of a test run from what getopts matched against the options
/// of a test binary: `Ok(None)` when help is requested, the error message
/// when the `--color` argument names no color configuration.
pub fn args_from_matches(matches: &getopts::Matches) -> (r: Result<Option<Args>, String>)
    requires
        matches_content(*matches).0 == group_names(harness_groups()),
    ensures
        parsed_as(
            r,
            parse_outcome(Ok((matches_content(*matches).1, matches_content(*matches).2))),
        ),
{
    proof {
        lemma_harness_lookups();
    }
    if matches_opt_present(matches, "h") {
        return Ok(None);
    }
    let list_tests = matches_opt_present(matches, "list");
    let filter_exact = matches_opt_present(matches, "exact");
    let color = match matches_opt_str(matches, "color") {
        Some(s) => match ColorConfig::from_str(s.as_str()) {
            Ok(c) => c,
            Err(e) => return Err(e),
        },
        None => ColorConfig::Auto,
    };
    let skip_patterns = matches_opt_strs(matches, "skip");
    let free = matches_free(matches);
    let filter_pattern = if free.len() > 0 {
        Some(free[0].clone())
    } else {
        None
    };
    Ok(Some(Args { list_tests, filter_pattern, filter_exact, color, skip_patterns }))
}

} // verus!
