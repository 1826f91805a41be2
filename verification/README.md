# rye

A unit testing framework with Catch2-style sections, written in Verus.

A test body may hold sections. It runs once per leaf section, each time in a
fresh context that enters exactly that leaf and the sections enclosing it, so
code around the sections is shared between the runs.

## Layout

- `src/` — the verified library:
  - `test.rs`: test names, locations, sections and the plan of each run;
  - `context.rs`: the state of one run (entering and leaving sections,
    declared skips and failures);
  - `run.rs`, `result.rs`, `driver.rs`: running a test once per plan, and
    turning the runs into an outcome;
  - `reporter.rs`, `outcome.rs`: outcomes, results and summaries;
  - `cli.rs`, `parser.rs`: command-line settings, parsed with `getopts`;
  - `session.rs`, `registration.rs`: unique names, filtering and ordering of
    the tests of a run;
  - `report.rs`, `console.rs`, `log_reporter.rs`: the rendering of results as
    colored text segments and log records;
  - `text.rs`: string helpers (decimal rendering, search, ordering, padding).
- `tests/` — tests of the library.
- `app/` — the console front end: reading the process's command line,
  writing colored output with `termcolor`, catching panics, and the run loop.
