//! A reporter whose output is a stream of log records.

use crate::reporter::{Outcome, Summary, TestCaseSummary};
use crate::test::TestDesc;
use crate::text::{decimal, decimal_string, plural_suffix, push_all, string_of};
use vstd::prelude::*;
use vstd::string::*;

verus! {

/// The severity of a log record.
#[derive(Clone, Copy, PartialEq, Eq, Structural)]
pub enum LogLevel {
    Info,
    Error,
}

/// One log record.
pub struct LogRecord {
    pub level: LogLevel,
    pub message: String,
}

/// Reports the progress of a run as log records.
pub struct LogReporter {
    _p: (),
}

impl LogReporter {
    /// A log reporter.
    pub fn new() -> (r: Self) {
        LogReporter { _p: () }
    }

    /// `running N test(s)`.
    pub fn test_run_starting(&self, num_tests: usize) -> (r: LogRecord)
        ensures
            r.level == LogLevel::Info,
            r.message@ == "running "@ + decimal(num_tests as nat) + " test"@ + plural_suffix(
                num_tests as nat,
            ),
    {
        let mut msg = string_of("running ");
        push_all(&mut msg, decimal_string(num_tests as u64).as_str());
        push_all(&mut msg, " test");
        if num_tests != 1 {
            push_all(&mut msg, "s");
        }
        proof {
            reveal_strlit("s");
        }
        assert(msg@ =~= "running "@ + decimal(num_tests as nat) + " test"@ + plural_suffix(
            num_tests as nat,
        ));
        LogRecord { level: LogLevel::Info, message: msg }
    }

    /// The status of the finished run: `ok` at info level when no test
    /// failed, `FAILED` at error level otherwise.
    pub fn test_run_ended<'a>(&self, summary: &Summary<'a>) -> (r: LogRecord)
        ensures
            summary.failed@.len() == 0 ==> r.level == LogLevel::Info && r.message@
                == "test status: ok"@,
            summary.failed@.len() != 0 ==> r.level == LogLevel::Error && r.message@
                == "test status: FAILED"@,
    {
        if summary.is_passed() {
            LogRecord { level: LogLevel::Info, message: string_of("test status: ok") }
        } else {
            LogRecord { level: LogLevel::Error, message: string_of("test status: FAILED") }
        }
    }

    /// `start: NAME`.
    pub fn test_case_starting(&self, desc: &TestDesc) -> (r: LogRecord)
        requires
            desc.well_named(),
        ensures
            r.level == LogLevel::Info,
            r.message@ == "start: "@ + desc.name_view(),
    {
        let mut msg = string_of("start: ");
        push_all(&mut msg, desc.name());
        LogRecord { level: LogLevel::Info, message: msg }
    }

    /// `NAME: ok`, `NAME: FAILED` (at error level) or `NAME: skipped`.
    pub fn test_case_ended<'a>(&self, summary: &TestCaseSummary<'a>) -> (r: LogRecord)
        requires
            summary.desc.well_named(),
        ensures
            summary.outcome is Passed ==> r.level == LogLevel::Info && r.message@
                == summary.desc.name_view() + ": ok"@,
            summary.outcome.is_failure() ==> r.level == LogLevel::Error && r.message@
                == summary.desc.name_view() + ": FAILED"@,
            summary.outcome is Skipped ==> r.level == LogLevel::Info && r.message@
                == summary.desc.name_view() + ": skipped"@,
    {
        let mut msg = string_of(summary.desc.name());
        match summary.outcome {
            Outcome::Passed => {
                push_all(&mut msg, ": ok");
                LogRecord { level: LogLevel::Info, message: msg }
            },
            Outcome::Errored(..) | Outcome::Failed { .. } | Outcome::Panicked(..) => {
                push_all(&mut msg, ": FAILED");
                LogRecord { level: LogLevel::Error, message: msg }
            },
            Outcome::Skipped { .. } => {
                push_all(&mut msg, ": skipped");
                LogRecord { level: LogLevel::Info, message: msg }
            },
        }
    }
}

} // verus!
