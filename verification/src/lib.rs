//! A unit testing framework with Catch2-style sections: the section
//! selection logic, the bookkeeping of outcomes and summaries, the
//! command-line filtering and the rendering of reports.

pub mod text;
pub mod test;
pub mod termination;
pub mod reporter;
pub mod context;
pub mod run;
pub mod cli;
pub mod session;
pub mod outcome;
pub mod report;
pub mod console;
pub mod driver;
pub mod result;
pub mod registration;
pub mod log_reporter;
pub mod parser;
