//! Summaries of a test runner's event stream: the events of one run are
//! decoded, classified and folded into a report with a verdict and a score.
//!
//! The conventions of the library:
//!
//! - A test passed only if its record says `ok`. A record that says
//!   anything else, or nothing, counts as a failure, and a record that says
//!   `started` reports no outcome at all.
//! - A run passes when as many tests passed as it holds, so a run of no
//!   tests passes. Where the number of tests is taken from what the suites
//!   declared, a run in which nothing was declared passes if no test passed
//!   and fails if one did.
//! - The score is the share of passed tests, scaled to the ceiling and
//!   rounded to the nearest integer; a half is rounded away from zero. A
//!   run of no tests scores 0. No more tests count as passed than the run
//!   holds, so the score never exceeds the ceiling.
//! - A line that does not decode is passed over. A document that does not
//!   decode, or that is no array, is an error.

pub mod aggregate;
pub mod directory;
pub mod event;
pub mod json;
pub mod lines;
pub mod parse;
pub mod report;
pub mod score;
pub mod summary;
pub mod text;

pub use aggregate::aggregate;
pub use aggregate::TotalSource;
pub use directory::validate_directory;
pub use event::classify;
pub use event::Event;
pub use event::RawEvent;
pub use parse::parse;
pub use parse::parse_document;
pub use parse::parse_line_delimited;
pub use parse::ParseError;
pub use parse::StreamShape;
pub use report::Report;
pub use report::Status;
pub use report::TestOutcome;
pub use report::SCHEMA_VERSION;
pub use score::compute_score;
pub use summary::summarize;
pub use summary::summarize_with;
