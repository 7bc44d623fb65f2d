//! The summary of a run, from the runner's output to the report.

use crate::aggregate::aggregate;
use crate::aggregate::summary_of;
use crate::aggregate::TotalSource;
use crate::lines::without_return;
use crate::lines::LINE_FEED;
use crate::parse::events_of;
use crate::parse::lemma_undecodable_line_is_dropped;
use crate::parse::line_delimited_events;
use crate::parse::line_event;
use crate::parse::parse;
use crate::parse::parse_line_delimited;
use crate::parse::ParseError;
use crate::parse::StreamShape;
use crate::report::Report;
use crate::report::ReportView;
use vstd::prelude::*;

verus! {

/// The report of the run whose output is `stream`, or the reason why the
/// output gave no events.
pub open spec fn summarized(
    stream: Seq<u8>,
    shape: StreamShape,
    source: TotalSource,
    max_score: Option<u32>,
) -> Result<ReportView, ParseError> {
    match events_of(stream, shape) {
        Ok(events) => Ok(summary_of(events, source, max_score)),
        Err(e) => Err(e),
    }
}

/// A line that does not decode, or that is empty, changes nothing in the
/// report of an output that holds a record on each line. `junk` is the
/// line without its line feed; `head` is what comes before it, whole lines
/// only, and `tail` what comes after.
pub proof fn lemma_summary_passes_over_undecodable_line(
    head: Seq<u8>,
    junk: Seq<u8>,
    tail: Seq<u8>,
    source: TotalSource,
    max_score: Option<u32>,
)
    requires
        head.len() == 0 || head.last() == LINE_FEED,
        forall|k: int| 0 <= k < junk.len() ==> junk[k] != LINE_FEED,
        line_event(without_return(junk)) is None,
    ensures
        summarized(
            head + junk + seq![LINE_FEED] + tail,
            StreamShape::LineDelimited,
            source,
            max_score,
        ) == summarized(head + tail, StreamShape::LineDelimited, source, max_score),
        summarized(head + tail, StreamShape::LineDelimited, source, max_score) is Ok,
{
    lemma_undecodable_line_is_dropped(head, junk, tail);
}

/// Summarizes a run from an output that holds a record on each line. The
/// tests that ended are counted; with a ceiling the report has a score.
/// Whatever the output holds, there is a report.
pub fn summarize(stream: &[u8], max_score: Option<u32>) -> (report: Report)
    ensures
        report@ == summary_of(line_delimited_events(stream@), TotalSource::Observed, max_score),
        summarized(stream@, StreamShape::LineDelimited, TotalSource::Observed, max_score) == Ok::<
            ReportView,
            ParseError,
        >(report@),
        report@.valid(),
{
    let events = parse_line_delimited(stream);
    aggregate(&events, TotalSource::Observed, max_score)
}

/// Summarizes a run from an output of the given shape, with the number of
/// its tests taken from the given source. An output of lines always has a
/// report; a document has one where it decodes to an array.
pub fn summarize_with(
    stream: &[u8],
    shape: StreamShape,
    source: TotalSource,
    max_score: Option<u32>,
) -> (result: Result<Report, ParseError>)
    ensures
        match result {
            Ok(report) => summarized(stream@, shape, source, max_score) == Ok::<
                ReportView,
                ParseError,
            >(report@) && report@.valid(),
            Err(e) => summarized(stream@, shape, source, max_score) == Err::<
                ReportView,
                ParseError,
            >(e),
        },
        shape == StreamShape::LineDelimited ==> result is Ok,
{
    match parse(stream, shape) {
        Ok(events) => Ok(aggregate(&events, source, max_score)),
        Err(e) => Err(e),
    }
}

} // verus!
