//! The records of a runner's stream and the events they stand for.

use crate::json::contents;
use crate::json::count_member;
use crate::json::read_count;
use crate::json::read_text;
use crate::json::text_member;
use crate::json::Json;
use crate::report::outcome;
use crate::report::OutcomeView;
use crate::report::Status;
use crate::report::TestOutcome;
use crate::text::same_text;
use vstd::prelude::*;

verus! {

/// What a `RawEvent` holds.
pub struct RawEventView {
    pub kind: Option<Seq<char>>,
    pub event: Option<Seq<char>>,
    pub name: Option<Seq<char>>,
    pub exec_time: Option<Seq<char>>,
    pub test_count: Option<u64>,
}

/// The fields of one decoded record that a summary reads. Each of them may
/// be absent: a record need not be an object, an object need not have the
/// key, and what stands under the key need not be a text or a count.
#[derive(Debug, Default, PartialEq, Eq)]
pub struct RawEvent {
    /// The text under `type`: what the record is about.
    pub kind: Option<String>,
    /// The text under `event`: what happened.
    pub event: Option<String>,
    /// The text under `name`.
    pub name: Option<String>,
    /// The text under `exec_time`.
    pub exec_time: Option<String>,
    /// The count under `test_count`.
    pub test_count: Option<u64>,
}

/// The view of a text that may be absent.
pub open spec fn text_view(text: Option<String>) -> Option<Seq<char>> {
    match text {
        Some(t) => Some(t@),
        None => None,
    }
}

impl View for RawEvent {
    type V = RawEventView;

    open spec fn view(&self) -> RawEventView {
        RawEventView {
            kind: text_view(self.kind),
            event: text_view(self.event),
            name: text_view(self.name),
            exec_time: text_view(self.exec_time),
            test_count: self.test_count,
        }
    }
}

/// The record that a decoded value stands for: the texts under `type`,
/// `event`, `name` and `exec_time`, and the count under `test_count`.
pub open spec fn record_of(json: Json) -> RawEventView {
    RawEventView {
        kind: text_member(json, "type"@),
        event: text_member(json, "event"@),
        name: text_member(json, "name"@),
        exec_time: text_member(json, "exec_time"@),
        test_count: count_member(json, "test_count"@),
    }
}

/// Reads the fields of a record out of a decoded value.
pub fn read_record(value: &serde_json::Value) -> (raw: RawEvent)
    ensures
        raw@ == record_of(contents(*value)),
{
    RawEvent {
        kind: read_text(value, "type"),
        event: read_text(value, "event"),
        name: read_text(value, "name"),
        exec_time: read_text(value, "exec_time"),
        test_count: read_count(value, "test_count"),
    }
}

/// What an `Event` holds.
pub enum EventView {
    TestStarted,
    TestFinished(OutcomeView),
    SuiteStarted { test_count: u64 },
    Unrecognized,
}

/// One event of a run.
#[derive(Debug)]
pub enum Event {
    /// A test began. This says nothing of how it ended.
    TestStarted,
    /// A test ended, with this outcome.
    TestFinished(TestOutcome),
    /// A suite began, and said how many tests it holds.
    SuiteStarted { test_count: u64 },
    /// Anything else.
    Unrecognized,
}

impl View for Event {
    type V = EventView;

    open spec fn view(&self) -> EventView {
        match self {
            Event::TestStarted => EventView::TestStarted,
            Event::TestFinished(o) => EventView::TestFinished(o@),
            Event::SuiteStarted { test_count } => EventView::SuiteStarted {
                test_count: *test_count,
            },
            Event::Unrecognized => EventView::Unrecognized,
        }
    }
}

/// The views of a list of events, in the same order.
pub open spec fn event_views(events: Seq<Event>) -> Seq<EventView> {
    events.map_values(|e: Event| e@)
}

/// The text, or `fallback` where there is none.
pub open spec fn text_or(text: Option<Seq<char>>, fallback: Seq<char>) -> Seq<char> {
    match text {
        Some(t) => t,
        None => fallback,
    }
}

/// The status that a test's record reports: passed only where the record
/// says `ok`. A record that says anything else, or nothing, is a failure.
pub open spec fn reported_status(event: Option<Seq<char>>) -> Status {
    if event == Some("ok"@) {
        Status::Passed
    } else {
        Status::Failed
    }
}

/// The outcome that the record of a finished test reports. A record
/// without a name gives the empty name, one without a duration `0ms`.
pub open spec fn reported_outcome(raw: RawEventView) -> OutcomeView {
    outcome(
        text_or(raw.name, Seq::empty()),
        reported_status(raw.event),
        text_or(raw.exec_time, "0ms"@),
    )
}

/// The event that a record stands for. A record of kind `test` is the
/// start of a test where it says `started`, and else its end. A record of
/// kind `suite` that says `started` is the start of a suite, of as many
/// tests as it gives, or of none where it gives no count. Every other
/// record is unrecognized.
pub open spec fn classified(raw: RawEventView) -> EventView {
    if raw.kind == Some("test"@) {
        if raw.event == Some("started"@) {
            EventView::TestStarted
        } else {
            EventView::TestFinished(reported_outcome(raw))
        }
    } else if raw.kind == Some("suite"@) && raw.event == Some("started"@) {
        EventView::SuiteStarted {
            test_count: match raw.test_count {
                Some(n) => n,
                None => 0,
            },
        }
    } else {
        EventView::Unrecognized
    }
}

/// Whether `text` is there and reads `word`.
fn reads(text: &Option<String>, word: &str) -> (same: bool)
    ensures
        same == (text_view(*text) == Some(word@)),
{
    match text {
        Some(t) => same_text(t.as_str(), word),
        None => false,
    }
}

/// Classifies a record.
pub fn classify(raw: RawEvent) -> (event: Event)
    ensures
        event@ == classified(raw@),
{
    if reads(&raw.kind, "test") {
        if reads(&raw.event, "started") {
            Event::TestStarted
        } else {
            let status = if reads(&raw.event, "ok") {
                Status::Passed
            } else {
                Status::Failed
            };
            let name = match raw.name {
                Some(n) => n,
                None => String::new(),
            };
            let execution_time = match raw.exec_time {
                Some(t) => t,
                None => "0ms".to_owned(),
            };
            Event::TestFinished(TestOutcome::new(name, status, execution_time))
        }
    } else if reads(&raw.kind, "suite") && reads(&raw.event, "started") {
        let test_count: u64 = match raw.test_count {
            Some(n) => n,
            None => 0,
        };
        Event::SuiteStarted { test_count }
    } else {
        Event::Unrecognized
    }
}

} // verus!
