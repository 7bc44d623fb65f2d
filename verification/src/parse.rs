//! The events of a runner's output, which comes in one of two shapes: a
//! line for each record, or one document that lists the records.

use crate::event::classified;
use crate::event::classify;
use crate::event::event_views;
use crate::event::read_record;
use crate::event::record_of;
use crate::event::Event;
use crate::event::EventView;
use crate::json::decode;
use crate::json::decoded;
use crate::json::as_elements;
use crate::json::contents;
use crate::json::contents_of_all;
use crate::json::elements_of;
use crate::json::Json;
use crate::lines::line_views;
use crate::lines::lines_of;
use crate::lines::split_lines;
use crate::lines::without_return;
use crate::lines::lemma_first_is_line_end;
use crate::lines::lemma_lines_of_concat;
use crate::lines::LINE_FEED;
use vstd::prelude::*;

verus! {

/// The shape of a runner's output.
#[derive(Clone, Copy, Debug, PartialEq, Eq, Structural)]
pub enum StreamShape {
    /// Each line that is not empty holds one record. A line that does not
    /// decode is passed over.
    LineDelimited,
    /// The whole output is one JSON array of records.
    Document,
}

/// Why a document gave no events.
#[derive(Clone, Copy, Debug, PartialEq, Eq, Structural)]
pub enum ParseError {
    /// The output does not decode as JSON.
    MalformedDocument,
    /// The output decodes, but not to an array.
    NotAnEventList,
}

impl ParseError {
    /// A sentence that says what went wrong.
    pub fn message(&self) -> (sentence: &'static str)
        ensures
            sentence@ == match *self {
                ParseError::MalformedDocument => "the document is not valid JSON"@,
                ParseError::NotAnEventList => "the document is not a JSON array of events"@,
            },
    {
        match self {
            ParseError::MalformedDocument => "the document is not valid JSON",
            ParseError::NotAnEventList => "the document is not a JSON array of events",
        }
    }
}

/// The event that a decoded value stands for.
pub open spec fn event_of(json: Json) -> EventView {
    classified(record_of(json))
}

/// The event that `text` decodes to, if it decodes.
pub open spec fn decoded_event(text: Seq<u8>) -> Option<EventView> {
    match decoded(text) {
        Some(json) => Some(event_of(json)),
        None => None,
    }
}

/// The event of one line: none for an empty line, and none for a line that
/// does not decode.
pub open spec fn line_event(line: Seq<u8>) -> Option<EventView> {
    if line.len() == 0 {
        None
    } else {
        decoded_event(line)
    }
}

/// The events of the lines that have one, in the order of the lines.
pub open spec fn events_of_lines(lines: Seq<Seq<u8>>) -> Seq<EventView>
    decreases lines.len(),
{
    if lines.len() == 0 {
        Seq::empty()
    } else {
        match line_event(lines.last()) {
            Some(e) => events_of_lines(lines.drop_last()).push(e),
            None => events_of_lines(lines.drop_last()),
        }
    }
}

/// The events of an output that holds a record on each line.
pub open spec fn line_delimited_events(stream: Seq<u8>) -> Seq<EventView> {
    events_of_lines(lines_of(stream))
}

/// The events of an output that is one document: those of the elements of
/// the array that it decodes to.
pub open spec fn document_events(stream: Seq<u8>) -> Result<Seq<EventView>, ParseError> {
    match decoded(stream) {
        None => Err(ParseError::MalformedDocument),
        Some(json) => match elements_of(json) {
            None => Err(ParseError::NotAnEventList),
            Some(items) => Ok(items.map_values(|item: Json| event_of(item))),
        },
    }
}

/// The events of an output of the given shape. Lines always give events,
/// if only none.
pub open spec fn events_of(stream: Seq<u8>, shape: StreamShape) -> Result<
    Seq<EventView>,
    ParseError,
> {
    match shape {
        StreamShape::LineDelimited => Ok(line_delimited_events(stream)),
        StreamShape::Document => document_events(stream),
    }
}

/// The events of two lists of lines in a row are those of the first and
/// then those of the second.
pub proof fn lemma_events_of_lines_concat(a: Seq<Seq<u8>>, b: Seq<Seq<u8>>)
    ensures
        events_of_lines(a + b) == events_of_lines(a) + events_of_lines(b),
    decreases b.len(),
{
    if b.len() == 0 {
        assert(a + b =~= a);
        assert(events_of_lines(a) + events_of_lines(b) =~= events_of_lines(a));
    } else {
        assert((a + b).drop_last() =~= a + b.drop_last());
        assert((a + b).last() == b.last());
        lemma_events_of_lines_concat(a, b.drop_last());
        assert(events_of_lines(a + b) =~= events_of_lines(a) + events_of_lines(b));
    }
}

/// A line that does not decode, or that is empty, changes nothing: the
/// output gives the same events with it as without it, wherever the line
/// stands. `junk` is the line without its line feed; `head` is what comes
/// before it, whole lines only, and `tail` what comes after.
pub proof fn lemma_undecodable_line_is_dropped(head: Seq<u8>, junk: Seq<u8>, tail: Seq<u8>)
    requires
        head.len() == 0 || head.last() == LINE_FEED,
        forall|k: int| 0 <= k < junk.len() ==> junk[k] != LINE_FEED,
        line_event(without_return(junk)) is None,
    ensures
        line_delimited_events(head + junk + seq![LINE_FEED] + tail) == line_delimited_events(
            head + tail,
        ),
{
    let line = junk + seq![LINE_FEED];
    let nothing = Seq::<u8>::empty();
    let no_line = Seq::<Seq<u8>>::empty();
    assert(head + junk + seq![LINE_FEED] + tail =~= (head + line) + tail);
    assert(head + line =~= head + (line + nothing));
    lemma_lines_of_concat(head + line, tail);
    lemma_lines_of_concat(head, line);
    lemma_lines_of_concat(head, tail);
    assert(lines_of(line) =~= seq![without_return(junk)]) by {
        lemma_first_is_line_end(line, junk.len() as int);
        assert(line.take(junk.len() as int) =~= junk);
        assert(line.skip(junk.len() as int + 1) =~= nothing);
        assert(lines_of(nothing) =~= no_line);
    }
    lemma_events_of_lines_concat(lines_of(head) + lines_of(line), lines_of(tail));
    lemma_events_of_lines_concat(lines_of(head), lines_of(line));
    lemma_events_of_lines_concat(lines_of(head), lines_of(tail));
    assert(events_of_lines(seq![without_return(junk)]) =~= Seq::<EventView>::empty()) by {
        assert(seq![without_return(junk)].drop_last() =~= no_line);
        assert(events_of_lines(no_line) =~= Seq::<EventView>::empty());
    }
    assert(events_of_lines(lines_of(head)) + Seq::<EventView>::empty() =~= events_of_lines(
        lines_of(head),
    ));
}

/// A last line that lacks its line feed and does not decode changes
/// nothing either. `head` is what comes before it, whole lines only.
pub proof fn lemma_undecodable_last_line_is_dropped(head: Seq<u8>, junk: Seq<u8>)
    requires
        head.len() == 0 || head.last() == LINE_FEED,
        forall|k: int| 0 <= k < junk.len() ==> junk[k] != LINE_FEED,
        line_event(junk) is None,
    ensures
        line_delimited_events(head + junk) == line_delimited_events(head),
{
    let no_line = Seq::<Seq<u8>>::empty();
    lemma_lines_of_concat(head, junk);
    lemma_events_of_lines_concat(lines_of(head), lines_of(junk));
    assert(events_of_lines(lines_of(junk)) =~= Seq::<EventView>::empty()) by {
        assert(events_of_lines(no_line) =~= Seq::<EventView>::empty());
        if junk.len() > 0 {
            lemma_first_is_line_end(junk, junk.len() as int);
            assert(lines_of(junk) =~= seq![junk]);
            assert(seq![junk].drop_last() =~= no_line);
        }
    }
    assert(events_of_lines(lines_of(head)) + Seq::<EventView>::empty() =~= events_of_lines(
        lines_of(head),
    ));
}

/// The view of an event that may be absent.
pub open spec fn event_view(event: Option<Event>) -> Option<EventView> {
    match event {
        Some(e) => Some(e@),
        None => None,
    }
}

/// Decodes one record and classifies it. A text that does not decode gives
/// no event.
pub fn decode_event(text: &[u8]) -> (event: Option<Event>)
    ensures
        event_view(event) == decoded_event(text@),
{
    match decode(text) {
        Ok(value) => Some(classify(read_record(&value))),
        Err(_) => None,
    }
}

/// The events of an output that holds a record on each line.
pub fn parse_line_delimited(stream: &[u8]) -> (events: Vec<Event>)
    ensures
        event_views(events@) == line_delimited_events(stream@),
{
    let lines = split_lines(stream);
    let ghost texts = line_views(lines@);
    let mut events: Vec<Event> = Vec::new();
    let mut i: usize = 0;
    assert(texts.take(0) =~= Seq::<Seq<u8>>::empty());
    while i < lines.len()
        invariant
            i <= lines.len(),
            texts == line_views(lines@),
            event_views(events@) == events_of_lines(texts.take(i as int)),
        decreases lines.len() - i,
    {
        let ghost before = event_views(events@);
        proof {
            assert(texts.take(i + 1).drop_last() =~= texts.take(i as int));
            assert(texts.take(i + 1).last() == lines@[i as int]@);
        }
        let line = lines[i];
        if line.len() > 0 {
            match decode_event(line) {
                Some(event) => {
                    events.push(event);
                    assert(event_views(events@) =~= before.push(event@));
                },
                None => {},
            }
        }
        i = i + 1;
    }
    assert(texts.take(i as int) =~= texts);
    events
}

/// The events of an output that is one document.
pub fn parse_document(stream: &[u8]) -> (result: Result<Vec<Event>, ParseError>)
    ensures
        match result {
            Ok(events) => document_events(stream@) == Ok::<Seq<EventView>, ParseError>(
                event_views(events@),
            ),
            Err(e) => document_events(stream@) == Err::<Seq<EventView>, ParseError>(e),
        },
{
    let value = match decode(stream) {
        Ok(value) => value,
        Err(_) => {
            return Err(ParseError::MalformedDocument);
        },
    };
    let items = match as_elements(&value) {
        Some(items) => items,
        None => {
            return Err(ParseError::NotAnEventList);
        },
    };
    let mut events: Vec<Event> = Vec::new();
    let mut i: usize = 0;
    while i < items.len()
        invariant
            i <= items.len(),
            events@.len() == i,
            forall|k: int| 0 <= k < i ==> (#[trigger] events@[k])@ == event_of(contents(items@[k])),
        decreases items.len() - i,
    {
        events.push(classify(read_record(&items[i])));
        i = i + 1;
    }
    assert(event_views(events@) =~= contents_of_all(items@).map_values(|item: Json| event_of(item)));
    Ok(events)
}

/// The events of an output of the given shape.
pub fn parse(stream: &[u8], shape: StreamShape) -> (result: Result<Vec<Event>, ParseError>)
    ensures
        match result {
            Ok(events) => events_of(stream@, shape) == Ok::<Seq<EventView>, ParseError>(
                event_views(events@),
            ),
            Err(e) => events_of(stream@, shape) == Err::<Seq<EventView>, ParseError>(e),
        },
        shape == StreamShape::LineDelimited ==> result is Ok,
{
    match shape {
        StreamShape::LineDelimited => Ok(parse_line_delimited(stream)),
        StreamShape::Document => parse_document(stream),
    }
}

} // verus!
