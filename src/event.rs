//! Progress events, and their parsing from report lines.
use vstd::prelude::*;
use crate::pattern::{regex_two_groups, Matcher};
use crate::percent::{is_percentage_text, parse_percentage, percentage_of, ParseError};

verus! {

/// One progress report: a label, a percentage in hundredths, and the
/// process it came from when it came over the bus.
#[derive(Debug)]
pub struct ProgressEvent {
    pub origin_id: Option<u32>,
    pub label: String,
    pub percentage: u16,
}

/// An event as a mathematical value.
pub struct EventView {
    pub origin_id: Option<u32>,
    pub label: Seq<char>,
    pub percentage: u16,
}

impl View for ProgressEvent {
    type V = EventView;

    open spec fn view(&self) -> EventView {
        EventView { origin_id: self.origin_id, label: self.label@, percentage: self.percentage }
    }
}

/// The event that a line with these two captured texts gives, if the second
/// is a percentage.
pub open spec fn event_of_groups(label: Seq<char>, value: Seq<char>) -> Option<EventView> {
    if is_percentage_text(value) {
        Some(EventView { origin_id: None, label, percentage: percentage_of(value) as u16 })
    } else {
        None
    }
}

/// Builds the event of a report line from its two captured texts: the label,
/// and the percentage, which must be a number.
pub fn event_from_groups(label: String, value: &str) -> (r: Result<ProgressEvent, ParseError>)
    ensures
        r is Ok <==> is_percentage_text(value@),
        r matches Ok(e) ==> Some(e@) == event_of_groups(label@, value@),
{
    match parse_percentage(value) {
        Ok(percentage) => Ok(ProgressEvent { origin_id: None, label, percentage }),
        Err(e) => Err(e),
    }
}

/// Parses one report line: `Ok(None)` where the pattern does not match it
/// (the line is no report), an error where the captured percentage is not a
/// number, else the event.
pub fn parse_line(m: &Matcher, line: &str) -> (r: Result<Option<ProgressEvent>, ParseError>)
    ensures
        regex_two_groups(m.pattern_spec(), line@) is None ==> r matches Ok(None),
        regex_two_groups(m.pattern_spec(), line@) matches Some(g) ==> {
            &&& (r is Err <==> !is_percentage_text(g.1))
            &&& r matches Ok(o) ==> o matches Some(e) && Some(e@) == event_of_groups(g.0, g.1)
        },
{
    match m.two_groups(line) {
        None => Ok(None),
        Some((label, value)) => match event_from_groups(label, value.as_str()) {
            Ok(e) => Ok(Some(e)),
            Err(e) => Err(e),
        },
    }
}

} // verus!
