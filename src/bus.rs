//! The records mirrored over the bus, and the two ends that make and take
//! them.
use vstd::prelude::*;
use crate::event::{EventView, ProgressEvent};
use crate::pattern::{regex_is_match, Matcher};
use crate::registry::Track;

verus! {

/// One broadcast report, in the field order and widths of the wire.
#[derive(Debug)]
pub struct BusRecord {
    pub origin_id: u32,
    pub label: String,
    pub sequence_id: u32,
    pub percentage: u16,
}

/// A record as a mathematical value.
pub struct RecordView {
    pub origin_id: u32,
    pub label: Seq<char>,
    pub sequence_id: u32,
    pub percentage: u16,
}

impl View for BusRecord {
    type V = RecordView;

    open spec fn view(&self) -> RecordView {
        RecordView {
            origin_id: self.origin_id,
            label: self.label@,
            sequence_id: self.sequence_id,
            percentage: self.percentage,
        }
    }
}

pub open spec fn digit_char(d: nat) -> char {
    seq!['0', '1', '2', '3', '4', '5', '6', '7', '8', '9'][d as int]
}

/// The decimal digits of `n`, without leading zeros.
pub open spec fn decimal(n: nat) -> Seq<char>
    decreases n,
{
    if n < 10 {
        seq![digit_char(n)]
    } else {
        decimal(n / 10).push(digit_char(n % 10))
    }
}

/// A label that names its origin: `origin:label`.
pub open spec fn origin_label(origin_id: u32, label: Seq<char>) -> Seq<char> {
    decimal(origin_id as nat) + seq![':'] + label
}

/// The event a subscriber passes on for a record, given whether its filter
/// matched the label: none where it did not; the label names the origin
/// where asked.
pub open spec fn event_of_record(rec: RecordView, matched: bool, show_origin: bool) -> Option<EventView> {
    if matched {
        Some(EventView {
            origin_id: Some(rec.origin_id),
            label: if show_origin { origin_label(rec.origin_id, rec.label) } else { rec.label },
            percentage: rec.percentage,
        })
    } else {
        None
    }
}

/// The record a publisher sends for a track.
pub open spec fn record_of_track(origin_id: u32, label: Seq<char>, sequence_id: nat, percentage: u16) -> RecordView {
    RecordView { origin_id, label, sequence_id: sequence_id as u32, percentage }
}

fn push_decimal(out: &mut String, n: u32)
    ensures
        final(out)@ == old(out)@ + decimal(n as nat),
    decreases n,
{
    if n >= 10 {
        push_decimal(out, n / 10);
    }
    let digits = "0123456789";
    proof {
        reveal_strlit("0123456789");
        assert(digits@ =~= seq!['0', '1', '2', '3', '4', '5', '6', '7', '8', '9']);
    }
    let d = (n % 10) as usize;
    let s = digits.substring_char(d, d + 1);
    assert(s@ =~= seq![digit_char(d as nat)]);
    out.append(s);
    proof {
        if n >= 10 {
            assert(decimal(n as nat) == decimal((n / 10) as nat).push(digit_char((n % 10) as nat)));
        }
        assert(final(out)@ =~= old(out)@ + decimal(n as nat));
    }
}

/// The label `origin:label`, with the origin in decimal.
pub fn make_origin_label(origin_id: u32, label: &str) -> (r: String)
    ensures
        r@ == origin_label(origin_id, label@),
{
    let mut out = String::new();
    push_decimal(&mut out, origin_id);
    out.append(":");
    proof {
        reveal_strlit(":");
    }
    out.append(label);
    assert(out@ =~= origin_label(origin_id, label@));
    out
}

/// Turns a received record into an event, given whether the label filter
/// matched its label.
pub fn event_from_record(rec: BusRecord, matched: bool, show_origin: bool) -> (r: Option<ProgressEvent>)
    ensures
        r matches Some(e) ==> event_of_record(rec@, matched, show_origin) == Some(e@),
        r is None ==> event_of_record(rec@, matched, show_origin) is None,
{
    if !matched {
        return None;
    }
    let label = if show_origin {
        make_origin_label(rec.origin_id, rec.label.as_str())
    } else {
        rec.label
    };
    Some(ProgressEvent { origin_id: Some(rec.origin_id), label, percentage: rec.percentage })
}

/// The sending end: mirrors each update of a local track onto the bus.
pub struct Publisher {
    /// Where the records are sent.
    pub path: String,
    /// The id of this process, carried by every record.
    pub origin_id: u32,
}

impl Publisher {
    pub fn new(path: String, origin_id: u32) -> (r: Publisher)
        ensures
            r.path@ == path@,
            r.origin_id == origin_id,
    {
        Publisher { path, origin_id }
    }

    /// The record that mirrors `t`.
    pub fn record_for(&self, t: &Track) -> (r: BusRecord)
        ensures
            r@ == record_of_track(self.origin_id, t.label@, t.sequence_id as nat, t.percentage),
    {
        BusRecord {
            origin_id: self.origin_id,
            label: t.label.clone(),
            sequence_id: t.sequence_id,
            percentage: t.percentage,
        }
    }
}

/// The receiving end: passes on the records whose label the filter matches.
pub struct Subscriber {
    pub filter: Matcher,
    /// Whether labels are rewritten to name their origin.
    pub show_origin: bool,
}

impl Subscriber {
    pub fn new(filter: Matcher, show_origin: bool) -> (r: Subscriber)
        ensures
            r.filter.pattern_spec() == filter.pattern_spec(),
            r.show_origin == show_origin,
    {
        Subscriber { filter, show_origin }
    }

    /// The event for a received record, or `None` where the filter drops it.
    pub fn accept(&self, rec: BusRecord) -> (r: Option<ProgressEvent>)
        ensures
            r matches Some(e) ==> event_of_record(
                rec@,
                regex_is_match(self.filter.pattern_spec(), rec@.label),
                self.show_origin,
            ) == Some(e@),
            r is None ==> event_of_record(
                rec@,
                regex_is_match(self.filter.pattern_spec(), rec@.label),
                self.show_origin,
            ) is None,
    {
        let matched = self.filter.is_match(rec.label.as_str());
        event_from_record(rec, matched, self.show_origin)
    }
}

} // verus!
