use vstd::prelude::*;

verus! {

/// A point in time, as seconds since the Unix epoch in UTC together with the
/// sub-second nanoseconds.  This is the plain-value form of the instants the
/// extractor reads from a page; two timestamps denote the same instant
/// exactly when they are equal.
#[derive(Debug, PartialEq, Eq, Clone, Copy)]
pub struct Timestamp {
    pub secs: i64,
    pub nanos: u32,
}

impl View for Timestamp {
    type V = (i64, u32);

    open spec fn view(&self) -> (i64, u32) {
        (self.secs, self.nanos)
    }
}

/// The finalized date range of an event: both instants are in UTC.  No
/// ordering between start and end is enforced; the values are passed through
/// from the page.
#[derive(Debug, PartialEq, Eq, Clone, Copy)]
pub struct DateRange {
    pub start: Timestamp,
    pub end: Timestamp,
}

#[verifier::ext_equal]
pub ghost struct DateRangeView {
    pub start: (i64, u32),
    pub end: (i64, u32),
}

impl View for DateRange {
    type V = DateRangeView;

    open spec fn view(&self) -> DateRangeView {
        DateRangeView { start: self.start@, end: self.end@ }
    }
}

/// The structured summary of an event-overview page.
#[derive(Debug, PartialEq, Eq)]
pub struct Event {
    pub canonical_url: String,
    pub title: String,
    pub final_date: Option<DateRange>,
    pub open_registration_link: Option<String>,
}

#[verifier::ext_equal]
pub ghost struct EventView {
    pub canonical_url: Seq<char>,
    pub title: Seq<char>,
    pub final_date: Option<DateRangeView>,
    pub open_registration_link: Option<Seq<char>>,
}

impl View for Event {
    type V = EventView;

    open spec fn view(&self) -> EventView {
        EventView {
            canonical_url: self.canonical_url@,
            title: self.title@,
            final_date: match self.final_date {
                Some(d) => Some(d@),
                None => None,
            },
            open_registration_link: match self.open_registration_link {
                Some(s) => Some(s@),
                None => None,
            },
        }
    }
}

/// The instant denoted by a date-time-with-offset text, normalized to UTC, as
/// (seconds since the Unix epoch, sub-second nanoseconds); `None` when the
/// text is not a valid RFC 3339 date-time.  The result depends on the text
/// alone.
pub uninterp spec fn rfc3339_utc(s: Seq<char>) -> Option<(i64, u32)>;

/// Relies on chrono's `DateTime::parse_from_rfc3339` (strict RFC 3339
/// parsing, no panic) and `DateTime::with_timezone`/`timestamp`/
/// `timestamp_subsec_nanos` (pure conversions of the parsed value to UTC and
/// to epoch seconds plus nanoseconds).
#[verifier::external_body]
pub(crate) fn parse_rfc3339_utc(s: &str) -> (r: Option<Timestamp>)
    ensures
        r is Some <==> rfc3339_utc(s@) is Some,
        r matches Some(t) ==> rfc3339_utc(s@) == Some((t.secs, t.nanos)),
{
    match chrono::DateTime::parse_from_rfc3339(s) {
        Ok(parsed) => {
            let utc = parsed.with_timezone(&chrono::Utc);
            Some(Timestamp { secs: utc.timestamp(), nanos: utc.timestamp_subsec_nanos() })
        },
        Err(_) => None,
    }
}

} // verus!
