use vstd::prelude::*;

use crate::event::DateRange;
use crate::event::DateRangeView;
use crate::event::Event;
use crate::event::EventView;
use crate::event::parse_rfc3339_utc;
use crate::event::rfc3339_utc;
use crate::markup::MarkupNode;
use crate::markup::NodeView;
use crate::markup::attr_of;
use crate::markup::attr_of_spec;
use crate::markup::dom_of;
use crate::markup::dom_view;
use crate::markup::find_first_attr_value;
use crate::markup::find_first_class_in;
use crate::markup::find_first_tag;
use crate::markup::find_first_tag_attr;
use crate::markup::first_attr_value_from;
use crate::markup::first_class_in_from;
use crate::markup::first_tag_attr_from;
use crate::markup::first_tag_from;
use crate::markup::parse_markup;
use crate::markup::str_eq;

verus! {

/// The ways an extraction can fail; the caller can tell "no such event"
/// apart from "the markup changed shape" and from "a date would not parse".
#[derive(Debug, PartialEq, Eq, Clone, Copy)]
pub enum ParsePageError {
    NonExistingEvent,
    UnexpectedHtml,
    DateParseError,
}

/// The root identifier the site puts on its placeholder page; seeing it
/// means the requested event does not exist.
pub open spec fn home_page_id() -> Seq<char> {
    "page_home_index"@
}

/// The identifier attribute of the root element: the `id` attribute of the
/// first `html` element.
pub open spec fn page_id_spec(dom: Seq<NodeView>) -> Option<Seq<char>> {
    match first_tag_from(dom, "html"@, 0) {
        Some(i) => attr_of_spec(dom[i], "id"@),
        None => None,
    }
}

/// The canonical URL: the `href` attribute of the first `link` element whose
/// `rel` attribute is `canonical`.
pub open spec fn canonical_url_spec(dom: Seq<NodeView>) -> Option<Seq<char>> {
    match first_tag_attr_from(dom, "link"@, "rel"@, "canonical"@, 0) {
        Some(i) => attr_of_spec(dom[i], "href"@),
        None => None,
    }
}

/// The event title: the `data-event-title` attribute of the first `article`
/// element, the page's primary content container.
pub open spec fn title_spec(dom: Seq<NodeView>) -> Option<Seq<char>> {
    match first_tag_from(dom, "article"@, 0) {
        Some(i) => attr_of_spec(dom[i], "data-event-title"@),
        None => None,
    }
}

/// The open-registration link as it stands on the page: the
/// `data-openregistration-link` attribute of the first `article` element.
pub open spec fn reg_link_spec(dom: Seq<NodeView>) -> Option<Seq<char>> {
    match first_tag_from(dom, "article"@, 0) {
        Some(i) => attr_of_spec(dom[i], "data-openregistration-link"@),
        None => None,
    }
}

/// The node carrying the final-summary section, if the page has one.
pub open spec fn final_summary_spec(dom: Seq<NodeView>) -> Option<int> {
    first_attr_value_from(dom, "id"@, "final_summary"@, 0)
}

/// The finalized date range of the page: absent when there is no
/// final-summary section; otherwise read from the start- and end-date
/// attributes of the first node of class `date` inside that section, both
/// parsed as RFC 3339 date-times and taken to UTC.
pub open spec fn final_date_spec(dom: Seq<NodeView>) -> Result<
    Option<DateRangeView>,
    ParsePageError,
> {
    match final_summary_spec(dom) {
        None => Ok(None),
        Some(fs) => match first_class_in_from(dom, fs, "date"@, 0) {
            None => Err(ParsePageError::UnexpectedHtml),
            Some(d) => match (
                attr_of_spec(dom[d], "data-startdate"@),
                attr_of_spec(dom[d], "data-enddate"@),
            ) {
                (Some(st), Some(en)) => match (rfc3339_utc(st), rfc3339_utc(en)) {
                    (Some(s), Some(e)) => Ok(Some(DateRangeView { start: s, end: e })),
                    _ => Err(ParsePageError::DateParseError),
                },
                _ => Err(ParsePageError::UnexpectedHtml),
            },
        },
    }
}

/// What extraction returns on a document: the first failing step decides,
/// in the order page identity, canonical URL, title, final date,
/// open-registration link; an empty open-registration link means "none".
pub open spec fn extract_spec(dom: Seq<NodeView>) -> Result<EventView, ParsePageError> {
    match page_id_spec(dom) {
        None => Err(ParsePageError::UnexpectedHtml),
        Some(id) => if id == home_page_id() {
            Err(ParsePageError::NonExistingEvent)
        } else {
            match canonical_url_spec(dom) {
                None => Err(ParsePageError::UnexpectedHtml),
                Some(url) => match title_spec(dom) {
                    None => Err(ParsePageError::UnexpectedHtml),
                    Some(title) => match final_date_spec(dom) {
                        Err(e) => Err(e),
                        Ok(fd) => match reg_link_spec(dom) {
                            None => Err(ParsePageError::UnexpectedHtml),
                            Some(link) => Ok(
                                EventView {
                                    canonical_url: url,
                                    title: title,
                                    final_date: fd,
                                    open_registration_link: if link.len() == 0 {
                                        None
                                    } else {
                                        Some(link)
                                    },
                                },
                            ),
                        },
                    },
                },
            }
        },
    }
}

pub open spec fn result_view(r: Result<Event, ParsePageError>) -> Result<
    EventView,
    ParsePageError,
> {
    match r {
        Ok(e) => Ok(e@),
        Err(p) => Err(p),
    }
}

fn parse_page_id(dom: &Vec<MarkupNode>) -> (r: Result<String, ParsePageError>)
    ensures
        r matches Ok(s) ==> page_id_spec(dom_view(dom@)) == Some(s@),
        r matches Err(e) ==> page_id_spec(dom_view(dom@)) is None && e
            == ParsePageError::UnexpectedHtml,
{
    let i = match find_first_tag(dom, "html") {
        Some(i) => i,
        None => {
            return Err(ParsePageError::UnexpectedHtml);
        },
    };
    proof {
        assert(dom_view(dom@)[i as int] == dom@[i as int]@);
    }
    match attr_of(&dom[i], "id") {
        Some(v) => Ok(v),
        None => Err(ParsePageError::UnexpectedHtml),
    }
}

fn parse_canonical_url(dom: &Vec<MarkupNode>) -> (r: Result<String, ParsePageError>)
    ensures
        r matches Ok(s) ==> canonical_url_spec(dom_view(dom@)) == Some(s@),
        r matches Err(e) ==> canonical_url_spec(dom_view(dom@)) is None && e
            == ParsePageError::UnexpectedHtml,
{
    let i = match find_first_tag_attr(dom, "link", "rel", "canonical") {
        Some(i) => i,
        None => {
            return Err(ParsePageError::UnexpectedHtml);
        },
    };
    proof {
        assert(dom_view(dom@)[i as int] == dom@[i as int]@);
    }
    match attr_of(&dom[i], "href") {
        Some(v) => Ok(v),
        None => Err(ParsePageError::UnexpectedHtml),
    }
}

fn parse_page_title(dom: &Vec<MarkupNode>) -> (r: Result<String, ParsePageError>)
    ensures
        r matches Ok(s) ==> title_spec(dom_view(dom@)) == Some(s@),
        r matches Err(e) ==> title_spec(dom_view(dom@)) is None && e
            == ParsePageError::UnexpectedHtml,
{
    let i = match find_first_tag(dom, "article") {
        Some(i) => i,
        None => {
            return Err(ParsePageError::UnexpectedHtml);
        },
    };
    proof {
        assert(dom_view(dom@)[i as int] == dom@[i as int]@);
    }
    match attr_of(&dom[i], "data-event-title") {
        Some(v) => Ok(v),
        None => Err(ParsePageError::UnexpectedHtml),
    }
}

pub open spec fn final_date_view(r: Result<Option<DateRange>, ParsePageError>) -> Result<
    Option<DateRangeView>,
    ParsePageError,
> {
    match r {
        Ok(Some(d)) => Ok(Some(d@)),
        Ok(None) => Ok(None),
        Err(e) => Err(e),
    }
}

fn parse_page_final_date(dom: &Vec<MarkupNode>) -> (r: Result<Option<DateRange>, ParsePageError>)
    ensures
        final_date_view(r) == final_date_spec(dom_view(dom@)),
{
    let fs = match find_first_attr_value(dom, "id", "final_summary") {
        Some(fs) => fs,
        None => {
            return Ok(None);
        },
    };
    proof {
        reveal_strlit("date");
    }
    let d = match find_first_class_in(dom, fs, "date") {
        Some(d) => d,
        None => {
            return Err(ParsePageError::UnexpectedHtml);
        },
    };
    proof {
        assert(dom_view(dom@)[d as int] == dom@[d as int]@);
    }
    let start_text = match attr_of(&dom[d], "data-startdate") {
        Some(v) => v,
        None => {
            return Err(ParsePageError::UnexpectedHtml);
        },
    };
    let end_text = match attr_of(&dom[d], "data-enddate") {
        Some(v) => v,
        None => {
            return Err(ParsePageError::UnexpectedHtml);
        },
    };
    let start = match parse_rfc3339_utc(start_text.as_str()) {
        Some(t) => t,
        None => {
            return Err(ParsePageError::DateParseError);
        },
    };
    let end = match parse_rfc3339_utc(end_text.as_str()) {
        Some(t) => t,
        None => {
            return Err(ParsePageError::DateParseError);
        },
    };
    Ok(Some(DateRange { start, end }))
}

fn parse_page_open_registration_link(dom: &Vec<MarkupNode>) -> (r: Result<
    Option<String>,
    ParsePageError,
>)
    ensures
        r matches Ok(o) ==> reg_link_spec(dom_view(dom@)) matches Some(link) && (match o {
            Some(s) => link.len() > 0 && s@ == link,
            None => link.len() == 0,
        }),
        r matches Err(e) ==> reg_link_spec(dom_view(dom@)) is None && e
            == ParsePageError::UnexpectedHtml,
{
    let i = match find_first_tag(dom, "article") {
        Some(i) => i,
        None => {
            return Err(ParsePageError::UnexpectedHtml);
        },
    };
    proof {
        assert(dom_view(dom@)[i as int] == dom@[i as int]@);
    }
    let link = match attr_of(&dom[i], "data-openregistration-link") {
        Some(v) => v,
        None => {
            return Err(ParsePageError::UnexpectedHtml);
        },
    };
    if link.as_str().unicode_len() == 0 {
        Ok(None)
    } else {
        Ok(Some(link))
    }
}

/// Extract the event summary from the raw text of an event-overview page:
/// check the page identity, then read the canonical URL, the title, the
/// optional finalized date range and the optional open-registration link,
/// failing at the first missing or malformed piece.
pub fn parse_page(text: &str) -> (r: Result<Event, ParsePageError>)
    ensures
        result_view(r) == extract_spec(dom_of(text@)),
{
    let dom = parse_markup(text);
    let ghost dv = dom_of(text@);

    let page_id = match parse_page_id(&dom) {
        Ok(s) => s,
        Err(e) => {
            return Err(e);
        },
    };
    if str_eq(page_id.as_str(), "page_home_index") {
        return Err(ParsePageError::NonExistingEvent);
    }
    let canonical_url = match parse_canonical_url(&dom) {
        Ok(s) => s,
        Err(e) => {
            return Err(e);
        },
    };
    let title = match parse_page_title(&dom) {
        Ok(s) => s,
        Err(e) => {
            return Err(e);
        },
    };
    let final_date = match parse_page_final_date(&dom) {
        Ok(o) => o,
        Err(e) => {
            return Err(e);
        },
    };
    let open_registration_link = match parse_page_open_registration_link(&dom) {
        Ok(o) => o,
        Err(e) => {
            return Err(e);
        },
    };
    Ok(Event { canonical_url, title, final_date, open_registration_link })
}

/// On a page whose root identifier is the placeholder identifier,
/// extraction fails with `NonExistingEvent` and with no other error kind,
/// whatever else the page holds.
pub proof fn lemma_placeholder_page(dom: Seq<NodeView>)
    requires
        page_id_spec(dom) == Some(home_page_id()),
    ensures
        extract_spec(dom) == Err::<EventView, ParsePageError>(ParsePageError::NonExistingEvent),
{
}

/// On a well-formed event page without a final-summary section, extraction
/// succeeds, the date range is absent, and the canonical URL, title and
/// open-registration link are exactly the attribute values on the page (an
/// empty link normalized to `None`).
pub proof fn lemma_page_without_final_summary(
    dom: Seq<NodeView>,
    url: Seq<char>,
    title: Seq<char>,
    link: Seq<char>,
)
    requires
        page_id_spec(dom) matches Some(id) && id != home_page_id(),
        canonical_url_spec(dom) == Some(url),
        title_spec(dom) == Some(title),
        final_summary_spec(dom) is None,
        reg_link_spec(dom) == Some(link),
    ensures
        extract_spec(dom) == Ok::<EventView, ParsePageError>(
            EventView {
                canonical_url: url,
                title: title,
                final_date: None,
                open_registration_link: if link.len() == 0 {
                    None
                } else {
                    Some(link)
                },
            },
        ),
{
}

/// When extraction succeeds on a page with a final-summary section whose
/// date element parses, the date range of the event holds exactly the two
/// parsed instants, each normalized to UTC, in source order.
pub proof fn lemma_finalized_dates(
    dom: Seq<NodeView>,
    fs: int,
    d: int,
    start_text: Seq<char>,
    end_text: Seq<char>,
    start: (i64, u32),
    end: (i64, u32),
    ev: EventView,
)
    requires
        final_summary_spec(dom) == Some(fs),
        first_class_in_from(dom, fs, "date"@, 0) == Some(d),
        attr_of_spec(dom[d], "data-startdate"@) == Some(start_text),
        attr_of_spec(dom[d], "data-enddate"@) == Some(end_text),
        rfc3339_utc(start_text) == Some(start),
        rfc3339_utc(end_text) == Some(end),
        extract_spec(dom) == Ok::<EventView, ParsePageError>(ev),
    ensures
        ev.final_date == Some(DateRangeView { start, end }),
{
}

/// When extraction succeeds, the open-registration link of the event is
/// `None` exactly when the attribute on the page is the empty string, and
/// otherwise is the attribute's exact value.
pub proof fn lemma_registration_link(dom: Seq<NodeView>, link: Seq<char>, ev: EventView)
    requires
        reg_link_spec(dom) == Some(link),
        extract_spec(dom) == Ok::<EventView, ParsePageError>(ev),
    ensures
        ev.open_registration_link == (if link.len() == 0 {
            None::<Seq<char>>
        } else {
            Some(link)
        }),
{
}

/// A page that is not the placeholder but lacks the canonical-link element,
/// the primary content container, or a required attribute on either, makes
/// extraction fail with `UnexpectedHtml`: no partial event is built.
pub proof fn lemma_missing_structure(dom: Seq<NodeView>)
    requires
        page_id_spec(dom) matches Some(id) && id != home_page_id(),
        canonical_url_spec(dom) is None || title_spec(dom) is None || (final_date_spec(dom) is Ok
            && reg_link_spec(dom) is None),
    ensures
        extract_spec(dom) == Err::<EventView, ParsePageError>(ParsePageError::UnexpectedHtml),
{
}

/// When the date element of the final-summary section is present with both
/// of its date attributes but either text is not a valid RFC 3339
/// date-time, extraction fails with `DateParseError` — not with
/// `UnexpectedHtml`.
pub proof fn lemma_invalid_date(
    dom: Seq<NodeView>,
    fs: int,
    d: int,
    start_text: Seq<char>,
    end_text: Seq<char>,
)
    requires
        page_id_spec(dom) matches Some(id) && id != home_page_id(),
        canonical_url_spec(dom) is Some,
        title_spec(dom) is Some,
        final_summary_spec(dom) == Some(fs),
        first_class_in_from(dom, fs, "date"@, 0) == Some(d),
        attr_of_spec(dom[d], "data-startdate"@) == Some(start_text),
        attr_of_spec(dom[d], "data-enddate"@) == Some(end_text),
        rfc3339_utc(start_text) is None || rfc3339_utc(end_text) is None,
    ensures
        extract_spec(dom) == Err::<EventView, ParsePageError>(ParsePageError::DateParseError),
{
}

} // verus!
