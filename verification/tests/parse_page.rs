use chrono::TimeZone;
use datumprikker::event_overview_page::parse_page;
use datumprikker::event_overview_page::ParsePageError;
use datumprikker::DateRange;
use datumprikker::Event;
use datumprikker::Timestamp;

fn utc_timestamp(y: i32, mo: u32, d: u32, h: u32, mi: u32, s: u32) -> Timestamp {
    Timestamp { secs: chrono::Utc.with_ymd_and_hms(y, mo, d, h, mi, s).unwrap().timestamp(), nanos: 0 }
}

#[test]
fn it_works() {
    let result = 2 + 2;
    assert_eq!(result, 4);
}

#[test]
fn in_progress_event() {
    let text = r#"<html id="page_afspraak_overzicht"><head>
        <link rel="canonical" href="http://datumprikker.nl/afspraak/overzicht/fewqvuycnmvgnx25">
        </head><body>
        <article data-event-title="D&amp;D Avernus week 29" data-openregistration-link="https://datumprikker.nl/pux6s6a4febgnx25">
        <p>no date has been picked yet</p>
        </article></body></html>"#;
    let event = parse_page(text).unwrap();
    assert_eq!(
        event,
        Event {
            canonical_url: String::from(
                "http://datumprikker.nl/afspraak/overzicht/fewqvuycnmvgnx25"
            ),
            title: String::from("D&D Avernus week 29"),
            final_date: None,
            open_registration_link: Some(String::from("https://datumprikker.nl/pux6s6a4febgnx25")),
        }
    )
}

#[test]
fn finalized_event() {
    let text = r#"<html id="page_afspraak_overzicht"><head>
        <link rel="canonical" href="http://datumprikker.nl/afspraak/overzicht/f4wfumjp7a9ih2nq">
        </head><body>
        <article data-event-title="D&amp;D Avernus Week 22" data-openregistration-link="https://datumprikker.nl/pbxzxuf7c8sih2nq">
        <div id="final_summary"><span class="date" data-startdate="2022-06-03T19:00:00+02:00" data-enddate="2022-06-03T23:00:00+02:00">3 June</span></div>
        </article></body></html>"#;
    let event = parse_page(text).unwrap();
    assert_eq!(
        event,
        Event {
            canonical_url: String::from(
                "http://datumprikker.nl/afspraak/overzicht/f4wfumjp7a9ih2nq"
            ),
            title: String::from("D&D Avernus Week 22"),
            final_date: Some(DateRange {
                start: utc_timestamp(2022, 6, 3, 17, 0, 0),
                end: utc_timestamp(2022, 6, 3, 21, 0, 0),
            }),
            open_registration_link: Some(String::from("https://datumprikker.nl/pbxzxuf7c8sih2nq")),
        }
    )
}

#[test]
fn participant_event() {
    let text = r#"<html id="page_afspraak_overzicht"><head>
        <link rel="canonical" href="http://datumprikker.nl/afspraak/overzicht/mu2edbyv3bfayubtm">
        </head><body>
        <article data-event-title="test" data-openregistration-link="">
        </article></body></html>"#;
    let event = parse_page(text).unwrap();
    assert_eq!(
        event,
        Event {
            canonical_url: String::from(
                "http://datumprikker.nl/afspraak/overzicht/mu2edbyv3bfayubtm"
            ),
            title: String::from("test"),
            final_date: None,
            open_registration_link: None,
        }
    )
}

#[test]
fn invalid_event() {
    let text = r#"<html id="page_home_index"><head><title>home</title></head>
        <body><p>nothing here</p></body></html>"#;
    let event = parse_page(text);
    assert_eq!(event, Err(ParsePageError::NonExistingEvent))
}

#[test]
fn missing_root_id_is_unexpected() {
    let text = r#"<html><body><article data-event-title="t"></article></body></html>"#;
    assert_eq!(parse_page(text), Err(ParsePageError::UnexpectedHtml));
}

#[test]
fn missing_canonical_link_is_unexpected() {
    let text = r#"<html id="page_afspraak_overzicht"><body>
        <article data-event-title="t" data-openregistration-link=""></article>
        </body></html>"#;
    assert_eq!(parse_page(text), Err(ParsePageError::UnexpectedHtml));
}

#[test]
fn missing_title_attribute_is_unexpected() {
    let text = r#"<html id="page_afspraak_overzicht"><head>
        <link rel="canonical" href="http://example.net/e/1"></head><body>
        <article data-openregistration-link=""></article></body></html>"#;
    assert_eq!(parse_page(text), Err(ParsePageError::UnexpectedHtml));
}

#[test]
fn missing_registration_attribute_is_unexpected() {
    let text = r#"<html id="page_afspraak_overzicht"><head>
        <link rel="canonical" href="http://example.net/e/1"></head><body>
        <article data-event-title="t"></article></body></html>"#;
    assert_eq!(parse_page(text), Err(ParsePageError::UnexpectedHtml));
}

#[test]
fn final_summary_without_date_element_is_unexpected() {
    let text = r#"<html id="page_afspraak_overzicht"><head>
        <link rel="canonical" href="http://example.net/e/1"></head><body>
        <article data-event-title="t" data-openregistration-link="">
        <div id="final_summary"><span>nothing dated</span></div>
        </article></body></html>"#;
    assert_eq!(parse_page(text), Err(ParsePageError::UnexpectedHtml));
}

#[test]
fn invalid_start_date_is_a_date_parse_error() {
    let text = r#"<html id="page_afspraak_overzicht"><head>
        <link rel="canonical" href="http://example.net/e/1"></head><body>
        <article data-event-title="t" data-openregistration-link="">
        <div id="final_summary"><span class="date" data-startdate="friday evening" data-enddate="2022-06-03T23:00:00+02:00"></span></div>
        </article></body></html>"#;
    assert_eq!(parse_page(text), Err(ParsePageError::DateParseError));
}

#[test]
fn invalid_end_date_is_a_date_parse_error() {
    let text = r#"<html id="page_afspraak_overzicht"><head>
        <link rel="canonical" href="http://example.net/e/1"></head><body>
        <article data-event-title="t" data-openregistration-link="">
        <div id="final_summary"><span class="date" data-startdate="2022-06-03T19:00:00+02:00" data-enddate="2022-06-33T23:00:00+02:00"></span></div>
        </article></body></html>"#;
    assert_eq!(parse_page(text), Err(ParsePageError::DateParseError));
}

#[test]
fn date_element_with_several_classes_is_found() {
    let text = r#"<html id="page_afspraak_overzicht"><head>
        <link rel="canonical" href="http://example.net/e/1"></head><body>
        <article data-event-title="t" data-openregistration-link="">
        <div id="final_summary"><span class="summary date highlighted" data-startdate="2000-01-02T03:04:05Z" data-enddate="2000-01-02T04:04:05Z"></span></div>
        </article></body></html>"#;
    let event = parse_page(text).unwrap();
    assert_eq!(
        event.final_date,
        Some(DateRange {
            start: utc_timestamp(2000, 1, 2, 3, 4, 5),
            end: utc_timestamp(2000, 1, 2, 4, 4, 5),
        })
    );
}

#[test]
fn dateless_class_outside_final_summary_is_ignored() {
    let text = r#"<html id="page_afspraak_overzicht"><head>
        <link rel="canonical" href="http://example.net/e/1"></head><body>
        <span class="date" data-startdate="1999-01-01T00:00:00Z" data-enddate="1999-01-01T00:00:00Z"></span>
        <article data-event-title="t" data-openregistration-link="">
        <div id="final_summary"><span class="date" data-startdate="2001-02-03T04:05:06Z" data-enddate="2001-02-03T05:05:06Z"></span></div>
        </article></body></html>"#;
    let event = parse_page(text).unwrap();
    assert_eq!(
        event.final_date,
        Some(DateRange {
            start: utc_timestamp(2001, 2, 3, 4, 5, 6),
            end: utc_timestamp(2001, 2, 3, 5, 5, 6),
        })
    );
}

#[test]
fn fractional_seconds_are_kept() {
    let text = r#"<html id="page_afspraak_overzicht"><head>
        <link rel="canonical" href="http://example.net/e/1"></head><body>
        <article data-event-title="t" data-openregistration-link="">
        <div id="final_summary"><span class="date" data-startdate="2020-05-06T07:08:09.25Z" data-enddate="2020-05-06T08:08:09Z"></span></div>
        </article></body></html>"#;
    let event = parse_page(text).unwrap();
    let start = event.final_date.unwrap().start;
    assert_eq!(
        start,
        Timestamp { secs: utc_timestamp(2020, 5, 6, 7, 8, 9).secs, nanos: 250_000_000 }
    );
}
