//! Extraction of a structured event summary from the markup of an
//! event-scheduling overview page.
//!
//! The interesting work is [`event_overview_page::parse_page`]: given the raw
//! text of a page it locates a fixed set of elements and attributes and
//! assembles an [`Event`], distinguishing "no such event" from "the markup
//! changed shape" and from "a date would not parse".

pub mod event;
pub mod event_overview_page;
pub mod markup;

pub use event::DateRange;
pub use event::Event;
pub use event::Timestamp;
