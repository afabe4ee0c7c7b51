use vstd::prelude::*;

verus! {

/// Which mandatory element of a page was not found.
#[derive(Clone, Copy, Debug, PartialEq, Eq, Structural)]
pub enum Locator {
    /// The `.agenda__label` of a day section.
    DayLabel,
    /// The `.agenda__time` of a period row.
    PeriodTime,
    /// The `h6` heading of a session.
    SessionTitle,
    /// The first anchor of a session, which leads to its detail page.
    SessionLink,
    /// The `href` of an anchor in a session's presenter paragraph.
    PresenterLink,
    /// The `.speaker__name` of a presenter page.
    PresenterName,
    /// The `.speaker__title` of a presenter page.
    PresenterTitle,
    /// The `.speaker__introduce` of a presenter page.
    PresenterIntroduction,
    /// The `.session__time` of a session detail page.
    SessionTime,
}

/// Why extracting the agenda failed.
#[derive(Debug, PartialEq, Eq)]
pub enum FetchError {
    /// A page could not be fetched: a network failure or a non-success status.
    Transport { url: String },
    /// A time label is not two integers around one `:`, or a range is not two times.
    MalformedTime,
    /// An element that the extraction needs is absent from the page at `page`.
    /// On the agenda page, `at` is the position of the element's ancestor: its
    /// day, then its period row, then its track and its place among the row's
    /// sessions, each counted from 1. It is empty on other pages.
    MissingElement { what: Locator, page: String, at: Vec<u32> },
}

} // verus!
