//! The agenda model: days own periods, periods own sessions, sessions own
//! presenters. Each type has a mathematical view used by the contracts.
use vstd::prelude::*;
use crate::error::{FetchError, Locator};
use crate::time::Time;

verus! {

/// A speaker profile, read from the page at `link`.
#[derive(Debug)]
pub struct Presenter {
    pub name: String,
    pub title: String,
    pub link: String,
    pub introduction: String,
}

pub struct PresenterView {
    pub name: Seq<char>,
    pub title: Seq<char>,
    pub link: Seq<char>,
    pub introduction: Seq<char>,
}

impl DeepView for Presenter {
    type V = PresenterView;

    open spec fn deep_view(&self) -> PresenterView {
        PresenterView {
            name: self.name@,
            title: self.title@,
            link: self.link@,
            introduction: self.introduction@,
        }
    }
}

/// One scheduled talk. `day` and `track` count from 1.
#[derive(Debug)]
pub struct Session {
    pub day: u32,
    pub track: u32,
    pub time: (Time, Time),
    pub title: String,
    pub presenters: Vec<Presenter>,
    pub tags: Vec<String>,
    pub description: String,
}

pub struct SessionView {
    pub day: u32,
    pub track: u32,
    pub time: (Time, Time),
    pub title: Seq<char>,
    pub presenters: Seq<PresenterView>,
    pub tags: Seq<Seq<char>>,
    pub description: Seq<char>,
}

impl DeepView for Session {
    type V = SessionView;

    open spec fn deep_view(&self) -> SessionView {
        SessionView {
            day: self.day,
            track: self.track,
            time: self.time,
            title: self.title@,
            presenters: self.presenters.deep_view(),
            tags: self.tags.deep_view(),
            description: self.description@,
        }
    }
}

/// A shared time slot and the sessions held in it, over all tracks.
#[derive(Debug)]
pub struct Period {
    pub time: (Time, Time),
    pub sessions: Vec<Session>,
}

pub struct PeriodView {
    pub time: (Time, Time),
    pub sessions: Seq<SessionView>,
}

impl DeepView for Period {
    type V = PeriodView;

    open spec fn deep_view(&self) -> PeriodView {
        PeriodView { time: self.time, sessions: self.sessions.deep_view() }
    }
}

/// One day of the conference.
#[derive(Debug)]
pub struct Agenda {
    pub date: String,
    pub periods: Vec<Period>,
}

pub struct AgendaView {
    pub date: Seq<char>,
    pub periods: Seq<PeriodView>,
}

impl DeepView for Agenda {
    type V = AgendaView;

    open spec fn deep_view(&self) -> AgendaView {
        AgendaView { date: self.date@, periods: self.periods.deep_view() }
    }
}

/// The sessions of the periods, period after period.
pub open spec fn sessions_of(periods: Seq<PeriodView>) -> Seq<SessionView>
    decreases periods.len(),
{
    if periods.len() == 0 {
        Seq::empty()
    } else {
        sessions_of(periods.drop_last()) + periods.last().sessions
    }
}

/// The sessions of the days, day after day.
pub open spec fn sessions_of_days(days: Seq<AgendaView>) -> Seq<SessionView>
    decreases days.len(),
{
    if days.len() == 0 {
        Seq::empty()
    } else {
        sessions_of_days(days.drop_last()) + sessions_of(days.last().periods)
    }
}

impl Agenda {
    /// The sessions of the day, in document order.
    pub fn sessions(&self) -> (r: Vec<&Session>)
        ensures
            r.deep_view() == sessions_of(self.periods.deep_view()),
    {
        let mut out: Vec<&Session> = Vec::new();
        let mut i: usize = 0;
        while i < self.periods.len()
            invariant
                i <= self.periods.len(),
                out.deep_view() == sessions_of(self.periods.deep_view().take(i as int)),
            decreases self.periods.len() - i,
        {
            let period = &self.periods[i];
            let ghost before = out.deep_view();
            let mut j: usize = 0;
            while j < period.sessions.len()
                invariant
                    i < self.periods.len(),
                    period == &self.periods@[i as int],
                    j <= period.sessions.len(),
                    out.deep_view() == before + period.sessions.deep_view().take(j as int),
                decreases period.sessions.len() - j,
            {
                let ghost prev = out@;
                let ghost prev_deep = out.deep_view();
                assert(prev_deep.len() == prev.len());
                out.push(&period.sessions[j]);
                proof {
                    assert(out@.len() == prev.len() + 1);
                    assert(prev.len() == before.len() + j);
                    assert(out@[prev.len() as int] == period.sessions@[j as int]);
                    assert(out.deep_view().len() == out@.len());
                    assert forall|k: int| 0 <= k < out.deep_view().len() implies out.deep_view()[k] == (before + period.sessions.deep_view().take(j as int + 1))[k] by {
                        assert(out.deep_view()[k] == out@[k].deep_view());
                        if k < out.deep_view().len() - 1 {
                            assert(out@[k] == prev[k]);
                            assert(prev_deep[k] == prev[k].deep_view());
                            if k >= before.len() {
                                assert(period.sessions.deep_view().take(j as int)[k - before.len()] == period.sessions.deep_view()[k - before.len()]);
                            }
                        } else {
                            assert(period.sessions.deep_view()[j as int] == period.sessions@[j as int].deep_view());
                        }
                    }
                    assert(out.deep_view() =~= before + period.sessions.deep_view().take(j as int + 1));
                }
                j = j + 1;
            }
            proof {
                assert(period.sessions.deep_view().take(j as int) =~= period.sessions.deep_view());
                assert(self.periods.deep_view().take(i as int + 1).drop_last() =~= self.periods.deep_view().take(i as int));
            }
            i = i + 1;
        }
        assert(self.periods.deep_view().take(i as int) =~= self.periods.deep_view());
        out
    }
}

/// The outcome of fetching one page: its body, or `None` where the fetch failed.
#[derive(Debug)]
pub struct Page {
    pub url: String,
    pub body: Option<String>,
}

/// What an error says, as plain values.
pub enum ErrorView {
    Transport(Seq<char>),
    MalformedTime,
    MissingElement(Locator, Seq<char>, Seq<u32>),
}

impl DeepView for FetchError {
    type V = ErrorView;

    open spec fn deep_view(&self) -> ErrorView {
        match self {
            FetchError::Transport { url } => ErrorView::Transport(url@),
            FetchError::MalformedTime => ErrorView::MalformedTime,
            FetchError::MissingElement { what, page, at } => ErrorView::MissingElement(*what, page@, at@),
        }
    }
}

/// Where an extraction stands: finished, waiting for pages that have not been
/// fetched yet, or failed.
#[derive(Debug)]
pub enum Step<T> {
    Done(T),
    Need(Vec<String>),
    Failed(FetchError),
}

pub enum StepView<V> {
    Done(V),
    Need(Seq<Seq<char>>),
    Failed(ErrorView),
}

impl<T: DeepView> DeepView for Step<T> {
    type V = StepView<T::V>;

    open spec fn deep_view(&self) -> StepView<T::V> {
        match self {
            Step::Done(t) => StepView::Done(t.deep_view()),
            Step::Need(urls) => StepView::Need(urls.deep_view()),
            Step::Failed(e) => StepView::Failed(e.deep_view()),
        }
    }
}

/// The body fetched for `url`, by the first page of that url: `None` where no
/// page has it, `Some(None)` where its fetch failed.
pub open spec fn lookup(pages: Seq<Page>, url: Seq<char>) -> Option<Option<Seq<char>>>
    decreases pages.len(),
{
    if pages.len() == 0 {
        None
    } else if pages[0].url@ == url {
        Some(pages[0].body.deep_view())
    } else {
        lookup(pages.drop_first(), url)
    }
}

/// The index of the first page for `url`.
pub fn find_page(pages: &Vec<Page>, url: &String) -> (r: Option<usize>)
    ensures
        match r {
            None => lookup(pages@, url@) is None,
            Some(i) => i < pages@.len() && lookup(pages@, url@) == Some(
                pages@[i as int].body.deep_view(),
            ),
        },
{
    let mut i: usize = 0;
    assert(pages@.skip(0) =~= pages@);
    while i < pages.len()
        invariant
            i <= pages.len(),
            lookup(pages@, url@) == lookup(pages@.skip(i as int), url@),
        decreases pages.len() - i,
    {
        proof {
            assert(pages@.skip(i as int).drop_first() =~= pages@.skip(i as int + 1));
        }
        if pages[i].url == *url {
            return Some(i);
        }
        i = i + 1;
    }
    None
}

/// Pushing onto a vector pushes the element's view onto its view.
pub proof fn lemma_deep_view_push<T: DeepView>(before: Vec<T>, after: Vec<T>, x: T)
    requires
        after@ == before@.push(x),
    ensures
        after.deep_view() == before.deep_view().push(x.deep_view()),
{
    assert(after.deep_view() =~= before.deep_view().push(x.deep_view()));
}

} // verus!
