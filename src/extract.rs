//! Extraction of the agenda from the conference site's pages.
//!
//! The extraction is a pure function of the agenda page and of the pages fetched
//! so far. Where it needs a page that has not been fetched, it answers with the
//! urls to fetch; the caller fetches them (the presenters of a session together)
//! and runs it again with the new pages. A page whose fetch failed makes the whole
//! extraction fail, and so does a missing element or a malformed time: no partial
//! agenda is ever returned.
use vstd::prelude::*;
use vstd::string::StrSliceExecFns;
use crate::dom::{
    attrs_of, concat_spec, concat_texts, fragments_of, inner_fragments_of,
    select_attrs, select_fragments, select_inner_fragments, select_text_nodes, select_texts, text_nodes_of, texts_spec,
};
use crate::error::{FetchError, Locator};
use crate::model::{
    find_page, lemma_deep_view_push, lookup, Agenda, AgendaView, ErrorView, Page, Period, PeriodView, Presenter,
    PresenterView, Session, SessionView, Step, StepView,
};
use crate::text::{split_spec, split_text};
use crate::time::{time_of, range_of, parse_range, Time};

verus! {

/// The site that relative links of the agenda resolve against.
pub open spec fn site() -> Seq<char> {
    "https://2022.tgdf.tw"@
}

/// A presenter from the texts of the name, title and introduction elements of
/// its profile page, fetched from `url`: the first of each is taken.
pub open spec fn presenter_of_texts(
    url: Seq<char>,
    names: Seq<Seq<char>>,
    titles: Seq<Seq<char>>,
    intros: Seq<Seq<char>>,
) -> Result<PresenterView, ErrorView> {
    if names.len() == 0 {
        Err(ErrorView::MissingElement(Locator::PresenterName, url, Seq::empty()))
    } else if titles.len() == 0 {
        Err(ErrorView::MissingElement(Locator::PresenterTitle, url, Seq::empty()))
    } else if intros.len() == 0 {
        Err(ErrorView::MissingElement(Locator::PresenterIntroduction, url, Seq::empty()))
    } else {
        Ok(PresenterView { name: names[0], title: titles[0], link: url, introduction: intros[0] })
    }
}

/// A presenter as read from the profile page `page` fetched from `url`.
pub open spec fn presenter_spec(url: Seq<char>, page: Seq<char>) -> Result<PresenterView, ErrorView> {
    presenter_of_texts(
        url,
        texts_spec(text_nodes_of(page, ".speaker__name"@)),
        texts_spec(text_nodes_of(page, ".speaker__title"@)),
        texts_spec(text_nodes_of(page, ".speaker__introduce"@)),
    )
}

/// The time range of a session detail page's label: the range itself, or a
/// leading part (such as the date) and then the range, all split by `" - "`.
pub open spec fn detail_range(label: Seq<char>) -> Option<(Time, Time)> {
    let p = split_spec(label, seq![' ', '-', ' ']);
    if p.len() == 2 && time_of(p[0]) is Some && time_of(p[1]) is Some {
        Some((time_of(p[0])->0, time_of(p[1])->0))
    } else if p.len() == 3 && time_of(p[1]) is Some && time_of(p[2]) is Some {
        Some((time_of(p[1])->0, time_of(p[2])->0))
    } else {
        None
    }
}

/// The time range and the description markup of a session detail page, from the
/// texts of its time elements and the markup inside its description elements;
/// the description is empty where the page has none.
pub open spec fn session_page_of_texts(url: Seq<char>, labels: Seq<Seq<char>>, descriptions: Seq<Seq<char>>) -> Result<
    ((Time, Time), Seq<char>),
    ErrorView,
> {
    if labels.len() == 0 {
        Err(ErrorView::MissingElement(Locator::SessionTime, url, Seq::empty()))
    } else if detail_range(labels[0]) is None {
        Err(ErrorView::MalformedTime)
    } else {
        Ok(
            (
                detail_range(labels[0])->0,
                if descriptions.len() == 0 {
                    Seq::empty()
                } else {
                    descriptions[0]
                },
            ),
        )
    }
}

/// The time range and the description markup of a session detail page.
pub open spec fn session_page_spec(url: Seq<char>, page: Seq<char>) -> Result<((Time, Time), Seq<char>), ErrorView> {
    session_page_of_texts(
        url,
        texts_spec(text_nodes_of(page, ".session__time"@)),
        inner_fragments_of(page, ".session__description"@),
    )
}

/// The position of a session on the agenda page.
pub fn position(day: u32, row: u32, track: u32, index: u32) -> (r: Vec<u32>)
    ensures
        r@ == seq![day, row, track, index],
{
    let r = vec![day, row, track, index];
    assert(r@ =~= seq![day, row, track, index]);
    r
}

/// The position of a period row on the agenda page.
pub fn row_position(day: u32, row: u32) -> (r: Vec<u32>)
    ensures
        r@ == seq![day, row],
{
    let r = vec![day, row];
    assert(r@ =~= seq![day, row]);
    r
}

/// The position of a day section on the agenda page.
pub fn day_position(day: u32) -> (r: Vec<u32>)
    ensures
        r@ == seq![day],
{
    let r = vec![day];
    assert(r@ =~= seq![day]);
    r
}

/// The url of the agenda page.
pub open spec fn agenda_page() -> Seq<char> {
    "https://2022.tgdf.tw/agenda"@
}

/// The url of the agenda page.
pub fn agenda_url() -> (r: String)
    ensures
        r@ == agenda_page(),
{
    String::from_str("https://2022.tgdf.tw/agenda")
}

pub open spec fn starts_with(s: Seq<char>, prefix: Seq<char>) -> bool {
    prefix.len() <= s.len() && s.subrange(0, prefix.len() as int) == prefix
}

/// The absolute url of a link found on the agenda page: an `http://` or
/// `https://` link as it is; a scheme-relative `//host/...` link over https; a
/// link from the site's root after the site; a query or a fragment after the
/// agenda page's url; any other link relative to the site's root.
pub open spec fn resolve_spec(href: Seq<char>) -> Seq<char> {
    if starts_with(href, "http://"@) || starts_with(href, "https://"@) {
        href
    } else if starts_with(href, "//"@) {
        "https:"@ + href
    } else if starts_with(href, "/"@) {
        site() + href
    } else if starts_with(href, "?"@) || starts_with(href, "#"@) {
        agenda_page() + href
    } else {
        site() + "/"@ + href
    }
}

/// Whether `s` begins with `prefix`.
pub fn has_prefix(s: &str, prefix: &str) -> (r: bool)
    ensures
        r == starts_with(s@, prefix@),
{
    let n = s.unicode_len();
    let m = prefix.unicode_len();
    if m > n {
        return false;
    }
    let mut i: usize = 0;
    while i < m
        invariant
            m == prefix@.len(),
            n == s@.len(),
            m <= n,
            i <= m,
            s@.subrange(0, i as int) == prefix@.subrange(0, i as int),
        decreases m - i,
    {
        if s.get_char(i) != prefix.get_char(i) {
            assert(s@.subrange(0, m as int)[i as int] != prefix@[i as int]);
            return false;
        }
        assert(s@.subrange(0, i as int + 1) =~= prefix@.subrange(0, i as int + 1));
        i = i + 1;
    }
    assert(prefix@.subrange(0, m as int) =~= prefix@);
    true
}

/// Resolves a link found on the agenda page to an absolute url.
pub fn resolve_link(href: &String) -> (r: String)
    ensures
        r@ == resolve_spec(href@),
{
    let h = href.as_str();
    if has_prefix(h, "http://") || has_prefix(h, "https://") {
        return href.clone();
    }
    let mut url = if has_prefix(h, "//") {
        String::from_str("https:")
    } else if has_prefix(h, "/") {
        String::from_str("https://2022.tgdf.tw")
    } else if has_prefix(h, "?") || has_prefix(h, "#") {
        agenda_url()
    } else {
        let mut root = String::from_str("https://2022.tgdf.tw");
        root.append("/");
        root
    };
    url.append(h);
    url
}

impl Presenter {
    /// A presenter from the texts of the name, title and introduction elements
    /// of its profile page, fetched from `url`.
    pub fn from_texts(url: &String, names: &Vec<String>, titles: &Vec<String>, intros: &Vec<String>) -> (r:
        Result<Presenter, FetchError>)
        ensures
            match r {
                Ok(p) => presenter_of_texts(url@, names.deep_view(), titles.deep_view(), intros.deep_view())
                    == Ok::<PresenterView, ErrorView>(p.deep_view()),
                Err(e) => presenter_of_texts(url@, names.deep_view(), titles.deep_view(), intros.deep_view())
                    == Err::<PresenterView, ErrorView>(e.deep_view()),
            },
    {
        assert(names.deep_view().len() == names@.len());
        assert(titles.deep_view().len() == titles@.len());
        assert(intros.deep_view().len() == intros@.len());
        if names.len() == 0 {
            return Err(FetchError::MissingElement { what: Locator::PresenterName, page: url.clone(), at: Vec::new() });
        }
        if titles.len() == 0 {
            return Err(FetchError::MissingElement { what: Locator::PresenterTitle, page: url.clone(), at: Vec::new() });
        }
        if intros.len() == 0 {
            return Err(FetchError::MissingElement { what: Locator::PresenterIntroduction, page: url.clone(), at: Vec::new() });
        }
        assert(names.deep_view()[0] == names@[0]@);
        assert(titles.deep_view()[0] == titles@[0]@);
        assert(intros.deep_view()[0] == intros@[0]@);
        Ok(
            Presenter {
                name: names[0].clone(),
                title: titles[0].clone(),
                link: url.clone(),
                introduction: intros[0].clone(),
            },
        )
    }

    /// Reads a presenter from the profile page `page` fetched from `url`.
    pub fn from_page(url: &String, page: &str) -> (r: Result<Presenter, FetchError>)
        ensures
            match r {
                Ok(p) => presenter_spec(url@, page@) == Ok::<PresenterView, ErrorView>(p.deep_view()),
                Err(e) => presenter_spec(url@, page@) == Err::<PresenterView, ErrorView>(e.deep_view()),
            },
    {
        let names = select_texts(page, ".speaker__name");
        let titles = select_texts(page, ".speaker__title");
        let intros = select_texts(page, ".speaker__introduce");
        Presenter::from_texts(url, &names, &titles, &intros)
    }
}

/// The time range and the description markup of a session detail page, from the
/// texts of its time elements and the markup inside its description elements.
pub fn session_page_from_texts(url: &String, labels: &Vec<String>, descriptions: &Vec<String>) -> (r: Result<
    ((Time, Time), String),
    FetchError,
>)
    ensures
        match r {
            Ok((t, d)) => session_page_of_texts(url@, labels.deep_view(), descriptions.deep_view())
                == Ok::<((Time, Time), Seq<char>), ErrorView>((t, d@)),
            Err(e) => session_page_of_texts(url@, labels.deep_view(), descriptions.deep_view())
                == Err::<((Time, Time), Seq<char>), ErrorView>(e.deep_view()),
        },
{
    assert(labels.deep_view().len() == labels@.len());
    if labels.len() == 0 {
        return Err(FetchError::MissingElement { what: Locator::SessionTime, page: url.clone(), at: Vec::new() });
    }
    proof {
        assert(labels.deep_view()[0] == labels@[0]@);
        reveal_strlit(" - ");
        assert(" - "@ =~= seq![' ', '-', ' ']);
    }
    let parts = split_text(labels[0].as_str(), " - ");
    assert(crate::text::views(parts@).len() == parts@.len());
    let first: usize = if parts.len() == 3 { 1 } else { 0 };
    if parts.len() != 2 && parts.len() != 3 {
        return Err(FetchError::MalformedTime);
    }
    proof {
        assert(crate::text::views(parts@)[first as int] == parts@[first as int]@);
        assert(crate::text::views(parts@)[first as int + 1] == parts@[first as int + 1]@);
    }
    let from = match Time::parse(parts[first].as_str()) {
        Ok(t) => t,
        Err(_) => return Err(FetchError::MalformedTime),
    };
    let to = match Time::parse(parts[first + 1].as_str()) {
        Ok(t) => t,
        Err(_) => return Err(FetchError::MalformedTime),
    };
    assert(descriptions.deep_view().len() == descriptions@.len());
    let description = if descriptions.len() == 0 {
        String::new()
    } else {
        assert(descriptions.deep_view()[0] == descriptions@[0]@);
        descriptions[0].clone()
    };
    Ok(((from, to), description))
}

/// Reads the time range and the description markup of a session detail page.
pub fn read_session_page(url: &String, page: &str) -> (r: Result<((Time, Time), String), FetchError>)
    ensures
        match r {
            Ok((t, d)) => session_page_spec(url@, page@) == Ok::<((Time, Time), Seq<char>), ErrorView>((t, d@)),
            Err(e) => session_page_spec(url@, page@) == Err::<((Time, Time), Seq<char>), ErrorView>(e.deep_view()),
        },
{
    let labels = select_texts(page, ".session__time");
    let descriptions = select_inner_fragments(page, ".session__description");
    session_page_from_texts(url, &labels, &descriptions)
}

/// The `href` of each anchor in the first paragraph of a session; empty where
/// the session has no paragraph.
pub open spec fn presenter_hrefs(card: Seq<char>) -> Seq<Option<Seq<char>>> {
    let paragraphs = fragments_of(card, "body > * p"@);
    if paragraphs.len() == 0 {
        Seq::empty()
    } else {
        attrs_of(paragraphs[0], "body > * a"@, "href"@)
    }
}

/// The absolute urls of links that all have an `href`.
pub open spec fn links_of(hrefs: Seq<Option<Seq<char>>>) -> Seq<Seq<char>> {
    hrefs.map_values(|h: Option<Seq<char>>| resolve_spec(h->0))
}

/// Whether every url has a fetched page, successful or not.
pub open spec fn all_fetched(urls: Seq<Seq<char>>, pages: Seq<Page>) -> bool {
    forall|i: int| 0 <= i < urls.len() ==> lookup(pages, #[trigger] urls[i]) is Some
}

/// The urls that have no fetched page yet, in order.
pub open spec fn unfetched(urls: Seq<Seq<char>>, pages: Seq<Page>) -> Seq<Seq<char>>
    decreases urls.len(),
{
    if urls.len() == 0 {
        Seq::empty()
    } else if lookup(pages, urls.last()) is None {
        unfetched(urls.drop_last(), pages).push(urls.last())
    } else {
        unfetched(urls.drop_last(), pages)
    }
}

proof fn lemma_unfetched_empty(urls: Seq<Seq<char>>, pages: Seq<Page>)
    ensures
        unfetched(urls, pages).len() == 0 <==> all_fetched(urls, pages),
    decreases urls.len(),
{
    if urls.len() > 0 {
        let rest = urls.drop_last();
        lemma_unfetched_empty(rest, pages);
        if all_fetched(urls, pages) {
            assert forall|i: int| 0 <= i < rest.len() implies lookup(pages, #[trigger] rest[i]) is Some by {
                assert(rest[i] == urls[i]);
            }
            assert(lookup(pages, urls[urls.len() - 1]) is Some);
        } else if lookup(pages, urls.last()) is Some {
            let i = choose|i: int| 0 <= i < urls.len() && !(lookup(pages, #[trigger] urls[i]) is Some);
            assert(i < rest.len());
            assert(rest[i] == urls[i]);
        }
    }
}

/// The presenters of the links, in link order; the first link, in that order,
/// whose page failed or cannot be read decides the error.
pub open spec fn presenters_spec(links: Seq<Seq<char>>, pages: Seq<Page>) -> Result<
    Seq<PresenterView>,
    ErrorView,
>
    decreases links.len(),
{
    if links.len() == 0 {
        Ok(Seq::empty())
    } else {
        match presenters_spec(links.drop_last(), pages) {
            Err(e) => Err(e),
            Ok(v) => match lookup(pages, links.last()) {
                Some(Some(body)) => match presenter_spec(links.last(), body) {
                    Ok(p) => Ok(v.push(p)),
                    Err(e) => Err(e),
                },
                _ => Err(ErrorView::Transport(links.last())),
            },
        }
    }
}

/// What the extraction reads from one session element of the agenda.
#[derive(Debug)]
pub struct SessionCard {
    /// The text of each `.session__badge`.
    pub tags: Vec<String>,
    /// The `href` of each anchor of the first paragraph; empty where there is none.
    pub presenter_hrefs: Vec<Option<String>>,
    /// The text of each `h6`.
    pub titles: Vec<String>,
    /// The `href` of each anchor.
    pub links: Vec<Option<String>>,
}

pub struct SessionCardView {
    pub tags: Seq<Seq<char>>,
    pub presenter_hrefs: Seq<Option<Seq<char>>>,
    pub titles: Seq<Seq<char>>,
    pub links: Seq<Option<Seq<char>>>,
}

impl DeepView for SessionCard {
    type V = SessionCardView;

    open spec fn deep_view(&self) -> SessionCardView {
        SessionCardView {
            tags: self.tags.deep_view(),
            presenter_hrefs: self.presenter_hrefs.deep_view(),
            titles: self.titles.deep_view(),
            links: self.links.deep_view(),
        }
    }
}

/// The card of the session element `html`.
pub open spec fn card_of(html: Seq<char>) -> SessionCardView {
    SessionCardView {
        tags: texts_spec(text_nodes_of(html, "body > * .session__badge"@)),
        presenter_hrefs: presenter_hrefs(html),
        titles: texts_spec(text_nodes_of(html, "body > * h6"@)),
        links: attrs_of(html, "body > * a"@, "href"@),
    }
}

/// What a session card yields: nothing where its first paragraph has no anchor
/// (or it has no paragraph), the urls still to fetch, an error, or the session.
pub open spec fn session_step(
    card: SessionCardView,
    day: u32,
    row: u32,
    track: u32,
    index: u32,
    pages: Seq<Page>,
) -> StepView<
    Option<SessionView>,
> {
    let hrefs = card.presenter_hrefs;
    let links = links_of(hrefs);
    let detail = resolve_spec(card.links[0]->0);
    if hrefs.len() == 0 {
        StepView::Done(None)
    } else if exists|i: int| 0 <= i < hrefs.len() && hrefs[i] is None {
        StepView::Failed(ErrorView::MissingElement(Locator::PresenterLink, agenda_page(), seq![day, row, track, index]))
    } else if !all_fetched(links, pages) {
        StepView::Need(unfetched(links, pages))
    } else if presenters_spec(links, pages) is Err {
        StepView::Failed(presenters_spec(links, pages)->Err_0)
    } else if card.titles.len() == 0 {
        StepView::Failed(ErrorView::MissingElement(Locator::SessionTitle, agenda_page(), seq![day, row, track, index]))
    } else if card.links.len() == 0 || card.links[0] is None {
        StepView::Failed(ErrorView::MissingElement(Locator::SessionLink, agenda_page(), seq![day, row, track, index]))
    } else {
        match lookup(pages, detail) {
            None => StepView::Need(seq![detail]),
            Some(None) => StepView::Failed(ErrorView::Transport(detail)),
            Some(Some(body)) => match session_page_spec(detail, body) {
                Err(e) => StepView::Failed(e),
                Ok((time, description)) => StepView::Done(
                    Some(
                        SessionView {
                            day,
                            track,
                            time,
                            title: card.titles[0],
                            presenters: presenters_spec(links, pages)->Ok_0,
                            tags: card.tags,
                            description,
                        },
                    ),
                ),
            },
        }
    }
}

/// What one session element of the agenda yields.
pub open spec fn session_spec(
    html: Seq<char>,
    day: u32,
    row: u32,
    track: u32,
    index: u32,
    pages: Seq<Page>,
) -> StepView<
    Option<SessionView>,
> {
    session_step(card_of(html), day, row, track, index, pages)
}

/// Reads the presenters of the links from their fetched pages, in link order.
pub fn read_presenters(links: &Vec<String>, pages: &Vec<Page>) -> (r: Result<Vec<Presenter>, FetchError>)
    ensures
        match r {
            Ok(v) => presenters_spec(links.deep_view(), pages@) == Ok::<Seq<PresenterView>, ErrorView>(v.deep_view()),
            Err(e) => presenters_spec(links.deep_view(), pages@) == Err::<Seq<PresenterView>, ErrorView>(e.deep_view()),
        },
{
    let mut out: Vec<Presenter> = Vec::new();
    let mut i: usize = 0;
    assert(links.deep_view().take(0) =~= Seq::<Seq<char>>::empty());
    assert(out.deep_view() =~= Seq::<PresenterView>::empty());
    while i < links.len()
        invariant
            i <= links.len(),
            presenters_spec(links.deep_view().take(i as int), pages@) == Ok::<Seq<PresenterView>, ErrorView>(out.deep_view()),
        decreases links.len() - i,
    {
        let ghost prefix = links.deep_view().take(i as int + 1);
        proof {
            assert(prefix.drop_last() =~= links.deep_view().take(i as int));
            assert(prefix.last() == links@[i as int]@);
        }
        let found = find_page(pages, &links[i]);
        let body = match found {
            Some(k) => match &pages[k].body {
                Some(b) => b,
                None => {
                    proof {
                        lemma_presenters_err_extends(links.deep_view(), pages@, i as int + 1);
                    }
                    return Err(FetchError::Transport { url: links[i].clone() });
                },
            },
            None => {
                proof {
                    lemma_presenters_err_extends(links.deep_view(), pages@, i as int + 1);
                }
                return Err(FetchError::Transport { url: links[i].clone() });
            },
        };
        let ghost prev = out;
        match Presenter::from_page(&links[i], body.as_str()) {
            Ok(p) => {
                let ghost pv = p;
                out.push(p);
                proof {
                    lemma_deep_view_push(prev, out, pv);
                }
            },
            Err(e) => {
                proof {
                    lemma_presenters_err_extends(links.deep_view(), pages@, i as int + 1);
                }
                return Err(e);
            },
        }
        i = i + 1;
    }
    assert(links.deep_view().take(i as int) =~= links.deep_view());
    Ok(out)
}

proof fn lemma_presenters_err_extends(links: Seq<Seq<char>>, pages: Seq<Page>, i: int)
    requires
        0 <= i <= links.len(),
        presenters_spec(links.take(i), pages) is Err,
    ensures
        presenters_spec(links, pages) == presenters_spec(links.take(i), pages),
    decreases links.len() - i,
{
    if i < links.len() {
        assert(links.take(i + 1).drop_last() =~= links.take(i));
        lemma_presenters_err_extends(links, pages, i + 1);
    } else {
        assert(links.take(i) =~= links);
    }
}

/// Reads the card of the session element `html`.
pub fn read_session_card(html: &str) -> (r: SessionCard)
    ensures
        r.deep_view() == card_of(html@),
{
    let paragraphs = select_fragments(html, "body > * p");
    assert(paragraphs.deep_view().len() == paragraphs@.len());
    let presenter_hrefs = if paragraphs.len() == 0 {
        let none: Vec<Option<String>> = Vec::new();
        assert(none.deep_view() =~= Seq::<Option<Seq<char>>>::empty());
        none
    } else {
        assert(paragraphs.deep_view()[0] == paragraphs@[0]@);
        select_attrs(paragraphs[0].as_str(), "body > * a", "href")
    };
    SessionCard {
        tags: select_texts(html, "body > * .session__badge"),
        presenter_hrefs,
        titles: select_texts(html, "body > * h6"),
        links: select_attrs(html, "body > * a", "href"),
    }
}

/// Decides what a session card yields, for the given day and track, with the
/// pages fetched so far.
#[verifier::loop_isolation(false)]
pub fn decide_session(
    card: &SessionCard,
    day: u32,
    row: u32,
    track: u32,
    index: u32,
    pages: &Vec<Page>,
) -> (r: Step<
    Option<Session>,
>)
    ensures
        r.deep_view() == session_step(card.deep_view(), day, row, track, index, pages@),
        card.presenter_hrefs@.len() == 0 ==> r.deep_view() == StepView::<Option<SessionView>>::Done(None),
{
    let hrefs = &card.presenter_hrefs;
    assert(hrefs.deep_view().len() == hrefs@.len());
    if hrefs.len() == 0 {
        return Step::Done(None);
    }
    let ghost hv = hrefs.deep_view();
    let mut links: Vec<String> = Vec::new();
    let mut i: usize = 0;
    assert(links.deep_view() =~= links_of(hv.take(0)));
    while i < hrefs.len()
        invariant
            i <= hrefs.len(),
            hv == hrefs.deep_view(),
            links.deep_view() == links_of(hv.take(i as int)),
            forall|k: int| 0 <= k < i ==> hv[k] is Some,
        decreases hrefs.len() - i,
    {
        assert(hv[i as int] == hrefs@[i as int].deep_view());
        match &hrefs[i] {
            Some(h) => {
                let link = resolve_link(h);
                let ghost prev = links;
                let ghost lv = link;
                links.push(link);
                proof {
                    lemma_deep_view_push(prev, links, lv);
                    assert(links.deep_view() =~= links_of(hv.take(i as int + 1)));
                }
            },
            None => {
                return Step::Failed(FetchError::MissingElement { what: Locator::PresenterLink, page: agenda_url(), at: position(day, row, track, index) });
            },
        }
        i = i + 1;
    }
    assert(hv.take(i as int) =~= hv);
    let ghost lk = links.deep_view();
    let mut missing: Vec<String> = Vec::new();
    let mut j: usize = 0;
    assert(lk.take(0) =~= Seq::<Seq<char>>::empty());
    assert(missing.deep_view() =~= Seq::<Seq<char>>::empty());
    while j < links.len()
        invariant
            j <= links.len(),
            lk == links.deep_view(),
            missing.deep_view() == unfetched(lk.take(j as int), pages@),
        decreases links.len() - j,
    {
        proof {
            assert(lk[j as int] == links@[j as int]@);
            assert(lk.take(j as int + 1).drop_last() =~= lk.take(j as int));
            assert(lk.take(j as int + 1).last() == lk[j as int]);
        }
        if find_page(pages, &links[j]).is_none() {
            let ghost prev = missing;
            let url = links[j].clone();
            let ghost uv = url;
            missing.push(url);
            proof {
                lemma_deep_view_push(prev, missing, uv);
            }
        }
        j = j + 1;
    }
    proof {
        assert(lk.take(j as int) =~= lk);
        lemma_unfetched_empty(lk, pages@);
        assert(missing.deep_view().len() == missing@.len());
    }
    if missing.len() > 0 {
        return Step::Need(missing);
    }
    let presenters = match read_presenters(&links, pages) {
        Ok(v) => v,
        Err(e) => {
            return Step::Failed(e);
        },
    };
    assert(card.titles.deep_view().len() == card.titles@.len());
    if card.titles.len() == 0 {
        return Step::Failed(FetchError::MissingElement { what: Locator::SessionTitle, page: agenda_url(), at: position(day, row, track, index) });
    }
    assert(card.titles.deep_view()[0] == card.titles@[0]@);
    assert(card.links.deep_view().len() == card.links@.len());
    if card.links.len() == 0 {
        return Step::Failed(FetchError::MissingElement { what: Locator::SessionLink, page: agenda_url(), at: position(day, row, track, index) });
    }
    assert(card.links.deep_view()[0] == card.links@[0].deep_view());
    let detail = match &card.links[0] {
        Some(h) => resolve_link(h),
        None => {
            return Step::Failed(FetchError::MissingElement { what: Locator::SessionLink, page: agenda_url(), at: position(day, row, track, index) });
        },
    };
    let body = match find_page(pages, &detail) {
        None => {
            let need = vec![detail];
            assert(need.deep_view() =~= seq![detail@]);
            return Step::Need(need);
        },
        Some(k) => match &pages[k].body {
            None => {
                return Step::Failed(FetchError::Transport { url: detail });
            },
            Some(b) => b,
        },
    };
    let (time, description) = match read_session_page(&detail, body.as_str()) {
        Ok(x) => x,
        Err(e) => {
            return Step::Failed(e);
        },
    };
    Step::Done(
        Some(
            Session {
                day,
                track,
                time,
                title: card.titles[0].clone(),
                presenters,
                tags: copy_texts(&card.tags),
                description,
            },
        ),
    )
}

/// A copy of the texts.
pub fn copy_texts(texts: &Vec<String>) -> (r: Vec<String>)
    ensures
        r.deep_view() == texts.deep_view(),
{
    let mut out: Vec<String> = Vec::new();
    let mut i: usize = 0;
    while i < texts.len()
        invariant
            i <= texts.len(),
            out.deep_view() == texts.deep_view().take(i as int),
        decreases texts.len() - i,
    {
        let ghost prev = out;
        let t = texts[i].clone();
        let ghost tv = t;
        out.push(t);
        proof {
            lemma_deep_view_push(prev, out, tv);
            assert(out.deep_view() =~= texts.deep_view().take(i as int + 1));
        }
        i = i + 1;
    }
    assert(texts.deep_view().take(i as int) =~= texts.deep_view());
    out
}

/// Extracts one session element of the agenda, for the given day and track.
pub fn extract_session(
    html: &str,
    day: u32,
    row: u32,
    track: u32,
    index: u32,
    pages: &Vec<Page>,
) -> (r: Step<Option<Session>>)
    ensures
        r.deep_view() == session_spec(html@, day, row, track, index, pages@),
        presenter_hrefs(html@).len() == 0 ==> r.deep_view() == StepView::<Option<SessionView>>::Done(None),
{
    let card = read_session_card(html);
    decide_session(&card, day, row, track, index, pages)
}

/// The outcomes of the parts of a whole, in order, joined: the first part that
/// did not finish decides; otherwise the finished values that are present.
pub open spec fn collect_steps<V>(steps: Seq<StepView<Option<V>>>) -> StepView<Seq<V>>
    decreases steps.len(),
{
    if steps.len() == 0 {
        StepView::Done(Seq::empty())
    } else {
        match collect_steps(steps.drop_last()) {
            StepView::Done(v) => match steps.last() {
                StepView::Done(Some(x)) => StepView::Done(v.push(x)),
                StepView::Done(None) => StepView::Done(v),
                StepView::Need(u) => StepView::Need(u),
                StepView::Failed(e) => StepView::Failed(e),
            },
            other => other,
        }
    }
}

/// Once a prefix of the parts has not finished, neither has the whole, for the
/// same reason.
pub proof fn lemma_collect_stops<V>(steps: Seq<StepView<Option<V>>>, i: int)
    requires
        0 <= i <= steps.len(),
        !(collect_steps(steps.take(i)) is Done),
    ensures
        collect_steps(steps) == collect_steps(steps.take(i)),
    decreases steps.len() - i,
{
    if i < steps.len() {
        assert(steps.take(i + 1).drop_last() =~= steps.take(i));
        lemma_collect_stops(steps, i + 1);
    } else {
        assert(steps.take(i) =~= steps);
    }
}

/// The sessions of each track of a period row, track after track, with the
/// track's number counted from 1.
pub open spec fn track_cards(tracks: Seq<Seq<char>>) -> Seq<(u32, Seq<char>)>
    decreases tracks.len(),
{
    if tracks.len() == 0 {
        Seq::empty()
    } else {
        track_cards(tracks.drop_last()) + fragments_of(tracks.last(), "body > * .session"@).map_values(
            |c: Seq<char>| (tracks.len() as u32, c),
        )
    }
}

pub open spec fn session_steps(cards: Seq<(u32, Seq<char>)>, day: u32, row: u32, pages: Seq<Page>) -> Seq<
    StepView<Option<SessionView>>,
> {
    Seq::new(
        cards.len(),
        |k: int| session_spec(cards[k].1, day, row, cards[k].0, (k + 1) as u32, pages),
    )
}

/// What one period row yields: nothing where none of its sessions is kept.
pub open spec fn period_spec(row: Seq<char>, day: u32, row_no: u32, pages: Seq<Page>) -> StepView<Option<PeriodView>> {
    let labels = text_nodes_of(row, "body > * .agenda__time"@);
    let cards = track_cards(fragments_of(row, "body > * .agenda__sessions"@));
    if labels.len() == 0 {
        StepView::Failed(ErrorView::MissingElement(Locator::PeriodTime, agenda_page(), seq![day, row_no]))
    } else if range_of(concat_spec(labels[0])) is None {
        StepView::Failed(ErrorView::MalformedTime)
    } else {
        match collect_steps(session_steps(cards, day, row_no, pages)) {
            StepView::Done(v) => if v.len() == 0 {
                StepView::Done(None)
            } else {
                StepView::Done(
                    Some(PeriodView { time: range_of(concat_spec(labels[0]))->0, sessions: v }),
                )
            },
            StepView::Need(u) => StepView::Need(u),
            StepView::Failed(e) => StepView::Failed(e),
        }
    }
}

/// Gathers the session elements of the tracks, with their track numbers.
pub fn gather_cards(tracks: &Vec<String>) -> (r: Vec<(u32, String)>)
    ensures
        r.deep_view() == track_cards(tracks.deep_view()),
{
    let mut out: Vec<(u32, String)> = Vec::new();
    let mut i: usize = 0;
    assert(out.deep_view() =~= track_cards(tracks.deep_view().take(0)));
    while i < tracks.len()
        invariant
            i <= tracks.len(),
            out.deep_view() == track_cards(tracks.deep_view().take(i as int)),
        decreases tracks.len() - i,
    {
        let cards = select_fragments(tracks[i].as_str(), "body > * .session");
        let track: u32 = (i + 1) as u32;
        let ghost start = out.deep_view();
        let ghost cv = cards.deep_view();
        let mut j: usize = 0;
        while j < cards.len()
            invariant
                i < tracks.len(),
                j <= cards.len(),
                cv == cards.deep_view(),
                track == (i + 1) as u32,
                out.deep_view() == start + cv.take(j as int).map_values(|c: Seq<char>| (track, c)),
            decreases cards.len() - j,
        {
            let ghost prev = out;
            let item = (track, cards[j].clone());
            let ghost iv = item;
            out.push(item);
            proof {
                lemma_deep_view_push(prev, out, iv);
                assert(cv[j as int] == cards@[j as int]@);
                assert(out.deep_view() =~= start + cv.take(j as int + 1).map_values(|c: Seq<char>| (track, c)));
            }
            j = j + 1;
        }
        proof {
            let tv = tracks.deep_view().take(i as int + 1);
            assert(tv.drop_last() =~= tracks.deep_view().take(i as int));
            assert(tv.last() == tracks@[i as int]@);
            assert(cv.take(j as int) =~= cv);
            assert(out.deep_view() =~= track_cards(tv));
        }
        i = i + 1;
    }
    assert(tracks.deep_view().take(i as int) =~= tracks.deep_view());
    out
}

/// Extracts one period row of a day.
#[verifier::loop_isolation(false)]
pub fn extract_period(row: &str, day: u32, row_no: u32, pages: &Vec<Page>) -> (r: Step<Option<Period>>)
    ensures
        r.deep_view() == period_spec(row@, day, row_no, pages@),
{
    let labels = select_texts(row, "body > * .agenda__time");
    assert(labels.deep_view().len() == labels@.len());
    if labels.len() == 0 {
        return Step::Failed(FetchError::MissingElement { what: Locator::PeriodTime, page: agenda_url(), at: row_position(day, row_no) });
    }
    assert(labels.deep_view()[0] == labels@[0]@);
    let time = match parse_range(labels[0].as_str()) {
        Ok(t) => t,
        Err(e) => {
            return Step::Failed(e);
        },
    };
    let tracks = select_fragments(row, "body > * .agenda__sessions");
    let cards = gather_cards(&tracks);
    let ghost steps = session_steps(cards.deep_view(), day, row_no, pages@);
    let mut sessions: Vec<Session> = Vec::new();
    let mut i: usize = 0;
    assert(steps.take(0) =~= Seq::<StepView<Option<SessionView>>>::empty());
    assert(sessions.deep_view() =~= Seq::<SessionView>::empty());
    while i < cards.len()
        invariant
            i <= cards.len(),
            steps == session_steps(cards.deep_view(), day, row_no, pages@),
            collect_steps(steps.take(i as int)) == StepView::<Seq<SessionView>>::Done(sessions.deep_view()),
        decreases cards.len() - i,
    {
        proof {
            assert(steps.take(i as int + 1).drop_last() =~= steps.take(i as int));
            assert(cards.deep_view()[i as int] == (cards@[i as int].0, cards@[i as int].1@));
            assert(steps.take(i as int + 1).last() == steps[i as int]);
            assert(steps[i as int] == session_spec(cards@[i as int].1@, day, row_no, cards@[i as int].0, (i + 1) as u32, pages@));
        }
        let step = extract_session(cards[i].1.as_str(), day, row_no, cards[i].0, (i + 1) as u32, pages);
        match step {
            Step::Done(Some(s)) => {
                let ghost prev = sessions;
                let ghost sv = s;
                sessions.push(s);
                proof {
                    lemma_deep_view_push(prev, sessions, sv);
                }
            },
            Step::Done(None) => {},
            Step::Need(u) => {
                proof {
                    lemma_collect_stops(steps, i as int + 1);
                }
                return Step::Need(u);
            },
            Step::Failed(e) => {
                proof {
                    lemma_collect_stops(steps, i as int + 1);
                }
                return Step::Failed(e);
            },
        }
        i = i + 1;
    }
    assert(steps.take(i as int) =~= steps);
    assert(sessions.deep_view().len() == sessions@.len());
    if sessions.len() == 0 {
        Step::Done(None)
    } else {
        Step::Done(Some(Period { time, sessions }))
    }
}

pub open spec fn period_steps(rows: Seq<Seq<char>>, day: u32, pages: Seq<Page>) -> Seq<
    StepView<Option<PeriodView>>,
> {
    Seq::new(rows.len(), |k: int| period_spec(rows[k], day, (k + 1) as u32, pages))
}

/// What one day section yields: nothing where none of its periods is kept.
pub open spec fn day_spec(section: Seq<char>, day: u32, pages: Seq<Page>) -> StepView<Option<AgendaView>> {
    let labels = text_nodes_of(section, "body > * .agenda__label"@);
    if labels.len() == 0 {
        StepView::Failed(ErrorView::MissingElement(Locator::DayLabel, agenda_page(), seq![day]))
    } else {
        match collect_steps(period_steps(fragments_of(section, "body > * .agenda__row"@), day, pages)) {
            StepView::Done(v) => if v.len() == 0 {
                StepView::Done(None)
            } else {
                StepView::Done(Some(AgendaView { date: concat_spec(labels[0]), periods: v }))
            },
            StepView::Need(u) => StepView::Need(u),
            StepView::Failed(e) => StepView::Failed(e),
        }
    }
}

pub open spec fn day_steps(sections: Seq<Seq<char>>, pages: Seq<Page>) -> Seq<StepView<Option<AgendaView>>> {
    Seq::new(sections.len(), |k: int| day_spec(sections[k], (k + 1) as u32, pages))
}

/// What the agenda page yields: its days in document order, each numbered from 1
/// by its position among the day sections.
pub open spec fn agenda_spec(page: Seq<char>, pages: Seq<Page>) -> StepView<Seq<AgendaView>> {
    collect_steps(day_steps(fragments_of(page, ".agenda"@), pages))
}

/// Extracts one day section, numbered `day`.
#[verifier::loop_isolation(false)]
pub fn extract_day(section: &str, day: u32, pages: &Vec<Page>) -> (r: Step<Option<Agenda>>)
    ensures
        r.deep_view() == day_spec(section@, day, pages@),
{
    let labels = select_text_nodes(section, "body > * .agenda__label");
    assert(labels.deep_view().len() == labels@.len());
    if labels.len() == 0 {
        return Step::Failed(FetchError::MissingElement { what: Locator::DayLabel, page: agenda_url(), at: day_position(day) });
    }
    assert(labels.deep_view()[0] == labels@[0].deep_view());
    let date = concat_texts(&labels[0]);
    let rows = select_fragments(section, "body > * .agenda__row");
    let ghost steps = period_steps(rows.deep_view(), day, pages@);
    let mut periods: Vec<Period> = Vec::new();
    let mut i: usize = 0;
    assert(steps.take(0) =~= Seq::<StepView<Option<PeriodView>>>::empty());
    assert(periods.deep_view() =~= Seq::<PeriodView>::empty());
    while i < rows.len()
        invariant
            i <= rows.len(),
            collect_steps(steps.take(i as int)) == StepView::<Seq<PeriodView>>::Done(periods.deep_view()),
        decreases rows.len() - i,
    {
        proof {
            assert(steps.take(i as int + 1).drop_last() =~= steps.take(i as int));
            assert(steps.take(i as int + 1).last() == steps[i as int]);
            assert(rows.deep_view()[i as int] == rows@[i as int]@);
        }
        match extract_period(rows[i].as_str(), day, (i + 1) as u32, pages) {
            Step::Done(Some(p)) => {
                let ghost prev = periods;
                let ghost pv = p;
                periods.push(p);
                proof {
                    lemma_deep_view_push(prev, periods, pv);
                }
            },
            Step::Done(None) => {},
            Step::Need(u) => {
                proof {
                    lemma_collect_stops(steps, i as int + 1);
                }
                return Step::Need(u);
            },
            Step::Failed(e) => {
                proof {
                    lemma_collect_stops(steps, i as int + 1);
                }
                return Step::Failed(e);
            },
        }
        i = i + 1;
    }
    assert(steps.take(i as int) =~= steps);
    assert(periods.deep_view().len() == periods@.len());
    if periods.len() == 0 {
        Step::Done(None)
    } else {
        Step::Done(Some(Agenda { date, periods }))
    }
}

/// Extracts the agenda from the agenda page, with the pages fetched so far.
///
/// Days, periods, tracks and sessions keep document order. A session without
/// presenter links is left out, and so is a period or a day left empty.
#[verifier::loop_isolation(false)]
pub fn extract_agenda(page: &str, pages: &Vec<Page>) -> (r: Step<Vec<Agenda>>)
    ensures
        r.deep_view() == agenda_spec(page@, pages@),
{
    let sections = select_fragments(page, ".agenda");
    let ghost steps = day_steps(sections.deep_view(), pages@);
    let mut days: Vec<Agenda> = Vec::new();
    let mut i: usize = 0;
    assert(steps.take(0) =~= Seq::<StepView<Option<AgendaView>>>::empty());
    assert(days.deep_view() =~= Seq::<AgendaView>::empty());
    while i < sections.len()
        invariant
            i <= sections.len(),
            collect_steps(steps.take(i as int)) == StepView::<Seq<AgendaView>>::Done(days.deep_view()),
        decreases sections.len() - i,
    {
        proof {
            assert(steps.take(i as int + 1).drop_last() =~= steps.take(i as int));
            assert(steps.take(i as int + 1).last() == steps[i as int]);
            assert(sections.deep_view()[i as int] == sections@[i as int]@);
        }
        let day: u32 = (i + 1) as u32;
        match extract_day(sections[i].as_str(), day, pages) {
            Step::Done(Some(d)) => {
                let ghost prev = days;
                let ghost dv = d;
                days.push(d);
                proof {
                    lemma_deep_view_push(prev, days, dv);
                }
            },
            Step::Done(None) => {},
            Step::Need(u) => {
                proof {
                    lemma_collect_stops(steps, i as int + 1);
                }
                return Step::Need(u);
            },
            Step::Failed(e) => {
                proof {
                    lemma_collect_stops(steps, i as int + 1);
                }
                return Step::Failed(e);
            },
        }
        i = i + 1;
    }
    assert(steps.take(i as int) =~= steps);
    Step::Done(days)
}

} // verus!
