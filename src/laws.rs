//! Properties of the extraction that relate several of its parts.
use vstd::prelude::*;
use crate::extract::{
    all_fetched, collect_steps, day_spec, links_of, period_spec, period_steps, presenter_hrefs,
    presenters_spec, session_step, session_steps, track_cards, SessionCardView,
};
use crate::dom::{attrs_of, concat_spec, fragments_of, inner_fragments_of, text_nodes_of, texts_spec};
use crate::extract::{agenda_spec, card_of, session_spec, day_steps, detail_range, presenter_spec, resolve_spec, session_page_spec};
use crate::model::{lookup, AgendaView, ErrorView, Page, PeriodView, PresenterView, SessionView, StepView};
use crate::text::lemma_split_around;
use crate::time::{digit_value, is_digit, lemma_four_digit_time, range_of, Time};

verus! {

/// Parts that all finish with nothing make a whole that finishes empty.
pub proof fn lemma_all_absent_collects_empty<V>(steps: Seq<StepView<Option<V>>>)
    requires
        forall|k: int| 0 <= k < steps.len() ==> steps[k] == StepView::<Option<V>>::Done(None),
    ensures
        collect_steps(steps) == StepView::<Seq<V>>::Done(Seq::empty()),
    decreases steps.len(),
{
    if steps.len() > 0 {
        lemma_all_absent_collects_empty(steps.drop_last());
    }
}

/// A part that does not finish keeps the whole from finishing: there is never
/// a partial result.
pub proof fn lemma_unfinished_part_stops_whole<V>(steps: Seq<StepView<Option<V>>>, k: int)
    requires
        0 <= k < steps.len(),
        !(steps[k] is Done),
    ensures
        !(collect_steps(steps) is Done),
    decreases steps.len(),
{
    if k < steps.len() - 1 {
        lemma_unfinished_part_stops_whole(steps.drop_last(), k);
    }
}

/// A period row whose sessions all lack presenter links yields no period.
pub proof fn lemma_period_without_presenters(row: Seq<char>, day: u32, row_no: u32, pages: Seq<Page>)
    requires
        text_nodes_of(row, "body > * .agenda__time"@).len() > 0,
        range_of(concat_spec(text_nodes_of(row, "body > * .agenda__time"@)[0])) is Some,
        forall|k: int|
            0 <= k < track_cards(fragments_of(row, "body > * .agenda__sessions"@)).len()
                ==> presenter_hrefs(
                #[trigger] track_cards(fragments_of(row, "body > * .agenda__sessions"@))[k].1,
            ).len() == 0,
    ensures
        period_spec(row, day, row_no, pages) == StepView::<Option<crate::model::PeriodView>>::Done(None),
{
    let cards = track_cards(fragments_of(row, "body > * .agenda__sessions"@));
    let steps = session_steps(cards, day, row_no, pages);
    assert forall|k: int| 0 <= k < steps.len() implies steps[k] == StepView::<
        Option<crate::model::SessionView>,
    >::Done(None) by {
        assert(presenter_hrefs(cards[k].1).len() == 0);
    }
    lemma_all_absent_collects_empty(steps);
}

/// A day section whose period rows all yield no period yields no day.
pub proof fn lemma_day_without_periods(section: Seq<char>, day: u32, pages: Seq<Page>)
    requires
        text_nodes_of(section, "body > * .agenda__label"@).len() > 0,
        forall|k: int|
            0 <= k < fragments_of(section, "body > * .agenda__row"@).len() ==> period_spec(
                #[trigger] fragments_of(section, "body > * .agenda__row"@)[k],
                day,
                (k + 1) as u32,
                pages,
            ) == StepView::<Option<crate::model::PeriodView>>::Done(None),
    ensures
        day_spec(section, day, pages) == StepView::<Option<crate::model::AgendaView>>::Done(None),
{
    let rows = fragments_of(section, "body > * .agenda__row"@);
    let steps = period_steps(rows, day, pages);
    assert forall|k: int| 0 <= k < steps.len() implies steps[k] == StepView::<
        Option<crate::model::PeriodView>,
    >::Done(None) by {
        assert(period_spec(rows[k], day, (k + 1) as u32, pages) == StepView::<
            Option<crate::model::PeriodView>,
        >::Done(None));
    }
    lemma_all_absent_collects_empty(steps);
}

/// The presenters of a session come in the order of its links, whatever order
/// their pages were fetched in: the i-th presenter is read from the i-th link.
pub proof fn lemma_presenters_in_link_order(links: Seq<Seq<char>>, pages: Seq<Page>)
    requires
        presenters_spec(links, pages) is Ok,
    ensures
        presenters_spec(links, pages)->Ok_0.len() == links.len(),
        forall|i: int|
            0 <= i < links.len() ==> (#[trigger] presenters_spec(links, pages)->Ok_0[i]).link
                == links[i],
    decreases links.len(),
{
    if links.len() > 0 {
        lemma_presenters_in_link_order(links.drop_last(), pages);
        let v = presenters_spec(links.drop_last(), pages)->Ok_0;
        assert forall|i: int| 0 <= i < links.len() implies (#[trigger] presenters_spec(
            links,
            pages,
        )->Ok_0[i]).link == links[i] by {
            if i < links.len() - 1 {
                assert(presenters_spec(links, pages)->Ok_0[i] == v[i]);
                assert(links.drop_last()[i] == links[i]);
            }
        }
    }
}

/// One presenter page that failed to fetch makes the presenters an error, and a
/// transport error names a link whose page failed.
pub proof fn lemma_failed_presenter_fetch(links: Seq<Seq<char>>, pages: Seq<Page>, i: int)
    requires
        0 <= i < links.len(),
        lookup(pages, links[i]) == Some(None::<Seq<char>>),
    ensures
        presenters_spec(links, pages) is Err,
    decreases links.len(),
{
    if i < links.len() - 1 {
        lemma_failed_presenter_fetch(links.drop_last(), pages, i);
    }
}

/// A transport error among the presenters names one of the links, whose page
/// was not fetched successfully.
pub proof fn lemma_transport_error_names_link(links: Seq<Seq<char>>, pages: Seq<Page>, url: Seq<char>)
    requires
        presenters_spec(links, pages) == Err::<Seq<crate::model::PresenterView>, ErrorView>(
            ErrorView::Transport(url),
        ),
    ensures
        exists|i: int| 0 <= i < links.len() && links[i] == url,
        !(lookup(pages, url) matches Some(Some(_))),
    decreases links.len(),
{
    if presenters_spec(links.drop_last(), pages) is Err {
        lemma_transport_error_names_link(links.drop_last(), pages, url);
        let i = choose|i: int| 0 <= i < links.drop_last().len() && links.drop_last()[i] == url;
        assert(links[i] == url);
    } else {
        assert(links[links.len() - 1] == url);
    }
}

/// A session card without presenter links yields no session.
pub proof fn lemma_session_without_presenters(
    card: SessionCardView,
    day: u32,
    row: u32,
    track: u32,
    index: u32,
    pages: Seq<Page>,
)
    requires
        card.presenter_hrefs.len() == 0,
    ensures
        session_step(card, day, row, track, index, pages) == StepView::<Option<crate::model::SessionView>>::Done(None),
{
}

/// A session whose presenter links are all fetched, one of them without success,
/// fails: no session is made of the other presenters.
pub proof fn lemma_session_with_failed_presenter(
    card: SessionCardView,
    day: u32,
    row: u32,
    track: u32,
    index: u32,
    pages: Seq<Page>,
    i: int,
)
    requires
        forall|k: int| 0 <= k < card.presenter_hrefs.len() ==> (#[trigger] card.presenter_hrefs[k]) is Some,
        all_fetched(links_of(card.presenter_hrefs), pages),
        0 <= i < card.presenter_hrefs.len(),
        lookup(pages, links_of(card.presenter_hrefs)[i]) == Some(None::<Seq<char>>),
    ensures
        session_step(card, day, row, track, index, pages) is Failed,
{
    lemma_failed_presenter_fetch(links_of(card.presenter_hrefs), pages, i);
}

proof fn lemma_clock_label(
    x: Seq<char>,
    y: Seq<char>,
    label: Seq<char>,
    from: Time,
    to: Time,
)
    requires
        x.len() == 5,
        y.len() == 5,
        is_digit(x[0]) && is_digit(x[1]) && x[2] == ':' && is_digit(x[3]) && is_digit(x[4]),
        is_digit(y[0]) && is_digit(y[1]) && y[2] == ':' && is_digit(y[3]) && is_digit(y[4]),
        label == x + seq![' ', '-', ' '] + y,
        from.hour as int == digit_value(x[0]) * 10 + digit_value(x[1]),
        from.minute as int == digit_value(x[3]) * 10 + digit_value(x[4]),
        to.hour as int == digit_value(y[0]) * 10 + digit_value(y[1]),
        to.minute as int == digit_value(y[3]) * 10 + digit_value(y[4]),
    ensures
        range_of(label) == Some((from, to)),
        detail_range(label) == Some((from, to)),
{
    assert forall|i: int| 0 <= i < x.len() implies x[i] != ' ' by {
        assert(i == 0 || i == 1 || i == 2 || i == 3 || i == 4);
    }
    assert forall|i: int| 0 <= i < y.len() implies y[i] != ' ' by {
        assert(i == 0 || i == 1 || i == 2 || i == 3 || i == 4);
    }
    lemma_split_around(x, y, seq![' ', '-', ' ']);
    lemma_four_digit_time(x[0], x[1], x[3], x[4]);
    lemma_four_digit_time(y[0], y[1], y[3], y[4]);
    assert(x =~= seq![x[0], x[1], ':', x[3], x[4]]);
    assert(y =~= seq![y[0], y[1], ':', y[3], y[4]]);
}

/// The single-session agenda: one day section labelled `label`, one period row
/// labelled "09:00 - 10:00", one track, one session with two presenter links
/// whose pages read as `first` and `second`, and a detail page whose time reads
/// "09:10 - 09:50" and whose description holds `<p>desc</p>`, gives exactly one
/// day with that one period and that one session.
pub proof fn lemma_single_session_agenda(
    page: Seq<char>,
    day: Seq<char>,
    label: Seq<Seq<char>>,
    row: Seq<char>,
    track: Seq<char>,
    card: Seq<char>,
    href1: Seq<char>,
    href2: Seq<char>,
    body1: Seq<char>,
    body2: Seq<char>,
    first: PresenterView,
    second: PresenterView,
    detail_href: Seq<char>,
    detail_body: Seq<char>,
    pages: Seq<Page>,
)
    requires
        fragments_of(page, ".agenda"@) == seq![day],
        text_nodes_of(day, "body > * .agenda__label"@) == seq![label],
        fragments_of(day, "body > * .agenda__row"@) == seq![row],
        text_nodes_of(row, "body > * .agenda__time"@).len() == 1,
        concat_spec(text_nodes_of(row, "body > * .agenda__time"@)[0]) == "09:00 - 10:00"@,
        fragments_of(row, "body > * .agenda__sessions"@) == seq![track],
        fragments_of(track, "body > * .session"@) == seq![card],
        presenter_hrefs(card) == seq![Some(href1), Some(href2)],
        text_nodes_of(card, "body > * h6"@).len() > 0,
        attrs_of(card, "body > * a"@, "href"@).len() > 0,
        attrs_of(card, "body > * a"@, "href"@)[0] == Some(detail_href),
        lookup(pages, resolve_spec(href1)) == Some(Some(body1)),
        lookup(pages, resolve_spec(href2)) == Some(Some(body2)),
        presenter_spec(resolve_spec(href1), body1) == Ok::<PresenterView, ErrorView>(first),
        presenter_spec(resolve_spec(href2), body2) == Ok::<PresenterView, ErrorView>(second),
        lookup(pages, resolve_spec(detail_href)) == Some(Some(detail_body)),
        texts_spec(text_nodes_of(detail_body, ".session__time"@)) == seq!["09:10 - 09:50"@],
        inner_fragments_of(detail_body, ".session__description"@) == seq!["<p>desc</p>"@],
    ensures
        agenda_spec(page, pages) == StepView::<Seq<AgendaView>>::Done(
            seq![
                AgendaView {
                    date: concat_spec(label),
                    periods: seq![
                        PeriodView {
                            time: (Time { hour: 9, minute: 0 }, Time { hour: 10, minute: 0 }),
                            sessions: seq![
                                SessionView {
                                    day: 1,
                                    track: 1,
                                    time: (Time { hour: 9, minute: 10 }, Time { hour: 9, minute: 50 }),
                                    title: texts_spec(text_nodes_of(card, "body > * h6"@))[0],
                                    presenters: seq![first, second],
                                    tags: texts_spec(text_nodes_of(card, "body > * .session__badge"@)),
                                    description: "<p>desc</p>"@,
                                },
                            ],
                        },
                    ],
                },
            ],
        ),
{
    reveal_strlit("09:00 - 10:00");
    reveal_strlit("09:10 - 09:50");
    let period_time = (Time { hour: 9, minute: 0 }, Time { hour: 10, minute: 0 });
    let session_time = (Time { hour: 9, minute: 10 }, Time { hour: 9, minute: 50 });
    assert(digit_value('0') == 0 && digit_value('1') == 1 && digit_value('5') == 5 && digit_value('9') == 9);
    assert(is_digit('0') && is_digit('1') && is_digit('5') && is_digit('9'));
    assert("09:00 - 10:00"@ =~= seq!['0', '9', ':', '0', '0'] + seq![' ', '-', ' '] + seq!['1', '0', ':', '0', '0']);
    assert("09:10 - 09:50"@ =~= seq!['0', '9', ':', '1', '0'] + seq![' ', '-', ' '] + seq!['0', '9', ':', '5', '0']);
    lemma_clock_label(
        seq!['0', '9', ':', '0', '0'],
        seq!['1', '0', ':', '0', '0'],
        "09:00 - 10:00"@,
        period_time.0,
        period_time.1,
    );
    lemma_clock_label(
        seq!['0', '9', ':', '1', '0'],
        seq!['0', '9', ':', '5', '0'],
        "09:10 - 09:50"@,
        session_time.0,
        session_time.1,
    );
    // The detail page.
    assert(session_page_spec(resolve_spec(detail_href), detail_body) == Ok::<((Time, Time), Seq<char>), ErrorView>(
        (session_time, "<p>desc</p>"@),
    ));
    // The presenters, in link order.
    let hrefs = seq![Some(href1), Some(href2)];
    let links = links_of(hrefs);
    assert(links =~= seq![resolve_spec(href1), resolve_spec(href2)]);
    assert(links.drop_last() =~= seq![resolve_spec(href1)]);
    assert(links.drop_last().drop_last() =~= Seq::<Seq<char>>::empty());
    let l1 = resolve_spec(href1);
    assert(seq![l1].drop_last() =~= Seq::<Seq<char>>::empty());
    assert(presenters_spec(Seq::<Seq<char>>::empty(), pages) == Ok::<Seq<PresenterView>, ErrorView>(Seq::empty()));
    assert(Seq::<PresenterView>::empty().push(first) =~= seq![first]);
    assert(presenters_spec(seq![l1], pages) == Ok::<Seq<PresenterView>, ErrorView>(seq![first]));
    assert(links.last() == resolve_spec(href2));
    assert(seq![first].push(second) =~= seq![first, second]);
    assert(presenters_spec(links.drop_last(), pages) == Ok::<Seq<PresenterView>, ErrorView>(seq![first]));
    assert(presenters_spec(links, pages) == Ok::<Seq<PresenterView>, ErrorView>(seq![first, second]));
    assert(all_fetched(links, pages));
    assert(!(exists|i: int| 0 <= i < hrefs.len() && hrefs[i] is None));
    // The session.
    let sv = SessionView {
        day: 1,
        track: 1,
        time: session_time,
        title: texts_spec(text_nodes_of(card, "body > * h6"@))[0],
        presenters: seq![first, second],
        tags: texts_spec(text_nodes_of(card, "body > * .session__badge"@)),
        description: "<p>desc</p>"@,
    };
    assert(card_of(card).links[0] == Some(detail_href));
    assert(session_spec(card, 1, 1, 1, 1, pages) == StepView::<Option<SessionView>>::Done(Some(sv)));
    // The period.
    let tracks = seq![track];
    assert(tracks.drop_last() =~= Seq::<Seq<char>>::empty());
    assert(track_cards(tracks.drop_last()) == Seq::<(u32, Seq<char>)>::empty());
    assert(tracks.last() == track);
    assert(fragments_of(track, "body > * .session"@).map_values(|c: Seq<char>| (tracks.len() as u32, c)) =~= seq![(1u32, card)]);
    let cards = track_cards(tracks);
    assert(cards =~= seq![(1u32, card)]);
    let ssteps = session_steps(cards, 1, 1, pages);
    assert(ssteps =~= seq![StepView::<Option<SessionView>>::Done(Some(sv))]);
    assert(ssteps.drop_last() =~= Seq::<StepView<Option<SessionView>>>::empty());
    assert(collect_steps(ssteps.drop_last()) == StepView::<Seq<SessionView>>::Done(Seq::empty()));
    assert(Seq::<SessionView>::empty().push(sv) =~= seq![sv]);
    assert(collect_steps(ssteps) == StepView::<Seq<SessionView>>::Done(seq![sv]));
    let pv = PeriodView { time: period_time, sessions: seq![sv] };
    assert(period_spec(row, 1, 1, pages) == StepView::<Option<PeriodView>>::Done(Some(pv)));
    // The day.
    let psteps = period_steps(seq![row], 1, pages);
    assert(psteps =~= seq![StepView::<Option<PeriodView>>::Done(Some(pv))]);
    assert(psteps.drop_last() =~= Seq::<StepView<Option<PeriodView>>>::empty());
    assert(collect_steps(psteps.drop_last()) == StepView::<Seq<PeriodView>>::Done(Seq::empty()));
    assert(Seq::<PeriodView>::empty().push(pv) =~= seq![pv]);
    assert(collect_steps(psteps) == StepView::<Seq<PeriodView>>::Done(seq![pv]));
    let av = AgendaView { date: concat_spec(label), periods: seq![pv] };
    assert(day_spec(day, 1, pages) == StepView::<Option<AgendaView>>::Done(Some(av)));
    // The agenda.
    let dsteps = day_steps(seq![day], pages);
    assert(dsteps =~= seq![StepView::<Option<AgendaView>>::Done(Some(av))]);
    assert(dsteps.drop_last() =~= Seq::<StepView<Option<AgendaView>>>::empty());
    assert(collect_steps(dsteps.drop_last()) == StepView::<Seq<AgendaView>>::Done(Seq::empty()));
    assert(Seq::<AgendaView>::empty().push(av) =~= seq![av]);
    assert(collect_steps(dsteps) == StepView::<Seq<AgendaView>>::Done(seq![av]));
}

} // verus!
