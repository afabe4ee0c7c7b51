use cowrite::error::{FetchError, Locator};
use cowrite::extract::{copy_texts, decide_session, read_session_card, session_page_from_texts, SessionCard};
use cowrite::model::{Page, Presenter, Step};
use cowrite::time::Time;

const AGENDA: &str = "https://2022.tgdf.tw/agenda";

fn card(hrefs: Vec<Option<&str>>, titles: Vec<&str>, links: Vec<Option<&str>>) -> SessionCard {
    SessionCard {
        tags: vec!["Tag".to_string()],
        presenter_hrefs: hrefs.into_iter().map(|h| h.map(String::from)).collect(),
        titles: titles.into_iter().map(String::from).collect(),
        links: links.into_iter().map(|h| h.map(String::from)).collect(),
    }
}

fn page(url: &str, body: Option<&str>) -> Page {
    Page { url: url.to_string(), body: body.map(String::from) }
}

#[test]
fn card_without_presenter_links_is_skipped() {
    let c = card(vec![], vec!["T"], vec![Some("/session/1")]);
    assert!(matches!(decide_session(&c, 1, 1, 1, 1, &vec![]), Step::Done(None)));
}

#[test]
fn card_asks_for_its_presenters_first() {
    let c = card(vec![Some("/speaker/a"), Some("/speaker/b")], vec!["T"], vec![Some("/session/1")]);
    match decide_session(&c, 1, 1, 1, 1, &vec![page("https://2022.tgdf.tw/speaker/a", Some(""))]) {
        Step::Need(urls) => assert_eq!(urls, vec!["https://2022.tgdf.tw/speaker/b".to_string()]),
        other => panic!("unexpected {:?}", other),
    }
}

#[test]
fn card_with_failed_presenter_page_fails() {
    let c = card(vec![Some("/speaker/a"), Some("/speaker/b")], vec!["T"], vec![Some("/session/1")]);
    let pages = vec![page("https://2022.tgdf.tw/speaker/b", None), page("https://2022.tgdf.tw/speaker/a", None)];
    match decide_session(&c, 1, 1, 1, 1, &pages) {
        Step::Failed(e) => assert_eq!(e, FetchError::Transport { url: "https://2022.tgdf.tw/speaker/a".to_string() }),
        other => panic!("unexpected {:?}", other),
    }
}

#[test]
fn card_without_detail_href_fails() {
    let speaker = "<div class=\"speaker__name\">A</div><div class=\"speaker__title\">t</div><div class=\"speaker__introduce\">i</div>";
    let pages = vec![page("https://2022.tgdf.tw/speaker/a", Some(speaker))];
    let c = card(vec![Some("/speaker/a")], vec!["T"], vec![None]);
    match decide_session(&c, 1, 1, 1, 1, &pages) {
        Step::Failed(e) => assert_eq!(e, FetchError::MissingElement { what: Locator::SessionLink, page: AGENDA.to_string(), at: vec![1, 1, 1, 1] }),
        other => panic!("unexpected {:?}", other),
    }
    let c = card(vec![Some("/speaker/a")], vec![], vec![Some("/session/1")]);
    match decide_session(&c, 1, 1, 1, 1, &pages) {
        Step::Failed(e) => assert_eq!(e, FetchError::MissingElement { what: Locator::SessionTitle, page: AGENDA.to_string(), at: vec![1, 1, 1, 1] }),
        other => panic!("unexpected {:?}", other),
    }
}

#[test]
fn card_completes_with_its_detail_page() {
    let speaker = "<div class=\"speaker__name\">A</div><div class=\"speaker__title\">t</div><div class=\"speaker__introduce\">i</div>";
    let detail = "<div class=\"session__time\">10:00 - 10:40</div>";
    let pages = vec![
        page("https://2022.tgdf.tw/speaker/a", Some(speaker)),
        page("https://2022.tgdf.tw/session/1", Some(detail)),
    ];
    let c = card(vec![Some("/speaker/a")], vec!["Title"], vec![Some("/session/1")]);
    match decide_session(&c, 2, 1, 3, 1, &pages) {
        Step::Done(Some(s)) => {
            assert_eq!((s.day, s.track), (2, 3));
            assert_eq!(s.title, "Title");
            assert_eq!(s.tags, vec!["Tag".to_string()]);
            assert_eq!(s.time, (Time { hour: 10, minute: 0 }, Time { hour: 10, minute: 40 }));
            assert_eq!(s.description, "");
            assert_eq!(s.presenters.len(), 1);
            assert_eq!(s.presenters[0].introduction, "i");
        }
        other => panic!("unexpected {:?}", other),
    }
}

#[test]
fn card_is_read_from_session_markup() {
    let html = "<div class=\"session\"><a href=\"/session/9\"><h6>Hello <b>World</b></h6></a>\
                <span class=\"session__badge\">A</span><span class=\"session__badge\">B</span>\
                <p><a href=\"/speaker/x\">X</a><a>no href</a></p><p><a href=\"/other\">O</a></p></div>";
    let c = read_session_card(html);
    assert_eq!(c.tags, vec!["A".to_string(), "B".to_string()]);
    assert_eq!(c.titles, vec!["Hello World".to_string()]);
    assert_eq!(c.presenter_hrefs, vec![Some("/speaker/x".to_string()), None]);
    assert_eq!(
        c.links,
        vec![Some("/session/9".to_string()), Some("/speaker/x".to_string()), None, Some("/other".to_string())]
    );
    let empty = read_session_card("<div class=\"session\"></div>");
    assert!(empty.presenter_hrefs.is_empty());
    assert!(empty.titles.is_empty());
}

#[test]
fn texts_are_copied() {
    let t = vec!["a".to_string(), "b".to_string()];
    assert_eq!(copy_texts(&t), t);
}

#[test]
fn presenter_takes_the_first_of_each_text() {
    let url = "https://2022.tgdf.tw/speaker/z".to_string();
    let s = |v: &[&str]| v.iter().map(|x| x.to_string()).collect::<Vec<String>>();
    let p = Presenter::from_texts(&url, &s(&["Zoe", "Other"]), &s(&["Lead"]), &s(&["Hello"])).unwrap();
    assert_eq!((p.name.as_str(), p.title.as_str(), p.link.as_str(), p.introduction.as_str()), ("Zoe", "Lead", url.as_str(), "Hello"));
    assert_eq!(
        Presenter::from_texts(&url, &s(&["Zoe"]), &s(&["Lead"]), &s(&[])).unwrap_err(),
        FetchError::MissingElement { what: Locator::PresenterIntroduction, page: url.clone(), at: vec![] }
    );
}

#[test]
fn detail_texts_give_range_and_description() {
    let s = |v: &[&str]| v.iter().map(|x| x.to_string()).collect::<Vec<String>>();
    let detail = "https://2022.tgdf.tw/session/7".to_string();
    assert_eq!(
        session_page_from_texts(&detail, &s(&["09:10 - 09:50"]), &s(&["<p>desc</p>"])).unwrap(),
        ((Time { hour: 9, minute: 10 }, Time { hour: 9, minute: 50 }), "<p>desc</p>".to_string())
    );
    assert_eq!(
        session_page_from_texts(&detail, &s(&["Day 2 - 14:00 - 14:30"]), &s(&[])).unwrap(),
        ((Time { hour: 14, minute: 0 }, Time { hour: 14, minute: 30 }), String::new())
    );
    assert_eq!(session_page_from_texts(&detail, &s(&["a - b - c - d"]), &s(&[])).unwrap_err(), FetchError::MalformedTime);
    assert_eq!(
        session_page_from_texts(&detail, &s(&[]), &s(&["x"])).unwrap_err(),
        FetchError::MissingElement { what: Locator::SessionTime, page: detail.clone(), at: vec![] }
    );
}

#[test]
fn session_anchor_itself_is_not_its_own_link() {
    let html = "<a class=\"session\" href=\"/self\"><h6>T</h6><p>no speaker</p></a>";
    let c = read_session_card(html);
    assert!(c.links.is_empty());
    assert_eq!(c.titles, vec!["T".to_string()]);
    assert!(c.presenter_hrefs.is_empty());
}

#[test]
fn every_selector_compiles() {
    for s in [
        ".agenda",
        "body > * .agenda__label",
        "body > * .agenda__row",
        "body > * .agenda__time",
        "body > * .agenda__sessions",
        "body > * .session",
        "body > * .session__badge",
        "body > * p",
        "body > * a",
        "body > * h6",
        ".speaker__name",
        ".speaker__title",
        ".speaker__introduce",
        ".session__time",
        ".session__description",
    ] {
        assert!(scraper::Selector::parse(s).is_ok(), "{}", s);
    }
}
