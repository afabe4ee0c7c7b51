use cowrite::error::{FetchError, Locator};
use cowrite::extract::{agenda_url, extract_agenda, extract_session, read_presenters, read_session_page, resolve_link};
use cowrite::model::{Agenda, Page, Presenter, Step};
use cowrite::time::Time;

const SITE: &str = "https://2022.tgdf.tw";
const AGENDA: &str = "https://2022.tgdf.tw/agenda";

fn session_card(title: &str, detail: &str, badges: &[&str], speakers: &[&str]) -> String {
    let mut html = format!("<div class=\"session\"><a href=\"{}\"><h6>{}</h6></a>", detail, title);
    for b in badges {
        html.push_str(&format!("<span class=\"session__badge\">{}</span>", b));
    }
    html.push_str("<p>");
    for s in speakers {
        html.push_str(&format!("<a href=\"{}\">{}</a>", s, s));
    }
    html.push_str("</p></div>");
    html
}

fn agenda_page(label: &str, time: &str, cards: &[String]) -> String {
    format!(
        "<html><body><div class=\"agenda\"><div class=\"agenda__label\"><span>12/9</span><span>{}</span></div>\
         <div class=\"agenda__row\"><div class=\"agenda__time\">{}</div>\
         <div class=\"agenda__sessions\">{}</div></div></div></body></html>",
        label,
        time,
        cards.concat()
    )
}

fn speaker_page(name: &str) -> String {
    format!(
        "<html><body><div class=\"speaker__name\">{}</div><div class=\"speaker__title\">Title of {}</div>\
         <div class=\"speaker__introduce\">About {}</div></body></html>",
        name, name, name
    )
}

fn detail_page(time: &str, description: &str) -> String {
    format!(
        "<html><body><div class=\"session__time\">{}</div><div class=\"session__description\">{}</div></body></html>",
        time, description
    )
}

fn ok(url: &str, body: String) -> Page {
    Page { url: url.to_string(), body: Some(body) }
}

fn url(path: &str) -> String {
    format!("{}{}", SITE, path)
}

/// Runs the extraction to its end, answering each request from `site`.
fn run(page: &str, site: &[(String, Option<String>)]) -> Result<Vec<Agenda>, FetchError> {
    let mut pages: Vec<Page> = Vec::new();
    for _ in 0..10 {
        match extract_agenda(page, &pages) {
            Step::Done(days) => return Ok(days),
            Step::Failed(e) => return Err(e),
            Step::Need(urls) => {
                for u in urls {
                    let body = site.iter().find(|(k, _)| *k == u).expect("unknown url").1.clone();
                    pages.push(Page { url: u, body });
                }
            }
        }
    }
    panic!("the extraction did not finish");
}

#[test]
fn one_day_one_period_one_session_end_to_end() {
    let card = session_card("Talk", "/session/1", &["Art", "Code"], &["/speaker/ada", "/speaker/bo"]);
    let page = agenda_page("Fri", "09:00 - 10:00", &[card]);
    let site = vec![
        (url("/speaker/ada"), Some(speaker_page("Ada"))),
        (url("/speaker/bo"), Some(speaker_page("Bo"))),
        (url("/session/1"), Some(detail_page("09:10 - 09:50", "<p>desc</p>"))),
    ];
    let days = run(&page, &site).unwrap();
    assert_eq!(days.len(), 1);
    assert_eq!(days[0].date, "12/9Fri");
    assert_eq!(days[0].periods.len(), 1);
    let period = &days[0].periods[0];
    assert_eq!(period.time, (Time { hour: 9, minute: 0 }, Time { hour: 10, minute: 0 }));
    assert_eq!(period.sessions.len(), 1);
    let s = &period.sessions[0];
    assert_eq!(s.day, 1);
    assert_eq!(s.track, 1);
    assert_eq!(s.time, (Time { hour: 9, minute: 10 }, Time { hour: 9, minute: 50 }));
    assert_eq!(s.title, "Talk");
    assert_eq!(s.tags, vec!["Art".to_string(), "Code".to_string()]);
    assert_eq!(s.description, "<p>desc</p>");
    let names: Vec<&str> = s.presenters.iter().map(|p| p.name.as_str()).collect();
    assert_eq!(names, vec!["Ada", "Bo"]);
    assert_eq!(s.presenters[0].link, url("/speaker/ada"));
    assert_eq!(s.presenters[1].title, "Title of Bo");
    assert_eq!(s.presenters[1].introduction, "About Bo");
    assert_eq!(days[0].sessions().len(), 1);
}

#[test]
fn first_request_asks_for_all_presenters_then_the_detail_page() {
    let card = session_card("Talk", "/session/1", &[], &["/speaker/ada", "/speaker/bo"]);
    let page = agenda_page("Fri", "09:00 - 10:00", &[card]);
    match extract_agenda(&page, &Vec::new()) {
        Step::Need(urls) => assert_eq!(urls, vec![url("/speaker/ada"), url("/speaker/bo")]),
        other => panic!("unexpected {:?}", other),
    }
    let pages = vec![ok(&url("/speaker/bo"), speaker_page("Bo")), ok(&url("/speaker/ada"), speaker_page("Ada"))];
    match extract_agenda(&page, &pages) {
        Step::Need(urls) => assert_eq!(urls, vec![url("/session/1")]),
        other => panic!("unexpected {:?}", other),
    }
}

#[test]
fn presenters_keep_link_order_whatever_order_pages_arrive_in() {
    let links = vec![url("/speaker/a"), url("/speaker/b"), url("/speaker/c")];
    let pages = vec![
        ok(&url("/speaker/c"), speaker_page("C")),
        ok(&url("/speaker/a"), speaker_page("A")),
        ok(&url("/speaker/b"), speaker_page("B")),
    ];
    let presenters = read_presenters(&links, &pages).unwrap();
    let names: Vec<&str> = presenters.iter().map(|p| p.name.as_str()).collect();
    assert_eq!(names, vec!["A", "B", "C"]);
    let got: Vec<&str> = presenters.iter().map(|p| p.link.as_str()).collect();
    assert_eq!(got, links.iter().map(|s| s.as_str()).collect::<Vec<_>>());
}

#[test]
fn session_without_presenter_anchor_leaves_day_out() {
    let card = "<div class=\"session\"><a href=\"/session/1\"><h6>Break</h6></a><p>No speaker</p></div>".to_string();
    let page = agenda_page("Fri", "09:00 - 10:00", &[card]);
    assert_eq!(run(&page, &[]).unwrap().len(), 0);
}

#[test]
fn session_without_paragraph_is_skipped() {
    let card = "<div class=\"session\"><a href=\"/session/1\"><h6>Lunch</h6></a></div>";
    match extract_session(card, 1, 1, 1, 1, &Vec::new()) {
        Step::Done(None) => {}
        other => panic!("unexpected {:?}", other),
    }
}

#[test]
fn skipped_session_does_not_drop_its_neighbours() {
    let skipped = "<div class=\"session\"><a href=\"/session/0\"><h6>Break</h6></a><p>none</p></div>".to_string();
    let kept = session_card("Talk", "/session/1", &[], &["/speaker/ada"]);
    let page = agenda_page("Fri", "09:00 - 10:00", &[skipped, kept]);
    let site = vec![
        (url("/speaker/ada"), Some(speaker_page("Ada"))),
        (url("/session/1"), Some(detail_page("Day 1 - 09:10 - 09:50", ""))),
    ];
    let days = run(&page, &site).unwrap();
    assert_eq!(days[0].periods[0].sessions.len(), 1);
    assert_eq!(days[0].periods[0].sessions[0].title, "Talk");
    assert_eq!(days[0].periods[0].sessions[0].description, "");
}

#[test]
fn failed_presenter_fetch_fails_the_whole_extraction() {
    let card = session_card("Talk", "/session/1", &[], &["/speaker/ada", "/speaker/bo"]);
    let page = agenda_page("Fri", "09:00 - 10:00", &[card]);
    let site = vec![
        (url("/speaker/ada"), Some(speaker_page("Ada"))),
        (url("/speaker/bo"), None),
        (url("/session/1"), Some(detail_page("09:10 - 09:50", "<p>desc</p>"))),
    ];
    assert_eq!(run(&page, &site).unwrap_err(), FetchError::Transport { url: url("/speaker/bo") });
}

#[test]
fn failed_detail_fetch_names_the_detail_page() {
    let card = session_card("Talk", "/session/1", &[], &["/speaker/ada"]);
    let page = agenda_page("Fri", "09:00 - 10:00", &[card]);
    let site = vec![(url("/speaker/ada"), Some(speaker_page("Ada"))), (url("/session/1"), None)];
    assert_eq!(run(&page, &site).unwrap_err(), FetchError::Transport { url: url("/session/1") });
}

#[test]
fn malformed_period_label_is_an_error() {
    let card = session_card("Talk", "/session/1", &[], &["/speaker/ada"]);
    let page = agenda_page("Fri", "morning", &[card]);
    assert_eq!(run(&page, &[]).unwrap_err(), FetchError::MalformedTime);
}

#[test]
fn missing_period_label_names_its_row() {
    let page = "<div class=\"agenda\"><div class=\"agenda__label\">D</div>\
                <div class=\"agenda__row\"><div class=\"agenda__time\">09:00 - 10:00</div></div>\
                <div class=\"agenda__row\"></div></div>";
    match extract_agenda(page, &Vec::new()) {
        Step::Failed(e) => assert_eq!(
            e,
            FetchError::MissingElement { what: Locator::PeriodTime, page: AGENDA.to_string(), at: vec![1, 2] }
        ),
        other => panic!("unexpected {:?}", other),
    }
}

#[test]
fn missing_title_is_an_error() {
    let card = "<div class=\"session\"><a href=\"/session/1\">Talk</a><p><a href=\"/speaker/ada\">Ada</a></p></div>";
    let pages = vec![ok(&url("/speaker/ada"), speaker_page("Ada"))];
    match extract_session(card, 1, 3, 2, 4, &pages) {
        Step::Failed(e) => assert_eq!(e, FetchError::MissingElement { what: Locator::SessionTitle, page: AGENDA.to_string(), at: vec![1, 3, 2, 4] }),
        other => panic!("unexpected {:?}", other),
    }
}

#[test]
fn presenter_anchor_without_href_is_an_error() {
    let card = "<div class=\"session\"><h6>T</h6><p><a>Ada</a></p></div>";
    match extract_session(card, 1, 1, 1, 1, &Vec::new()) {
        Step::Failed(e) => assert_eq!(e, FetchError::MissingElement { what: Locator::PresenterLink, page: AGENDA.to_string(), at: vec![1, 1, 1, 1] }),
        other => panic!("unexpected {:?}", other),
    }
}

#[test]
fn missing_day_label_is_an_error() {
    let page = "<div class=\"agenda\"><div class=\"agenda__row\"></div></div>";
    match extract_agenda(page, &Vec::new()) {
        Step::Failed(e) => assert_eq!(e, FetchError::MissingElement { what: Locator::DayLabel, page: AGENDA.to_string(), at: vec![1] }),
        other => panic!("unexpected {:?}", other),
    }
}

#[test]
fn presenter_page_needs_its_three_parts() {
    let link = url("/speaker/x");
    let p: Presenter = Presenter::from_page(&link, &speaker_page("X")).unwrap();
    assert_eq!(p.name, "X");
    assert_eq!(p.link, link);
    let broken = "<div class=\"speaker__name\">X</div>";
    assert_eq!(
        Presenter::from_page(&link, broken).unwrap_err(),
        FetchError::MissingElement { what: Locator::PresenterTitle, page: link.clone(), at: vec![] }
    );
    assert_eq!(
        Presenter::from_page(&link, "").unwrap_err(),
        FetchError::MissingElement { what: Locator::PresenterName, page: link.clone(), at: vec![] }
    );
}

#[test]
fn detail_page_time_and_description() {
    let (time, description) = read_session_page(&url("/session/3"), &detail_page("2022/12/09 - 13:00 - 13:40", "<b>x</b>")).unwrap();
    assert_eq!(time, (Time { hour: 13, minute: 0 }, Time { hour: 13, minute: 40 }));
    assert_eq!(description, "<b>x</b>");
    assert_eq!(
        read_session_page(&url("/session/3"), "<p>nothing</p>").unwrap_err(),
        FetchError::MissingElement { what: Locator::SessionTime, page: url("/session/3"), at: vec![] }
    );
    assert_eq!(read_session_page(&url("/session/3"), &detail_page("soon", "")).unwrap_err(), FetchError::MalformedTime);
}

#[test]
fn absolute_presenter_links_are_kept() {
    let card = session_card("Talk", "/session/1", &[], &["https://guest.example/ada"]);
    let page = agenda_page("Fri", "09:00 - 10:00", &[card]);
    match extract_agenda(&page, &Vec::new()) {
        Step::Need(urls) => assert_eq!(urls, vec!["https://guest.example/ada".to_string()]),
        other => panic!("unexpected {:?}", other),
    }
}

#[test]
fn links_resolve_against_the_site() {
    assert_eq!(resolve_link(&"/speaker/1".to_string()), "https://2022.tgdf.tw/speaker/1");
    assert_eq!(resolve_link(&"speaker/1".to_string()), "https://2022.tgdf.tw/speaker/1");
    assert_eq!(resolve_link(&"https://example.org/a".to_string()), "https://example.org/a");
    assert_eq!(resolve_link(&"http://example.org/b".to_string()), "http://example.org/b");
    assert_eq!(resolve_link(&"".to_string()), "https://2022.tgdf.tw/");
    assert_eq!(resolve_link(&"//cdn.example/x".to_string()), "https://cdn.example/x");
    assert_eq!(resolve_link(&"?day=2".to_string()), "https://2022.tgdf.tw/agenda?day=2");
    assert_eq!(resolve_link(&"#top".to_string()), "https://2022.tgdf.tw/agenda#top");
    assert_eq!(agenda_url(), AGENDA);
}
