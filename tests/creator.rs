use cowrite::creator::CoWriteCreator;
use cowrite::dom::concat_texts;
use cowrite::hackmd::permission::{Comment, Read, Write};
use cowrite::hackmd::{CommentPermission, ReadPermission, WritePermission};
use cowrite::model::{Agenda, Period, Session};
use cowrite::time::Time;

fn session(title: &str, track: u32) -> Session {
    let t = Time { hour: 9, minute: 0 };
    Session {
        day: 1,
        track,
        time: (t, t),
        title: title.to_string(),
        presenters: vec![],
        tags: vec![],
        description: String::new(),
    }
}

#[test]
fn creator_lists_sessions_day_after_day() {
    let t = Time { hour: 9, minute: 0 };
    let mut creator = CoWriteCreator::new("c".to_string(), "n".to_string());
    assert!(creator.sessions().is_empty());
    creator.add_agenda(Agenda {
        date: "d1".to_string(),
        periods: vec![
            Period { time: (t, t), sessions: vec![session("a", 1), session("b", 2)] },
            Period { time: (t, t), sessions: vec![session("c", 1)] },
        ],
    });
    creator.add_agenda(Agenda { date: "d2".to_string(), periods: vec![Period { time: (t, t), sessions: vec![session("d", 1)] }] });
    let titles: Vec<&str> = creator.sessions().iter().map(|s| s.title.as_str()).collect();
    assert_eq!(titles, vec!["a", "b", "c", "d"]);
    assert_eq!(creator.agendas.len(), 2);
    assert_eq!(creator.note_template, "n");
}

#[test]
fn permissions_have_their_service_names() {
    assert_eq!(Read::Owner.as_str(), "owner");
    assert_eq!(Write::SignedIn.as_str(), "signed_in");
    assert_eq!(Comment::Everyone.as_str(), "everyone");
    assert_eq!(Comment::SignedInUsers.as_str(), "signed_in_users");
    assert_eq!(ReadPermission::Guest.as_str(), "guest");
    assert_eq!(WritePermission::SignedIn.as_str(), "signed_in");
    assert_eq!(CommentPermission::Disabled.as_str(), "disabled");
}

#[test]
fn texts_concatenate() {
    let parts = vec!["12/9".to_string(), "Fri".to_string(), "".to_string()];
    assert_eq!(concat_texts(&parts), "12/9Fri");
    assert_eq!(concat_texts(&vec![]), "");
}
