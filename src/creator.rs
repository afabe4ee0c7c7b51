//! The collection of days whose sessions are published as notes.
use vstd::prelude::*;
use crate::model::{sessions_of_days, Agenda, Session};

verus! {

/// The days to publish, and the templates of the index note and of each
/// session's note.
pub struct CoWriteCreator {
    pub agendas: Vec<Agenda>,
    pub category_template: String,
    pub note_template: String,
}

impl CoWriteCreator {
    /// A creator with no days yet.
    pub fn new(category_template: String, note_template: String) -> (r: CoWriteCreator)
        ensures
            r.agendas@.len() == 0,
            r.category_template == category_template,
            r.note_template == note_template,
    {
        CoWriteCreator { agendas: Vec::new(), category_template, note_template }
    }

    /// Adds a day after those already held.
    pub fn add_agenda(&mut self, agenda: Agenda)
        ensures
            final(self).agendas.deep_view() == old(self).agendas.deep_view().push(agenda.deep_view()),
            final(self).category_template == old(self).category_template,
            final(self).note_template == old(self).note_template,
    {
        let ghost prev = self.agendas;
        let ghost a = agenda;
        self.agendas.push(agenda);
        proof {
            crate::model::lemma_deep_view_push(prev, self.agendas, a);
        }
    }

    /// The sessions of all days, day after day, in document order.
    pub fn sessions(&self) -> (r: Vec<&Session>)
        ensures
            r.deep_view() == sessions_of_days(self.agendas.deep_view()),
    {
        let mut out: Vec<&Session> = Vec::new();
        let mut i: usize = 0;
        assert(out.deep_view() =~= sessions_of_days(self.agendas.deep_view().take(0)));
        while i < self.agendas.len()
            invariant
                i <= self.agendas.len(),
                out.deep_view() == sessions_of_days(self.agendas.deep_view().take(i as int)),
            decreases self.agendas.len() - i,
        {
            let day = self.agendas[i].sessions();
            let ghost start = out.deep_view();
            let mut j: usize = 0;
            while j < day.len()
                invariant
                    i < self.agendas.len(),
                    j <= day.len(),
                    day.deep_view() == crate::model::sessions_of(self.agendas@[i as int].periods.deep_view()),
                    out.deep_view() == start + day.deep_view().take(j as int),
                decreases day.len() - j,
            {
                let ghost prev = out;
                let s = day[j];
                out.push(s);
                proof {
                    crate::model::lemma_deep_view_push(prev, out, s);
                    assert(day.deep_view()[j as int] == day@[j as int].deep_view());
                    assert(out.deep_view() =~= start + day.deep_view().take(j as int + 1));
                }
                j = j + 1;
            }
            proof {
                let av = self.agendas.deep_view().take(i as int + 1);
                assert(av.drop_last() =~= self.agendas.deep_view().take(i as int));
                assert(av.last() == self.agendas@[i as int].deep_view());
                assert(day.deep_view().take(j as int) =~= day.deep_view());
            }
            i = i + 1;
        }
        assert(self.agendas.deep_view().take(i as int) =~= self.agendas.deep_view());
        out
    }
}

} // verus!
