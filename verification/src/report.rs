//! What the chat's own bot reports about punishments.

use crate::model::{
    status_views, Insertion, InsertionView, Message, MessageView, Outcome, PhraseKind,
    Status, StatusView,
};
use crate::pattern::{find_report, group_text, report_in};
use crate::sequence::lemma_filter_step;
use crate::text::{list_has, lowercase, same_text};
use crate::watch::{
    and_next, do_nothing, idle, reached, record_step, StepView, Watch, WatchView,
};
use vstd::prelude::*;

verus! {

/// Whether a status is about somebody else.
pub open spec fn about_others(nick: Seq<char>) -> spec_fn(StatusView) -> bool {
    |status: StatusView| status.nick != nick
}

/// The punishment that a report speaks of: `muted` is a mute, any other word a ban.
pub open spec fn punishment(word: Seq<char>) -> PhraseKind {
    if word == "muted"@ {
        PhraseKind::Mute
    } else {
        PhraseKind::Ban
    }
}

/// The row that a report adds. A report tells neither the time nor the duration.
pub open spec fn reported_row(
    reporter: Seq<char>,
    kind: PhraseKind,
    phrase: Seq<char>,
) -> InsertionView {
    InsertionView {
        time_ms: 0,
        username: reporter,
        phrase,
        duration: Seq::empty(),
        kind: kind.word(),
    }
}

/// Taking over a phrase that is neither on the list nor to be ignored.
pub open spec fn adopt_step(
    state: WatchView,
    reporter: Seq<char>,
    kind: PhraseKind,
    phrase: Seq<char>,
) -> StepView {
    if state.phrases.contains(phrase) || state.ignored.contains(phrase) {
        idle(state)
    } else {
        record_step(state, reported_row(reporter, kind, phrase))
    }
}

/// Clearing what is remembered of somebody.
pub open spec fn clear_step(state: WatchView, nick: Seq<char>) -> StepView {
    idle(WatchView { user_checks: state.user_checks.filter(about_others(nick)), ..state })
}

/// A report that `nick` was punished: its phrase is taken over, and what is
/// remembered of `nick` is cleared.
pub open spec fn punished_step(
    state: WatchView,
    reporter: Seq<char>,
    nick: Seq<char>,
    kind: PhraseKind,
    phrase: Seq<char>,
) -> StepView {
    let adopted = adopt_step(state, reporter, kind, phrase);
    and_next(adopted, clear_step(adopted.state, nick))
}

/// Looking for a report in a message. Only what the chat's own bot says is looked at.
pub open spec fn report_step(state: WatchView, message: MessageView) -> StepView {
    if message.nick == "Bot"@ {
        match report_in(message.data) {
            Some(report) => punished_step(
                state,
                message.nick,
                report.nick,
                punishment(report.verb),
                lowercase(report.phrase),
            ),
            None => idle(state),
        }
    } else {
        idle(state)
    }
}

/// Gives the punishment that a report speaks of.
pub fn read_punishment(word: &str) -> (kind: PhraseKind)
    ensures
        kind == punishment(word@),
{
    if same_text(word, "muted") {
        PhraseKind::Mute
    } else {
        PhraseKind::Ban
    }
}

/// Keeps those statuses of a list that are about somebody else.
pub fn clear_nick(list: &mut Vec<Status>, nick: &str)
    ensures
        status_views(final(list)@) == status_views(old(list)@).filter(about_others(nick@)),
{
    let mut at: usize = 0;
    let ghost all = status_views(list@);
    let ghost mut seen: int = 0;
    while at < list.len()
        invariant
            all == status_views(old(list)@),
            0 <= seen <= all.len(),
            at == all.take(seen).filter(about_others(nick@)).len(),
            status_views(list@) == all.take(seen).filter(about_others(nick@)) + all.skip(seen),
        decreases list.len() - at,
    {
        let ghost held = status_views(list@);
        proof {
            lemma_filter_step(all, about_others(nick@), seen);
            assert(held[at as int] == all.skip(seen)[0]);
        }
        assert(list[at as int]@ == all[seen]);
        if same_text(list[at].nick.as_str(), nick) {
            list.remove(at);
            assert(status_views(list@) == held.remove(at as int));
            assert(held.remove(at as int) == all.take(seen).filter(about_others(nick@)) + all.skip(
                seen + 1,
            ));
        } else {
            at = at + 1;
            assert(held == all.take(seen).filter(about_others(nick@)).push(all[seen]) + all.skip(
                seen + 1,
            ));
        }
        proof {
            seen = seen + 1;
        }
    }
    assert(all.take(seen) == all);
}

impl Watch {
    /// Takes over a phrase that is neither on the list nor to be ignored.
    pub fn adopt(&mut self, reporter: &str, kind: PhraseKind, phrase: String) -> (outcome: Outcome)
        ensures
            reached(*final(self), outcome) == adopt_step(old(self)@, reporter@, kind, phrase@),
    {
        if list_has(&self.phrases, phrase.as_str()) || list_has(&self.ignored, phrase.as_str()) {
            do_nothing()
        } else {
            self.record(
                Insertion {
                    time_ms: 0,
                    username: reporter.to_owned(),
                    phrase,
                    duration: String::new(),
                    kind: kind.to_word(),
                },
            )
        }
    }

    /// Takes note of a report that `nick` was punished for a phrase.
    pub fn note_punishment(
        &mut self,
        reporter: &str,
        nick: &str,
        kind: PhraseKind,
        phrase: String,
    ) -> (outcome: Outcome)
        ensures
            reached(*final(self), outcome) == punished_step(
                old(self)@,
                reporter@,
                nick@,
                kind,
                phrase@,
            ),
    {
        let outcome = self.adopt(reporter, kind, phrase);
        clear_nick(&mut self.user_checks, nick);
        outcome
    }

    /// Looks for a report in a message.
    pub fn read_report(&mut self, msg: &Message) -> (outcome: Outcome)
        ensures
            reached(*final(self), outcome) == report_step(old(self)@, msg@),
    {
        if same_text(msg.nick.as_str(), "Bot") {
            match find_report(msg.data.as_str()) {
                Some(groups) => {
                    let nick = group_text(&groups, 1);
                    let kind = read_punishment(group_text(&groups, 2).as_str());
                    let phrase = group_text(&groups, 3).to_lowercase();
                    self.note_punishment(msg.nick.as_str(), nick.as_str(), kind, phrase)
                },
                None => do_nothing(),
            }
        } else {
            do_nothing()
        }
    }
}

} // verus!
