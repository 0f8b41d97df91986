//! What the companion remembers, and the changes that memory goes through.

use crate::model::{
    action_views, status_views, Action, ActionView, Fault, Insertion, InsertionView, Message,
    MessageView, Outcome, Status, StatusView,
};
use crate::sequence::{leading, lemma_filter_step, lemma_leading_unique, without_each};
use crate::text::{find_text, lowercase, texts};
use vstd::prelude::*;

verus! {

/// How long a phrase may go unpunished before it is taken for allowed, in milliseconds.
pub const PATIENCE_MS: i64 = 10000;

/// What the companion remembers while a connection lasts.
#[derive(Debug)]
pub struct Watch {
    /// The banned phrases: those that the phrase table held at the start, with the changes
    /// that were handed out since.
    pub phrases: Vec<String>,
    /// The phrases that were said and not punished so far, oldest first.
    pub user_checks: Vec<Status>,
    /// The phrases that are never taken over from the chat's own bot.
    pub ignored: Vec<String>,
}

/// What a [`Watch`] stands for.
#[verifier::ext_equal]
pub struct WatchView {
    pub phrases: Seq<Seq<char>>,
    pub user_checks: Seq<StatusView>,
    pub ignored: Seq<Seq<char>>,
}

impl View for Watch {
    type V = WatchView;

    open spec fn view(&self) -> WatchView {
        WatchView {
            phrases: texts(self.phrases@),
            user_checks: status_views(self.user_checks@),
            ignored: texts(self.ignored@),
        }
    }
}

/// Where a piece of work leads: what is remembered after it, the changes that the
/// phrase table is to see, and the fault that cut it short, if one did.
#[verifier::ext_equal]
pub struct StepView {
    pub state: WatchView,
    pub actions: Seq<ActionView>,
    pub fault: Option<Fault>,
}

/// Where work has led that left `watch` behind and gave `outcome`.
pub open spec fn reached(watch: Watch, outcome: Outcome) -> StepView {
    StepView { state: watch@, actions: outcome@.actions, fault: outcome@.fault }
}

/// Work that changes nothing.
pub open spec fn idle(state: WatchView) -> StepView {
    StepView { state, actions: Seq::empty(), fault: None }
}

/// Work that breaks off before it has changed anything.
pub open spec fn broken(state: WatchView, fault: Fault) -> StepView {
    StepView { state, actions: Seq::empty(), fault: Some(fault) }
}

/// One piece of work and then another, unless the first breaks off.
pub open spec fn and_next(first: StepView, second: StepView) -> StepView {
    if first.fault is Some {
        first
    } else {
        StepView {
            state: second.state,
            actions: first.actions + second.actions,
            fault: second.fault,
        }
    }
}

/// A row joins the phrase table and its phrase the end of the list.
pub open spec fn record_step(state: WatchView, row: InsertionView) -> StepView {
    StepView {
        state: WatchView { phrases: state.phrases.push(row.phrase), ..state },
        actions: seq![ActionView::Insert(row)],
        fault: None,
    }
}

/// Whether a status is so old at `now` that its phrase is taken for allowed.
pub open spec fn overdue(now: i64) -> spec_fn(StatusView) -> bool {
    |status: StatusView| status.timestamp + PATIENCE_MS < now
}

/// Whether a status is not [`overdue`].
pub open spec fn pending(now: i64) -> spec_fn(StatusView) -> bool {
    |status: StatusView| !(status.timestamp + PATIENCE_MS < now)
}

/// Whether the moment at which a status falls due can be written as a timestamp.
pub open spec fn datable() -> spec_fn(StatusView) -> bool {
    |status: StatusView| status.timestamp + PATIENCE_MS <= i64::MAX
}

/// The phrases of those statuses that are overdue, in their order.
pub open spec fn overdue_phrases(statuses: Seq<StatusView>, now: i64) -> Seq<Seq<char>> {
    statuses.filter(overdue(now)).map_values(|status: StatusView| status.data)
}

/// The deletion of each of a list of phrases.
pub open spec fn deletions(phrases: Seq<Seq<char>>) -> Seq<ActionView> {
    phrases.map_values(|phrase: Seq<char>| ActionView::Delete(phrase))
}

/// Each status that is overdue is dropped, and its phrase is deleted from the table
/// and from the list. The work breaks off at the first status whose due moment
/// cannot be written.
pub open spec fn expire_step(state: WatchView, now: i64) -> StepView {
    let checks = state.user_checks;
    let seen = leading(checks, datable());
    let allowed = overdue_phrases(checks.take(seen as int), now);
    StepView {
        state: WatchView {
            phrases: without_each(state.phrases, allowed),
            user_checks: checks.take(seen as int).filter(pending(now)) + checks.skip(seen as int),
            ..state
        },
        actions: deletions(allowed),
        fault: if seen < checks.len() {
            Some(Fault::ClockOverflow)
        } else {
            None
        },
    }
}

/// What one status more adds to the work of [`expire_step`].
proof fn lemma_expire_one(
    checks: Seq<StatusView>,
    phrases: Seq<Seq<char>>,
    now: i64,
    seen: int,
)
    requires
        0 <= seen < checks.len(),
    ensures
        ({
            let old_gone = overdue_phrases(checks.take(seen), now);
            let new_gone = overdue_phrases(checks.take(seen + 1), now);
            let old_kept = checks.take(seen).filter(pending(now));
            let new_kept = checks.take(seen + 1).filter(pending(now));
            if checks[seen].timestamp + PATIENCE_MS < now {
                &&& new_kept == old_kept
                &&& new_gone == old_gone.push(checks[seen].data)
                &&& without_each(phrases, new_gone) == without_each(
                    phrases,
                    old_gone,
                ).remove_value(checks[seen].data)
                &&& deletions(new_gone) == deletions(old_gone).push(
                    ActionView::Delete(checks[seen].data),
                )
            } else {
                &&& new_kept == old_kept.push(checks[seen])
                &&& new_gone == old_gone
            }
        }),
{
    lemma_filter_step(checks, pending(now), seen);
    lemma_filter_step(checks, overdue(now), seen);
    let old_gone = overdue_phrases(checks.take(seen), now);
    let new_gone = overdue_phrases(checks.take(seen + 1), now);
    if checks[seen].timestamp + PATIENCE_MS < now {
        assert(new_gone == old_gone.push(checks[seen].data));
        assert(new_gone.drop_last() == old_gone);
    } else {
        assert(new_gone == old_gone);
    }
}

/// What is remembered of a message that held a phrase.
pub open spec fn status_of(message: MessageView, phrase: Seq<char>) -> StatusView {
    StatusView { nick: message.nick, data: lowercase(phrase), timestamp: message.timestamp }
}

/// Gives the outcome of work that changes nothing.
pub(crate) fn do_nothing() -> (outcome: Outcome)
    ensures
        forall|watch: Watch| #[trigger] reached(watch, outcome) == idle(watch@),
{
    let outcome = Outcome { actions: Vec::new(), fault: None };
    assert(outcome@.actions == Seq::<ActionView>::empty());
    outcome
}

/// Gives the outcome of work that breaks off before it has changed anything.
pub(crate) fn break_off(fault: Fault) -> (outcome: Outcome)
    ensures
        forall|watch: Watch| #[trigger] reached(watch, outcome) == broken(watch@, fault),
{
    let outcome = Outcome { actions: Vec::new(), fault: Some(fault) };
    assert(outcome@.actions == Seq::<ActionView>::empty());
    outcome
}

/// Remembers that a message held a phrase.
pub fn push_status(vector: &mut Vec<Status>, msg: &Message, phrase: String)
    ensures
        status_views(final(vector)@) == status_views(old(vector)@).push(
            status_of(msg@, phrase@),
        ),
{
    let status = Status {
        nick: msg.nick.clone(),
        timestamp: msg.timestamp,
        data: phrase.to_lowercase(),
    };
    vector.push(status);
    assert(status_views(vector@) == status_views(old(vector)@).push(status_of(msg@, phrase@)));
}

impl Watch {
    /// Starts with the phrases of the table and the phrases to ignore.
    pub fn new(phrases: Vec<String>, ignored: Vec<String>) -> (watch: Self)
        ensures
            watch@ == (WatchView {
                phrases: texts(phrases@),
                user_checks: Seq::empty(),
                ignored: texts(ignored@),
            }),
    {
        let watch = Watch { phrases, user_checks: Vec::new(), ignored };
        assert(watch@.user_checks == Seq::<StatusView>::empty());
        watch
    }

    /// Adds the phrase of a row to the list, and gives the insertion of the row.
    pub fn record(&mut self, row: Insertion) -> (outcome: Outcome)
        ensures
            reached(*final(self), outcome) == record_step(old(self)@, row@),
    {
        self.phrases.push(row.phrase.clone());
        let ghost view = row@;
        let mut actions: Vec<Action> = Vec::new();
        actions.push(Action::Insert(row));
        assert(self@.phrases == old(self)@.phrases.push(view.phrase));
        assert(action_views(actions@) == seq![ActionView::Insert(view)]);
        Outcome { actions, fault: None }
    }

    /// Takes the first occurrence of a phrase off the list, and tells whether there was one.
    pub fn forget(&mut self, phrase: &str) -> (found: bool)
        ensures
            found == old(self)@.phrases.contains(phrase@),
            final(self)@ == (WatchView {
                phrases: old(self)@.phrases.remove_value(phrase@),
                ..old(self)@
            }),
    {
        proof {
            self@.phrases.index_of_first_ensures(phrase@);
        }
        match find_text(&self.phrases, phrase) {
            Some(i) => {
                self.phrases.remove(i);
                assert(self@.phrases == old(self)@.phrases.remove(i as int));
                true
            },
            None => false,
        }
    }

    /// Drops the statuses that are overdue at `now`, with their phrases.
    pub fn expire(&mut self, now: i64) -> (outcome: Outcome)
        ensures
            reached(*final(self), outcome) == expire_step(old(self)@, now),
    {
        let mut actions: Vec<Action> = Vec::new();
        let mut at: usize = 0;
        let ghost checks = self@.user_checks;
        let ghost phrases = self@.phrases;
        let ghost mut seen: int = 0;
        while at < self.user_checks.len()
            invariant
                checks == old(self)@.user_checks,
                phrases == old(self)@.phrases,
                0 <= seen <= checks.len(),
                forall|j: int| 0 <= j < seen ==> datable()(#[trigger] checks[j]),
                at == checks.take(seen).filter(pending(now)).len(),
                self@.user_checks == checks.take(seen).filter(pending(now)) + checks.skip(seen),
                self@.phrases == without_each(phrases, overdue_phrases(checks.take(seen), now)),
                self@.ignored == old(self)@.ignored,
                action_views(actions@) == deletions(overdue_phrases(checks.take(seen), now)),
            decreases self.user_checks.len() - at,
        {
            let ghost held = self@.user_checks;
            proof {
                assert(held[at as int] == checks.skip(seen)[0]);
                lemma_expire_one(checks, phrases, now, seen);
            }
            assert(self.user_checks[at as int]@ == checks[seen]);
            let said: i64 = self.user_checks[at].timestamp;
            if said > i64::MAX - PATIENCE_MS {
                proof {
                    lemma_leading_unique(checks, datable(), seen as nat);
                }
                return Outcome { actions, fault: Some(Fault::ClockOverflow) };
            }
            if said + PATIENCE_MS < now {
                let status = self.user_checks.remove(at);
                let ghost before = self@;
                let ghost done = action_views(actions@);
                self.forget(status.data.as_str());
                actions.push(Action::Delete(status.data));
                assert(before.user_checks == held.remove(at as int));
                assert(self@.user_checks == held.remove(at as int));
                assert(held.remove(at as int) == checks.take(seen).filter(pending(now))
                    + checks.skip(seen + 1));
                assert(action_views(actions@) == done.push(
                    ActionView::Delete(checks[seen].data),
                ));
            } else {
                at = at + 1;
                assert(held == checks.take(seen).filter(pending(now)).push(checks[seen])
                    + checks.skip(seen + 1));
            }
            proof {
                seen = seen + 1;
            }
        }
        proof {
            assert(seen == checks.len());
            lemma_leading_unique(checks, datable(), seen as nat);
        }
        Outcome { actions, fault: None }
    }
}

} // verus!
