//! What the companion makes of a chat message.

use crate::command::command_step;
use crate::hits::{find_hits, hits};
use crate::model::{action_views, Message, MessageView, Outcome, StatusView};
use crate::report::report_step;
use crate::text::texts;
use crate::watch::{
    and_next, broken, expire_step, idle, push_status, reached, status_of, StepView, Watch,
    WatchView,
};
use vstd::prelude::*;

verus! {

/// What is remembered of a message that held each of some phrases.
pub open spec fn statuses_of(message: MessageView, phrases: Seq<Seq<char>>) -> Seq<StatusView> {
    phrases.map_values(|phrase: Seq<char>| status_of(message, phrase))
}

/// Remembering the phrases that a message held.
pub open spec fn remember_step(
    state: WatchView,
    message: MessageView,
    phrases: Seq<Seq<char>>,
) -> StepView {
    idle(
        WatchView {
            user_checks: state.user_checks + statuses_of(message, phrases),
            ..state
        },
    )
}

/// The work on a message once it is known which phrases it holds: a report is read,
/// what is overdue is dropped, and the phrases are remembered.
pub open spec fn settle_step(
    state: WatchView,
    message: MessageView,
    phrases: Seq<Seq<char>>,
) -> StepView {
    let reported = report_step(state, message);
    let expired = expire_step(reported.state, message.timestamp);
    let remembered = remember_step(expired.state, message, phrases);
    and_next(reported, and_next(expired, remembered))
}

/// The work on a message once a command in it is carried out: the phrases that it
/// holds are found, and then it is settled.
pub open spec fn watch_step(state: WatchView, message: MessageView) -> StepView {
    match hits(state.phrases, message) {
        Ok(phrases) => settle_step(state, message, phrases),
        Err(fault) => broken(state, fault),
    }
}

/// All the work on a message.
pub open spec fn message_step(state: WatchView, message: MessageView) -> StepView {
    let commanded = command_step(state, message);
    and_next(commanded, watch_step(commanded.state, message))
}

/// Joins the outcome of one piece of work and that of the next.
fn join(first: Outcome, second: Outcome) -> (joined: Outcome)
    requires
        first.fault is None,
    ensures
        joined@.actions == first@.actions + second@.actions,
        joined@.fault == second@.fault,
{
    let mut actions = first.actions;
    let mut more = second.actions;
    let ghost before = actions@;
    let ghost added = more@;
    actions.append(&mut more);
    assert(action_views(actions@) == action_views(before) + action_views(added));
    Outcome { actions, fault: second.fault }
}

impl Watch {
    /// Remembers the phrases that a message held.
    pub fn remember(&mut self, msg: &Message, phrases: &Vec<String>)
        ensures
            final(self)@ == remember_step(old(self)@, msg@, texts(phrases@)).state,
    {
        let mut i: usize = 0;
        let ghost list = texts(phrases@);
        assert(statuses_of(msg@, list.take(0)) == Seq::<StatusView>::empty());
        assert(self@.user_checks == self@.user_checks + Seq::<StatusView>::empty());
        while i < phrases.len()
            invariant
                list == texts(phrases@),
                i <= phrases.len(),
                self@.phrases == old(self)@.phrases,
                self@.ignored == old(self)@.ignored,
                self@.user_checks == old(self)@.user_checks + statuses_of(
                    msg@,
                    list.take(i as int),
                ),
            decreases phrases.len() - i,
        {
            push_status(&mut self.user_checks, msg, phrases[i].clone());
            assert(statuses_of(msg@, list.take(i + 1)) == statuses_of(
                msg@,
                list.take(i as int),
            ).push(status_of(msg@, list[i as int])));
            i = i + 1;
        }
        assert(list.take(i as int) == list);
    }

    /// Settles a message once it is known which phrases it holds.
    pub fn settle(&mut self, msg: &Message, phrases: &Vec<String>) -> (outcome: Outcome)
        ensures
            reached(*final(self), outcome) == settle_step(old(self)@, msg@, texts(phrases@)),
    {
        let reported = self.read_report(msg);
        if reported.fault.is_some() {
            return reported;
        }
        let expired = self.expire(msg.timestamp);
        if expired.fault.is_some() {
            return join(reported, expired);
        }
        self.remember(msg, phrases);
        join(reported, expired)
    }

    /// Does all the work on a message.
    ///
    /// The changes in the outcome are to be made in their order, those before a fault
    /// included; after a fault nothing more is to be handed to this `Watch`.
    pub fn handle_message(&mut self, msg: &Message) -> (outcome: Outcome)
        ensures
            reached(*final(self), outcome) == message_step(old(self)@, msg@),
    {
        let commanded = self.run_command(msg);
        if commanded.fault.is_some() {
            return commanded;
        }
        match find_hits(&self.phrases, msg) {
            Ok(phrases) => {
                let settled = self.settle(msg, &phrases);
                join(commanded, settled)
            },
            Err(fault) => Outcome { actions: commanded.actions, fault: Some(fault) },
        }
    }
}

} // verus!
