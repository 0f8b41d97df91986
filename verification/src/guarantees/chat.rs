//! What the work on a message, and on what the chat server sends, does as a whole.

use crate::command::command_step;
use crate::hits::hits;
use crate::intake::{reaction_to, receipt_for, FrameView, ReactionView};
use crate::model::{Fault, MessageView, StatusView};
use crate::moderate::{message_step, remember_step, settle_step, statuses_of};
use crate::pattern::report_in;
use crate::report::{about_others, report_step};
use crate::text::lowercase;
use crate::watch::{expire_step, status_of, WatchView};
use vstd::prelude::*;

use super::expiry::law_expiry_fault;
use super::words::law_parting;

verus! {

/// What is remembered of a message that held a phrase: who said it, when, and the phrase
/// in lower case.
pub proof fn law_status(message: MessageView, phrase: Seq<char>)
    ensures
        status_of(message, phrase).nick == message.nick,
        status_of(message, phrase).timestamp == message.timestamp,
        status_of(message, phrase).data == lowercase(phrase),
{
}

/// Remembering puts one status for each phrase behind those that are there, in the order
/// of the phrases, and keeps all else.
pub proof fn law_remembering(state: WatchView, message: MessageView, phrases: Seq<Seq<char>>)
    ensures
        ({
            let step = remember_step(state, message, phrases);
            let before = state.user_checks.len();
            &&& step.fault is None
            &&& step.actions.len() == 0
            &&& step.state.phrases == state.phrases
            &&& step.state.ignored == state.ignored
            &&& step.state.user_checks.len() == before + phrases.len()
            &&& step.state.user_checks.take(before as int) == state.user_checks
            &&& forall|i: int|
                0 <= i < phrases.len() ==> #[trigger] step.state.user_checks[before + i] == (
                StatusView {
                    nick: message.nick,
                    data: lowercase(phrases[i]),
                    timestamp: message.timestamp,
                })
        }),
{
    assert((state.user_checks + statuses_of(message, phrases)).take(
        state.user_checks.len() as int,
    ) == state.user_checks);
}

/// Settling a message whose phrases are known: first a report is read, then what is
/// overdue at the time of the message is dropped, and last the phrases are remembered. A
/// fault in dropping ends it there.
pub proof fn law_settling(state: WatchView, message: MessageView, phrases: Seq<Seq<char>>)
    ensures
        ({
            let step = settle_step(state, message, phrases);
            let reported = report_step(state, message);
            let expired = expire_step(reported.state, message.timestamp);
            &&& reported.fault is None
            &&& step.actions == reported.actions + expired.actions
            &&& step.fault == expired.fault
            &&& expired.fault is Some ==> step.state == expired.state
            &&& expired.fault is None ==> step.state == (WatchView {
                phrases: expired.state.phrases,
                ignored: state.ignored,
                user_checks: expired.state.user_checks + phrases.map_values(
                    |phrase: Seq<char>|
                        StatusView {
                            nick: message.nick,
                            data: lowercase(phrase),
                            timestamp: message.timestamp,
                        },
                ),
            })
        }),
{
    let reported = report_step(state, message);
    let expired = expire_step(reported.state, message.timestamp);
    assert(statuses_of(message, phrases) == phrases.map_values(
        |phrase: Seq<char>|
            StatusView {
                nick: message.nick,
                data: lowercase(phrase),
                timestamp: message.timestamp,
            },
    ));
    assert(settle_step(state, message, phrases).actions == reported.actions + expired.actions);
}

/// All the work on a message: first a command is carried out; then phrases are looked for
/// on the list as the command left it; then a report is read; then what is overdue at the
/// time of the message is dropped; and last the phrases that were found are remembered. A
/// fault ends the work where it comes, and what was done before it stands.
pub proof fn law_message(state: WatchView, message: MessageView)
    ensures
        ({
            let step = message_step(state, message);
            let commanded = command_step(state, message);
            let found = hits(commanded.state.phrases, message);
            let reported = report_step(commanded.state, message);
            let expired = expire_step(reported.state, message.timestamp);
            if commanded.fault is Some {
                step == commanded
            } else if found is Err {
                &&& step.state == commanded.state
                &&& step.actions == commanded.actions
                &&& step.fault == Some(Fault::BadPattern)
            } else {
                &&& step.actions == commanded.actions + reported.actions + expired.actions
                &&& step.fault == expired.fault
                &&& expired.fault is Some ==> step.state == expired.state
                &&& expired.fault is None ==> step.state == (WatchView {
                    phrases: expired.state.phrases,
                    ignored: state.ignored,
                    user_checks: expired.state.user_checks + found->Ok_0.map_values(
                        |phrase: Seq<char>|
                            StatusView {
                                nick: message.nick,
                                data: lowercase(phrase),
                                timestamp: message.timestamp,
                            },
                    ),
                })
            }
        }),
{
    let commanded = command_step(state, message);
    if let Ok(found) = hits(commanded.state.phrases, message) {
        let reported = report_step(commanded.state, message);
        let expired = expire_step(reported.state, message.timestamp);
        law_settling(commanded.state, message, found);
        assert(commanded.actions + (reported.actions + expired.actions) == commanded.actions
            + reported.actions + expired.actions);
    } else {
        assert(message_step(state, message).actions == commanded.actions);
    }
}

/// No command, no report and no message changes the phrases to ignore, and no command and
/// no report brings in a status.
pub proof fn law_what_commands_leave_alone(state: WatchView, message: MessageView)
    ensures
        command_step(state, message).state.user_checks == state.user_checks,
        command_step(state, message).state.ignored == state.ignored,
        report_step(state, message).state.ignored == state.ignored,
        report_step(state, message).state.user_checks.len() <= state.user_checks.len(),
        message_step(state, message).state.ignored == state.ignored,
{
    if let Some(report) = report_in(message.data) {
        state.user_checks.lemma_filter_len(about_others(report.nick));
    }
}

/// The work on a message ends in the fault of the clock only if ten seconds after some
/// remembered moment can no longer be written: with the times of real messages, never.
pub proof fn law_clock_fault_of_a_message(state: WatchView, message: MessageView)
    requires
        forall|i: int|
            0 <= i < state.user_checks.len() ==> (#[trigger] state.user_checks[i]).timestamp
                <= i64::MAX - 10000,
    ensures
        message_step(state, message).fault != Some(Fault::ClockOverflow),
{
    law_message(state, message);
    let commanded = command_step(state, message);
    let reported = report_step(commanded.state, message);
    assert(commanded.state.user_checks == state.user_checks);
    assert forall|i: int| 0 <= i < reported.state.user_checks.len() implies (
    #[trigger] reported.state.user_checks[i]).timestamp <= i64::MAX - 10000 by {
        let status = reported.state.user_checks[i];
        assert(reported.state.user_checks.contains(status));
        if let Some(report) = report_in(message.data) {
            if message.nick == "Bot"@ {
                state.user_checks.lemma_filter_contains_rev(
                    about_others(report.nick),
                    status,
                );
            }
        }
        let j = choose|j: int| 0 <= j < state.user_checks.len() && state.user_checks[j] == status;
        assert(state.user_checks[j].timestamp <= i64::MAX - 10000);
    }
    law_expiry_fault(reported.state, message.timestamp);
}

/// A text is the name of an event, a space and the JSON of the event. An event named `MSG`
/// is a chat message and its JSON is passed on; any other is ignored; and a text without a
/// space is a fault.
pub proof fn law_text_frame(name: Seq<char>, json: Seq<char>, other: Seq<char>)
    requires
        !name.contains(' '),
        !other.contains(' '),
    ensures
        reaction_to(FrameView::Text(name + seq![' '] + json)) == if name == "MSG"@ {
            Ok::<ReactionView, Fault>(ReactionView::Message(json))
        } else {
            Ok(ReactionView::Ignore)
        },
        reaction_to(FrameView::Text(other)) == Err::<ReactionView, Fault>(Fault::NoSpace),
{
    law_parting(name + seq![' '] + json, name, json);
    law_parting(other, other, other);
}

/// A ping calls for a pong with its payload, the end of the connection is a fault, and any
/// other frame is ignored.
pub proof fn law_other_frames(payload: Seq<u8>)
    ensures
        reaction_to(FrameView::Ping(payload)) == Ok::<ReactionView, Fault>(
            ReactionView::Pong(payload),
        ),
        reaction_to(FrameView::Close) == Err::<ReactionView, Fault>(Fault::ServerClosed),
        reaction_to(FrameView::Other) == Ok::<ReactionView, Fault>(ReactionView::Ignore),
{
}

/// The watchdog is told of a frame exactly if it was read, and a frame that was not read is
/// a fault; otherwise what the frame calls for is not changed on the way.
pub proof fn law_receipt(arrival: Option<FrameView>)
    ensures
        receipt_for(arrival).signal <==> arrival is Some,
        arrival is Some ==> receipt_for(arrival).reaction == reaction_to(arrival->0),
        arrival is None ==> receipt_for(arrival).reaction == Err::<ReactionView, Fault>(
            Fault::ReadFailed,
        ),
{
}

} // verus!
