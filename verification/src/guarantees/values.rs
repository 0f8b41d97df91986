//! What the values of the library stand for: nothing is added to them, and nothing of them
//! is left out.

use crate::hits::texts_or_fault;
use crate::intake::{
    arrival_view, reaction_view, Frame, FrameView, Reaction, ReactionView, Receipt,
};
use crate::model::{
    action_views, status_views, Action, ActionView, Fault, Insertion, Message, Outcome, Status,
};
use crate::pattern::{found_texts, group_texts};
use crate::seed::{MitchEntry, MitchRequest};
use crate::text::texts;
use crate::watch::{reached, Watch};
use vstd::prelude::*;

verus! {

/// A list of strings stands for the text of each, in their order.
pub proof fn law_texts(list: Seq<String>)
    ensures
        texts(list).len() == list.len(),
        forall|i: int| 0 <= i < list.len() ==> #[trigger] texts(list)[i] == list[i]@,
{
}

/// A message stands for its fields.
pub proof fn law_message_fields(message: Message)
    ensures
        message@.data == message.data@,
        message@.nick == message.nick@,
        message@.timestamp == message.timestamp,
        message@.features.len() == message.features@.len(),
        forall|i: int|
            0 <= i < message.features@.len() ==> #[trigger] message@.features[i]
                == message.features@[i]@,
{
}

/// A status stands for its fields, and a list of statuses for each of them, in their order.
pub proof fn law_status_fields(status: Status, list: Seq<Status>)
    ensures
        status@.nick == status.nick@,
        status@.data == status.data@,
        status@.timestamp == status.timestamp,
        status_views(list).len() == list.len(),
        forall|i: int| 0 <= i < list.len() ==> #[trigger] status_views(list)[i] == list[i]@,
{
}

/// A row stands for its fields.
pub proof fn law_row_fields(row: Insertion)
    ensures
        row@.time_ms == row.time_ms,
        row@.username == row.username@,
        row@.phrase == row.phrase@,
        row@.duration == row.duration@,
        row@.kind == row.kind@,
{
}

/// An action stands for the insertion of its row or the deletion of its phrase, and a list
/// of actions for each of them, in their order.
pub proof fn law_actions(row: Insertion, phrase: String, list: Seq<Action>)
    ensures
        Action::Insert(row)@ == ActionView::Insert(row@),
        Action::Delete(phrase)@ == ActionView::Delete(phrase@),
        action_views(list).len() == list.len(),
        forall|i: int| 0 <= i < list.len() ==> #[trigger] action_views(list)[i] == list[i]@,
{
}

/// What is remembered stands for its fields, and what was reached for what is remembered,
/// the actions and the fault.
pub proof fn law_reached(watch: Watch, outcome: Outcome)
    ensures
        watch@.phrases == texts(watch.phrases@),
        watch@.user_checks == status_views(watch.user_checks@),
        watch@.ignored == texts(watch.ignored@),
        outcome@.actions == action_views(outcome.actions@),
        outcome@.fault == outcome.fault,
        reached(watch, outcome).state == watch@,
        reached(watch, outcome).actions == action_views(outcome.actions@),
        reached(watch, outcome).fault == outcome.fault,
{
}

/// An entry stands for its fields, and the public list for each entry, in their order.
pub proof fn law_entry_fields(entry: MitchEntry, request: MitchRequest)
    ensures
        entry@.duration == entry.duration@,
        entry@.phrase == entry.phrase@,
        entry@.time_date == entry.time_date@,
        entry@.phrase_type == entry.phrase_type@,
        entry@.username == entry.username@,
        request@.len() == request.list@.len(),
        forall|i: int| 0 <= i < request.list@.len() ==> #[trigger] request@[i] == request.list@[i]@,
{
}

/// A frame stands for its kind and what it carries, and so does what it calls for.
pub proof fn law_frames(text: String, payload: Vec<u8>, frame: Frame, receipt: Receipt, fault: Fault)
    ensures
        Frame::Text(text)@ == FrameView::Text(text@),
        Frame::Ping(payload)@ == FrameView::Ping(payload@),
        Frame::Close@ == FrameView::Close,
        Frame::Other@ == FrameView::Other,
        Reaction::Ignore@ == ReactionView::Ignore,
        Reaction::Message(text)@ == ReactionView::Message(text@),
        Reaction::Pong(payload)@ == ReactionView::Pong(payload@),
        reaction_view(Ok(Reaction::Message(text))) == Ok::<ReactionView, Fault>(
            ReactionView::Message(text@),
        ),
        reaction_view(Ok(Reaction::Pong(payload))) == Ok::<ReactionView, Fault>(
            ReactionView::Pong(payload@),
        ),
        reaction_view(Ok(Reaction::Ignore)) == Ok::<ReactionView, Fault>(ReactionView::Ignore),
        reaction_view(Err(fault)) == Err::<ReactionView, Fault>(fault),
        receipt@.signal == receipt.signal,
        receipt@.reaction == reaction_view(receipt.reaction),
        arrival_view(Some(frame)) == Some(frame@),
        arrival_view(None) is None,
{
}

/// Groups stand for the text of each, where it took part, in their order; and a list that
/// may be missing for its texts, or for the fault that it is missing for.
pub proof fn law_groups_and_lists(
    groups: Vec<Option<String>>,
    list: Vec<String>,
    fault: Fault,
)
    ensures
        group_texts(groups@).len() == groups@.len(),
        forall|i: int|
            0 <= i < groups@.len() ==> ((#[trigger] group_texts(groups@)[i]) is Some
                <==> groups@[i] is Some),
        forall|i: int|
            0 <= i < groups@.len() && groups@[i] is Some ==> (#[trigger] group_texts(groups@)[i])->0
                == groups@[i]->0@,
        found_texts(Some(groups)) == Some(group_texts(groups@)),
        found_texts(None) is None,
        texts_or_fault(Ok(list)) == Ok::<Seq<Seq<char>>, Fault>(texts(list@)),
        texts_or_fault(Err(fault)) == Err::<Seq<Seq<char>>, Fault>(fault),
{
}

} // verus!
