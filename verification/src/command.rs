//! The commands by which moderators keep the list of phrases.

use crate::hits::{can_command, may_command};
use crate::model::{
    action_views, Action, ActionView, Fault, Insertion, InsertionView, Message, MessageView,
    Outcome, PhraseKind,
};
use crate::pattern::{
    duration_end, first_line, group_or_empty, group_text, group_texts, phrase_start,
    read_add_arguments, read_delete_argument,
};
use crate::text::{
    find_char, has_white, has_whitespace, lowercase, parted, same_text, split_once,
};
use crate::watch::{
    break_off, broken, do_nothing, idle, reached, record_step, StepView, Watch, WatchView,
};
use vstd::prelude::*;

verus! {

/// What a command asks for.
#[derive(Debug, Clone, Copy, PartialEq, Eq, Structural)]
pub enum Command {
    /// Add a phrase.
    Add(PhraseKind),
    /// Delete a phrase.
    Delete,
}

/// The command that a word stands for.
pub open spec fn command_of(word: Seq<char>) -> Option<Command> {
    if word == "!addban"@ {
        Some(Command::Add(PhraseKind::Ban))
    } else if word == "!addmute"@ {
        Some(Command::Add(PhraseKind::Mute))
    } else if word == "!deleteban"@ || word == "!dban"@ || word == "!deletemute"@ || word
        == "!dmute"@ {
        Some(Command::Delete)
    } else {
        None
    }
}

/// The duration that goes with a phrase: the first group, or ten minutes.
pub open spec fn duration_of(groups: Seq<Option<Seq<char>>>) -> Seq<char> {
    let given = group_or_empty(groups, 1);
    if given.len() == 0 {
        "10m"@
    } else {
        given
    }
}

/// The row that a command adds.
pub open spec fn added_row(
    message: MessageView,
    kind: PhraseKind,
    duration: Seq<char>,
    phrase: Seq<char>,
) -> InsertionView {
    InsertionView {
        time_ms: message.timestamp,
        username: message.nick,
        phrase,
        duration,
        kind: kind.word(),
    }
}

/// The duration that the arguments of a command give: what they begin with, or ten
/// minutes.
pub open spec fn duration_in(arguments: Seq<char>) -> Seq<char> {
    if duration_end(arguments) > 0 {
        arguments.take(duration_end(arguments))
    } else {
        "10m"@
    }
}

/// The phrase that the arguments of a command give: the rest of the line behind the
/// duration.
pub open spec fn phrase_in(arguments: Seq<char>) -> Seq<char> {
    first_line(arguments.skip(phrase_start(arguments)))
}

/// Deleting a phrase that may be on the list.
pub open spec fn retract_step(state: WatchView, phrase: Seq<char>) -> StepView {
    if state.phrases.contains(phrase) {
        StepView {
            state: WatchView { phrases: state.phrases.remove_value(phrase), ..state },
            actions: seq![ActionView::Delete(phrase)],
            fault: None,
        }
    } else {
        idle(state)
    }
}

/// Carrying out a command. A phrase is added or deleted in lower case.
pub open spec fn obey_step(
    state: WatchView,
    message: MessageView,
    word: Seq<char>,
    arguments: Seq<char>,
) -> StepView {
    match command_of(word) {
        Some(Command::Add(kind)) => record_step(
            state,
            added_row(message, kind, duration_in(arguments), lowercase(phrase_in(arguments))),
        ),
        Some(Command::Delete) => retract_step(state, lowercase(first_line(arguments))),
        None => idle(state),
    }
}

/// Looking for a command in a message and carrying it out. Only what admins and
/// moderators say is looked at, and only if there is white space in it. White space
/// without a space among it is a fault.
pub open spec fn command_step(state: WatchView, message: MessageView) -> StepView {
    if has_white(message.data) && may_command(message) {
        match parted(message.data) {
            Some((word, arguments)) => obey_step(state, message, word, arguments),
            None => broken(state, Fault::NoSpace),
        }
    } else {
        idle(state)
    }
}

/// Gives the command that a word stands for.
pub fn read_command(word: &str) -> (command: Option<Command>)
    ensures
        command == command_of(word@),
{
    if same_text(word, "!addban") {
        Some(Command::Add(PhraseKind::Ban))
    } else if same_text(word, "!addmute") {
        Some(Command::Add(PhraseKind::Mute))
    } else if same_text(word, "!deleteban") || same_text(word, "!dban") || same_text(
        word,
        "!deletemute",
    ) || same_text(word, "!dmute") {
        Some(Command::Delete)
    } else {
        None
    }
}

/// Gives the duration that goes with a phrase.
pub fn read_duration(groups: &Vec<Option<String>>) -> (duration: String)
    ensures
        duration@ == duration_of(group_texts(groups@)),
{
    let given = group_text(groups, 1);
    if given.as_str().is_empty() {
        "10m".to_owned()
    } else {
        given
    }
}

impl Watch {
    /// Adds a phrase at the wish of the sender of a message.
    pub fn add_phrase(
        &mut self,
        msg: &Message,
        kind: PhraseKind,
        duration: String,
        phrase: String,
    ) -> (outcome: Outcome)
        ensures
            reached(*final(self), outcome) == record_step(
                old(self)@,
                added_row(msg@, kind, duration@, phrase@),
            ),
    {
        self.record(
            Insertion {
                time_ms: msg.timestamp,
                username: msg.nick.clone(),
                phrase,
                duration,
                kind: kind.to_word(),
            },
        )
    }

    /// Deletes a phrase if it is on the list.
    pub fn retract(&mut self, phrase: String) -> (outcome: Outcome)
        ensures
            reached(*final(self), outcome) == retract_step(old(self)@, phrase@),
    {
        if self.forget(phrase.as_str()) {
            let ghost view = phrase@;
            let mut actions: Vec<Action> = Vec::new();
            actions.push(Action::Delete(phrase));
            assert(action_views(actions@) == seq![ActionView::Delete(view)]);
            Outcome { actions, fault: None }
        } else {
            proof {
                old(self)@.phrases.index_of_first_ensures(phrase@);
            }
            do_nothing()
        }
    }

    /// Carries out a command.
    pub fn obey(&mut self, msg: &Message, word: &str, arguments: &str) -> (outcome: Outcome)
        ensures
            reached(*final(self), outcome) == obey_step(old(self)@, msg@, word@, arguments@),
    {
        match read_command(word) {
            Some(Command::Add(kind)) => {
                let groups = read_add_arguments(arguments);
                let phrase = group_text(&groups, 2).to_lowercase();
                let duration = read_duration(&groups);
                self.add_phrase(msg, kind, duration, phrase)
            },
            Some(Command::Delete) => {
                let groups = read_delete_argument(arguments);
                let phrase = group_text(&groups, 1).to_lowercase();
                self.retract(phrase)
            },
            None => do_nothing(),
        }
    }

    /// Looks for a command in a message and carries it out.
    pub fn run_command(&mut self, msg: &Message) -> (outcome: Outcome)
        ensures
            reached(*final(self), outcome) == command_step(old(self)@, msg@),
    {
        proof {
            msg@.data.index_of_first_ensures(' ');
        }
        let data = msg.data.as_str();
        if has_whitespace(data) && can_command(msg) {
            if find_char(data, ' ').is_none() {
                return break_off(Fault::NoSpace);
            }
            let (word, arguments) = split_once(data);
            self.obey(msg, word, arguments)
        } else {
            do_nothing()
        }
    }
}

} // verus!
