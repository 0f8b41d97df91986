//! The values that the companion works on, and the texts and numbers they stand for.

use crate::text::texts;
use vstd::prelude::*;

verus! {

/// A chat message.
#[derive(Debug)]
pub struct Message {
    /// What was said.
    pub data: String,
    /// Who said it.
    pub nick: String,
    /// The roles and badges of who said it.
    pub features: Vec<String>,
    /// When it was said, in milliseconds since 1970.
    pub timestamp: i64,
}

/// What a [`Message`] stands for.
#[verifier::ext_equal]
pub struct MessageView {
    pub data: Seq<char>,
    pub nick: Seq<char>,
    pub features: Seq<Seq<char>>,
    pub timestamp: i64,
}

impl View for Message {
    type V = MessageView;

    open spec fn view(&self) -> MessageView {
        MessageView {
            data: self.data@,
            nick: self.nick@,
            features: texts(self.features@),
            timestamp: self.timestamp,
        }
    }
}

/// A banned phrase that somebody said and has not been punished for so far.
#[derive(Debug, PartialEq)]
pub struct Status {
    /// Who said it.
    pub nick: String,
    /// The phrase, in lower case.
    pub data: String,
    /// When it was said, in milliseconds since 1970.
    pub timestamp: i64,
}

/// What a [`Status`] stands for.
#[verifier::ext_equal]
pub struct StatusView {
    pub nick: Seq<char>,
    pub data: Seq<char>,
    pub timestamp: i64,
}

impl View for Status {
    type V = StatusView;

    open spec fn view(&self) -> StatusView {
        StatusView { nick: self.nick@, data: self.data@, timestamp: self.timestamp }
    }
}

/// What a list of statuses stands for.
pub open spec fn status_views(list: Seq<Status>) -> Seq<StatusView> {
    list.map_values(|s: Status| s@)
}

/// The punishment that a phrase earns.
#[derive(Debug, Clone, Copy, PartialEq, Eq, Structural)]
pub enum PhraseKind {
    Ban,
    Mute,
}

impl PhraseKind {
    /// The word for a punishment in the phrase table.
    pub open spec fn word(self) -> Seq<char> {
        match self {
            PhraseKind::Ban => "ban"@,
            PhraseKind::Mute => "mute"@,
        }
    }

    /// Gives the word for a punishment in the phrase table.
    pub fn to_word(self) -> (word: String)
        ensures
            word@ == self.word(),
    {
        match self {
            PhraseKind::Ban => "ban".to_owned(),
            PhraseKind::Mute => "mute".to_owned(),
        }
    }
}

/// A row for the phrase table.
#[derive(Debug, PartialEq)]
pub struct Insertion {
    /// When the phrase was added, in milliseconds since 1970.
    pub time_ms: i64,
    /// Who added it.
    pub username: String,
    pub phrase: String,
    /// How long the punishment lasts, such as `10m`.
    pub duration: String,
    /// The word for the punishment.
    pub kind: String,
}

/// What an [`Insertion`] stands for.
#[verifier::ext_equal]
pub struct InsertionView {
    pub time_ms: i64,
    pub username: Seq<char>,
    pub phrase: Seq<char>,
    pub duration: Seq<char>,
    pub kind: Seq<char>,
}

impl View for Insertion {
    type V = InsertionView;

    open spec fn view(&self) -> InsertionView {
        InsertionView {
            time_ms: self.time_ms,
            username: self.username@,
            phrase: self.phrase@,
            duration: self.duration@,
            kind: self.kind@,
        }
    }
}

/// A change to the phrase table.
#[derive(Debug, PartialEq)]
pub enum Action {
    /// Insert this row.
    Insert(Insertion),
    /// Delete the rows that hold this phrase.
    Delete(String),
}

/// What an [`Action`] stands for.
#[verifier::ext_equal]
pub enum ActionView {
    Insert(InsertionView),
    Delete(Seq<char>),
}

impl View for Action {
    type V = ActionView;

    open spec fn view(&self) -> ActionView {
        match self {
            Action::Insert(row) => ActionView::Insert(row@),
            Action::Delete(phrase) => ActionView::Delete(phrase@),
        }
    }
}

/// What a list of actions stands for.
pub open spec fn action_views(list: Seq<Action>) -> Seq<ActionView> {
    list.map_values(|a: Action| a@)
}

/// Why the connection has to be given up and made anew.
#[derive(Debug, Clone, Copy, PartialEq, Eq, Structural)]
pub enum Fault {
    /// The server did not agree to speak the websocket protocol.
    HandshakeRefused,
    /// The connection failed before a frame could be read from it.
    ReadFailed,
    /// The server closed the connection.
    ServerClosed,
    /// A text that ought to have a space in it has none.
    NoSpace,
    /// A pattern does not compile.
    BadPattern,
    /// A moment lies too close to the end of time to add a delay to it.
    ClockOverflow,
    /// A date is not written as RFC 3339 asks.
    BadDate,
}

/// What came of an event: the changes that the phrase table is to see, in their
/// order, and the fault that cut the work short behind them, if one did.
#[derive(Debug, PartialEq)]
pub struct Outcome {
    pub actions: Vec<Action>,
    pub fault: Option<Fault>,
}

/// What an [`Outcome`] stands for.
#[verifier::ext_equal]
pub struct OutcomeView {
    pub actions: Seq<ActionView>,
    pub fault: Option<Fault>,
}

impl View for Outcome {
    type V = OutcomeView;

    open spec fn view(&self) -> OutcomeView {
        OutcomeView { actions: action_views(self.actions@), fault: self.fault }
    }
}

} // verus!
