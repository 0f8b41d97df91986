//! What the companion makes of what the chat server sends.

use crate::model::Fault;
use crate::text::{find_char, parted, same_text, split_once};
use vstd::prelude::*;

verus! {

/// The status by which a server agrees to speak the websocket protocol.
pub const SWITCHING_PROTOCOLS: u16 = 101;

/// A websocket message.
#[derive(Debug)]
pub enum Frame {
    /// A text.
    Text(String),
    /// A ping with its payload.
    Ping(Vec<u8>),
    /// The end of the connection.
    Close,
    /// Anything else.
    Other,
}

/// What a frame calls for.
#[derive(Debug)]
pub enum Reaction {
    /// Nothing.
    Ignore,
    /// A chat message came in; this is its JSON.
    Message(String),
    /// A pong with this payload is due.
    Pong(Vec<u8>),
}

/// What a [`Frame`] stands for.
#[verifier::ext_equal]
pub enum FrameView {
    Text(Seq<char>),
    Ping(Seq<u8>),
    Close,
    Other,
}

impl View for Frame {
    type V = FrameView;

    open spec fn view(&self) -> FrameView {
        match self {
            Frame::Text(text) => FrameView::Text(text@),
            Frame::Ping(payload) => FrameView::Ping(payload@),
            Frame::Close => FrameView::Close,
            Frame::Other => FrameView::Other,
        }
    }
}

/// What a [`Reaction`] stands for.
#[verifier::ext_equal]
pub enum ReactionView {
    Ignore,
    Message(Seq<char>),
    Pong(Seq<u8>),
}

impl View for Reaction {
    type V = ReactionView;

    open spec fn view(&self) -> ReactionView {
        match self {
            Reaction::Ignore => ReactionView::Ignore,
            Reaction::Message(json) => ReactionView::Message(json@),
            Reaction::Pong(payload) => ReactionView::Pong(payload@),
        }
    }
}

/// What a frame calls for. A text is the name of an event, a space, and the JSON of
/// the event; chat messages are the events named `MSG`, and no others matter. A text
/// without a space is a fault, and so is the end of the connection.
pub open spec fn reaction_to(frame: FrameView) -> Result<ReactionView, Fault> {
    match frame {
        FrameView::Text(text) => match parted(text) {
            Some((name, json)) => if name == "MSG"@ {
                Ok(ReactionView::Message(json))
            } else {
                Ok(ReactionView::Ignore)
            },
            None => Err(Fault::NoSpace),
        },
        FrameView::Ping(payload) => Ok(ReactionView::Pong(payload)),
        FrameView::Close => Err(Fault::ServerClosed),
        FrameView::Other => Ok(ReactionView::Ignore),
    }
}

/// What a reaction that may be missing stands for.
pub open spec fn reaction_view(reaction: Result<Reaction, Fault>) -> Result<ReactionView, Fault> {
    match reaction {
        Ok(reaction) => Ok(reaction@),
        Err(fault) => Err(fault),
    }
}

/// Tells what a frame calls for.
pub fn react(frame: Frame) -> (reaction: Result<Reaction, Fault>)
    ensures
        reaction_view(reaction) == reaction_to(frame@),
{
    match frame {
        Frame::Text(text) => {
            if find_char(text.as_str(), ' ').is_none() {
                return Err(Fault::NoSpace);
            }
            proof {
                text@.index_of_first_ensures(' ');
            }
            let (name, json) = split_once(text.as_str());
            if same_text(name, "MSG") {
                Ok(Reaction::Message(json.to_owned()))
            } else {
                Ok(Reaction::Ignore)
            }
        },
        Frame::Ping(payload) => Ok(Reaction::Pong(payload)),
        Frame::Close => Err(Fault::ServerClosed),
        Frame::Other => Ok(Reaction::Ignore),
    }
}

/// What comes of waiting for a frame.
#[derive(Debug)]
pub struct Receipt {
    /// Whether the watchdog is to be told that the connection is alive.
    pub signal: bool,
    /// What the frame calls for, or the fault that ends the connection.
    pub reaction: Result<Reaction, Fault>,
}

/// What a [`Receipt`] stands for.
#[verifier::ext_equal]
pub struct ReceiptView {
    pub signal: bool,
    pub reaction: Result<ReactionView, Fault>,
}

impl View for Receipt {
    type V = ReceiptView;

    open spec fn view(&self) -> ReceiptView {
        ReceiptView { signal: self.signal, reaction: reaction_view(self.reaction) }
    }
}

/// What a frame that may have arrived stands for.
pub open spec fn arrival_view(arrival: Option<Frame>) -> Option<FrameView> {
    match arrival {
        Some(frame) => Some(frame@),
        None => None,
    }
}

/// What comes of waiting for a frame; `None` is one that could not be read. The watchdog
/// is told of every frame that was read, whatever it calls for, and of no other.
pub open spec fn receipt_for(arrival: Option<FrameView>) -> ReceiptView {
    match arrival {
        Some(frame) => ReceiptView { signal: true, reaction: reaction_to(frame) },
        None => ReceiptView { signal: false, reaction: Err(Fault::ReadFailed) },
    }
}

/// Tells what comes of waiting for a frame; `None` is one that could not be read.
pub fn receive(arrival: Option<Frame>) -> (receipt: Receipt)
    ensures
        receipt@ == receipt_for(arrival_view(arrival)),
{
    match arrival {
        Some(frame) => Receipt { signal: true, reaction: react(frame) },
        None => Receipt { signal: false, reaction: Err(Fault::ReadFailed) },
    }
}

/// Tells whether a connection may be used, given the status that the server answered
/// the handshake with.
pub fn check_handshake(status: u16) -> (usable: Result<(), Fault>)
    ensures
        usable == if status == SWITCHING_PROTOCOLS {
            Ok::<(), Fault>(())
        } else {
            Err(Fault::HandshakeRefused)
        },
{
    if status == SWITCHING_PROTOCOLS {
        Ok(())
    } else {
        Err(Fault::HandshakeRefused)
    }
}

} // verus!
