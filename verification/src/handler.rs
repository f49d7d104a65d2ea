//! Matching a received message against what a child knows to handle.

use crate::envelope::{RefAddr, SignedMessage};
use crate::message::{AnswerSender, Msg, Payload};
use vstd::prelude::*;

verus! {

/// A received message on its way through the branches of a handler: not
/// yet taken by any, or taken, with what the branch made of it.
///
/// Each branch names the type of message it takes by the tag of the type.
/// The first branch that fits takes the message; the branches after it do
/// nothing; where none fits the fallback takes it.
pub enum MessageHandler<O> {
    Unmatched(SignedMessage),
    Matched(O),
}

impl<O> MessageHandler<O> {
    /// A handler for the message, not yet taken by any branch.
    pub fn new(msg: SignedMessage) -> (h: Self)
        ensures
            h == MessageHandler::<O>::Unmatched(msg),
    {
        MessageHandler::Unmatched(msg)
    }

    /// Takes a message of the tagged type that was told: `f` gets the
    /// message and the signature of its sender.
    pub fn on_tell<F: FnOnce(Payload, RefAddr) -> O>(self, type_tag: u64, f: F) -> (h: Self)
        requires
            forall|msg: Payload, sign: RefAddr| f.requires((msg, sign)),
        ensures
            match self {
                MessageHandler::Matched(_) => h == self,
                MessageHandler::Unmatched(signed) => match signed.msg {
                    Msg::Tell(msg) if msg.type_tag == type_tag => h is Matched && f.ensures(
                        (msg, signed.sign),
                        h->Matched_0,
                    ),
                    _ => h == self,
                },
            },
    {
        match self {
            MessageHandler::Matched(out) => MessageHandler::Matched(out),
            MessageHandler::Unmatched(signed) => {
                let fits = match &signed.msg {
                    Msg::Tell(msg) => msg.type_tag == type_tag,
                    _ => false,
                };
                if fits {
                    let (msg, sign) = signed.extract();
                    MessageHandler::Matched(f(msg.into_payload(), sign))
                } else {
                    MessageHandler::Unmatched(signed)
                }
            },
        }
    }

    /// Takes a message of the tagged type that was sent to every member
    /// of a group: `f` gets the message and the signature of its sender.
    pub fn on_broadcast<F: FnOnce(Payload, RefAddr) -> O>(self, type_tag: u64, f: F) -> (h: Self)
        requires
            forall|msg: Payload, sign: RefAddr| f.requires((msg, sign)),
        ensures
            match self {
                MessageHandler::Matched(_) => h == self,
                MessageHandler::Unmatched(signed) => match signed.msg {
                    Msg::Broadcast(msg) if msg.type_tag == type_tag => h is Matched && f.ensures(
                        (msg, signed.sign),
                        h->Matched_0,
                    ),
                    _ => h == self,
                },
            },
    {
        match self {
            MessageHandler::Matched(out) => MessageHandler::Matched(out),
            MessageHandler::Unmatched(signed) => {
                let fits = match &signed.msg {
                    Msg::Broadcast(msg) => msg.type_tag == type_tag,
                    _ => false,
                };
                if fits {
                    let (msg, sign) = signed.extract();
                    MessageHandler::Matched(f(msg.into_payload(), sign))
                } else {
                    MessageHandler::Unmatched(signed)
                }
            },
        }
    }

    /// Takes a question of the tagged type: `f` gets the question and the
    /// end on which it is answered.
    pub fn on_question<F: FnOnce(Payload, AnswerSender) -> O>(self, type_tag: u64, f: F) -> (h:
        Self)
        requires
            forall|msg: Payload, sender: AnswerSender| f.requires((msg, sender)),
        ensures
            match self {
                MessageHandler::Matched(_) => h == self,
                MessageHandler::Unmatched(signed) => match signed.msg {
                    Msg::Ask { msg, sender } if msg.type_tag == type_tag => h is Matched
                        && f.ensures((msg, sender), h->Matched_0),
                    _ => h == self,
                },
            },
    {
        match self {
            MessageHandler::Matched(out) => MessageHandler::Matched(out),
            MessageHandler::Unmatched(signed) => {
                let fits = match &signed.msg {
                    Msg::Ask { msg, .. } => msg.type_tag == type_tag,
                    _ => false,
                };
                if fits {
                    let (msg, sign) = signed.extract();
                    match msg {
                        Msg::Ask { msg, sender } => MessageHandler::Matched(f(msg, sender)),
                        other => MessageHandler::Unmatched(SignedMessage::new(other, sign)),
                    }
                } else {
                    MessageHandler::Unmatched(signed)
                }
            },
        }
    }

    /// Ends the handler: what the branch that took the message made of
    /// it, or, where none did, what `f` makes of the message and the
    /// signature of its sender.
    pub fn on_fallback<F: FnOnce(Msg, RefAddr) -> O>(self, f: F) -> (out: O)
        requires
            forall|msg: Msg, sign: RefAddr| f.requires((msg, sign)),
        ensures
            match self {
                MessageHandler::Matched(made) => out == made,
                MessageHandler::Unmatched(signed) => f.ensures((signed.msg, signed.sign), out),
            },
    {
        match self {
            MessageHandler::Matched(out) => out,
            MessageHandler::Unmatched(signed) => {
                let (msg, sign) = signed.extract();
                f(msg, sign)
            },
        }
    }
}

} // verus!
