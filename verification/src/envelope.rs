//! Envelopes: a message together with the signature of its sender, by
//! which the receiver knows who sent it and where an answer goes.

use crate::broadcast::Sender;
use crate::id::{nil_id, QuipId};
use crate::message::{Msg, Payload, QuipMessage};
use crate::path::{share, well_formed, QuipPath, QuipPathElement};
use std::sync::Arc;
use vstd::prelude::*;

verus! {

/// The chain of the dead-letters group: the root supervisor, then the
/// group, both with the reserved identifier.
pub open spec fn dead_letters_chain() -> Seq<QuipPathElement> {
    seq![QuipPathElement::Supervisor(nil_id()), QuipPathElement::Children(nil_id())]
}

/// A message of the runtime or of a user, signed by its sender.
#[derive(Debug)]
pub struct Envelope {
    pub msg: QuipMessage,
    pub sign: RefAddr,
}

/// A user's message, signed by its sender.
#[derive(Debug, PartialEq, Eq)]
pub struct SignedMessage {
    pub msg: Msg,
    pub sign: RefAddr,
}

/// A signature: the path of a sender and the sending half of its mailbox.
#[derive(Debug, PartialEq, Eq)]
pub struct RefAddr {
    pub path: Arc<QuipPath>,
    pub sender: Sender,
}

impl Clone for RefAddr {
    fn clone(&self) -> (copy: Self)
        ensures
            copy == *self,
    {
        RefAddr { path: share(&self.path), sender: self.sender.clone() }
    }
}

impl SignedMessage {
    /// A message with its signature.
    pub fn new(msg: Msg, sign: RefAddr) -> (signed: Self)
        ensures
            signed == (SignedMessage { msg, sign }),
    {
        SignedMessage { msg, sign }
    }

    /// The message and its signature, taken apart.
    pub fn extract(self) -> (parts: (Msg, RefAddr))
        ensures
            parts == (self.msg, self.sign),
    {
        (self.msg, self.sign)
    }

    /// The signature of the sender.
    pub fn signature(&self) -> (sign: &RefAddr)
        ensures
            *sign == self.sign,
    {
        &self.sign
    }
}

impl RefAddr {
    /// Whether this is the signature of the dead-letters group, which
    /// messages carry that were sent from outside the system.
    pub open spec fn is_dead_letters_group(&self) -> bool {
        self.path@ == dead_letters_chain() && self.sender.target@ == dead_letters_chain()
    }

    /// A signature made of a path and a sender.
    pub fn new(path: Arc<QuipPath>, sender: Sender) -> (addr: Self)
        ensures
            addr == (RefAddr { path, sender }),
    {
        RefAddr { path, sender }
    }

    /// The signature of the dead-letters group.
    pub fn dead_letters() -> (addr: Self)
        ensures
            addr.is_dead_letters_group(),
    {
        let root = QuipPath::root();
        let sv = match root.append(QuipPathElement::Supervisor(QuipId::nil())) {
            Ok(path) => path,
            Err(e) => e.into_path(),
        };
        let group = match sv.append(QuipPathElement::Children(QuipId::nil())) {
            Ok(path) => path,
            Err(e) => e.into_path(),
        };
        assert(group@ == dead_letters_chain());
        let path = Arc::new(group);
        RefAddr { path: share(&path), sender: Sender::new(path) }
    }

    /// Whether the path of the sender is that of a child of the
    /// dead-letters group.
    pub fn is_sender_identified(&self) -> (b: bool)
        ensures
            b == (self.path@.len() == 3 && self.path@[0] == QuipPathElement::Supervisor(nil_id())
                && self.path@[1] == QuipPathElement::Children(nil_id()) && self.path@[2] is Child),
    {
        self.path.is_dead_letters()
    }

    /// The path of the sender. Like every path it is well-formed.
    pub fn path(&self) -> (path: &Arc<QuipPath>)
        ensures
            *path == self.path,
            well_formed(path@),
    {
        let _ = self.path.elem();
        &self.path
    }

    /// The sending half of the sender's mailbox.
    pub fn sender(&self) -> (sender: &Sender)
        ensures
            *sender == self.sender,
    {
        &self.sender
    }
}

impl Envelope {
    /// An envelope signed with a path and a sender.
    pub fn new(msg: QuipMessage, path: Arc<QuipPath>, sender: Sender) -> (env: Self)
        ensures
            env == (Envelope { msg, sign: RefAddr { path, sender } }),
    {
        Envelope { msg, sign: RefAddr::new(path, sender) }
    }

    /// An envelope signed with a signature.
    pub fn new_with_sign(msg: QuipMessage, sign: RefAddr) -> (env: Self)
        ensures
            env == (Envelope { msg, sign }),
    {
        Envelope { msg, sign }
    }

    /// An envelope signed by the dead-letters group: one sent from outside
    /// the system.
    pub fn from_dead_letters(msg: QuipMessage) -> (env: Self)
        ensures
            env.msg == msg,
            env.sign.is_dead_letters_group(),
    {
        Envelope { msg, sign: RefAddr::dead_letters() }
    }

    /// A copy of the envelope, where its message may be copied.
    pub fn try_clone(&self) -> (copy: Option<Self>)
        ensures
            copy == if self.msg.cloneable() {
                Some(*self)
            } else {
                None
            },
    {
        match self.msg.try_clone() {
            Some(msg) => Some(Envelope { msg, sign: self.sign.clone() }),
            None => None,
        }
    }

    /// The user's message, if the envelope carried one.
    pub fn into_msg(self) -> (msg: Option<Payload>)
        ensures
            msg == match self.msg {
                QuipMessage::Message(m) => Some(m.payload()),
                _ => None,
            },
    {
        self.msg.into_msg()
    }
}

} // verus!
