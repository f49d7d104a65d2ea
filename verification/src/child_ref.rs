//! References to single children.

use crate::broadcast::{Delivery, Sender};
use crate::envelope::{Envelope, RefAddr};
use crate::id::QuipId;
use crate::message::{Answer, Payload, QuipMessage};
use crate::path::{share, QuipPath};
use std::sync::Arc;
use vstd::prelude::*;

verus! {

/// A capability to talk to one child. It owns nothing of the child.
#[derive(Debug)]
pub struct ChildRef {
    pub id: QuipId,
    pub sender: Sender,
    pub name: String,
    pub path: Arc<QuipPath>,
    /// Whether the child receives the messages of users; `false` for the
    /// children the runtime keeps for itself.
    pub is_public: bool,
}

impl Clone for ChildRef {
    fn clone(&self) -> (copy: Self)
        ensures
            copy == *self,
    {
        ChildRef {
            id: self.id,
            sender: self.sender.clone(),
            name: self.name.clone(),
            path: share(&self.path),
            is_public: self.is_public,
        }
    }
}

impl ChildRef {
    /// A reference to a child that the runtime keeps for itself.
    pub fn new_internal(id: QuipId, sender: Sender, name: String, path: Arc<QuipPath>) -> (child:
        ChildRef)
        ensures
            child == (ChildRef { id, sender, name, path, is_public: false }),
    {
        ChildRef { id, sender, name, path, is_public: false }
    }

    /// A reference to a child that receives the messages of users.
    pub fn new(id: QuipId, sender: Sender, name: String, path: Arc<QuipPath>) -> (child: ChildRef)
        ensures
            child == (ChildRef { id, sender, name, path, is_public: true }),
    {
        ChildRef { id, sender, name, path, is_public: true }
    }

    /// The child's identifier.
    pub fn id(&self) -> (id: &QuipId)
        ensures
            *id == self.id,
    {
        &self.id
    }

    /// Whether the child receives the messages of users.
    pub fn is_public(&self) -> (b: bool)
        ensures
            b == self.is_public,
    {
        self.is_public
    }

    /// The delivery that tells the child `msg`, signed by the dead-letters
    /// group. It is the only one: the child gets the message at most once.
    pub fn tell_anonymously(&self, msg: Payload) -> (d: Delivery)
        ensures
            d.to == self.sender,
            d.envelope.msg == QuipMessage::tell_spec(msg),
            d.envelope.sign.is_dead_letters_group(),
    {
        let msg = QuipMessage::tell(msg);
        let env = Envelope::from_dead_letters(msg);
        self.send(env)
    }

    /// Like [`ChildRef::tell_anonymously`]. Where the delivery fails,
    /// [`crate::errors::SendError::of`] names the error.
    pub fn try_tell_anonymously(&self, msg: Payload) -> (d: Delivery)
        ensures
            d.to == self.sender,
            d.envelope.msg == QuipMessage::tell_spec(msg),
            d.envelope.sign.is_dead_letters_group(),
    {
        let msg = QuipMessage::tell(msg);
        let env = Envelope::from_dead_letters(msg);
        self.try_send(env)
    }

    /// Like [`ChildRef::ask_anonymously`]. Where the delivery fails,
    /// [`crate::errors::SendError::of`] names the error.
    pub fn try_ask_anonymously(&self, msg: Payload) -> (res: (Delivery, Answer))
        ensures
            res.0.to == self.sender,
            res.0.envelope.sign.is_dead_letters_group(),
            res.0.envelope.msg.is_question(msg, self.addr_spec(), res.1),
    {
        let (msg, answer) = QuipMessage::ask(msg, self.addr());
        let env = Envelope::from_dead_letters(msg);
        (self.try_send(env), answer)
    }

    /// The delivery that asks the child `msg`, signed by the dead-letters
    /// group, and the handle on which the answer will arrive. The answer
    /// will be signed by the child.
    pub fn ask_anonymously(&self, msg: Payload) -> (res: (Delivery, Answer))
        ensures
            res.0.to == self.sender,
            res.0.envelope.sign.is_dead_letters_group(),
            res.0.envelope.msg.is_question(msg, self.addr_spec(), res.1),
    {
        let (msg, answer) = QuipMessage::ask(msg, self.addr());
        let env = Envelope::from_dead_letters(msg);
        (self.send(env), answer)
    }

    /// The delivery that asks the child to stop, signed by the
    /// dead-letters group.
    pub fn stop(&self) -> (d: Delivery)
        ensures
            d.to == self.sender,
            d.envelope.msg == QuipMessage::Stop,
            d.envelope.sign.is_dead_letters_group(),
    {
        let msg = QuipMessage::stop();
        let env = Envelope::from_dead_letters(msg);
        self.send(env)
    }

    /// The delivery that kills the child, signed by the dead-letters
    /// group.
    pub fn kill(&self) -> (d: Delivery)
        ensures
            d.to == self.sender,
            d.envelope.msg == QuipMessage::Kill,
            d.envelope.sign.is_dead_letters_group(),
    {
        let msg = QuipMessage::kill();
        let env = Envelope::from_dead_letters(msg);
        self.send(env)
    }

    /// The child's address, as a specification value.
    pub open spec fn addr_spec(&self) -> RefAddr {
        RefAddr { path: self.path, sender: self.sender }
    }

    /// The child's address: what a message is signed with to be answered
    /// to the child.
    pub fn addr(&self) -> (addr: RefAddr)
        ensures
            addr == self.addr_spec(),
    {
        RefAddr::new(share(&self.path), self.sender.clone())
    }

    /// The delivery that puts `env` into the child's mailbox.
    pub fn send(&self, env: Envelope) -> (d: Delivery)
        ensures
            d == (Delivery { to: self.sender, envelope: env }),
    {
        Delivery { to: self.sender.clone(), envelope: env }
    }

    /// Like [`ChildRef::send`].
    pub fn try_send(&self, env: Envelope) -> (d: Delivery)
        ensures
            d == (Delivery { to: self.sender, envelope: env }),
    {
        Delivery { to: self.sender.clone(), envelope: env }
    }

    /// The sending half of the child's mailbox.
    pub fn sender(&self) -> (sender: &Sender)
        ensures
            *sender == self.sender,
    {
        &self.sender
    }

    /// The child's path.
    pub fn path(&self) -> (path: &Arc<QuipPath>)
        ensures
            *path == self.path,
    {
        &self.path
    }

    /// The child's name.
    pub fn name(&self) -> (name: &str)
        ensures
            name@ == self.name@,
    {
        self.name.as_str()
    }

}

impl PartialEq for ChildRef {
    fn eq(&self, other: &Self) -> (b: bool) {
        self.id.0 == other.id.0
    }
}

impl Eq for ChildRef {

}

impl vstd::std_specs::cmp::PartialEqSpecImpl for ChildRef {
    open spec fn obeys_eq_spec() -> bool {
        true
    }

    open spec fn eq_spec(&self, other: &Self) -> bool {
        self.id.0 == other.id.0
    }
}

} // verus!
