//! References to children groups.

use crate::broadcast::{Delivery, Sender};
use crate::child_ref::ChildRef;
use crate::dispatcher::DispatcherType;
use crate::distributor::Distributor;
use crate::envelope::{dead_letters_chain, Envelope, RefAddr};
use crate::id::QuipId;
use crate::message::{Payload, QuipMessage};
use crate::path::QuipPath;
use std::sync::Arc;
use vstd::prelude::*;

verus! {

/// A capability to talk to a children group and to each of its members.
/// It owns nothing of the group.
#[derive(Debug)]
pub struct ChildrenRef {
    pub id: QuipId,
    pub sender: Sender,
    pub path: Arc<QuipPath>,
    pub children: Vec<ChildRef>,
    pub dispatchers: Vec<DispatcherType>,
    pub distributors: Vec<Distributor>,
}

impl ChildrenRef {
    /// A reference made of its parts.
    pub fn new(
        id: QuipId,
        sender: Sender,
        path: Arc<QuipPath>,
        children: Vec<ChildRef>,
        dispatchers: Vec<DispatcherType>,
        distributors: Vec<Distributor>,
    ) -> (group: Self)
        ensures
            group == (ChildrenRef { id, sender, path, children, dispatchers, distributors }),
    {
        ChildrenRef { id, sender, path, children, dispatchers, distributors }
    }

    /// The group's identifier.
    pub fn id(&self) -> (id: &QuipId)
        ensures
            *id == self.id,
    {
        &self.id
    }

    /// The dispatchers the group is a member of.
    pub fn dispatchers(&self) -> (dispatchers: &Vec<DispatcherType>)
        ensures
            *dispatchers == self.dispatchers,
    {
        &self.dispatchers
    }

    /// The distributors the group answers for.
    pub fn distributors(&self) -> (distributors: &Vec<Distributor>)
        ensures
            *distributors == self.distributors,
    {
        &self.distributors
    }

    /// The references to the members of the group.
    pub fn elems(&self) -> (elems: &[ChildRef])
        ensures
            elems@ == self.children@,
    {
        self.children.as_slice()
    }

    /// The delivery that puts `msg` before every member of the group,
    /// signed by the dead-letters group.
    pub fn broadcast(&self, msg: Payload) -> (d: Delivery)
        ensures
            d.to == self.sender,
            d.envelope.msg == QuipMessage::broadcast_spec(msg),
            d.envelope.sign.is_dead_letters_group(),
    {
        let msg = QuipMessage::broadcast(msg);
        let env = Envelope::from_dead_letters(msg);
        self.send(env)
    }

    /// The delivery that asks the group to stop, signed by the
    /// dead-letters group.
    pub fn stop(&self) -> (d: Delivery)
        ensures
            d.to == self.sender,
            d.envelope.msg == QuipMessage::Stop,
            d.envelope.sign.is_dead_letters_group(),
    {
        let msg = QuipMessage::stop();
        let env = Envelope::from_dead_letters(msg);
        self.send(env)
    }

    /// The delivery that kills the group, signed by the dead-letters
    /// group.
    pub fn kill(&self) -> (d: Delivery)
        ensures
            d.to == self.sender,
            d.envelope.msg == QuipMessage::Kill,
            d.envelope.sign.is_dead_letters_group(),
    {
        let msg = QuipMessage::kill();
        let env = Envelope::from_dead_letters(msg);
        self.send(env)
    }

    /// The delivery that puts `env` into the group's mailbox.
    pub fn send(&self, env: Envelope) -> (d: Delivery)
        ensures
            d == (Delivery { to: self.sender, envelope: env }),
    {
        Delivery { to: self.sender.clone(), envelope: env }
    }

    /// What follows a delivery to the group. One that arrived is done; an
    /// envelope that came back, because the mailbox is gone, goes to the
    /// dead-letters group, once.
    pub fn after_send(outcome: Result<(), Envelope>) -> (next: Option<Delivery>)
        ensures
            outcome is Ok ==> next is None,
            outcome is Err ==> next is Some && next->0.envelope == outcome->Err_0
                && next->0.to.target@ == dead_letters_chain(),
    {
        match outcome {
            Ok(()) => None,
            Err(env) => {
                let dead_letters = RefAddr::dead_letters();
                Some(Delivery { to: dead_letters.sender, envelope: env })
            },
        }
    }

    /// The group's path.
    pub fn path(&self) -> (path: &Arc<QuipPath>)
        ensures
            *path == self.path,
    {
        &self.path
    }

    /// The sending half of the group's mailbox.
    pub fn sender(&self) -> (sender: &Sender)
        ensures
            *sender == self.sender,
    {
        &self.sender
    }
}

impl PartialEq for ChildrenRef {
    fn eq(&self, other: &Self) -> (b: bool) {
        self.id.0 == other.id.0
    }
}

impl Eq for ChildrenRef {

}

impl vstd::std_specs::cmp::PartialEqSpecImpl for ChildrenRef {
    open spec fn obeys_eq_spec() -> bool {
        true
    }

    open spec fn eq_spec(&self, other: &Self) -> bool {
        self.id.0 == other.id.0
    }
}

} // verus!
