//! What the future of a child sees of the child, and what it can send.

use crate::broadcast::Delivery;
use crate::child_ref::ChildRef;
use crate::dispatcher::{reached, tells_from, BroadcastTarget, GlobalDispatcher};
use crate::envelope::{Envelope, RefAddr};
use crate::message::{Answer, Payload, QuipMessage};
use vstd::prelude::*;

verus! {

/// The context of a child: who it is.
#[derive(Debug)]
pub struct QuipContext {
    pub child: ChildRef,
}

impl QuipContext {
    /// The context of the child.
    pub fn new(child: ChildRef) -> (ctx: Self)
        ensures
            ctx.child == child,
    {
        QuipContext { child }
    }

    /// A reference to the child itself.
    pub fn current(&self) -> (child: &ChildRef)
        ensures
            *child == self.child,
    {
        &self.child
    }

    /// The signature of the child: what it signs its messages with.
    pub fn signature(&self) -> (sign: RefAddr)
        ensures
            sign == self.child.addr_spec(),
    {
        self.child.addr()
    }

    /// The delivery that tells `msg` to the one with the signature `to`,
    /// signed by the child. It is the only one: the message is received
    /// at most once.
    pub fn tell(&self, to: &RefAddr, msg: Payload) -> (d: Delivery)
        ensures
            d == (Delivery {
                to: to.sender,
                envelope: Envelope {
                    msg: QuipMessage::tell_spec(msg),
                    sign: self.child.addr_spec(),
                },
            }),
    {
        let env = Envelope::new_with_sign(QuipMessage::tell(msg), self.signature());
        Delivery { to: to.sender.clone(), envelope: env }
    }

    /// The delivery that asks `msg` of the one with the signature `to`,
    /// signed by the child, and the handle on which the answer will
    /// arrive. The answer will be signed by the one who is asked.
    pub fn ask(&self, to: &RefAddr, msg: Payload) -> (res: (Delivery, Answer))
        ensures
            res.0.to == to.sender,
            res.0.envelope.sign == self.child.addr_spec(),
            res.0.envelope.msg.is_question(msg, *to, res.1),
    {
        let (msg, answer) = QuipMessage::ask(msg, to.clone());
        let env = Envelope::new_with_sign(msg, self.signature());
        (Delivery { to: to.sender.clone(), envelope: env }, answer)
    }

    /// The deliveries that tell `msg` to everyone the target names among
    /// the named groups, each once, signed by the child.
    pub fn broadcast_message(&self, table: &GlobalDispatcher, target: &BroadcastTarget, msg: Payload)
        -> (deliveries: Vec<Delivery>)
        ensures
            tells_from(deliveries@, reached(table@, *target), msg, self.child.addr_spec()),
    {
        table.broadcast_from(target, msg, &self.signature())
    }
}

} // verus!
