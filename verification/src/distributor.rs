//! Distributors: named endpoints that hand each message to one of the
//! children that answer for the name.

use crate::broadcast::Delivery;
use crate::dispatcher::{group_at, tells_each, turn_after, GlobalDispatcher, Group};
use crate::errors::SendError;
use crate::message::{Answer, Payload, QuipMessage};
use vstd::prelude::*;
use vstd::string::*;

verus! {

/// The name of a distributor.
#[derive(Debug, PartialEq, Eq)]
pub struct Distributor {
    pub name: String,
}

impl Distributor {
    /// The distributor with the given name.
    pub fn named(name: &str) -> (d: Distributor)
        ensures
            d.name@ == name@,
    {
        Distributor { name: String::from_str(name) }
    }

    /// The delivery that tells `msg` to the child that is next in turn
    /// among those that answer for the distributor. Fails where nobody
    /// answers for it.
    pub fn tell_one(&self, table: &mut GlobalDispatcher, msg: Payload) -> (res: Result<
        Delivery,
        SendError,
    >)
        requires
            old(table).wf(),
        ensures
            final(table).wf(),
            ({
                let at = group_at(old(table)@, self.name@);
                if at < old(table)@.len() && old(table)@[at].members.len() > 0 {
                    &&& res is Ok
                    &&& res->Ok_0.to == old(table)@[at].members[old(table)@[at].cursor as int].sender
                    &&& res->Ok_0.envelope.msg == QuipMessage::tell_spec(msg)
                    &&& res->Ok_0.envelope.sign.is_dead_letters_group()
                    &&& final(table)@ == old(table)@.update(
                        at,
                        Group {
                            cursor: turn_after(
                                old(table)@[at].cursor,
                                old(table)@[at].members.len(),
                            ),
                            ..old(table)@[at]
                        },
                    )
                } else {
                    &&& res == Err::<Delivery, SendError>(SendError::NotFound)
                    &&& final(table)@ == old(table)@
                }
            }),
    {
        table.tell_one(self.name.as_str(), msg)
    }

    /// The delivery that asks `msg` of the child that is next in turn
    /// among those that answer for the distributor, and the handle on
    /// which the answer will arrive. Fails where nobody answers for it.
    pub fn ask_one(&self, table: &mut GlobalDispatcher, msg: Payload) -> (res: Result<
        (Delivery, Answer),
        SendError,
    >)
        requires
            old(table).wf(),
        ensures
            final(table).wf(),
            ({
                let at = group_at(old(table)@, self.name@);
                if at < old(table)@.len() && old(table)@[at].members.len() > 0 {
                    let member = old(table)@[at].members[old(table)@[at].cursor as int];
                    &&& res is Ok
                    &&& res->Ok_0.0.to == member.sender
                    &&& res->Ok_0.0.envelope.msg.is_question(msg, member.addr_spec(), res->Ok_0.1)
                    &&& res->Ok_0.0.envelope.sign.is_dead_letters_group()
                    &&& final(table)@ == old(table)@.update(
                        at,
                        Group {
                            cursor: turn_after(
                                old(table)@[at].cursor,
                                old(table)@[at].members.len(),
                            ),
                            ..old(table)@[at]
                        },
                    )
                } else {
                    &&& res is Err
                    &&& res->Err_0 == SendError::NotFound
                    &&& final(table)@ == old(table)@
                }
            }),
    {
        table.ask_one(self.name.as_str(), msg)
    }

    /// The deliveries that tell `msg` to every child that answers for the
    /// distributor. Fails where nobody answers for it.
    pub fn tell_everyone(&self, table: &GlobalDispatcher, msg: Payload) -> (res: Result<
        Vec<Delivery>,
        SendError,
    >)
        ensures
            ({
                let at = group_at(table@, self.name@);
                if at < table@.len() && table@[at].members.len() > 0 {
                    res is Ok && tells_each(res->Ok_0@, table@[at].members, msg)
                } else {
                    res is Err && res->Err_0 == SendError::NotFound
                }
            }),
    {
        table.tell_everyone(self.name.as_str(), msg)
    }
}

} // verus!
