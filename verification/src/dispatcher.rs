//! Dispatchers: named groups of children that a message can be sent to as
//! a whole, or to one member in turn.

use crate::broadcast::Delivery;
use crate::child_ref::ChildRef;
use crate::envelope::{Envelope, RefAddr};
use crate::errors::SendError;
use crate::id::QuipId;
use crate::message::{Answer, Payload, QuipMessage};
use vstd::prelude::*;
use vstd::string::*;

verus! {

/// Whether a dispatcher is registered under a name.
#[derive(Debug, PartialEq, Eq)]
pub enum DispatcherType {
    /// Not registered: it cannot be targeted.
    Anonymous,
    /// Registered under the name.
    Named(String),
}

/// Whom a broadcast through the dispatchers reaches.
#[derive(Debug, PartialEq, Eq)]
pub enum BroadcastTarget {
    /// The members of every named group.
    All,
    /// The members of the group with the name.
    Group(String),
}

/// A named group as the table of dispatchers holds it.
#[derive(Debug)]
pub struct Dispatcher {
    name: String,
    members: Vec<ChildRef>,
    cursor: usize,
}

/// A named group.
pub struct Group {
    /// The name.
    pub name: Seq<char>,
    /// The members, in the order in which they were registered.
    pub members: Seq<ChildRef>,
    /// The place of the member that is next in turn; less than the
    /// number of members, or zero.
    pub cursor: nat,
}

impl View for Dispatcher {
    type V = Group;

    closed spec fn view(&self) -> Group {
        Group { name: self.name@, members: self.members@, cursor: self.cursor as nat }
    }
}

/// The table of named groups.
#[derive(Debug)]
pub struct GlobalDispatcher {
    groups: Vec<Dispatcher>,
}

impl View for GlobalDispatcher {
    type V = Seq<Group>;

    closed spec fn view(&self) -> Seq<Group> {
        Seq::new(self.groups@.len(), |i: int| self.groups@[i]@)
    }
}

/// The place of the first group with the name; the number of groups where
/// there is none.
pub open spec fn group_at(groups: Seq<Group>, name: Seq<char>) -> int
    decreases groups.len(),
{
    if groups.len() == 0 {
        0
    } else if groups[0].name == name {
        0
    } else {
        1 + group_at(groups.drop_first(), name)
    }
}

proof fn lemma_group_at(groups: Seq<Group>, name: Seq<char>, at: int)
    requires
        0 <= at <= groups.len(),
        forall|j: int| 0 <= j < at ==> groups[j].name != name,
        at < groups.len() ==> groups[at].name == name,
    ensures
        group_at(groups, name) == at,
    decreases groups.len(),
{
    if groups.len() > 0 && at > 0 {
        let rest = groups.drop_first();
        assert forall|j: int| 0 <= j < at - 1 implies rest[j].name != name by {
            assert(rest[j] == groups[j + 1]);
        }
        lemma_group_at(rest, name, at - 1);
    }
}

/// The members without those with the identifier.
pub open spec fn members_without(members: Seq<ChildRef>, id: QuipId) -> Seq<ChildRef>
    decreases members.len(),
{
    if members.len() == 0 {
        Seq::empty()
    } else if members.last().id == id {
        members_without(members.drop_last(), id)
    } else {
        members_without(members.drop_last(), id).push(members.last())
    }
}

/// The members of all the groups, group after group.
pub open spec fn all_members(groups: Seq<Group>) -> Seq<ChildRef>
    decreases groups.len(),
{
    if groups.len() == 0 {
        Seq::empty()
    } else {
        all_members(groups.drop_last()) + groups.last().members
    }
}

/// The members a broadcast to `target` reaches, in the order in which it
/// reaches them.
pub open spec fn reached(groups: Seq<Group>, target: BroadcastTarget) -> Seq<ChildRef> {
    match target {
        BroadcastTarget::All => all_members(groups),
        BroadcastTarget::Group(name) => {
            let at = group_at(groups, name@);
            if at < groups.len() {
                groups[at].members
            } else {
                Seq::empty()
            }
        },
    }
}

/// Whether `deliveries` tells each of `members` the message `msg`, in
/// order, signed by the dead-letters group.
pub open spec fn tells_each(deliveries: Seq<Delivery>, members: Seq<ChildRef>, msg: Payload) -> bool {
    &&& deliveries.len() == members.len()
    &&& forall|i: int|
        0 <= i < members.len() ==> {
            &&& (#[trigger] deliveries[i]).to == members[i].sender
            &&& deliveries[i].envelope.msg == QuipMessage::tell_spec(msg)
            &&& deliveries[i].envelope.sign.is_dead_letters_group()
        }
}

/// Whether `deliveries` tells each of `members` the message `msg`, in
/// order, signed with `sign`.
pub open spec fn tells_from(
    deliveries: Seq<Delivery>,
    members: Seq<ChildRef>,
    msg: Payload,
    sign: RefAddr,
) -> bool {
    deliveries =~= Seq::new(
        members.len(),
        |i: int|
            Delivery {
                to: members[i].sender,
                envelope: Envelope { msg: QuipMessage::tell_spec(msg), sign },
            },
    )
}

/// The place of the member that is in turn after the one at `cursor`.
pub open spec fn turn_after(cursor: nat, members: nat) -> nat {
    if cursor + 1 < members {
        cursor + 1
    } else {
        0
    }
}

impl GlobalDispatcher {
    /// Whether the table is one that can be: the member in turn of each
    /// group is one of its members, or the first.
    pub open spec fn wf(&self) -> bool {
        forall|i: int|
            0 <= i < self@.len() ==> (#[trigger] self@[i]).cursor < self@[i].members.len()
                || self@[i].cursor == 0
    }

    /// A table without groups.
    pub fn new() -> (table: Self)
        ensures
            table.wf(),
            table@ == Seq::<Group>::empty(),
    {
        let table = GlobalDispatcher { groups: Vec::new() };
        assert(table@ =~= Seq::<Group>::empty());
        table
    }

    fn find(&self, name: &str) -> (at: usize)
        ensures
            at == group_at(self@, name@),
            at <= self@.len(),
    {
        let wanted = String::from_str(name);
        let mut at: usize = 0;
        while at < self.groups.len()
            invariant
                at <= self.groups.len(),
                wanted@ == name@,
                forall|j: int| 0 <= j < at ==> self@[j].name != name@,
            decreases self.groups.len() - at,
        {
            if self.groups[at].name == wanted {
                proof {
                    lemma_group_at(self@, name@, at as int);
                }
                return at;
            }
            at += 1;
        }
        proof {
            lemma_group_at(self@, name@, at as int);
        }
        at
    }

    /// Registers `child` as a member of the group with the name, behind
    /// its other members. A group that is not there yet is added behind
    /// the other groups.
    pub fn register(&mut self, name: &str, child: ChildRef)
        requires
            old(self).wf(),
        ensures
            final(self).wf(),
            ({
                let at = group_at(old(self)@, name@);
                final(self)@ == if at < old(self)@.len() {
                    old(self)@.update(
                        at,
                        Group { members: old(self)@[at].members.push(child), ..old(self)@[at] },
                    )
                } else {
                    old(self)@.push(Group { name: name@, members: seq![child], cursor: 0 })
                }
            }),
    {
        let at = self.find(name);
        let ghost before = self@;
        if at < self.groups.len() {
            let mut group = self.groups.remove(at);
            group.members.push(child);
            self.groups.insert(at, group);
            assert(self@ =~= before.update(
                at as int,
                Group { members: before[at as int].members.push(child), ..before[at as int] },
            ));
            assert forall|i: int| 0 <= i < self@.len() implies (#[trigger] self@[i]).cursor
                < self@[i].members.len() || self@[i].cursor == 0 by {
                assert(before[i].cursor < before[i].members.len() || before[i].cursor == 0);
            }
        } else {
            let mut members: Vec<ChildRef> = Vec::new();
            members.push(child);
            assert(members@ =~= seq![child]);
            self.groups.push(Dispatcher { name: String::from_str(name), members, cursor: 0 });
            assert(self@ =~= before.push(Group { name: name@, members: seq![child], cursor: 0 }));
            assert forall|i: int| 0 <= i < self@.len() implies (#[trigger] self@[i]).cursor
                < self@[i].members.len() || self@[i].cursor == 0 by {
                if i < before.len() {
                    assert(before[i].cursor < before[i].members.len() || before[i].cursor == 0);
                }
            }
        }
    }

    /// Takes the children with the identifier out of the group with the
    /// name. The turn of that group begins anew.
    pub fn remove(&mut self, name: &str, id: &QuipId)
        requires
            old(self).wf(),
        ensures
            final(self).wf(),
            ({
                let at = group_at(old(self)@, name@);
                final(self)@ == if at < old(self)@.len() {
                    old(self)@.update(
                        at,
                        Group {
                            members: members_without(old(self)@[at].members, *id),
                            cursor: 0,
                            ..old(self)@[at]
                        },
                    )
                } else {
                    old(self)@
                }
            }),
    {
        let at = self.find(name);
        if at >= self.groups.len() {
            return ;
        }
        let ghost before = self@;
        let mut group = self.groups.remove(at);
        let mut kept: Vec<ChildRef> = Vec::new();
        let mut i: usize = 0;
        assert(group.members@.subrange(0, 0) =~= Seq::<ChildRef>::empty());
        while i < group.members.len()
            invariant
                i <= group.members.len(),
                kept@ == members_without(group.members@.subrange(0, i as int), *id),
            decreases group.members.len() - i,
        {
            proof {
                let longer = group.members@.subrange(0, i + 1);
                assert(longer.drop_last() =~= group.members@.subrange(0, i as int));
                assert(longer.last() == group.members@[i as int]);
            }
            if group.members[i].id.0 != id.0 {
                kept.push(group.members[i].clone());
            }
            i += 1;
        }
        assert(group.members@.subrange(0, group.members@.len() as int) =~= group.members@);
        group.members = kept;
        group.cursor = 0;
        self.groups.insert(at, group);
        assert(self@ =~= before.update(
            at as int,
            Group {
                members: members_without(before[at as int].members, *id),
                cursor: 0,
                ..before[at as int]
            },
        ));
        assert forall|i: int| 0 <= i < self@.len() implies (#[trigger] self@[i]).cursor
            < self@[i].members.len() || self@[i].cursor == 0 by {
            assert(before[i].cursor < before[i].members.len() || before[i].cursor == 0);
        }
    }

    /// The deliveries that tell `msg` to everyone the target names: the
    /// members of the group with the name, or of all groups. Each is told
    /// once, signed by the dead-letters group.
    pub fn broadcast(&self, target: &BroadcastTarget, msg: Payload) -> (deliveries: Vec<Delivery>)
        ensures
            tells_each(deliveries@, reached(self@, *target), msg),
    {
        let mut deliveries: Vec<Delivery> = Vec::new();
        match target {
            BroadcastTarget::Group(name) => {
                let at = self.find(name.as_str());
                if at < self.groups.len() {
                    let members = &self.groups[at].members;
                    let mut i: usize = 0;
                    while i < members.len()
                        invariant
                            i <= members.len(),
                            tells_each(deliveries@, members@.subrange(0, i as int), msg),
                        decreases members.len() - i,
                    {
                        deliveries.push(members[i].tell_anonymously(msg));
                        i += 1;
                    }
                    assert(members@.subrange(0, members@.len() as int) =~= members@);
                }
            },
            BroadcastTarget::All => {
                let mut g: usize = 0;
                assert(self@.subrange(0, 0) =~= Seq::<Group>::empty());
                while g < self.groups.len()
                    invariant
                        g <= self.groups.len(),
                        tells_each(deliveries@, all_members(self@.subrange(0, g as int)), msg),
                    decreases self.groups.len() - g,
                {
                    let members = &self.groups[g].members;
                    let ghost sofar = all_members(self@.subrange(0, g as int));
                    proof {
                        let longer = self@.subrange(0, g + 1);
                        assert(longer.drop_last() =~= self@.subrange(0, g as int));
                        assert(longer.last() == self@[g as int]);
                    }
                    let mut i: usize = 0;
                    while i < members.len()
                        invariant
                            i <= members.len(),
                            tells_each(
                                deliveries@,
                                sofar + members@.subrange(0, i as int),
                                msg,
                            ),
                        decreases members.len() - i,
                    {
                        let ghost earlier = sofar + members@.subrange(0, i as int);
                        deliveries.push(members[i].tell_anonymously(msg));
                        i += 1;
                        assert(sofar + members@.subrange(0, i as int) =~= earlier.push(
                            members@[i - 1],
                        ));
                    }
                    assert(members@.subrange(0, members@.len() as int) =~= members@);
                    g += 1;
                }
                assert(self@.subrange(0, self@.len() as int) =~= self@);
            },
        }
        deliveries
    }

    /// The deliveries that tell `msg` to everyone the target names, each
    /// once, signed with `sign`.
    pub fn broadcast_from(&self, target: &BroadcastTarget, msg: Payload, sign: &RefAddr) -> (deliveries:
        Vec<Delivery>)
        ensures
            tells_from(deliveries@, reached(self@, *target), msg, *sign),
    {
        let mut deliveries: Vec<Delivery> = Vec::new();
        match target {
            BroadcastTarget::Group(name) => {
                let at = self.find(name.as_str());
                if at < self.groups.len() {
                    let members = &self.groups[at].members;
                    let mut i: usize = 0;
                    while i < members.len()
                        invariant
                            i <= members.len(),
                            tells_from(deliveries@, members@.subrange(0, i as int), msg, *sign),
                        decreases members.len() - i,
                    {
                        let env = Envelope::new_with_sign(QuipMessage::tell(msg), sign.clone());
                        deliveries.push(Delivery { to: members[i].sender.clone(), envelope: env });
                        i += 1;
                        assert(tells_from(deliveries@, members@.subrange(0, i as int), msg, *sign));
                    }
                    assert(members@.subrange(0, members@.len() as int) =~= members@);
                }
            },
            BroadcastTarget::All => {
                let mut g: usize = 0;
                assert(self@.subrange(0, 0) =~= Seq::<Group>::empty());
                while g < self.groups.len()
                    invariant
                        g <= self.groups.len(),
                        tells_from(
                            deliveries@,
                            all_members(self@.subrange(0, g as int)),
                            msg,
                            *sign,
                        ),
                    decreases self.groups.len() - g,
                {
                    let members = &self.groups[g].members;
                    let ghost sofar = all_members(self@.subrange(0, g as int));
                    proof {
                        let longer = self@.subrange(0, g + 1);
                        assert(longer.drop_last() =~= self@.subrange(0, g as int));
                        assert(longer.last() == self@[g as int]);
                    }
                    let mut i: usize = 0;
                    assert(sofar + members@.subrange(0, 0) =~= sofar);
                    while i < members.len()
                        invariant
                            i <= members.len(),
                            tells_from(
                                deliveries@,
                                sofar + members@.subrange(0, i as int),
                                msg,
                                *sign,
                            ),
                        decreases members.len() - i,
                    {
                        let ghost earlier = sofar + members@.subrange(0, i as int);
                        let env = Envelope::new_with_sign(QuipMessage::tell(msg), sign.clone());
                        deliveries.push(Delivery { to: members[i].sender.clone(), envelope: env });
                        i += 1;
                        assert(sofar + members@.subrange(0, i as int) =~= earlier.push(
                            members@[i - 1],
                        ));
                        assert(tells_from(
                            deliveries@,
                            sofar + members@.subrange(0, i as int),
                            msg,
                            *sign,
                        ));
                    }
                    assert(members@.subrange(0, members@.len() as int) =~= members@);
                    g += 1;
                }
                assert(self@.subrange(0, self@.len() as int) =~= self@);
            },
        }
        deliveries
    }

    /// The member of the group with the name that is next in turn. The
    /// turn goes round the members in the order in which they were
    /// registered. Fails where there is no such group or it has no
    /// member.
    pub fn next(&mut self, name: &str) -> (res: Result<ChildRef, SendError>)
        requires
            old(self).wf(),
        ensures
            final(self).wf(),
            ({
                let at = group_at(old(self)@, name@);
                if at < old(self)@.len() && old(self)@[at].members.len() > 0 {
                    &&& res == Ok::<ChildRef, SendError>(
                        old(self)@[at].members[old(self)@[at].cursor as int],
                    )
                    &&& final(self)@ == old(self)@.update(
                        at,
                        Group {
                            cursor: turn_after(old(self)@[at].cursor, old(self)@[at].members.len()),
                            ..old(self)@[at]
                        },
                    )
                } else {
                    &&& res == Err::<ChildRef, SendError>(SendError::NotFound)
                    &&& final(self)@ == old(self)@
                }
            }),
    {
        let at = self.find(name);
        if at >= self.groups.len() {
            return Err(SendError::NotFound);
        }
        if self.groups[at].members.len() == 0 {
            return Err(SendError::NotFound);
        }
        let ghost before = self@;
        assert(before[at as int].cursor < before[at as int].members.len()
            || before[at as int].cursor == 0);
        let mut group = self.groups.remove(at);
        let child = group.members[group.cursor].clone();
        group.cursor = if group.cursor + 1 < group.members.len() {
            group.cursor + 1
        } else {
            0
        };
        self.groups.insert(at, group);
        assert(self@ =~= before.update(
            at as int,
            Group {
                cursor: turn_after(before[at as int].cursor, before[at as int].members.len()),
                ..before[at as int]
            },
        ));
        assert forall|i: int| 0 <= i < self@.len() implies (#[trigger] self@[i]).cursor
            < self@[i].members.len() || self@[i].cursor == 0 by {
            assert(before[i].cursor < before[i].members.len() || before[i].cursor == 0);
        }
        Ok(child)
    }

    /// The delivery that tells `msg` to the member of the group that is
    /// next in turn, signed by the dead-letters group.
    pub fn tell_one(&mut self, name: &str, msg: Payload) -> (res: Result<Delivery, SendError>)
        requires
            old(self).wf(),
        ensures
            final(self).wf(),
            ({
                let at = group_at(old(self)@, name@);
                if at < old(self)@.len() && old(self)@[at].members.len() > 0 {
                    &&& res is Ok
                    &&& res->Ok_0.to == old(self)@[at].members[old(self)@[at].cursor as int].sender
                    &&& res->Ok_0.envelope.msg == QuipMessage::tell_spec(msg)
                    &&& res->Ok_0.envelope.sign.is_dead_letters_group()
                    &&& final(self)@ == old(self)@.update(
                        at,
                        Group {
                            cursor: turn_after(old(self)@[at].cursor, old(self)@[at].members.len()),
                            ..old(self)@[at]
                        },
                    )
                } else {
                    &&& res == Err::<Delivery, SendError>(SendError::NotFound)
                    &&& final(self)@ == old(self)@
                }
            }),
    {
        match self.next(name) {
            Ok(child) => Ok(child.tell_anonymously(msg)),
            Err(e) => Err(e),
        }
    }

    /// The delivery that asks `msg` of the member of the group that is
    /// next in turn, signed by the dead-letters group, and the handle on
    /// which the answer will arrive. The answer will be signed by the
    /// member.
    pub fn ask_one(&mut self, name: &str, msg: Payload) -> (res: Result<
        (Delivery, Answer),
        SendError,
    >)
        requires
            old(self).wf(),
        ensures
            final(self).wf(),
            ({
                let at = group_at(old(self)@, name@);
                if at < old(self)@.len() && old(self)@[at].members.len() > 0 {
                    let member = old(self)@[at].members[old(self)@[at].cursor as int];
                    &&& res is Ok
                    &&& res->Ok_0.0.to == member.sender
                    &&& res->Ok_0.0.envelope.msg.is_question(msg, member.addr_spec(), res->Ok_0.1)
                    &&& res->Ok_0.0.envelope.sign.is_dead_letters_group()
                    &&& final(self)@ == old(self)@.update(
                        at,
                        Group {
                            cursor: turn_after(old(self)@[at].cursor, old(self)@[at].members.len()),
                            ..old(self)@[at]
                        },
                    )
                } else {
                    &&& res is Err
                    &&& res->Err_0 == SendError::NotFound
                    &&& final(self)@ == old(self)@
                }
            }),
    {
        match self.next(name) {
            Ok(child) => Ok(child.ask_anonymously(msg)),
            Err(e) => Err(e),
        }
    }

    /// The deliveries that tell `msg` to every member of the group with
    /// the name. Fails where there is no such group or it has no member.
    pub fn tell_everyone(&self, name: &str, msg: Payload) -> (res: Result<
        Vec<Delivery>,
        SendError,
    >)
        ensures
            ({
                let at = group_at(self@, name@);
                if at < self@.len() && self@[at].members.len() > 0 {
                    res is Ok && tells_each(res->Ok_0@, self@[at].members, msg)
                } else {
                    res is Err && res->Err_0 == SendError::NotFound
                }
            }),
    {
        let at = self.find(name);
        if at >= self.groups.len() || self.groups[at].members.len() == 0 {
            return Err(SendError::NotFound);
        }
        let members = &self.groups[at].members;
        let mut deliveries: Vec<Delivery> = Vec::new();
        let mut i: usize = 0;
        while i < members.len()
            invariant
                i <= members.len(),
                tells_each(deliveries@, members@.subrange(0, i as int), msg),
            decreases members.len() - i,
        {
            deliveries.push(members[i].tell_anonymously(msg));
            i += 1;
        }
        assert(members@.subrange(0, members@.len() as int) =~= members@);
        Ok(deliveries)
    }
}

/// The turn goes round: after as many turns as a group has members, the
/// member that was in turn is in turn again.
pub proof fn lemma_turn_goes_round(cursor: nat, members: nat, turns: nat)
    requires
        cursor < members,
    ensures
        after_turns(cursor, members, turns) < members,
        turns == members ==> after_turns(cursor, members, turns) == cursor,
        turns <= members ==> after_turns(cursor, members, turns) == (if cursor + turns < members {
            cursor + turns
        } else {
            (cursor + turns - members) as nat
        }),
    decreases turns,
{
    if turns > 0 {
        lemma_turn_goes_round(cursor, members, (turns - 1) as nat);
    }
}

/// The place of the member in turn after `turns` turns.
pub open spec fn after_turns(cursor: nat, members: nat, turns: nat) -> nat
    decreases turns,
{
    if turns == 0 {
        cursor
    } else {
        turn_after(after_turns(cursor, members, (turns - 1) as nat), members)
    }
}

} // verus!
