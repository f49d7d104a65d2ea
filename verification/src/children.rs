//! Children groups: a number of like children behind one mailbox.

use crate::broadcast::{fans_out, sent_to_children, Broadcast, Delivery, Parent, Sender};
use crate::child::{calls_during, state_after, ChildEvent, ChildHook, ChildState, ChildStep};
use crate::child_ref::ChildRef;
use crate::children_ref::ChildrenRef;
use crate::dispatcher::DispatcherType;
use crate::distributor::Distributor;
use crate::envelope::Envelope;
use crate::id::{nil_id, QuipId};
use crate::message::{CallbackType, QuipMessage, StateHandle};
use crate::path::{last_of, share, QuipPathElement};
use vstd::prelude::*;
use vstd::string::*;

verus! {

/// A children group as its supervisor holds it.
#[derive(Debug)]
pub struct Children {
    /// The group's mailbox.
    pub bcast: Broadcast,
    /// How many children the group launches.
    pub redundancy: usize,
    /// The group's name, if it was given one.
    pub name: Option<String>,
    /// The dispatchers the group is a member of.
    pub dispatchers: Vec<DispatcherType>,
    /// The distributors the group answers for.
    pub distributors: Vec<Distributor>,
    /// The time between two heartbeats of the group, in milliseconds.
    pub heartbeat_tick: u64,
    /// The children that were launched.
    pub launched: Vec<ChildRef>,
    /// The children that faulted and wait for the supervisor's word.
    pub faulted: Vec<QuipId>,
    /// Whether the group was started.
    pub started: bool,
    /// The envelopes that wait to be handled, oldest first.
    pub pre_start_msgs: Vec<Envelope>,
    /// Whether the group has terminated.
    pub terminated: bool,
}

/// The time between two heartbeats of a group that was given none, in
/// milliseconds.
pub const DEFAULT_HEARTBEAT_TICK: u64 = 60_000;

/// The name of a group that was given none.
pub open spec fn anonymous() -> Seq<char> {
    "__Anonymous__"@
}

/// Whether `child` is a child of the group at `group`, as the group
/// launches them: public, under the group's name, at the path of the
/// group with the child's own element, and with the mailbox at that path.
pub open spec fn is_member(child: ChildRef, group: Children) -> bool {
    &&& child.is_public
    &&& child.id != nil_id()
    &&& child.name@ == group.name_spec()
    &&& child.path@ == group.bcast.address()@.push(QuipPathElement::Child(child.id))
    &&& child.sender.target == child.path
}

/// Whether `child` was launched by the group `group` with the mailbox
/// `mailbox`: it is a member of the group, and the mailbox is a fresh one
/// at the child's path, below the group.
pub open spec fn launched_as(child: ChildRef, mailbox: Broadcast, group: Children) -> bool {
    &&& is_member(child, group)
    &&& mailbox.address() == child.path
    &&& mailbox.mailbox() == child.sender
    &&& mailbox.children() == Map::<QuipId, Sender>::empty()
    &&& mailbox.owner() is Children
}

/// Whether `after` is the group `before` with its children launched, and
/// `mailboxes` the mailboxes of the new children: there are as many of
/// them as the redundancy says, the references to them were added behind
/// those that were there, each is registered with the group's mailbox, and
/// nothing else of the group has changed.
pub open spec fn launches(before: Children, after: Children, mailboxes: Seq<Broadcast>) -> bool {
    &&& after.bcast.address() == before.bcast.address()
    &&& after.bcast.mailbox() == before.bcast.mailbox()
    &&& after.bcast.owner() == before.bcast.owner()
    &&& after.redundancy == before.redundancy
    &&& after.name == before.name
    &&& after.dispatchers == before.dispatchers
    &&& after.distributors == before.distributors
    &&& after.heartbeat_tick == before.heartbeat_tick
    &&& after.faulted == before.faulted
    &&& after.started == before.started
    &&& after.pre_start_msgs == before.pre_start_msgs
    &&& after.terminated == before.terminated
    &&& mailboxes.len() == before.redundancy
    &&& after.launched@.len() == before.launched@.len() + before.redundancy
    &&& after.launched@.subrange(0, before.launched@.len() as int) == before.launched@
    &&& forall|j: int|
        before.launched@.len() <= j < after.launched@.len() ==> launched_as(
            #[trigger] after.launched@[j],
            mailboxes[j - before.launched@.len()],
            before,
        ) && after.bcast.children().contains_key(after.launched@[j].id)
}

fn clone_children(children: &Vec<ChildRef>) -> (copy: Vec<ChildRef>)
    ensures
        copy@ == children@,
{
    let mut copy: Vec<ChildRef> = Vec::new();
    let mut i: usize = 0;
    while i < children.len()
        invariant
            i <= children.len(),
            copy@ == children@.subrange(0, i as int),
        decreases children.len() - i,
    {
        copy.push(children[i].clone());
        i += 1;
        assert(copy@ =~= children@.subrange(0, i as int));
    }
    assert(children@.subrange(0, children@.len() as int) == children@);
    copy
}

fn clone_dispatchers(dispatchers: &Vec<DispatcherType>) -> (copy: Vec<DispatcherType>)
    ensures
        copy@ == dispatchers@,
{
    let mut copy: Vec<DispatcherType> = Vec::new();
    let mut i: usize = 0;
    while i < dispatchers.len()
        invariant
            i <= dispatchers.len(),
            copy@ == dispatchers@.subrange(0, i as int),
        decreases dispatchers.len() - i,
    {
        let d = match &dispatchers[i] {
            DispatcherType::Anonymous => DispatcherType::Anonymous,
            DispatcherType::Named(name) => DispatcherType::Named(name.clone()),
        };
        copy.push(d);
        i += 1;
        assert(copy@ =~= dispatchers@.subrange(0, i as int));
    }
    assert(dispatchers@.subrange(0, dispatchers@.len() as int) == dispatchers@);
    copy
}

fn clone_distributors(distributors: &Vec<Distributor>) -> (copy: Vec<Distributor>)
    ensures
        copy@ == distributors@,
{
    let mut copy: Vec<Distributor> = Vec::new();
    let mut i: usize = 0;
    while i < distributors.len()
        invariant
            i <= distributors.len(),
            copy@ == distributors@.subrange(0, i as int),
        decreases distributors.len() - i,
    {
        copy.push(Distributor { name: distributors[i].name.clone() });
        i += 1;
        assert(copy@ =~= distributors@.subrange(0, i as int));
    }
    assert(distributors@.subrange(0, distributors@.len() as int) == distributors@);
    copy
}

impl Children {
    /// Whether the group's path is that of a children group.
    pub open spec fn wf(&self) -> bool {
        last_of(self.bcast.address()@) is Some && last_of(self.bcast.address()@)->0 is Children
    }

    /// The group's name; [`anonymous`] where it was given none.
    pub open spec fn name_spec(&self) -> Seq<char> {
        match self.name {
            Some(name) => name@,
            None => anonymous(),
        }
    }

    /// What a reference to the group holds.
    pub open spec fn refers(&self, group: ChildrenRef) -> bool {
        &&& group.id == self.bcast.ident()
        &&& group.sender == self.bcast.mailbox()
        &&& group.path == self.bcast.address()
        &&& group.children@ == self.launched@
        &&& group.dispatchers@ == self.dispatchers@
        &&& group.distributors@ == self.distributors@
    }

    /// A group with the mailbox: one child, no name, no dispatcher, no
    /// distributor, nothing launched.
    pub fn new(bcast: Broadcast) -> (group: Self)
        ensures
            group.bcast == bcast,
            group.redundancy == 1,
            group.name is None,
            group.dispatchers@.len() == 0,
            group.distributors@.len() == 0,
            group.heartbeat_tick == DEFAULT_HEARTBEAT_TICK,
            group.launched@.len() == 0,
            group.faulted@.len() == 0,
            !group.started,
            group.pre_start_msgs@.len() == 0,
            !group.terminated,
    {
        Children {
            bcast,
            redundancy: 1,
            name: None,
            dispatchers: Vec::new(),
            distributors: Vec::new(),
            heartbeat_tick: DEFAULT_HEARTBEAT_TICK,
            launched: Vec::new(),
            faulted: Vec::new(),
            started: false,
            pre_start_msgs: Vec::new(),
            terminated: false,
        }
    }

    /// The same group with another number of children. A group has at
    /// least one: asked for none, it gets one.
    pub fn with_redundancy(self, redundancy: usize) -> (group: Self)
        ensures
            group == (Children {
                redundancy: if redundancy == 0 {
                    1
                } else {
                    redundancy
                },
                ..self
            }),
    {
        let mut group = self;
        group.redundancy = if redundancy == 0 {
            1
        } else {
            redundancy
        };
        group
    }

    /// The same group under a name.
    pub fn with_name(self, name: String) -> (group: Self)
        ensures
            group == (Children { name: Some(name), ..self }),
    {
        let mut group = self;
        group.name = Some(name);
        group
    }

    /// The same group with another time between two heartbeats, in
    /// milliseconds.
    pub fn with_heartbeat_tick(self, interval: u64) -> (group: Self)
        ensures
            group == (Children { heartbeat_tick: interval, ..self }),
    {
        let mut group = self;
        group.heartbeat_tick = interval;
        group
    }

    /// The same group as a member of one more dispatcher.
    pub fn with_dispatcher(self, dispatcher: DispatcherType) -> (group: Self)
        ensures
            group.dispatchers@ == self.dispatchers@.push(dispatcher),
            group.bcast == self.bcast,
            group.redundancy == self.redundancy,
            group.name == self.name,
            group.distributors == self.distributors,
            group.heartbeat_tick == self.heartbeat_tick,
            group.launched == self.launched,
            group.faulted == self.faulted,
            group.started == self.started,
            group.pre_start_msgs == self.pre_start_msgs,
            group.terminated == self.terminated,
    {
        let mut group = self;
        group.dispatchers.push(dispatcher);
        group
    }

    /// The same group answering for one more distributor.
    pub fn with_distributor(self, distributor: Distributor) -> (group: Self)
        ensures
            group.distributors@ == self.distributors@.push(distributor),
            group.bcast == self.bcast,
            group.redundancy == self.redundancy,
            group.name == self.name,
            group.dispatchers == self.dispatchers,
            group.heartbeat_tick == self.heartbeat_tick,
            group.launched == self.launched,
            group.faulted == self.faulted,
            group.started == self.started,
            group.pre_start_msgs == self.pre_start_msgs,
            group.terminated == self.terminated,
    {
        let mut group = self;
        group.distributors.push(distributor);
        group
    }

    /// The group's identifier.
    pub fn id(&self) -> (id: QuipId)
        ensures
            id == self.bcast.ident(),
    {
        *self.bcast.id()
    }

    /// The group's mailbox.
    pub fn bcast(&self) -> (bcast: &Broadcast)
        ensures
            *bcast == self.bcast,
    {
        &self.bcast
    }

    /// The group's name.
    pub fn name(&self) -> (name: String)
        ensures
            name@ == self.name_spec(),
    {
        match &self.name {
            Some(name) => name.clone(),
            None => String::from_str("__Anonymous__"),
        }
    }

    /// A reference to the group and to the children launched so far.
    pub fn as_ref(&self) -> (group: ChildrenRef)
        ensures
            self.refers(group),
    {
        ChildrenRef::new(
            *self.bcast.id(),
            self.bcast.sender().clone(),
            share(self.bcast.path()),
            clone_children(&self.launched),
            clone_dispatchers(&self.dispatchers),
            clone_distributors(&self.distributors),
        )
    }

    /// Launches the children of the group: as many as its redundancy
    /// says, each under a fresh identifier and registered with the
    /// group's mailbox. Hands out the mailboxes of the new children, in
    /// the order in which the references to them were added.
    pub fn launch_elems(&mut self) -> (mailboxes: Vec<Broadcast>)
        requires
            old(self).wf(),
        ensures
            final(self).wf(),
            launches(*old(self), *final(self), mailboxes@),
    {
        let mut mailboxes: Vec<Broadcast> = Vec::new();
        let ghost before = old(self).launched@.len();
        let mut n: usize = 0;
        while n < self.redundancy
            invariant
                n <= self.redundancy,
                self.wf(),
                self.bcast.address() == old(self).bcast.address(),
                self.bcast.mailbox() == old(self).bcast.mailbox(),
                self.bcast.owner() == old(self).bcast.owner(),
                self.redundancy == old(self).redundancy,
                self.name == old(self).name,
                self.dispatchers == old(self).dispatchers,
                self.distributors == old(self).distributors,
                self.heartbeat_tick == old(self).heartbeat_tick,
                self.faulted == old(self).faulted,
                self.started == old(self).started,
                self.pre_start_msgs == old(self).pre_start_msgs,
                self.terminated == old(self).terminated,
                before == old(self).launched@.len(),
                mailboxes@.len() == n,
                self.launched@.len() == before + n,
                self.launched@.subrange(0, before as int) == old(self).launched@,
                forall|j: int|
                    before <= j < before + n ==> launched_as(
                        #[trigger] self.launched@[j],
                        mailboxes@[j - before],
                        *old(self),
                    ) && self.bcast.children().contains_key(self.launched@[j].id),
            decreases self.redundancy - n,
        {
            let id = QuipId::new();
            let parent = Parent::children(self.as_ref());
            let bcast = Broadcast::new(parent, QuipPathElement::Child(id));
            let child = ChildRef::new(
                id,
                bcast.sender().clone(),
                self.name(),
                share(bcast.path()),
            );
            self.bcast.register(&bcast);
            let ghost earlier = self.launched@;
            self.launched.push(child);
            mailboxes.push(bcast);
            n += 1;
            assert(self.launched@.subrange(0, before as int) == earlier.subrange(0, before as int));
            assert forall|j: int| before <= j < before + n implies launched_as(
                #[trigger] self.launched@[j],
                mailboxes@[j - before],
                *old(self),
            ) && self.bcast.children().contains_key(self.launched@[j].id) by {
                if j < before + n - 1 {
                    assert(self.launched@[j] == earlier[j]);
                }
            }
        }
        mailboxes
    }
}

/// Something the driver of a children group is to do.
#[derive(Debug)]
pub enum GroupAction {
    /// Put an envelope into a mailbox.
    Deliver(Delivery),
    /// Run a new child with the mailbox. `state` is the state of the child
    /// it takes the place of, if it takes the place of one.
    Spawn { mailbox: Broadcast, state: Option<StateHandle> },
    /// Call a lifecycle hook of the child.
    Callback { child: QuipId, callback: CallbackType },
    /// Let go of the group.
    Terminate,
}

/// The deliveries, each as an action.
pub open spec fn deliver_each(deliveries: Seq<Delivery>) -> Seq<GroupAction> {
    Seq::new(deliveries.len(), |i: int| GroupAction::Deliver(deliveries[i]))
}

/// The references without those to the child with the identifier.
pub open spec fn without_child(members: Seq<ChildRef>, id: QuipId) -> Seq<ChildRef>
    decreases members.len(),
{
    if members.len() == 0 {
        Seq::empty()
    } else if members.last().id == id {
        without_child(members.drop_last(), id)
    } else {
        without_child(members.drop_last(), id).push(members.last())
    }
}

/// The identifiers without `id`.
pub open spec fn without_id(ids: Seq<QuipId>, id: QuipId) -> Seq<QuipId>
    decreases ids.len(),
{
    if ids.len() == 0 {
        Seq::empty()
    } else if ids.last() == id {
        without_id(ids.drop_last(), id)
    } else {
        without_id(ids.drop_last(), id).push(ids.last())
    }
}

/// Whether a child with the identifier is among the references.
pub open spec fn has_member(members: Seq<ChildRef>, id: QuipId) -> bool {
    exists|i: int| 0 <= i < members.len() && #[trigger] members[i].id == id
}

/// Whether two groups are set up alike: whether they have the same
/// mailbox address, parent, redundancy, name, dispatchers and
/// distributors.
pub open spec fn same_setup(a: Children, b: Children) -> bool {
    &&& a.bcast.address() == b.bcast.address()
    &&& a.bcast.mailbox() == b.bcast.mailbox()
    &&& a.bcast.owner() == b.bcast.owner()
    &&& a.redundancy == b.redundancy
    &&& a.name == b.name
    &&& a.dispatchers == b.dispatchers
    &&& a.distributors == b.distributors
    &&& a.heartbeat_tick == b.heartbeat_tick
}

/// The envelope with `msg`, signed by the group.
pub open spec fn from_group(group: Children, msg: QuipMessage) -> Envelope {
    group.bcast.signed(msg)
}

/// Starting a group: every child is told to start.
pub open spec fn group_starts(pre: Children, post: Children, actions: Seq<GroupAction>) -> bool {
    &&& post == (Children { started: true, ..pre })
    &&& exists|ds: Seq<Delivery>| #[trigger]
        fans_out(ds, pre.bcast.children(), from_group(pre, QuipMessage::Start)) && actions
            == deliver_each(ds)
}

/// The end of a group: `down` goes to every child, the supervisor is told
/// that the group stopped, and the group is let go of. Nothing is
/// registered with it any more, nothing waits, and it has terminated.
pub open spec fn group_ends(
    pre: Children,
    down: QuipMessage,
    post: Children,
    actions: Seq<GroupAction>,
) -> bool {
    &&& same_setup(pre, post)
    &&& post.bcast.children() == Map::<QuipId, Sender>::empty()
    &&& post.launched@.len() == 0
    &&& post.faulted@.len() == 0
    &&& post.pre_start_msgs@.len() == 0
    &&& post.started == pre.started
    &&& post.terminated
    &&& exists|ds: Seq<Delivery>, up: Delivery| #[trigger]
        fans_out(ds, pre.bcast.children(), from_group(pre, down)) && #[trigger] pre.bcast.owner().receives(
            up,
            from_group(pre, QuipMessage::Stopped { id: pre.bcast.ident() }),
        ) && actions == deliver_each(ds) + seq![GroupAction::Deliver(up), GroupAction::Terminate]
}

/// The end of a child: the reference to it is dropped and it is taken
/// out of the table; if it ended other than by being done, the
/// supervisor is asked whether it is to be restarted, and if it faulted
/// that is noted. The end of a child the group does not know does
/// nothing.
pub open spec fn member_ends(
    pre: Children,
    id: QuipId,
    how: MemberEnd,
    post: Children,
    actions: Seq<GroupAction>,
) -> bool {
    if has_member(pre.launched@, id) {
        &&& same_setup(pre, post)
        &&& post.bcast.children() == pre.bcast.children().remove(id)
        &&& post.launched@ == without_child(pre.launched@, id)
        &&& post.faulted@ == if how is Faulted {
            pre.faulted@.push(id)
        } else {
            pre.faulted@
        }
        &&& post.started == pre.started
        &&& post.pre_start_msgs == pre.pre_start_msgs
        &&& post.terminated == pre.terminated
        &&& if how is Finished {
            actions.len() == 0
        } else {
            &&& actions.len() == 1
            &&& actions[0] is Deliver
            &&& pre.bcast.owner().receives(
                actions[0]->Deliver_0,
                from_group(
                    pre,
                    QuipMessage::RestartRequired { id, parent_id: pre.bcast.ident() },
                ),
            )
        }
    } else {
        post == pre && actions.len() == 0
    }
}

/// How a child ended.
#[derive(Clone, Copy, Debug, PartialEq, Eq, Structural)]
pub enum MemberEnd {
    /// It was stopped.
    Stopped,
    /// Its future failed or panicked.
    Faulted,
    /// Its future was done.
    Finished,
}

/// Putting a new child in the place of the child `id`: the new child is
/// launched like any other, with the state of the old one; if the old one
/// had faulted, the `after_restart` hook of the new one is called; the
/// supervisor is told of the new child; and if the group has started the
/// new child is told to start.
pub open spec fn restores(
    pre: Children,
    id: QuipId,
    state: StateHandle,
    post: Children,
    actions: Seq<GroupAction>,
) -> bool {
    let was_faulted = pre.faulted@.contains(id);
    &&& same_setup(pre, post)
    &&& post.started == pre.started
    &&& post.pre_start_msgs == pre.pre_start_msgs
    &&& post.terminated == pre.terminated
    &&& post.faulted@ == without_id(pre.faulted@, id)
    &&& post.launched@.len() == pre.launched@.len() + 1
    &&& post.launched@.drop_last() == pre.launched@
    &&& actions.len() >= 1
    &&& actions[0] is Spawn
    &&& ({
        let child = post.launched@.last();
        let mailbox = actions[0]->mailbox;
        let hook = GroupAction::Callback { child: child.id, callback: CallbackType::AfterRestart };
        let start = GroupAction::Deliver(
            Delivery { to: child.sender, envelope: from_group(pre, QuipMessage::Start) },
        );
        &&& launched_as(child, mailbox, pre)
        &&& post.bcast.children() == pre.bcast.children().insert(child.id, child.sender)
        &&& actions[0]->state == Some(state)
        &&& exists|told: Delivery| #[trigger]
            pre.bcast.owner().receives(
                told,
                from_group(
                    pre,
                    QuipMessage::InstantiatedChild {
                        parent_id: pre.bcast.ident(),
                        child_id: child.id,
                        state,
                    },
                ),
            ) && actions == seq![actions[0]] + (if was_faulted {
                seq![hook]
            } else {
                Seq::<GroupAction>::empty()
            }) + seq![GroupAction::Deliver(told)] + (if pre.started {
                seq![start]
            } else {
                Seq::<GroupAction>::empty()
            })
    })
}

/// A user's message: a copy goes to every child, if it may be copied.
pub open spec fn group_forwards(
    pre: Children,
    env: Envelope,
    post: Children,
    actions: Seq<GroupAction>,
) -> bool {
    &&& post == pre
    &&& exists|ds: Seq<Delivery>| #[trigger]
        sent_to_children(ds, pre.bcast.children(), env) && actions == deliver_each(ds)
}

/// What handling an envelope does to a group that has started and has
/// not terminated.
pub open spec fn group_handles(
    pre: Children,
    env: Envelope,
    post: Children,
    actions: Seq<GroupAction>,
) -> bool {
    match env.msg {
        QuipMessage::Start => group_starts(pre, post, actions),
        QuipMessage::Stop => group_ends(pre, QuipMessage::Stop, post, actions),
        QuipMessage::Kill => group_ends(pre, QuipMessage::Kill, post, actions),
        QuipMessage::Stopped { id } => member_ends(pre, id, MemberEnd::Stopped, post, actions),
        QuipMessage::Faulted { id } => member_ends(pre, id, MemberEnd::Faulted, post, actions),
        QuipMessage::FinishedChild { id, .. } => member_ends(
            pre,
            id,
            MemberEnd::Finished,
            post,
            actions,
        ),
        QuipMessage::RestoreChild { id, state } => restores(pre, id, state, post, actions),
        QuipMessage::DropChild { id } => post == (Children {
            faulted: post.faulted,
            ..pre
        }) && post.faulted@ == without_id(pre.faulted@, id) && actions.len() == 0,
        QuipMessage::Message(_) => group_forwards(pre, env, post, actions),
        _ => post == pre && actions.len() == 0,
    }
}

/// Whether the group has started, has not terminated, and has an
/// envelope that was kept for later.
pub open spec fn group_has_backlog(group: Children) -> bool {
    group.started && !group.terminated && group.pre_start_msgs@.len() > 0
}

/// The actions of the parts, part after part.
pub open spec fn all_group_actions(parts: Seq<Seq<GroupAction>>) -> Seq<GroupAction>
    decreases parts.len(),
{
    if parts.len() == 0 {
        Seq::empty()
    } else {
        all_group_actions(parts.drop_last()) + parts.last()
    }
}

/// Whether the step at place `i` handles the oldest of the envelopes that
/// were kept for later.
pub open spec fn group_replays_at(states: Seq<Children>, parts: Seq<Seq<GroupAction>>, i: int)
    -> bool {
    group_has_backlog(states[i]) && group_replays(states[i], states[i + 1], parts[i])
}

/// Whether the group gets from `pre` to `post` through `states` by
/// handling, one after the other, the oldest of the envelopes that were
/// kept for later, where handling the envelope in the state at place `i`
/// asks for the actions at place `i` of `parts`.
pub open spec fn group_replays_through(
    pre: Children,
    states: Seq<Children>,
    parts: Seq<Seq<GroupAction>>,
    post: Children,
) -> bool {
    &&& states.len() == parts.len() + 1
    &&& states[0] == pre
    &&& states.last() == post
    &&& forall|i: int| 0 <= i < parts.len() ==> #[trigger] group_replays_at(states, parts, i)
}

/// Handling the envelopes that were kept for later, oldest first, until
/// none is left or the group has terminated.
pub open spec fn group_catches_up(pre: Children, post: Children, actions: Seq<GroupAction>)
    -> bool {
    &&& !group_has_backlog(post)
    &&& exists|states: Seq<Children>, parts: Seq<Seq<GroupAction>>| #[trigger]
        group_replays_through(pre, states, parts, post) && actions == all_group_actions(parts)
}

/// Starting a group and handling what was kept for later: starting leads
/// to `mid` and asks for `first`, what follows asks for `rest`.
pub open spec fn group_starts_via(
    pre: Children,
    mid: Children,
    first: Seq<GroupAction>,
    rest: Seq<GroupAction>,
    post: Children,
    actions: Seq<GroupAction>,
) -> bool {
    &&& group_starts(pre, mid, first)
    &&& group_catches_up(mid, post, rest)
    &&& actions == first + rest
}

/// What the arrival of an envelope does to a group. One that has
/// terminated drops it. A request to start is obeyed at once, and then
/// what was kept for later is handled, oldest first. Requests to stop and
/// to kill are obeyed at once. Anything else is kept for later while the
/// group has not started or older envelopes wait.
pub open spec fn group_receives(
    pre: Children,
    env: Envelope,
    post: Children,
    actions: Seq<GroupAction>,
) -> bool {
    if pre.terminated {
        post == pre && actions.len() == 0
    } else if env.msg is Start {
        exists|mid: Children, first: Seq<GroupAction>, rest: Seq<GroupAction>| #[trigger]
            group_starts_via(pre, mid, first, rest, post, actions)
    } else if env.msg is Stop || env.msg is Kill {
        group_handles(pre, env, post, actions)
    } else if !pre.started || pre.pre_start_msgs@.len() > 0 {
        &&& actions.len() == 0
        &&& post == (Children { pre_start_msgs: post.pre_start_msgs, ..pre })
        &&& post.pre_start_msgs@ == pre.pre_start_msgs@.push(env)
    } else {
        group_handles(pre, env, post, actions)
    }
}

/// Whether `mid` is the group `pre` without the oldest of the envelopes
/// that were kept for later.
pub open spec fn takes_oldest(pre: Children, mid: Children) -> bool {
    &&& mid == (Children { pre_start_msgs: mid.pre_start_msgs, ..pre })
    &&& pre.pre_start_msgs@.len() > 0
    &&& mid.pre_start_msgs@ == pre.pre_start_msgs@.drop_first()
}

/// Handling the oldest of the envelopes that were kept for later: it is
/// taken out and handled.
pub open spec fn group_replays(pre: Children, post: Children, actions: Seq<GroupAction>) -> bool {
    exists|mid: Children| #[trigger]
        takes_oldest(pre, mid) && group_handles(mid, pre.pre_start_msgs@[0], post, actions)
}

/// Whether `after` is the group `before` prepared for another run with
/// the mailbox `bcast`.
pub open spec fn reset_as(before: Children, bcast: Broadcast, after: Children) -> bool {
    &&& after.bcast == bcast
    &&& after.redundancy == before.redundancy
    &&& after.name == before.name
    &&& after.dispatchers == before.dispatchers
    &&& after.distributors == before.distributors
    &&& after.heartbeat_tick == before.heartbeat_tick
    &&& after.launched@.len() == 0
    &&& after.faulted@.len() == 0
    &&& !after.started
    &&& after.pre_start_msgs@.len() == 0
    &&& !after.terminated
}

fn wrap_each(deliveries: Vec<Delivery>) -> (actions: Vec<GroupAction>)
    ensures
        actions@ == deliver_each(deliveries@),
{
    let mut actions: Vec<GroupAction> = Vec::new();
    let mut deliveries = deliveries;
    let ghost all = deliveries@;
    while deliveries.len() > 0
        invariant
            actions@.len() + deliveries@.len() == all.len(),
            forall|i: int| 0 <= i < actions@.len() ==> actions@[i] == GroupAction::Deliver(all[i]),
            forall|i: int|
                0 <= i < deliveries@.len() ==> deliveries@[i] == all[actions@.len() + i],
        decreases deliveries@.len(),
    {
        let d = deliveries.remove(0);
        actions.push(GroupAction::Deliver(d));
    }
    assert(actions@ =~= deliver_each(all));
    actions
}

proof fn lemma_empty_fan_out(ds: Seq<Delivery>, env: Envelope)
    requires
        fans_out(ds, Map::<QuipId, Sender>::empty(), env),
    ensures
        ds.len() == 0,
{
    let order = choose|order: Seq<QuipId>| #[trigger]
        crate::broadcast::fans_out_in(ds, order, Map::<QuipId, Sender>::empty(), env);
    if order.len() > 0 {
        assert(order.contains(order[0]));
    }
}

impl Children {
    /// Whether the group is one a supervisor can hold: its path is that of
    /// a children group, and it stands below a supervisor.
    pub open spec fn supervised(&self) -> bool {
        self.wf() && self.bcast.owner() is Supervisor
    }

    /// Whether the group is one a supervisor can hold.
    pub fn is_supervised(&self) -> (b: bool)
        ensures
            b == self.supervised(),
    {
        let below = match self.bcast.parent() {
            Parent::Supervisor(_) => true,
            _ => false,
        };
        let here = match self.bcast.path().elem() {
            Some(QuipPathElement::Children(_)) => true,
            _ => false,
        };
        below && here
    }

    fn position(&self, id: &QuipId) -> (at: usize)
        ensures
            at <= self.launched@.len(),
            forall|j: int| 0 <= j < at ==> self.launched@[j].id != *id,
            at < self.launched@.len() ==> self.launched@[at as int].id == *id,
            at < self.launched@.len() <==> has_member(self.launched@, *id),
    {
        let mut at: usize = 0;
        while at < self.launched.len() && self.launched[at].id.0 != id.0
            invariant
                at <= self.launched.len(),
                forall|j: int| 0 <= j < at ==> self.launched@[j].id != *id,
            decreases self.launched.len() - at,
        {
            at += 1;
        }
        at
    }

    fn remove_member(&mut self, id: &QuipId)
        ensures
            final(self).launched@ == without_child(old(self).launched@, *id),
            final(self).bcast == old(self).bcast,
            final(self).redundancy == old(self).redundancy,
            final(self).name == old(self).name,
            final(self).dispatchers == old(self).dispatchers,
            final(self).distributors == old(self).distributors,
            final(self).heartbeat_tick == old(self).heartbeat_tick,
            final(self).faulted == old(self).faulted,
            final(self).started == old(self).started,
            final(self).pre_start_msgs == old(self).pre_start_msgs,
            final(self).terminated == old(self).terminated,
    {
        let mut kept: Vec<ChildRef> = Vec::new();
        let mut i: usize = 0;
        assert(self.launched@.subrange(0, 0) =~= Seq::<ChildRef>::empty());
        while i < self.launched.len()
            invariant
                i <= self.launched.len(),
                *self == *old(self),
                kept@ == without_child(self.launched@.subrange(0, i as int), *id),
            decreases self.launched.len() - i,
        {
            proof {
                let longer = self.launched@.subrange(0, i + 1);
                assert(longer.drop_last() =~= self.launched@.subrange(0, i as int));
                assert(longer.last() == self.launched@[i as int]);
            }
            if self.launched[i].id.0 != id.0 {
                kept.push(self.launched[i].clone());
            }
            i += 1;
        }
        assert(self.launched@.subrange(0, self.launched@.len() as int) =~= self.launched@);
        self.launched = kept;
    }

    fn forget_fault(&mut self, id: &QuipId) -> (was: bool)
        ensures
            was == old(self).faulted@.contains(*id),
            final(self).faulted@ == without_id(old(self).faulted@, *id),
            final(self).bcast == old(self).bcast,
            final(self).redundancy == old(self).redundancy,
            final(self).name == old(self).name,
            final(self).dispatchers == old(self).dispatchers,
            final(self).distributors == old(self).distributors,
            final(self).heartbeat_tick == old(self).heartbeat_tick,
            final(self).launched == old(self).launched,
            final(self).started == old(self).started,
            final(self).pre_start_msgs == old(self).pre_start_msgs,
            final(self).terminated == old(self).terminated,
    {
        let mut kept: Vec<QuipId> = Vec::new();
        let mut was = false;
        let mut i: usize = 0;
        assert(self.faulted@.subrange(0, 0) =~= Seq::<QuipId>::empty());
        while i < self.faulted.len()
            invariant
                i <= self.faulted.len(),
                *self == *old(self),
                kept@ == without_id(self.faulted@.subrange(0, i as int), *id),
                was == self.faulted@.subrange(0, i as int).contains(*id),
            decreases self.faulted.len() - i,
        {
            proof {
                let shorter = self.faulted@.subrange(0, i as int);
                let longer = self.faulted@.subrange(0, i + 1);
                assert(longer.drop_last() =~= shorter);
                assert(longer.last() == self.faulted@[i as int]);
                assert(longer =~= shorter.push(self.faulted@[i as int]));
                if shorter.contains(*id) {
                    let k = choose|k: int| 0 <= k < shorter.len() && shorter[k] == *id;
                    assert(longer[k] == *id);
                }
                if longer.contains(*id) && self.faulted@[i as int] != *id {
                    let k = choose|k: int| 0 <= k < longer.len() && longer[k] == *id;
                    assert(shorter[k] == *id);
                }
                if self.faulted@[i as int] == *id {
                    assert(longer[i as int] == *id);
                }
            }
            if self.faulted[i].0 != id.0 {
                kept.push(self.faulted[i]);
            } else {
                was = true;
            }
            i += 1;
        }
        assert(self.faulted@.subrange(0, self.faulted@.len() as int) =~= self.faulted@);
        self.faulted = kept;
        was
    }

    /// Prepares the group for another run with a new mailbox: nothing is
    /// launched, nothing waits, and the group has neither started nor
    /// terminated. Its redundancy, name, dispatchers, distributors and
    /// heartbeat stay.
    pub fn reset(&mut self, bcast: Broadcast)
        ensures
            reset_as(*old(self), bcast, *final(self)),
    {
        self.bcast = bcast;
        self.launched = Vec::new();
        self.faulted = Vec::new();
        self.started = false;
        self.pre_start_msgs = Vec::new();
        self.terminated = false;
    }

    /// Starts the group.
    pub fn start(&mut self) -> (actions: Vec<GroupAction>)
        ensures
            group_starts(*old(self), *final(self), actions@),
    {
        self.started = true;
        let env = self.bcast.sign(QuipMessage::start());
        let deliveries = self.bcast.send_children(env);
        assert(fans_out(
            deliveries@,
            old(self).bcast.children(),
            from_group(*old(self), QuipMessage::Start),
        ));
        wrap_each(deliveries)
    }

    fn end(&mut self, kill: bool) -> (actions: Vec<GroupAction>)
        requires
            old(self).supervised(),
        ensures
            final(self).supervised(),
            group_ends(
                *old(self),
                if kill {
                    QuipMessage::Kill
                } else {
                    QuipMessage::Stop
                },
                *final(self),
                actions@,
            ),
    {
        let down = if kill {
            self.bcast.kill_children()
        } else {
            self.bcast.stop_children()
        };
        let ghost ds = down@;
        let mut actions = wrap_each(down);
        let mut up = self.bcast.stopped();
        proof {
            let rest = up@.drop_last();
            lemma_empty_fan_out(rest, self.bcast.signed(QuipMessage::Stop));
        }
        let told = up.remove(0);
        actions.push(GroupAction::Deliver(told));
        actions.push(GroupAction::Terminate);
        self.launched = Vec::new();
        self.faulted = Vec::new();
        self.pre_start_msgs = Vec::new();
        self.terminated = true;
        proof {
            assert(actions@ =~= deliver_each(ds) + seq![
                GroupAction::Deliver(told),
                GroupAction::Terminate,
            ]);
            let down_msg = if kill {
                QuipMessage::Kill
            } else {
                QuipMessage::Stop
            };
            assert(fans_out(ds, old(self).bcast.children(), from_group(*old(self), down_msg))
                && old(self).bcast.owner().receives(
                told,
                from_group(*old(self), QuipMessage::Stopped { id: old(self).bcast.ident() }),
            ));
        }
        actions
    }

    /// Stops the group: every child is asked to stop, the supervisor is
    /// told that the group stopped, and the group terminates.
    pub fn stop(&mut self) -> (actions: Vec<GroupAction>)
        requires
            old(self).supervised(),
        ensures
            final(self).supervised(),
            group_ends(*old(self), QuipMessage::Stop, *final(self), actions@),
    {
        self.end(false)
    }

    /// Kills the group: every child is killed, the supervisor is told
    /// that the group stopped, and the group terminates.
    pub fn kill(&mut self) -> (actions: Vec<GroupAction>)
        requires
            old(self).supervised(),
        ensures
            final(self).supervised(),
            group_ends(*old(self), QuipMessage::Kill, *final(self), actions@),
    {
        self.end(true)
    }

    /// Takes the news that the child with the identifier ended.
    pub fn member_terminated(&mut self, id: QuipId, how: MemberEnd) -> (actions: Vec<GroupAction>)
        requires
            old(self).supervised(),
        ensures
            final(self).supervised(),
            member_ends(*old(self), id, how, *final(self), actions@),
    {
        let mut actions: Vec<GroupAction> = Vec::new();
        let at = self.position(&id);
        if at >= self.launched.len() {
            return actions;
        }
        self.remove_member(&id);
        self.bcast.unregister(&id);
        match how {
            MemberEnd::Finished => {},
            _ => {
                if matches!(how, MemberEnd::Faulted) {
                    self.faulted.push(id);
                }
                let msg = QuipMessage::RestartRequired { id, parent_id: *self.bcast.id() };
                let env = self.bcast.sign(msg);
                match self.bcast.send_parent(env) {
                    Ok(d) => {
                        actions.push(GroupAction::Deliver(d));
                    },
                    Err(_) => {},
                }
            },
        }
        actions
    }

    /// Puts a new child in the place of the child with the identifier,
    /// with that child's state.
    pub fn restore_child(&mut self, id: QuipId, state: StateHandle) -> (actions: Vec<GroupAction>)
        requires
            old(self).supervised(),
        ensures
            final(self).supervised(),
            restores(*old(self), id, state, *final(self), actions@),
    {
        let mut actions: Vec<GroupAction> = Vec::new();
        let was_faulted = self.forget_fault(&id);
        let new_id = QuipId::new();
        let parent = Parent::children(self.as_ref());
        let bcast = Broadcast::new(parent, QuipPathElement::Child(new_id));
        let child = ChildRef::new(new_id, bcast.sender().clone(), self.name(), share(bcast.path()));
        let to = child.sender.clone();
        self.bcast.register(&bcast);
        self.launched.push(child);
        actions.push(GroupAction::Spawn { mailbox: bcast, state: Some(state) });
        let ghost spawn = actions@[0];
        if was_faulted {
            actions.push(
                GroupAction::Callback { child: new_id, callback: CallbackType::AfterRestart },
            );
        }
        let msg = QuipMessage::InstantiatedChild {
            parent_id: *self.bcast.id(),
            child_id: new_id,
            state,
        };
        let env = self.bcast.sign(msg);
        let ghost mut told: Delivery;
        match self.bcast.send_parent(env) {
            Ok(d) => {
                proof {
                    told = d;
                }
                actions.push(GroupAction::Deliver(d));
            },
            Err(_) => {},
        }
        if self.started {
            let start = self.bcast.sign(QuipMessage::start());
            actions.push(GroupAction::Deliver(Delivery { to, envelope: start }));
        }
        proof {
            let pre = *old(self);
            let child = self.launched@.last();
            let hook = GroupAction::Callback {
                child: child.id,
                callback: CallbackType::AfterRestart,
            };
            let start = GroupAction::Deliver(
                Delivery { to: child.sender, envelope: from_group(pre, QuipMessage::Start) },
            );
            assert(self.launched@.drop_last() =~= pre.launched@);
            assert(actions@ =~= seq![spawn] + (if was_faulted {
                seq![hook]
            } else {
                Seq::<GroupAction>::empty()
            }) + seq![GroupAction::Deliver(told)] + (if pre.started {
                seq![start]
            } else {
                Seq::<GroupAction>::empty()
            }));
            assert(pre.bcast.owner().receives(
                told,
                from_group(
                    pre,
                    QuipMessage::InstantiatedChild {
                        parent_id: pre.bcast.ident(),
                        child_id: child.id,
                        state,
                    },
                ),
            ));
        }
        actions
    }

    /// Handles an envelope.
    pub fn handle(&mut self, env: Envelope) -> (actions: Vec<GroupAction>)
        requires
            old(self).supervised(),
        ensures
            final(self).supervised(),
            group_handles(*old(self), env, *final(self), actions@),
    {
        match env.msg {
            QuipMessage::Start => self.start(),
            QuipMessage::Stop => self.stop(),
            QuipMessage::Kill => self.kill(),
            QuipMessage::Stopped { id } => self.member_terminated(id, MemberEnd::Stopped),
            QuipMessage::Faulted { id } => self.member_terminated(id, MemberEnd::Faulted),
            QuipMessage::FinishedChild { id, .. } => self.member_terminated(
                id,
                MemberEnd::Finished,
            ),
            QuipMessage::RestoreChild { id, state } => self.restore_child(id, state),
            QuipMessage::DropChild { id } => {
                let _ = self.forget_fault(&id);
                Vec::new()
            },
            QuipMessage::Message(_) => {
                let deliveries = self.bcast.send_children(env);
                assert(sent_to_children(deliveries@, self.bcast.children(), env));
                wrap_each(deliveries)
            },
            _ => Vec::new(),
        }
    }

    /// Takes an envelope that arrived in the group's mailbox.
    pub fn received(&mut self, env: Envelope) -> (actions: Vec<GroupAction>)
        requires
            old(self).supervised(),
        ensures
            final(self).supervised(),
            group_receives(*old(self), env, *final(self), actions@),
    {
        if self.terminated {
            return Vec::new();
        }
        if matches!(env.msg, QuipMessage::Start) {
            let mut actions = self.start();
            let ghost mid = *self;
            let ghost first = actions@;
            let mut rest = self.replay_all();
            let ghost later = rest@;
            actions.append(&mut rest);
            assert(group_starts_via(*old(self), mid, first, later, *self, actions@));
            return actions;
        }
        let urgent = match &env.msg {
            QuipMessage::Stop => true,
            QuipMessage::Kill => true,
            _ => false,
        };
        if !urgent && (!self.started || self.pre_start_msgs.len() > 0) {
            self.pre_start_msgs.push(env);
            return Vec::new();
        }
        self.handle(env)
    }

    /// Handles the envelopes that were kept for later, oldest first,
    /// until none is left or the group has terminated.
    pub fn replay_all(&mut self) -> (actions: Vec<GroupAction>)
        requires
            old(self).supervised(),
        ensures
            final(self).supervised(),
            group_catches_up(*old(self), *final(self), actions@),
    {
        let mut actions: Vec<GroupAction> = Vec::new();
        let ghost mut states: Seq<Children> = seq![*self];
        let ghost mut parts: Seq<Seq<GroupAction>> = Seq::empty();
        loop
            invariant
                self.supervised(),
                group_replays_through(*old(self), states, parts, *self),
                actions@ == all_group_actions(parts),
            ensures
                self.supervised(),
                !group_has_backlog(*self),
                group_replays_through(*old(self), states, parts, *self),
                actions@ == all_group_actions(parts),
            decreases self.pre_start_msgs@.len(),
        {
            let ghost cur = *self;
            match self.replay() {
                None => {
                    break ;
                },
                Some(handled_now) => {
                    let mut handled_now = handled_now;
                    let ghost first = handled_now@;
                    actions.append(&mut handled_now);
                    proof {
                        let longer = states.push(*self);
                        let more = parts.push(first);
                        assert(more.drop_last() =~= parts);
                        assert forall|i: int| 0 <= i < more.len() implies #[trigger] group_replays_at(
                            longer,
                            more,
                            i,
                        ) by {
                            if i < parts.len() {
                                assert(group_replays_at(states, parts, i));
                            } else {
                                assert(longer[i] == cur);
                            }
                        }
                        states = longer;
                        parts = more;
                    }
                },
            }
        }
        actions
    }

    /// Handles the oldest of the envelopes that were kept for later, if
    /// the group has started, has not terminated, and there is one.
    pub fn replay(&mut self) -> (actions: Option<Vec<GroupAction>>)
        requires
            old(self).supervised(),
        ensures
            final(self).supervised(),
            actions is Some <==> group_has_backlog(*old(self)),
            actions is None ==> *final(self) == *old(self),
            actions is Some ==> group_replays(*old(self), *final(self), actions->0@),
            actions is Some ==> final(self).pre_start_msgs@.len() < old(self).pre_start_msgs@.len(),
    {
        if self.started && !self.terminated && self.pre_start_msgs.len() > 0 {
            let env = self.pre_start_msgs.remove(0);
            let ghost mid = *self;
            assert(mid.pre_start_msgs@ =~= old(self).pre_start_msgs@.drop_first());
            let handled = self.handle(env);
            assert(takes_oldest(*old(self), mid) && group_handles(
                mid,
                old(self).pre_start_msgs@[0],
                *self,
                handled@,
            ));
            Some(handled)
        } else {
            None
        }
    }
}

/// When a group is stopped, each of its registered children is asked to
/// stop, once. A child that gets the request while it waits for its
/// start or runs, and then settles, terminates and calls `after_stop`
/// once, whatever follows. And whatever the group sends down afterwards
/// reaches none of them: no child is registered with it any more.
pub proof fn lemma_stop_reaches_every_child(
    pre: Children,
    post: Children,
    actions: Seq<GroupAction>,
    id: QuipId,
    state: ChildState,
    rest: Seq<ChildStep>,
    later: Seq<Delivery>,
    env: Envelope,
)
    requires
        group_ends(pre, QuipMessage::Stop, post, actions),
        pre.bcast.children().contains_key(id),
        state is Init || state is Running,
        sent_to_children(later, post.bcast.children(), env),
    ensures
        exists|i: int|
            0 <= i < actions.len() && #[trigger] actions[i] == GroupAction::Deliver(
                Delivery { to: pre.bcast.children()[id], envelope: from_group(pre, QuipMessage::Stop) },
            ),
        ({
            let steps = seq![
                ChildStep::Handle(ChildEvent::Received(from_group(pre, QuipMessage::Stop))),
                ChildStep::Settle,
            ] + rest;
            &&& state_after(state, steps) is Terminated
            &&& calls_during(state, steps, ChildHook::AfterStop) == 1
            &&& calls_during(state, steps, ChildHook::AfterPanic) == 0
        }),
        later.len() == 0,
{
    let stop = from_group(pre, QuipMessage::Stop);
    let (ds, up) = choose|ds: Seq<Delivery>, up: Delivery| #[trigger]
        fans_out(ds, pre.bcast.children(), stop) && #[trigger] pre.bcast.owner().receives(
            up,
            from_group(pre, QuipMessage::Stopped { id: pre.bcast.ident() }),
        ) && actions == deliver_each(ds) + seq![GroupAction::Deliver(up), GroupAction::Terminate];
    let order = choose|order: Seq<QuipId>| #[trigger]
        crate::broadcast::fans_out_in(ds, order, pre.bcast.children(), stop);
    crate::broadcast::lemma_fan_out_reaches_each_once(ds, order, pre.bcast.children(), stop, id);
    let at = choose|at: int|
        0 <= at < ds.len() && order[at] == id && #[trigger] ds[at] == (Delivery {
            to: pre.bcast.children()[id],
            envelope: stop,
        });
    assert(actions[at] == GroupAction::Deliver(ds[at]));
    crate::child::lemma_stop_is_answered_once(state, stop, rest);
    crate::broadcast::lemma_nothing_reaches_cleared_children(later, env);
}

} // verus!
