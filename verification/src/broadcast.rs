//! Mailboxes: the sending half of each, and the table by which a parent
//! reaches its children.

use crate::children_ref::ChildrenRef;
use crate::envelope::Envelope;
use crate::id::QuipId;
use crate::message::QuipMessage;
use crate::path::{last_of, may_follow, share, QuipPath, QuipPathElement};
use crate::supervisor::SupervisorRef;
use crate::table::{
    table_clear, table_entries, table_get, table_insert, table_new, table_remove,
};
use fxhash::FxHashMap;
use std::sync::Arc;
use vstd::prelude::*;

verus! {

/// The sending half of a mailbox, named by the path of the mailbox's
/// owner.
#[derive(Debug, PartialEq, Eq)]
pub struct Sender {
    pub target: Arc<QuipPath>,
}

impl Clone for Sender {
    fn clone(&self) -> (copy: Self)
        ensures
            copy == *self,
    {
        Sender { target: share(&self.target) }
    }
}

impl Sender {
    /// The sending half of the mailbox of the element at `target`.
    pub fn new(target: Arc<QuipPath>) -> (sender: Self)
        ensures
            sender == (Sender { target }),
    {
        Sender { target }
    }

    /// The path of the mailbox's owner.
    pub fn target(&self) -> (target: &Arc<QuipPath>)
        ensures
            *target == self.target,
    {
        &self.target
    }
}

/// One envelope to be put into one mailbox.
#[derive(Debug)]
pub struct Delivery {
    pub to: Sender,
    pub envelope: Envelope,
}

/// Who stands above the owner of a mailbox.
#[derive(Debug)]
pub enum Parent {
    /// Nobody: the owner is the system.
    Nobody,
    /// The system.
    System,
    /// A supervisor.
    Supervisor(SupervisorRef),
    /// A children group.
    Children(ChildrenRef),
}

impl Parent {
    /// The chain of the parent's path; the empty chain where the parent is
    /// the system or there is none.
    pub open spec fn chain(&self) -> Seq<QuipPathElement> {
        match *self {
            Parent::Nobody => Seq::empty(),
            Parent::System => Seq::empty(),
            Parent::Supervisor(sv) => sv.path@,
            Parent::Children(ch) => ch.path@,
        }
    }

    /// Whether `d` puts `env` into the parent's mailbox. The mailbox of the
    /// system is the one at the empty path.
    pub open spec fn receives(&self, d: Delivery, env: Envelope) -> bool {
        d.envelope == env && match *self {
            Parent::Nobody => false,
            Parent::System => d.to.target@ == Seq::<QuipPathElement>::empty(),
            Parent::Supervisor(sv) => d.to == sv.sender,
            Parent::Children(ch) => d.to == ch.sender,
        }
    }

    /// Whether there is no parent.
    pub fn is_none(&self) -> (b: bool)
        ensures
            b == (*self is Nobody),
    {
        matches!(self, Parent::Nobody)
    }

    /// Whether the parent is the system.
    pub fn is_system(&self) -> (b: bool)
        ensures
            b == (*self is System),
    {
        matches!(self, Parent::System)
    }

    /// No parent.
    pub fn none() -> (parent: Self)
        ensures
            parent == Parent::Nobody,
    {
        Parent::Nobody
    }

    /// The system as the parent.
    pub fn system() -> (parent: Self)
        ensures
            parent == Parent::System,
    {
        Parent::System
    }

    /// The supervisor as the parent.
    pub fn supervisor(supervisor: SupervisorRef) -> (parent: Self)
        ensures
            parent == Parent::Supervisor(supervisor),
    {
        Parent::Supervisor(supervisor)
    }

    /// The children group as the parent.
    pub fn children(children: ChildrenRef) -> (parent: Self)
        ensures
            parent == Parent::Children(children),
    {
        Parent::Children(children)
    }

    /// The supervisor, if the parent is one.
    pub fn into_supervisor(self) -> (supervisor: Option<SupervisorRef>)
        ensures
            supervisor == match self {
                Parent::Supervisor(sv) => Some(sv),
                _ => None,
            },
    {
        if let Parent::Supervisor(supervisor) = self {
            Some(supervisor)
        } else {
            None
        }
    }

    /// The children group, if the parent is one.
    pub fn into_children(self) -> (children: Option<ChildrenRef>)
        ensures
            children == match self {
                Parent::Children(ch) => Some(ch),
                _ => None,
            },
    {
        if let Parent::Children(children) = self {
            Some(children)
        } else {
            None
        }
    }

    /// Whether `el` may stand directly below the parent.
    pub fn accepts(&self, el: &QuipPathElement) -> (b: bool)
        ensures
            b == may_follow(last_of(self.chain()), *el),
    {
        let above = match self {
            Parent::Nobody => None,
            Parent::System => None,
            Parent::Supervisor(sv) => *sv.path.elem(),
            Parent::Children(ch) => *ch.path.elem(),
        };
        match el {
            QuipPathElement::Supervisor(_) => match above {
                None => true,
                Some(QuipPathElement::Supervisor(_)) => true,
                _ => false,
            },
            QuipPathElement::Children(_) => match above {
                Some(QuipPathElement::Supervisor(_)) => true,
                _ => false,
            },
            QuipPathElement::Child(_) => match above {
                Some(QuipPathElement::Children(_)) => true,
                _ => false,
            },
        }
    }

    /// The delivery that puts `env` into the parent's mailbox. Where there
    /// is no parent the envelope comes back.
    pub fn send(&self, env: Envelope) -> (res: Result<Delivery, Envelope>)
        ensures
            res is Err <==> *self is Nobody,
            res is Err ==> res->Err_0 == env,
            res is Ok ==> self.receives(res->Ok_0, env),
    {
        match self {
            Parent::Nobody => Err(env),
            Parent::System => Ok(Delivery { to: system_sender(), envelope: env }),
            Parent::Supervisor(supervisor) => Ok(supervisor.send(env)),
            Parent::Children(children) => Ok(children.send(env)),
        }
    }
}

/// The sending half of the system's mailbox: the one at the empty path.
pub fn system_sender() -> (sender: Sender)
    ensures
        sender.target@ == Seq::<QuipPathElement>::empty(),
{
    Sender::new(Arc::new(QuipPath::root()))
}

/// Whether `deliveries` puts `env` into the mailbox of each child of
/// `order`, in that order.
pub open spec fn fans_out_in(
    deliveries: Seq<Delivery>,
    order: Seq<QuipId>,
    children: Map<QuipId, Sender>,
    env: Envelope,
) -> bool {
    &&& order.no_duplicates()
    &&& forall|id: QuipId| order.contains(id) <==> children.contains_key(id)
    &&& deliveries == Seq::new(
        order.len(),
        |i: int| Delivery { to: children[order[i]], envelope: env },
    )
}

/// Whether `deliveries` puts `env` into the mailbox of each of the
/// children once, and does nothing else. The order among the children is
/// open.
pub open spec fn fans_out(deliveries: Seq<Delivery>, children: Map<QuipId, Sender>, env: Envelope)
    -> bool {
    exists|order: Seq<QuipId>| #[trigger] fans_out_in(deliveries, order, children, env)
}

/// What a parent sends down: `env` to each child once where the envelope
/// may be copied, nothing where it may not.
pub open spec fn sent_to_children(
    deliveries: Seq<Delivery>,
    children: Map<QuipId, Sender>,
    env: Envelope,
) -> bool {
    if env.msg.cloneable() {
        fans_out(deliveries, children, env)
    } else {
        deliveries.len() == 0
    }
}

/// A mailbox as its owner holds it: the sending half, the owner's path,
/// the parent, and the sending halves of the children registered with it.
#[derive(Debug)]
pub struct Broadcast {
    own: Own,
    parent: Parent,
    children: FxHashMap<u128, Sender>,
}

/// The owner's path and the sending half of the mailbox at that path.
#[derive(Debug)]
struct Own {
    sender: Sender,
    path: Arc<QuipPath>,
}

impl Own {
    #[verifier::type_invariant]
    spec fn inv(&self) -> bool {
        self.sender.target == self.path
    }

    fn at(path: QuipPath) -> (own: Own)
        ensures
            own.path == path,
            own.sender.target == path,
    {
        let path = Arc::new(path);
        Own { sender: Sender::new(share(&path)), path }
    }
}

impl Broadcast {
    /// The owner's path.
    pub closed spec fn address(&self) -> Arc<QuipPath> {
        self.own.path
    }

    /// The owner's parent.
    pub closed spec fn owner(&self) -> Parent {
        self.parent
    }

    /// The sending half of the mailbox.
    pub closed spec fn mailbox(&self) -> Sender {
        self.own.sender
    }

    /// The registered children: the sending half of each one's mailbox,
    /// by the child's identifier.
    pub closed spec fn children(&self) -> Map<QuipId, Sender> {
        Map::new(|id: QuipId| self.children@.contains_key(id.0), |id: QuipId| self.children@[id.0])
    }

    /// The owner's identifier.
    pub open spec fn ident(&self) -> QuipId {
        if self.address()@.len() == 0 {
            crate::id::nil_id()
        } else {
            self.address()@.last().ident()
        }
    }

    /// The signature of the owner.
    pub open spec fn signature(&self) -> crate::envelope::RefAddr {
        crate::envelope::RefAddr { path: self.address(), sender: self.mailbox() }
    }

    /// The envelope with `msg`, signed by the owner.
    pub open spec fn signed(&self, msg: QuipMessage) -> Envelope {
        Envelope { msg, sign: self.signature() }
    }

    /// The mailbox of an element `element` below `parent`, with no
    /// children registered. The element must be one that may stand there
    /// (see [`Parent::accepts`]).
    pub fn new(parent: Parent, element: QuipPathElement) -> (bcast: Self)
        requires
            may_follow(last_of(parent.chain()), element),
        ensures
            bcast.address()@ == parent.chain().push(element),
            bcast.mailbox().target == bcast.address(),
            bcast.owner() == parent,
            bcast.children() == Map::<QuipId, Sender>::empty(),
    {
        let parent_path: QuipPath = match &parent {
            Parent::Nobody => QuipPath::root(),
            Parent::System => QuipPath::root(),
            Parent::Supervisor(sv_ref) => QuipPath::clone(&sv_ref.path),
            Parent::Children(ch_ref) => QuipPath::clone(&ch_ref.path),
        };
        let path = match parent_path.append(element) {
            Ok(path) => path,
            Err(e) => e.into_path(),
        };
        let bcast = Broadcast { parent, own: Own::at(path), children: table_new() };
        assert(bcast.children() == Map::<QuipId, Sender>::empty());
        bcast
    }

    /// The mailbox of the system: at the empty path, with no children
    /// registered. Its parent is the system or nobody.
    pub fn new_root(parent: Parent) -> (bcast: Self)
        requires
            parent is Nobody || parent is System,
        ensures
            bcast.address()@ == Seq::<QuipPathElement>::empty(),
            bcast.mailbox().target == bcast.address(),
            bcast.owner() == parent,
            bcast.children() == Map::<QuipId, Sender>::empty(),
    {
        let bcast = Broadcast { parent, own: Own::at(QuipPath::root()), children: table_new() };
        assert(bcast.children() == Map::<QuipId, Sender>::empty());
        bcast
    }

    /// The owner's identifier: that of the last element of its path, the
    /// reserved one for the system.
    pub fn id(&self) -> (id: &QuipId)
        ensures
            *id == self.ident(),
    {
        self.own.path.id()
    }

    /// The sending half of the mailbox. It is the one at the owner's path.
    pub fn sender(&self) -> (sender: &Sender)
        ensures
            *sender == self.mailbox(),
            sender.target == self.address(),
    {
        proof {
            use_type_invariant(&self.own);
        }
        &self.own.sender
    }

    /// The owner's path.
    pub fn path(&self) -> (path: &Arc<QuipPath>)
        ensures
            *path == self.address(),
    {
        &self.own.path
    }

    /// The owner's parent.
    pub fn parent(&self) -> (parent: &Parent)
        ensures
            *parent == self.owner(),
    {
        &self.parent
    }

    /// Registers `child`: from now on what is sent to the children reaches
    /// it too. A child registered before under the same identifier is
    /// replaced.
    pub fn register(&mut self, child: &Self)
        ensures
            final(self).children() == old(self).children().insert(child.ident(), child.mailbox()),
            final(self).address() == old(self).address(),
            final(self).mailbox() == old(self).mailbox(),
            final(self).owner() == old(self).owner(),
    {
        let id = *child.id();
        let _ = table_insert(&mut self.children, id.0, child.own.sender.clone());
        assert(self.children() =~= old(self).children().insert(child.ident(), child.mailbox()));
    }

    /// Takes the child with the identifier out of the table, if it is
    /// there.
    pub fn unregister(&mut self, id: &QuipId)
        ensures
            final(self).children() == old(self).children().remove(*id),
            final(self).address() == old(self).address(),
            final(self).mailbox() == old(self).mailbox(),
            final(self).owner() == old(self).owner(),
    {
        let _ = table_remove(&mut self.children, id.0);
        assert(self.children() =~= old(self).children().remove(*id));
    }

    /// Takes every child out of the table.
    pub fn clear_children(&mut self)
        ensures
            final(self).children() == Map::<QuipId, Sender>::empty(),
            final(self).address() == old(self).address(),
            final(self).mailbox() == old(self).mailbox(),
            final(self).owner() == old(self).owner(),
    {
        table_clear(&mut self.children);
        assert(self.children() =~= Map::<QuipId, Sender>::empty());
    }

    /// The envelope with `msg`, signed by the owner.
    pub fn sign(&self, msg: QuipMessage) -> (env: Envelope)
        ensures
            env == self.signed(msg),
    {
        Envelope::new(msg, share(&self.own.path), self.own.sender.clone())
    }

    /// The delivery that asks the child to stop; then the child is taken
    /// out of the table. `None` where no such child is registered.
    pub fn stop_child(&mut self, id: &QuipId) -> (d: Option<Delivery>)
        ensures
            d == old(self).to_child(*id, old(self).signed(QuipMessage::Stop)),
            final(self).children() == old(self).children().remove(*id),
            final(self).address() == old(self).address(),
            final(self).mailbox() == old(self).mailbox(),
            final(self).owner() == old(self).owner(),
    {
        let env = self.sign(QuipMessage::stop());
        let d = self.send_child(id, env);
        self.unregister(id);
        d
    }

    /// The deliveries that ask every child to stop; then the table is
    /// emptied.
    pub fn stop_children(&mut self) -> (deliveries: Vec<Delivery>)
        ensures
            fans_out(deliveries@, old(self).children(), old(self).signed(QuipMessage::Stop)),
            final(self).children() == Map::<QuipId, Sender>::empty(),
            final(self).address() == old(self).address(),
            final(self).mailbox() == old(self).mailbox(),
            final(self).owner() == old(self).owner(),
    {
        let env = self.sign(QuipMessage::stop());
        let deliveries = self.send_children(env);
        self.clear_children();
        deliveries
    }

    /// The delivery that kills the child; then the child is taken out of
    /// the table. `None` where no such child is registered.
    pub fn kill_child(&mut self, id: &QuipId) -> (d: Option<Delivery>)
        ensures
            d == old(self).to_child(*id, old(self).signed(QuipMessage::Kill)),
            final(self).children() == old(self).children().remove(*id),
            final(self).address() == old(self).address(),
            final(self).mailbox() == old(self).mailbox(),
            final(self).owner() == old(self).owner(),
    {
        let env = self.sign(QuipMessage::kill());
        let d = self.send_child(id, env);
        self.unregister(id);
        d
    }

    /// The deliveries that kill every child; then the table is emptied.
    pub fn kill_children(&mut self) -> (deliveries: Vec<Delivery>)
        ensures
            fans_out(deliveries@, old(self).children(), old(self).signed(QuipMessage::Kill)),
            final(self).children() == Map::<QuipId, Sender>::empty(),
            final(self).address() == old(self).address(),
            final(self).mailbox() == old(self).mailbox(),
            final(self).owner() == old(self).owner(),
    {
        let env = self.sign(QuipMessage::kill());
        let deliveries = self.send_children(env);
        self.clear_children();
        deliveries
    }

    /// What the owner sends when it has stopped: first every child is
    /// asked to stop and taken out of the table, then the parent, if
    /// there is one, is told that the owner stopped.
    pub fn stopped(&mut self) -> (deliveries: Vec<Delivery>)
        ensures
            old(self).terminates_with(
                deliveries@,
                QuipMessage::Stop,
                QuipMessage::Stopped { id: old(self).ident() },
            ),
            final(self).children() == Map::<QuipId, Sender>::empty(),
            final(self).address() == old(self).address(),
            final(self).mailbox() == old(self).mailbox(),
            final(self).owner() == old(self).owner(),
    {
        let mut deliveries = self.stop_children();
        let ghost down = deliveries@;
        let env = self.sign(QuipMessage::stopped(*self.id()));
        match self.send_parent(env) {
            Ok(d) => {
                deliveries.push(d);
                assert(deliveries@.drop_last() == down);
            },
            Err(_) => {},
        }
        deliveries
    }

    /// What the owner sends when it has faulted: first every child is
    /// killed and taken out of the table, then the parent, if there is
    /// one, is told that the owner faulted.
    pub fn faulted(&mut self) -> (deliveries: Vec<Delivery>)
        ensures
            old(self).terminates_with(
                deliveries@,
                QuipMessage::Kill,
                QuipMessage::Faulted { id: old(self).ident() },
            ),
            final(self).children() == Map::<QuipId, Sender>::empty(),
            final(self).address() == old(self).address(),
            final(self).mailbox() == old(self).mailbox(),
            final(self).owner() == old(self).owner(),
    {
        let mut deliveries = self.kill_children();
        let ghost down = deliveries@;
        let env = self.sign(QuipMessage::faulted(*self.id()));
        match self.send_parent(env) {
            Ok(d) => {
                deliveries.push(d);
                assert(deliveries@.drop_last() == down);
            },
            Err(_) => {},
        }
        deliveries
    }

    /// Whether `deliveries` is what the owner sends at its end: `down`,
    /// signed by the owner, to each child once, and then `up`, signed by
    /// the owner, to the parent where there is one.
    pub open spec fn terminates_with(
        &self,
        deliveries: Seq<Delivery>,
        down: QuipMessage,
        up: QuipMessage,
    ) -> bool {
        if self.owner() is Nobody {
            fans_out(deliveries, self.children(), self.signed(down))
        } else {
            &&& deliveries.len() > 0
            &&& fans_out(deliveries.drop_last(), self.children(), self.signed(down))
            &&& self.owner().receives(deliveries.last(), self.signed(up))
        }
    }

    /// The delivery that puts `envelope` into the parent's mailbox. Where
    /// the owner has no parent the envelope comes back.
    pub fn send_parent(&self, envelope: Envelope) -> (res: Result<Delivery, Envelope>)
        ensures
            res is Err <==> self.owner() is Nobody,
            res is Err ==> res->Err_0 == envelope,
            res is Ok ==> self.owner().receives(res->Ok_0, envelope),
    {
        self.parent.send(envelope)
    }

    /// What [`Broadcast::send_child`] returns.
    pub open spec fn to_child(&self, id: QuipId, envelope: Envelope) -> Option<Delivery> {
        if self.children().contains_key(id) {
            Some(Delivery { to: self.children()[id], envelope })
        } else {
            None
        }
    }

    /// The delivery that puts `envelope` into the mailbox of the child
    /// with the identifier; `None` where no such child is registered.
    pub fn send_child(&self, id: &QuipId, envelope: Envelope) -> (d: Option<Delivery>)
        ensures
            d == self.to_child(*id, envelope),
    {
        match table_get(&self.children, id.0) {
            Some(child) => Some(Delivery { to: child.clone(), envelope }),
            None => None,
        }
    }

    /// The deliveries that put a copy of `env` into the mailbox of each
    /// registered child. An envelope that may not be copied reaches
    /// nobody.
    pub fn send_children(&self, env: Envelope) -> (deliveries: Vec<Delivery>)
        ensures
            sent_to_children(deliveries@, self.children(), env),
    {
        let entries = table_entries(&self.children);
        let ghost listed = Seq::new(entries@.len(), |i: int| (entries@[i].0, *entries@[i].1));
        let ghost order = Seq::new(entries@.len(), |i: int| QuipId(entries@[i].0));
        let mut deliveries: Vec<Delivery> = Vec::new();
        let mut i: usize = 0;
        while i < entries.len()
            invariant
                i <= entries.len(),
                env.msg.cloneable() ==> deliveries@.len() == i,
                !env.msg.cloneable() ==> deliveries@.len() == 0,
                forall|j: int|
                    0 <= j < deliveries@.len() ==> #[trigger] deliveries@[j] == (Delivery {
                        to: *entries@[j].1,
                        envelope: env,
                    }),
            decreases entries.len() - i,
        {
            match env.try_clone() {
                Some(copy) => {
                    deliveries.push(Delivery { to: entries[i].1.clone(), envelope: copy });
                },
                None => {},
            }
            i += 1;
        }
        proof {
            if env.msg.cloneable() {
                let children = self.children();
                assert forall|a: int, b: int|
                    0 <= a < order.len() && 0 <= b < order.len() && a != b implies order[a]
                    != order[b] by {
                    if a < b {
                        assert(listed[a].0 != listed[b].0);
                    } else {
                        assert(listed[b].0 != listed[a].0);
                    }
                }
                assert forall|id: QuipId| order.contains(id) <==> children.contains_key(id) by {
                    if order.contains(id) {
                        let k = choose|k: int| 0 <= k < order.len() && order[k] == id;
                        assert(self.children@.contains_key(listed[k].0));
                    }
                    if children.contains_key(id) {
                        let k = choose|k: int| 0 <= k < listed.len() && listed[k].0 == id.0;
                        assert(order[k] == id);
                    }
                }
                assert(deliveries@ =~= Seq::new(
                    order.len(),
                    |i: int| Delivery { to: children[order[i]], envelope: env },
                )) by {
                    assert forall|j: int| 0 <= j < order.len() implies deliveries@[j] == (Delivery {
                        to: children[order[j]],
                        envelope: env,
                    }) by {
                        assert(self.children@[listed[j].0] == listed[j].1);
                    }
                }
                assert(fans_out_in(deliveries@, order, children, env));
            }
        }
        deliveries
    }

    /// The delivery that puts `env` into the owner's own mailbox.
    pub fn send_self(&self, env: Envelope) -> (d: Delivery)
        ensures
            d == (Delivery { to: self.mailbox(), envelope: env }),
    {
        Delivery { to: self.own.sender.clone(), envelope: env }
    }
}

/// What is sent to the children reaches every registered child, and each
/// of them once: among the deliveries there is one, and only one, into
/// the child's mailbox as it is registered under the child's identifier,
/// and there are as many deliveries as the order lists children.
pub proof fn lemma_fan_out_reaches_each_once(
    deliveries: Seq<Delivery>,
    order: Seq<QuipId>,
    children: Map<QuipId, Sender>,
    env: Envelope,
    id: QuipId,
)
    requires
        fans_out_in(deliveries, order, children, env),
        children.contains_key(id),
    ensures
        deliveries.len() == order.len(),
        exists|i: int|
            0 <= i < deliveries.len() && order[i] == id && #[trigger] deliveries[i] == (Delivery {
                to: children[id],
                envelope: env,
            }),
        forall|i: int, j: int|
            0 <= i < order.len() && 0 <= j < order.len() && order[i] == id && order[j] == id ==> i
                == j,
{
    assert(order.contains(id));
    let at = choose|at: int| 0 <= at < order.len() && order[at] == id;
    assert(deliveries[at] == (Delivery { to: children[id], envelope: env }));
}

/// Once the children were asked to stop or were killed, nothing the
/// owner sends down reaches a mailbox any more.
pub proof fn lemma_nothing_reaches_cleared_children(deliveries: Seq<Delivery>, env: Envelope)
    requires
        sent_to_children(deliveries, Map::<QuipId, Sender>::empty(), env),
    ensures
        deliveries.len() == 0,
{
    if env.msg.cloneable() {
        let order = choose|order: Seq<QuipId>| #[trigger]
            fans_out_in(deliveries, order, Map::<QuipId, Sender>::empty(), env);
        if order.len() > 0 {
            assert(order.contains(order[0]));
        }
    }
}

} // verus!
