//! Supervisors: how they are addressed and which rules they apply when
//! one of the elements they supervise terminates.

use crate::broadcast::{fans_out, sent_to_children, Broadcast, Delivery, Parent, Sender};
use crate::children::{launches, reset_as, Children};
use crate::children_ref::ChildrenRef;
use crate::envelope::{Envelope, RefAddr};
use crate::id::{nil_id, QuipId};
use crate::message::{CallbackType, Deployment, Payload, QuipMessage, StateHandle};
use crate::path::{last_of, share, QuipPath, QuipPathElement};
use crate::restart::{
    affected, after_request, at_time, back_off, grants, ActorRestartStrategy, RestartTracker,
    Restarts,
};
use crate::table::{
    by_id, ids_of, move_all, set_contains, set_insert, set_is_empty, set_new, set_remove, table_get,
    table_insert, table_new, table_remove,
};
use fxhash::{FxHashMap, FxHashSet};
use std::sync::Arc;
use vstd::prelude::*;

verus! {

/// Which of the supervised elements are restarted when one of them
/// terminates.
#[derive(Clone, Copy, Debug, PartialEq, Eq, Structural)]
pub enum SupervisionStrategy {
    /// Only the element that terminated.
    OneForOne,
    /// Every element.
    OneForAll,
    /// The element that terminated and those registered after it.
    RestForOne,
}

/// A capability to talk to a supervisor: its identifier, its path and the
/// sending half of its mailbox. It owns nothing of the supervisor.
#[derive(Debug, PartialEq, Eq)]
pub struct SupervisorRef {
    pub id: QuipId,
    pub sender: Sender,
    pub path: Arc<QuipPath>,
}

impl Clone for SupervisorRef {
    fn clone(&self) -> (copy: Self)
        ensures
            copy == *self,
    {
        SupervisorRef { id: self.id, sender: self.sender.clone(), path: share(&self.path) }
    }
}

impl SupervisorRef {
    /// A reference made of the three parts.
    pub fn new(id: QuipId, sender: Sender, path: Arc<QuipPath>) -> (sv: Self)
        ensures
            sv == (SupervisorRef { id, sender, path }),
    {
        SupervisorRef { id, sender, path }
    }

    /// The supervisor's identifier.
    pub fn id(&self) -> (id: &QuipId)
        ensures
            *id == self.id,
    {
        &self.id
    }

    /// The supervisor's path.
    pub fn path(&self) -> (path: &Arc<QuipPath>)
        ensures
            *path == self.path,
    {
        &self.path
    }

    /// The sending half of the supervisor's mailbox.
    pub fn sender(&self) -> (sender: &Sender)
        ensures
            *sender == self.sender,
    {
        &self.sender
    }

    /// The delivery that puts `env` into the supervisor's mailbox.
    pub fn send(&self, env: Envelope) -> (d: Delivery)
        ensures
            d == (Delivery { to: self.sender, envelope: env }),
    {
        Delivery { to: self.sender.clone(), envelope: env }
    }

    /// The supervisor's signature.
    pub open spec fn signature(&self) -> RefAddr {
        RefAddr { path: self.path, sender: self.sender }
    }

    /// Whether the path of the reference is that of a supervisor.
    pub open spec fn wf(&self) -> bool {
        last_of(self.path@) is Some && last_of(self.path@)->0 is Supervisor
    }

    /// Whether the path of the reference is that of a supervisor.
    pub fn is_wf(&self) -> (b: bool)
        ensures
            b == self.wf(),
    {
        match self.path.elem() {
            Some(QuipPathElement::Supervisor(_)) => true,
            _ => false,
        }
    }

    /// Whether `fresh` is a group as [`SupervisorRef::children_with_id`]
    /// makes it before it is configured: below the supervisor, under the
    /// identifier, with nothing registered.
    pub open spec fn begets(&self, id: QuipId, fresh: Children) -> bool {
        &&& fresh.bcast.address()@ == self.path@.push(QuipPathElement::Children(id))
        &&& fresh.bcast.mailbox().target == fresh.bcast.address()
        &&& fresh.bcast.owner() == Parent::Supervisor(*self)
        &&& fresh.bcast.children() == Map::<QuipId, Sender>::empty()
        &&& fresh.redundancy == 1
        &&& fresh.name is None
        &&& fresh.dispatchers@.len() == 0
        &&& fresh.distributors@.len() == 0
        &&& fresh.heartbeat_tick == crate::children::DEFAULT_HEARTBEAT_TICK
        &&& fresh.launched@.len() == 0
        &&& fresh.faulted@.len() == 0
        &&& !fresh.started
        &&& fresh.pre_start_msgs@.len() == 0
        &&& !fresh.terminated
    }

    /// Whether `d` hands the supervisor the group `group` to deploy,
    /// signed by the supervisor itself.
    pub open spec fn is_handed(&self, d: Delivery, group: Children) -> bool {
        &&& d.to == self.sender
        &&& d.envelope.sign == self.signature()
        &&& d.envelope.msg == QuipMessage::Deploy(Deployment::Children(group))
    }

    /// Makes a children group under the given identifier below the
    /// supervisor, lets `init` configure it, launches its children, and
    /// hands it to the supervisor. The result is a reference to the
    /// group, the mailboxes of its children, and the delivery that hands
    /// the group over.
    pub fn children_with_id<C: FnOnce(Children) -> Children>(&self, id: QuipId, init: C) -> (res: (
        ChildrenRef,
        Vec<Broadcast>,
        Delivery,
    ))
        requires
            self.wf(),
            forall|fresh: Children| fresh.wf() ==> init.requires((fresh,)),
            forall|fresh: Children, configured: Children|
                fresh.wf() && init.ensures((fresh,), configured) ==> configured.wf(),
        ensures
            res.2.envelope.msg is Deploy,
            res.2.envelope.msg->Deploy_0 is Children,
            ({
                let group = res.2.envelope.msg->Deploy_0->Children_0;
                &&& self.is_handed(res.2, group)
                &&& group.refers(res.0)
                &&& exists|fresh: Children, configured: Children|
                    self.begets(id, fresh) && #[trigger] init.ensures((fresh,), configured)
                        && launches(configured, group, res.1@)
            }),
    {
        let parent = Parent::supervisor(self.clone());
        let bcast = Broadcast::new(parent, QuipPathElement::Children(id));
        let fresh = Children::new(bcast);
        let ghost fresh_spec = fresh;
        assert(fresh.bcast.address()@.last() == QuipPathElement::Children(id));
        assert(fresh.wf());
        assert(init.requires((fresh,)));
        let mut children = init(fresh);
        let ghost configured = children;
        let mailboxes = children.launch_elems();
        let children_ref = children.as_ref();
        let msg = QuipMessage::deploy_children(children);
        let env = Envelope::new(msg, share(&self.path), self.sender.clone());
        let d = self.send(env);
        assert(self.begets(id, fresh_spec) && init.ensures((fresh_spec,), configured) && launches(
            configured,
            children,
            mailboxes@,
        ));
        (children_ref, mailboxes, d)
    }

    /// Like [`SupervisorRef::children_with_id`], under a fresh identifier,
    /// which is not the reserved one.
    pub fn children<C: FnOnce(Children) -> Children>(&self, init: C) -> (res: (
        ChildrenRef,
        Vec<Broadcast>,
        Delivery,
    ))
        requires
            self.wf(),
            forall|fresh: Children| fresh.wf() ==> init.requires((fresh,)),
            forall|fresh: Children, configured: Children|
                fresh.wf() && init.ensures((fresh,), configured) ==> configured.wf(),
        ensures
            res.2.envelope.msg is Deploy,
            res.2.envelope.msg->Deploy_0 is Children,
            ({
                let group = res.2.envelope.msg->Deploy_0->Children_0;
                &&& self.is_handed(res.2, group)
                &&& group.refers(res.0)
                &&& exists|id: QuipId, fresh: Children, configured: Children|
                    id != crate::id::nil_id() && #[trigger] self.begets(id, fresh)
                        && #[trigger] init.ensures((fresh,), configured) && launches(
                        configured,
                        group,
                        res.1@,
                    )
            }),
    {
        let id = QuipId::new();
        let res = self.children_with_id(id, init);
        proof {
            let group = res.2.envelope.msg->Deploy_0->Children_0;
            let (fresh, configured) = choose|fresh: Children, configured: Children|
                self.begets(id, fresh) && #[trigger] init.ensures((fresh,), configured) && launches(
                    configured,
                    group,
                    res.1@,
                );
            assert(id != crate::id::nil_id() && self.begets(id, fresh) && init.ensures(
                (fresh,),
                configured,
            ) && launches(configured, group, res.1@));
        }
        res
    }

    /// The delivery that puts `msg` before every element the supervisor
    /// supervises, signed by the dead-letters group.
    pub fn broadcast(&self, msg: Payload) -> (d: Delivery)
        ensures
            d.to == self.sender,
            d.envelope.msg == QuipMessage::broadcast_spec(msg),
            d.envelope.sign.is_dead_letters_group(),
    {
        let msg = QuipMessage::broadcast(msg);
        let env = Envelope::from_dead_letters(msg);
        self.send(env)
    }

    /// The delivery that asks the supervisor to stop, signed by the
    /// dead-letters group.
    pub fn stop(&self) -> (d: Delivery)
        ensures
            d.to == self.sender,
            d.envelope.msg == QuipMessage::Stop,
            d.envelope.sign.is_dead_letters_group(),
    {
        let msg = QuipMessage::stop();
        let env = Envelope::from_dead_letters(msg);
        self.send(env)
    }

    /// The delivery that kills the supervisor, signed by the dead-letters
    /// group.
    pub fn kill(&self) -> (d: Delivery)
        ensures
            d.to == self.sender,
            d.envelope.msg == QuipMessage::Kill,
            d.envelope.sign.is_dead_letters_group(),
    {
        let msg = QuipMessage::kill();
        let env = Envelope::from_dead_letters(msg);
        self.send(env)
    }
}

/// Whether a supervisor restarts an element that terminated.
#[derive(Clone, Copy, Debug, PartialEq, Eq, Structural)]
pub enum RestartPolicy {
    /// Every time.
    Always,
    /// Never.
    Never,
    /// As long as it was not yet restarted the given number of times.
    Tries(usize),
}

/// Where a supervisor stands in its life.
#[derive(Clone, Copy, Debug, PartialEq, Eq, Structural)]
pub enum SupervisorPhase {
    /// Made, not yet started.
    Init,
    /// It takes envelopes and supervises.
    Started,
    /// It waits for elements to terminate that it will launch again.
    Restarting,
    /// It was asked to stop, or gave up restarting, and waits for its
    /// elements to terminate.
    Stopping,
    /// It exhausted its restarts and waits for its elements to terminate.
    Faulting,
    /// It has terminated.
    Terminated,
}

/// Something a supervisor supervises.
#[derive(Debug)]
pub enum Supervised {
    Supervisor(Supervisor),
    Children(Children),
}

impl Supervised {
    /// The element's mailbox.
    pub open spec fn mail(&self) -> Broadcast {
        match *self {
            Supervised::Supervisor(sv) => sv.mail(),
            Supervised::Children(group) => group.bcast,
        }
    }

    /// The element's identifier.
    pub open spec fn ident(&self) -> QuipId {
        self.mail().ident()
    }

    /// The element's identifier.
    pub fn id(&self) -> (id: QuipId)
        ensures
            id == self.ident(),
    {
        match self {
            Supervised::Supervisor(sv) => sv.id(),
            Supervised::Children(group) => group.id(),
        }
    }

    /// The element's mailbox.
    pub fn bcast(&self) -> (bcast: &Broadcast)
        ensures
            *bcast == self.mail(),
    {
        match self {
            Supervised::Supervisor(sv) => sv.bcast(),
            Supervised::Children(group) => group.bcast(),
        }
    }
}

/// A supervisor: its mailbox, its rules, and what it knows of the
/// elements it supervises.
#[derive(Debug)]
pub struct Supervisor {
    bcast: Broadcast,
    strategy: SupervisionStrategy,
    restart_policy: RestartPolicy,
    restart_strategy: ActorRestartStrategy,
    window: Option<u64>,
    order: Vec<QuipId>,
    launched: FxHashSet<u128>,
    waiting: FxHashSet<u128>,
    plan: Vec<QuipId>,
    back: Vec<Supervised>,
    states: FxHashMap<u128, StateHandle>,
    counters: FxHashMap<u128, RestartTracker>,
    pre_start_msgs: Vec<Envelope>,
    phase: SupervisorPhase,
}

/// What a supervisor knows of the elements it supervises.
#[verifier::ext_equal]
pub struct Supervision {
    /// The elements, in the order of their registration.
    pub order: Seq<QuipId>,
    /// The elements that run.
    pub launched: Set<QuipId>,
    /// The elements whose termination is awaited.
    pub waiting: Set<QuipId>,
    /// The elements that are launched again once they have all
    /// terminated, in the order in which they will be.
    pub plan: Seq<QuipId>,
    /// The elements that have terminated and wait to be launched again.
    pub back: Seq<Supervised>,
    /// The state of each child of which the supervisor was told.
    pub states: Map<QuipId, StateHandle>,
    /// The count of restarts for each state.
    pub counters: Map<StateHandle, Restarts>,
    /// The envelopes that wait to be handled, oldest first.
    pub buffered: Seq<Envelope>,
    /// Where the supervisor stands.
    pub phase: SupervisorPhase,
}

/// The counts, by state.
pub open spec fn by_state(table: Map<u128, RestartTracker>) -> Map<StateHandle, Restarts> {
    Map::new(|state: StateHandle| table.contains_key(state.0.0), |state: StateHandle| table[state.0.0]@)
}

/// What a supervisor knows when it knows nothing yet.
pub open spec fn nothing_supervised() -> Supervision {
    Supervision {
        order: Seq::empty(),
        launched: Set::empty(),
        waiting: Set::empty(),
        plan: Seq::empty(),
        back: Seq::empty(),
        states: Map::empty(),
        counters: Map::empty(),
        buffered: Seq::empty(),
        phase: SupervisorPhase::Init,
    }
}

impl View for Supervisor {
    type V = Supervision;

    closed spec fn view(&self) -> Supervision {
        Supervision {
            order: self.order@,
            launched: ids_of(self.launched@),
            waiting: ids_of(self.waiting@),
            plan: self.plan@,
            back: self.back@,
            states: by_id(self.states@),
            counters: by_state(self.counters@),
            buffered: self.pre_start_msgs@,
            phase: self.phase,
        }
    }
}

/// Whether two supervisors have the same mailbox address, parent and
/// rules.
pub open spec fn same_rules(a: Supervisor, b: Supervisor) -> bool {
    &&& a.mail().address() == b.mail().address()
    &&& a.mail().mailbox() == b.mail().mailbox()
    &&& a.mail().owner() == b.mail().owner()
    &&& a.strategy_spec() == b.strategy_spec()
    &&& a.policy_spec() == b.policy_spec()
    &&& a.back_off_spec() == b.back_off_spec()
    &&& a.window_spec() == b.window_spec()
}

impl Supervisor {
    /// The supervisor's mailbox.
    pub closed spec fn mail(&self) -> Broadcast {
        self.bcast
    }

    /// Which elements the supervisor restarts when one terminates.
    pub closed spec fn strategy_spec(&self) -> SupervisionStrategy {
        self.strategy
    }

    /// Whether the supervisor restarts what terminated.
    pub closed spec fn policy_spec(&self) -> RestartPolicy {
        self.restart_policy
    }

    /// How long the supervisor waits before it restarts a child.
    pub closed spec fn back_off_spec(&self) -> ActorRestartStrategy {
        self.restart_strategy
    }

    /// The length of the window in which the restarts of a child are
    /// counted; `None`: they are counted for ever.
    pub closed spec fn window_spec(&self) -> Option<u64> {
        self.window
    }

    /// The supervisor's identifier.
    pub open spec fn ident(&self) -> QuipId {
        self.mail().ident()
    }

    /// Whether the supervisor is one that can run: its path is that of a
    /// supervisor, and it stands below the system or a supervisor.
    pub open spec fn wf(&self) -> bool {
        &&& last_of(self.mail().address()@) is Some
        &&& last_of(self.mail().address()@)->0 is Supervisor
        &&& self.mail().owner() is System || self.mail().owner() is Supervisor
    }

    /// Whether the supervisor is one that can run.
    pub fn is_wf(&self) -> (b: bool)
        ensures
            b == self.wf(),
    {
        let below = match self.bcast.parent() {
            Parent::System => true,
            Parent::Supervisor(_) => true,
            _ => false,
        };
        let here = match self.bcast.path().elem() {
            Some(QuipPathElement::Supervisor(_)) => true,
            _ => false,
        };
        below && here
    }

    /// A supervisor with the mailbox, which restarts only the element
    /// that terminated, every time and at once, and knows of no element
    /// yet.
    pub fn new(bcast: Broadcast) -> (sv: Self)
        ensures
            sv.mail() == bcast,
            sv.strategy_spec() == SupervisionStrategy::OneForOne,
            sv.policy_spec() == RestartPolicy::Always,
            sv.back_off_spec() == ActorRestartStrategy::Immediate,
            sv.window_spec() is None,
            sv@ == nothing_supervised(),
    {
        let sv = Supervisor {
            bcast,
            strategy: SupervisionStrategy::OneForOne,
            restart_policy: RestartPolicy::Always,
            restart_strategy: ActorRestartStrategy::Immediate,
            window: None,
            order: Vec::new(),
            launched: set_new(),
            waiting: set_new(),
            plan: Vec::new(),
            back: Vec::new(),
            states: table_new(),
            counters: table_new(),
            pre_start_msgs: Vec::new(),
            phase: SupervisorPhase::Init,
        };
        assert(sv@ =~= nothing_supervised());
        sv
    }

    /// The root supervisor: like [`Supervisor::new`].
    pub fn system(bcast: Broadcast) -> (sv: Self)
        ensures
            sv.mail() == bcast,
            sv.strategy_spec() == SupervisionStrategy::OneForOne,
            sv.policy_spec() == RestartPolicy::Always,
            sv.back_off_spec() == ActorRestartStrategy::Immediate,
            sv.window_spec() is None,
            sv@ == nothing_supervised(),
    {
        Supervisor::new(bcast)
    }

    /// The same supervisor with another strategy.
    pub fn with_strategy(self, strategy: SupervisionStrategy) -> (sv: Self)
        ensures
            sv.mail() == self.mail(),
            sv.strategy_spec() == strategy,
            sv.policy_spec() == self.policy_spec(),
            sv.back_off_spec() == self.back_off_spec(),
            sv.window_spec() == self.window_spec(),
            sv@ == self@,
    {
        let mut sv = self;
        sv.strategy = strategy;
        sv
    }

    /// The same supervisor with another restart policy.
    pub fn with_restart_policy(self, restart_policy: RestartPolicy) -> (sv: Self)
        ensures
            sv.mail() == self.mail(),
            sv.strategy_spec() == self.strategy_spec(),
            sv.policy_spec() == restart_policy,
            sv.back_off_spec() == self.back_off_spec(),
            sv.window_spec() == self.window_spec(),
            sv@ == self@,
    {
        let mut sv = self;
        sv.restart_policy = restart_policy;
        sv
    }

    /// The same supervisor with another wait before restarts, and
    /// another window in which they are counted.
    pub fn with_restart_strategy(self, strategy: ActorRestartStrategy, window: Option<u64>) -> (sv:
        Self)
        ensures
            sv.mail() == self.mail(),
            sv.strategy_spec() == self.strategy_spec(),
            sv.policy_spec() == self.policy_spec(),
            sv.back_off_spec() == strategy,
            sv.window_spec() == window,
            sv@ == self@,
    {
        let mut sv = self;
        sv.restart_strategy = strategy;
        sv.window = window;
        sv
    }

    /// The supervisor's identifier.
    pub fn id(&self) -> (id: QuipId)
        ensures
            id == self.ident(),
    {
        *self.bcast.id()
    }

    /// The supervisor's mailbox.
    pub fn bcast(&self) -> (bcast: &Broadcast)
        ensures
            *bcast == self.mail(),
    {
        &self.bcast
    }

    /// Which elements the supervisor restarts when one terminates.
    pub fn strategy(&self) -> (strategy: SupervisionStrategy)
        ensures
            strategy == self.strategy_spec(),
    {
        self.strategy
    }

    /// Whether the supervisor restarts what terminated.
    pub fn restart_policy(&self) -> (policy: RestartPolicy)
        ensures
            policy == self.policy_spec(),
    {
        self.restart_policy
    }

    /// Where the supervisor stands.
    pub fn phase(&self) -> (phase: SupervisorPhase)
        ensures
            phase == self@.phase,
    {
        self.phase
    }

    /// A reference to the supervisor.
    pub fn as_ref(&self) -> (sv: SupervisorRef)
        ensures
            sv.id == self.ident(),
            sv.sender == self.mail().mailbox(),
            sv.path == self.mail().address(),
    {
        SupervisorRef::new(*self.bcast.id(), self.bcast.sender().clone(), share(self.bcast.path()))
    }

    /// Prepares the supervisor for another run: with a new mailbox where
    /// one is given, with its old one where none is. Its rules stay; what
    /// it knew of its elements is forgotten.
    pub fn reset(&mut self, bcast: Option<Broadcast>)
        ensures
            final(self).mail() == match bcast {
                Some(b) => b,
                None => old(self).mail(),
            },
            final(self).strategy_spec() == old(self).strategy_spec(),
            final(self).policy_spec() == old(self).policy_spec(),
            final(self).back_off_spec() == old(self).back_off_spec(),
            final(self).window_spec() == old(self).window_spec(),
            final(self)@ == nothing_supervised(),
    {
        match bcast {
            Some(b) => {
                self.bcast = b;
            },
            None => {},
        }
        self.order = Vec::new();
        self.launched = set_new();
        self.waiting = set_new();
        self.plan = Vec::new();
        self.back = Vec::new();
        self.states = table_new();
        self.counters = table_new();
        self.pre_start_msgs = Vec::new();
        self.phase = SupervisorPhase::Init;
        assert(self@ =~= nothing_supervised());
    }
}

/// Something the driver of a supervisor is to do.
#[derive(Debug)]
pub enum SupervisorAction {
    /// Put an envelope into a mailbox.
    Deliver(Delivery),
    /// Put an envelope into a mailbox once `wait` milliseconds have
    /// passed.
    DeliverAfter { wait: u64, delivery: Delivery },
    /// Call a lifecycle hook of the element that was launched under the
    /// identifier.
    Callback { id: QuipId, callback: CallbackType },
    /// Run the element and watch for its termination. `mailboxes` are the
    /// mailboxes of the children that were launched with it, to be run
    /// too. `formerly` is the identifier the element ran under before, if
    /// it is being restarted.
    Launch { element: Supervised, mailboxes: Vec<Broadcast>, formerly: Option<QuipId> },
    /// Let go of the supervisor.
    Terminate,
}

/// How the run of a supervised element ended.
#[derive(Debug)]
pub enum Ended {
    /// It terminated and hands itself back.
    Returned(Supervised),
    /// It was cancelled; all that is left is the identifier it ran under.
    Cancelled(QuipId),
}

impl Ended {
    /// The identifier the element ran under.
    pub open spec fn ident(&self) -> QuipId {
        match *self {
            Ended::Returned(element) => element.ident(),
            Ended::Cancelled(id) => id,
        }
    }
}

/// The deliveries, each as an action.
pub open spec fn deliver_seq(deliveries: Seq<Delivery>) -> Seq<SupervisorAction> {
    Seq::new(deliveries.len(), |i: int| SupervisorAction::Deliver(deliveries[i]))
}

/// Whether a supervisor in the phase has started and not begun to end.
pub open spec fn is_started(phase: SupervisorPhase) -> bool {
    phase is Started || phase is Restarting
}

/// The envelope with `msg`, signed by the supervisor.
pub open spec fn from_sv(sv: Supervisor, msg: QuipMessage) -> Envelope {
    sv.mail().signed(msg)
}

/// The identifiers without `id`.
pub open spec fn minus(ids: Seq<QuipId>, id: QuipId) -> Seq<QuipId>
    decreases ids.len(),
{
    if ids.len() == 0 {
        Seq::empty()
    } else if ids.last() == id {
        minus(ids.drop_last(), id)
    } else {
        minus(ids.drop_last(), id).push(ids.last())
    }
}

/// The identifiers with `new` in the place of every `old`.
pub open spec fn renamed(ids: Seq<QuipId>, old: QuipId, new: QuipId) -> Seq<QuipId> {
    Seq::new(
        ids.len(),
        |i: int|
            if ids[i] == old {
                new
            } else {
                ids[i]
            },
    )
}

/// Starting a supervisor: every element is told to start.
pub open spec fn sv_starts(pre: Supervisor, post: Supervisor, actions: Seq<SupervisorAction>)
    -> bool {
    &&& same_rules(pre, post)
    &&& post.mail().children() == pre.mail().children()
    &&& post@ == (Supervision {
        phase: if pre@.phase is Init {
            SupervisorPhase::Started
        } else {
            pre@.phase
        },
        ..pre@
    })
    &&& exists|ds: Seq<Delivery>| #[trigger]
        fans_out(ds, pre.mail().children(), from_sv(pre, QuipMessage::Start)) && actions
            == deliver_seq(ds)
}

/// What a supervisor knows once it has begun to end in the phase `phase`:
/// no element is registered, planned or held, nothing waits to be
/// handled, and the termination of every element that ran is awaited.
/// With none to wait for it has terminated.
pub open spec fn ending(pre: Supervision, phase: SupervisorPhase) -> Supervision {
    let waiting = pre.waiting.union(pre.launched);
    Supervision {
        order: Seq::empty(),
        launched: Set::empty(),
        waiting,
        plan: Seq::empty(),
        back: Seq::empty(),
        buffered: Seq::empty(),
        phase: if waiting == Set::<QuipId>::empty() {
            SupervisorPhase::Terminated
        } else {
            phase
        },
        ..pre
    }
}

/// What ends the list of actions where the supervisor terminates at once.
pub open spec fn farewell(post: Supervision) -> Seq<SupervisorAction> {
    if post.phase is Terminated {
        seq![SupervisorAction::Terminate]
    } else {
        Seq::empty()
    }
}

/// The end of a supervisor: `down` goes to every element, then `up` to
/// the parent.
pub open spec fn sv_ends(
    pre: Supervisor,
    down: QuipMessage,
    up: QuipMessage,
    phase: SupervisorPhase,
    post: Supervisor,
    actions: Seq<SupervisorAction>,
) -> bool {
    &&& same_rules(pre, post)
    &&& post.mail().children() == Map::<QuipId, Sender>::empty()
    &&& post@ == ending(pre@, phase)
    &&& exists|ds: Seq<Delivery>, told: Delivery| #[trigger]
        fans_out(ds, pre.mail().children(), from_sv(pre, down)) && #[trigger] pre.mail().owner().receives(
            told,
            from_sv(pre, up),
        ) && actions == deliver_seq(ds) + seq![SupervisorAction::Deliver(told)] + farewell(post@)
}

/// A request to stop.
pub open spec fn sv_stops(pre: Supervisor, post: Supervisor, actions: Seq<SupervisorAction>)
    -> bool {
    sv_ends(
        pre,
        QuipMessage::Stop,
        QuipMessage::Stopped { id: pre.ident() },
        SupervisorPhase::Stopping,
        post,
        actions,
    )
}

/// A kill.
pub open spec fn sv_kills(pre: Supervisor, post: Supervisor, actions: Seq<SupervisorAction>)
    -> bool {
    sv_ends(
        pre,
        QuipMessage::Kill,
        QuipMessage::Stopped { id: pre.ident() },
        SupervisorPhase::Stopping,
        post,
        actions,
    )
}

/// Giving up after too many restarts: the elements are killed and the
/// parent is told that the supervisor faulted.
pub open spec fn sv_faults(pre: Supervisor, post: Supervisor, actions: Seq<SupervisorAction>)
    -> bool {
    sv_ends(
        pre,
        QuipMessage::Kill,
        QuipMessage::Faulted { id: pre.ident() },
        SupervisorPhase::Faulting,
        post,
        actions,
    )
}

/// Deploying an element: its `before_start` hook is called, it is
/// registered, told to start if the supervisor has started, and launched.
pub open spec fn sv_deploys(
    pre: Supervisor,
    element: Supervised,
    post: Supervisor,
    actions: Seq<SupervisorAction>,
) -> bool {
    let id = element.ident();
    let hook = SupervisorAction::Callback { id, callback: CallbackType::BeforeStart };
    let start = SupervisorAction::Deliver(
        Delivery { to: element.mail().mailbox(), envelope: from_sv(pre, QuipMessage::Start) },
    );
    &&& same_rules(pre, post)
    &&& post.mail().children() == pre.mail().children().insert(id, element.mail().mailbox())
    &&& post@ == (Supervision {
        order: if pre@.order.contains(id) {
            pre@.order
        } else {
            pre@.order.push(id)
        },
        launched: pre@.launched.insert(id),
        ..pre@
    })
    &&& actions.len() > 0
    &&& actions.last() is Launch
    &&& actions.last()->element == element
    &&& actions.last()->mailboxes@.len() == 0
    &&& actions.last()->formerly is None
    &&& actions.drop_last() == if is_started(pre@.phase) {
        seq![hook, start]
    } else {
        seq![hook]
    }
}

/// Pruning an element that runs: it is killed, taken out of the table,
/// and its termination is awaited. Pruning any other does nothing.
pub open spec fn sv_prunes(
    pre: Supervisor,
    id: QuipId,
    post: Supervisor,
    actions: Seq<SupervisorAction>,
) -> bool {
    &&& same_rules(pre, post)
    &&& if pre@.launched.contains(id) {
        &&& post.mail().children() == pre.mail().children().remove(id)
        &&& post@ == (Supervision {
            launched: pre@.launched.remove(id),
            waiting: pre@.waiting.insert(id),
            ..pre@
        })
        &&& actions == match pre.mail().to_child(id, from_sv(pre, QuipMessage::Kill)) {
            Some(d) => seq![SupervisorAction::Deliver(d)],
            None => Seq::<SupervisorAction>::empty(),
        }
    } else {
        &&& post.mail().children() == pre.mail().children()
        &&& post@ == pre@
        &&& actions.len() == 0
    }
}

/// A user's message: a copy goes to every element, if it may be copied.
pub open spec fn sv_forwards(
    pre: Supervisor,
    env: Envelope,
    post: Supervisor,
    actions: Seq<SupervisorAction>,
) -> bool {
    &&& same_rules(pre, post)
    &&& post.mail().children() == pre.mail().children()
    &&& post@ == pre@
    &&& exists|ds: Seq<Delivery>| #[trigger]
        sent_to_children(ds, pre.mail().children(), env) && actions == deliver_seq(ds)
}

/// The state of the child with the identifier: the one the supervisor
/// was told of, else the one named after the child itself.
pub open spec fn state_of(s: Supervision, id: QuipId) -> StateHandle {
    if s.states.contains_key(id) {
        s.states[id]
    } else {
        StateHandle(id)
    }
}

/// The count of the restarts of the state: the one that is kept, else a
/// new one under the supervisor's rules, with a window that opens at
/// `now`.
pub open spec fn count_of(sv: Supervisor, state: StateHandle, now: u64) -> Restarts {
    if sv@.counters.contains_key(state) {
        sv@.counters[state]
    } else {
        Restarts { policy: sv.policy_spec(), window: sv.window_spec(), opened: now, restarts: 0 }
    }
}

/// The answer to a group that asks at the time `now` whether its child
/// `id` is to be restarted.
///
/// Where the count of the child's restarts grants one more, the group
/// `parent_id` is told to restore the child, with the child's state,
/// after the wait that the supervisor's rules give for the restarts
/// counted so far; the restart is counted, and the child's identifier is
/// forgotten. Where it does not, the supervisor ends: under the policy
/// that never restarts it stops, else it faults.
pub open spec fn sv_decides(
    pre: Supervisor,
    id: QuipId,
    parent_id: QuipId,
    now: u64,
    post: Supervisor,
    actions: Seq<SupervisorAction>,
) -> bool {
    let state = state_of(pre@, id);
    let count = count_of(pre, state, now);
    if grants(count, now) {
        &&& same_rules(pre, post)
        &&& post.mail().children() == pre.mail().children()
        &&& post@ == (Supervision {
            states: pre@.states.remove(id),
            counters: pre@.counters.insert(state, after_request(count, now)),
            ..pre@
        })
        &&& actions == match pre.mail().to_child(
            parent_id,
            from_sv(pre, QuipMessage::RestoreChild { id, state }),
        ) {
            None => Seq::<SupervisorAction>::empty(),
            Some(d) => match back_off(pre.back_off_spec(), at_time(count, now).restarts) {
                None => seq![SupervisorAction::Deliver(d)],
                Some(wait) => seq![SupervisorAction::DeliverAfter { wait, delivery: d }],
            },
        }
    } else if pre.policy_spec() is Never {
        sv_stops(pre, post, actions)
    } else {
        sv_faults(pre, post, actions)
    }
}

/// The elements of `affected` that are told to stop when `failed` has
/// terminated: each that runs and is registered, but for `failed` itself,
/// once, in order.
pub open spec fn stopped_by(
    affected: Seq<QuipId>,
    failed: QuipId,
    launched: Set<QuipId>,
    children: Map<QuipId, Sender>,
    env: Envelope,
) -> Seq<SupervisorAction>
    decreases affected.len(),
{
    if affected.len() == 0 {
        Seq::empty()
    } else {
        let rest = stopped_by(affected.drop_last(), failed, launched, children, env);
        let a = affected.last();
        if a != failed && launched.contains(a) && !affected.drop_last().contains(a)
            && children.contains_key(a) {
            rest.push(SupervisorAction::Deliver(Delivery { to: children[a], envelope: env }))
        } else {
            rest
        }
    }
}

/// The plan with those of `affected` added behind that run and are not
/// in it yet.
pub open spec fn planned(plan: Seq<QuipId>, affected: Seq<QuipId>, launched: Set<QuipId>) -> Seq<
    QuipId,
>
    decreases affected.len(),
{
    if affected.len() == 0 {
        plan
    } else {
        let rest = planned(plan, affected.drop_last(), launched);
        let a = affected.last();
        if launched.contains(a) && !rest.contains(a) {
            rest.push(a)
        } else {
            rest
        }
    }
}

/// The news that the element `id` stopped or faulted.
///
/// Of an element that does not run the news does nothing. Under the
/// policy that never restarts the supervisor stops. Else the elements
/// that the supervisor's strategy names are stopped, but for `id` itself,
/// which has terminated; those of them that ran are taken out of the
/// table, their termination is awaited, and they are put on the plan of
/// those to be launched again.
pub open spec fn sv_element_ends(
    pre: Supervisor,
    id: QuipId,
    post: Supervisor,
    actions: Seq<SupervisorAction>,
) -> bool {
    if !pre@.launched.contains(id) {
        &&& same_rules(pre, post)
        &&& post.mail().children() == pre.mail().children()
        &&& post@ == pre@
        &&& actions.len() == 0
    } else if pre.policy_spec() is Never {
        sv_stops(pre, post, actions)
    } else {
        let hit = affected(pre.strategy_spec(), pre@.order, id);
        &&& same_rules(pre, post)
        &&& post.mail().children() == Map::new(
            |x: QuipId|
                pre.mail().children().contains_key(x) && !(hit.contains(x)
                    && pre@.launched.contains(x)),
            |x: QuipId| pre.mail().children()[x],
        )
        &&& post@ == (Supervision {
            launched: Set::new(|x: QuipId| pre@.launched.contains(x) && !hit.contains(x)),
            waiting: Set::new(
                |x: QuipId|
                    pre@.waiting.contains(x) || (pre@.launched.contains(x) && hit.contains(x)),
            ),
            plan: planned(pre@.plan, hit, pre@.launched),
            phase: SupervisorPhase::Restarting,
            ..pre@
        })
        &&& actions == stopped_by(
            hit,
            id,
            pre@.launched,
            pre.mail().children(),
            from_sv(pre, QuipMessage::Stop),
        )
    }
}

/// What the end of an element's run does to the supervisor.
///
/// The termination of the element is no longer awaited. While the
/// supervisor runs: an element on the plan that hands itself back is
/// held until it is launched again; one that was cancelled is taken off
/// the plan and forgotten; any other is forgotten, and if it handed
/// itself back its `after_stop` hook is called. While the supervisor
/// ends: with none left to wait for, it terminates.
pub open spec fn sv_finishes(
    pre: Supervisor,
    fin: Ended,
    post: Supervisor,
    actions: Seq<SupervisorAction>,
) -> bool {
    let id = fin.ident();
    let waiting = pre@.waiting.remove(id);
    &&& same_rules(pre, post)
    &&& match pre@.phase {
        SupervisorPhase::Terminated => {
            &&& post.mail().children() == pre.mail().children()
            &&& post@ == (Supervision { waiting, ..pre@ })
            &&& actions.len() == 0
        },
        SupervisorPhase::Stopping | SupervisorPhase::Faulting => {
            &&& post.mail().children() == pre.mail().children()
            &&& post@ == (Supervision {
                waiting,
                phase: if waiting == Set::<QuipId>::empty() {
                    SupervisorPhase::Terminated
                } else {
                    pre@.phase
                },
                ..pre@
            })
            &&& actions == farewell(post@)
        },
        _ => match fin {
            Ended::Returned(element) => {
                if pre@.plan.contains(id) {
                    &&& post.mail().children() == pre.mail().children()
                    &&& post@ == (Supervision { waiting, back: pre@.back.push(element), ..pre@ })
                    &&& actions.len() == 0
                } else {
                    &&& post.mail().children() == pre.mail().children().remove(id)
                    &&& post@ == (Supervision { waiting, order: minus(pre@.order, id), ..pre@ })
                    &&& actions == seq![
                        SupervisorAction::Callback { id, callback: CallbackType::AfterStop },
                    ]
                }
            },
            Ended::Cancelled(_) => {
                let plan = minus(pre@.plan, id);
                &&& post.mail().children() == pre.mail().children().remove(id)
                &&& post@ == (Supervision {
                    waiting,
                    plan,
                    order: minus(pre@.order, id),
                    phase: if pre@.phase is Restarting && plan.len() == 0 {
                        SupervisorPhase::Started
                    } else {
                        pre@.phase
                    },
                    ..pre@
                })
                &&& actions.len() == 0
            },
        },
    }
}

/// The place of the first element with the identifier among those held;
/// their number where there is none.
pub open spec fn held_at(back: Seq<Supervised>, id: QuipId) -> int
    decreases back.len(),
{
    if back.len() == 0 {
        0
    } else if back[0].ident() == id {
        0
    } else {
        1 + held_at(back.drop_first(), id)
    }
}

/// Whether the supervisor can launch the first element of its plan
/// again: it is restarting, the termination of no element of the plan is
/// awaited any more, and the first element of the plan is held.
pub open spec fn can_relaunch(s: Supervision) -> bool {
    &&& s.phase is Restarting
    &&& s.plan.len() > 0
    &&& forall|i: int| 0 <= i < s.plan.len() ==> !s.waiting.contains(#[trigger] s.plan[i])
    &&& held_at(s.back, s.plan[0]) < s.back.len()
}

/// Whether `next` is the element `element` made ready for another run
/// below the supervisor `sv`: with a fresh mailbox under an identifier
/// that is not the reserved one, with its rules or setup as before and
/// nothing else left of its former run. `mailboxes` are the mailboxes of
/// the children that a group launches for its new run.
pub open spec fn relaunched_as(
    sv: Supervisor,
    element: Supervised,
    next: Supervised,
    mailboxes: Seq<Broadcast>,
) -> bool {
    &&& next.ident() != nil_id()
    &&& next.mail().mailbox().target == next.mail().address()
    &&& match element {
        Supervised::Supervisor(before) => {
            &&& next is Supervisor
            &&& mailboxes.len() == 0
            &&& next.mail().address()@ == sv.mail().address()@.push(
                QuipPathElement::Supervisor(next.ident()),
            )
            &&& next.mail().children() == Map::<QuipId, Sender>::empty()
            &&& next->Supervisor_0.strategy_spec() == before.strategy_spec()
            &&& next->Supervisor_0.policy_spec() == before.policy_spec()
            &&& next->Supervisor_0.back_off_spec() == before.back_off_spec()
            &&& next->Supervisor_0.window_spec() == before.window_spec()
            &&& next->Supervisor_0@ == nothing_supervised()
        },
        Supervised::Children(before) => {
            &&& next is Children
            &&& next.mail().address()@ == sv.mail().address()@.push(
                QuipPathElement::Children(next.ident()),
            )
            &&& exists|fresh: Children| #[trigger]
                reset_as(before, fresh.bcast, fresh) && fresh.bcast.address()
                    == next.mail().address() && fresh.bcast.children() == Map::<
                    QuipId,
                    Sender,
                >::empty() && launches(fresh, next->Children_0, mailboxes)
        },
    }
}

/// Launching the first element of the plan again: its `before_restart`
/// and `after_restart` hooks are called, it is registered under its new
/// identifier, launched, and told to start. It takes its old place in the
/// order of registration. With the plan done the supervisor is restarting
/// no more.
pub open spec fn sv_relaunches(pre: Supervisor, post: Supervisor, actions: Seq<SupervisorAction>)
    -> bool {
    let old_id = pre@.plan[0];
    let at = held_at(pre@.back, old_id);
    &&& same_rules(pre, post)
    &&& actions.len() == 4
    &&& actions[2] is Launch
    &&& ({
        let next = actions[2]->element;
        let new_id = next.ident();
        &&& relaunched_as(pre, pre@.back[at], next, actions[2]->mailboxes@)
        &&& actions[2]->formerly == Some(old_id)
        &&& actions[0] == (SupervisorAction::Callback {
            id: old_id,
            callback: CallbackType::BeforeRestart,
        })
        &&& actions[1] == (SupervisorAction::Callback {
            id: old_id,
            callback: CallbackType::AfterRestart,
        })
        &&& actions[3] == SupervisorAction::Deliver(
            Delivery { to: next.mail().mailbox(), envelope: from_sv(pre, QuipMessage::Start) },
        )
        &&& post.mail().children() == pre.mail().children().insert(new_id, next.mail().mailbox())
        &&& post@ == (Supervision {
            order: renamed(pre@.order, old_id, new_id),
            launched: pre@.launched.insert(new_id),
            plan: pre@.plan.drop_first(),
            back: pre@.back.remove(at),
            phase: if pre@.plan.len() == 1 {
                SupervisorPhase::Started
            } else {
                SupervisorPhase::Restarting
            },
            ..pre@
        })
    })
}

/// What handling an envelope does to a supervisor that has started and
/// has not begun to end.
pub open spec fn sv_handles(
    pre: Supervisor,
    env: Envelope,
    now: u64,
    post: Supervisor,
    actions: Seq<SupervisorAction>,
) -> bool {
    match env.msg {
        QuipMessage::Start => sv_starts(pre, post, actions),
        QuipMessage::Stop => sv_stops(pre, post, actions),
        QuipMessage::Kill => sv_kills(pre, post, actions),
        QuipMessage::Deploy(Deployment::Supervisor(sv)) => sv_deploys(
            pre,
            Supervised::Supervisor(sv),
            post,
            actions,
        ),
        QuipMessage::Deploy(Deployment::Children(group)) => sv_deploys(
            pre,
            Supervised::Children(group),
            post,
            actions,
        ),
        QuipMessage::Prune { id } => sv_prunes(pre, id, post, actions),
        QuipMessage::SuperviseWith(strategy) => {
            &&& post.mail() == pre.mail()
            &&& post.strategy_spec() == strategy
            &&& post.policy_spec() == pre.policy_spec()
            &&& post.back_off_spec() == pre.back_off_spec()
            &&& post.window_spec() == pre.window_spec()
            &&& post@ == pre@
            &&& actions.len() == 0
        },
        QuipMessage::Message(_) => sv_forwards(pre, env, post, actions),
        QuipMessage::RestartRequired { id, parent_id } => sv_decides(
            pre,
            id,
            parent_id,
            now,
            post,
            actions,
        ),
        QuipMessage::InstantiatedChild { child_id, state, .. } => {
            &&& same_rules(pre, post)
            &&& post.mail().children() == pre.mail().children()
            &&& post@ == (Supervision { states: pre@.states.insert(child_id, state), ..pre@ })
            &&& actions.len() == 0
        },
        QuipMessage::Stopped { id } => sv_element_ends(pre, id, post, actions),
        QuipMessage::Faulted { id } => sv_element_ends(pre, id, post, actions),
        _ => {
            &&& same_rules(pre, post)
            &&& post.mail().children() == pre.mail().children()
            &&& post@ == pre@
            &&& actions.len() == 0
        },
    }
}

/// Whether the supervisor has started, has not begun to end, and has an
/// envelope that was kept for later.
pub open spec fn sv_has_backlog(sv: Supervisor) -> bool {
    is_started(sv@.phase) && sv@.buffered.len() > 0
}

/// The actions of the parts, part after part.
pub open spec fn all_sv_actions(parts: Seq<Seq<SupervisorAction>>) -> Seq<SupervisorAction>
    decreases parts.len(),
{
    if parts.len() == 0 {
        Seq::empty()
    } else {
        all_sv_actions(parts.drop_last()) + parts.last()
    }
}

/// Whether the supervisor gets from `pre` to `post` through `states` by
/// handling, one after the other, the oldest of the envelopes that were
/// kept for later, where handling the envelope in the state at place `i`
/// asks for the actions at place `i` of `parts`.
pub open spec fn sv_replays_through(
    pre: Supervisor,
    now: u64,
    states: Seq<Supervisor>,
    parts: Seq<Seq<SupervisorAction>>,
    post: Supervisor,
) -> bool {
    &&& states.len() == parts.len() + 1
    &&& states[0] == pre
    &&& states.last() == post
    &&& forall|i: int| 0 <= i < parts.len() ==> #[trigger] sv_replays_at(now, states, parts, i)
}

/// Whether the step at place `i` handles the oldest of the envelopes that
/// were kept for later.
pub open spec fn sv_replays_at(
    now: u64,
    states: Seq<Supervisor>,
    parts: Seq<Seq<SupervisorAction>>,
    i: int,
) -> bool {
    sv_has_backlog(states[i]) && sv_replays(states[i], now, states[i + 1], parts[i])
}

/// Handling the envelopes that were kept for later, oldest first, until
/// none is left or the supervisor has begun to end.
pub open spec fn sv_catches_up(
    pre: Supervisor,
    now: u64,
    post: Supervisor,
    actions: Seq<SupervisorAction>,
) -> bool {
    &&& !sv_has_backlog(post)
    &&& exists|states: Seq<Supervisor>, parts: Seq<Seq<SupervisorAction>>| #[trigger]
        sv_replays_through(pre, now, states, parts, post) && actions == all_sv_actions(parts)
}

/// Starting a supervisor and handling what was kept for later: starting
/// leads to `mid` and asks for `first`, what follows asks for `rest`.
pub open spec fn sv_starts_via(
    pre: Supervisor,
    now: u64,
    mid: Supervisor,
    first: Seq<SupervisorAction>,
    rest: Seq<SupervisorAction>,
    post: Supervisor,
    actions: Seq<SupervisorAction>,
) -> bool {
    &&& sv_starts(pre, mid, first)
    &&& sv_catches_up(mid, now, post, rest)
    &&& actions == first + rest
}

/// What the arrival of an envelope does to a supervisor. One that has
/// begun to end drops it. A request to start is obeyed at once, and then
/// what was kept for later is handled, oldest first. Requests to stop and
/// to kill are obeyed at once. Anything else is kept for later while the
/// supervisor has not started or older envelopes wait.
pub open spec fn sv_receives(
    pre: Supervisor,
    env: Envelope,
    now: u64,
    post: Supervisor,
    actions: Seq<SupervisorAction>,
) -> bool {
    if pre@.phase is Stopping || pre@.phase is Faulting || pre@.phase is Terminated {
        &&& same_rules(pre, post)
        &&& post.mail().children() == pre.mail().children()
        &&& post@ == pre@
        &&& actions.len() == 0
    } else if env.msg is Start {
        exists|mid: Supervisor, first: Seq<SupervisorAction>, rest: Seq<SupervisorAction>|
            #[trigger] sv_starts_via(pre, now, mid, first, rest, post, actions)
    } else if env.msg is Stop || env.msg is Kill {
        sv_handles(pre, env, now, post, actions)
    } else if pre@.phase is Init || pre@.buffered.len() > 0 {
        &&& same_rules(pre, post)
        &&& post.mail().children() == pre.mail().children()
        &&& post@ == (Supervision { buffered: pre@.buffered.push(env), ..pre@ })
        &&& actions.len() == 0
    } else {
        sv_handles(pre, env, now, post, actions)
    }
}

fn wrap_sv(deliveries: Vec<Delivery>) -> (actions: Vec<SupervisorAction>)
    ensures
        actions@ == deliver_seq(deliveries@),
{
    let mut actions: Vec<SupervisorAction> = Vec::new();
    let mut deliveries = deliveries;
    let ghost all = deliveries@;
    while deliveries.len() > 0
        invariant
            actions@.len() + deliveries@.len() == all.len(),
            forall|i: int|
                0 <= i < actions@.len() ==> actions@[i] == SupervisorAction::Deliver(all[i]),
            forall|i: int|
                0 <= i < deliveries@.len() ==> deliveries@[i] == all[actions@.len() + i],
        decreases deliveries@.len(),
    {
        let d = deliveries.remove(0);
        actions.push(SupervisorAction::Deliver(d));
    }
    assert(actions@ =~= deliver_seq(all));
    actions
}

fn has_id(ids: &Vec<QuipId>, id: &QuipId) -> (b: bool)
    ensures
        b == ids@.contains(*id),
{
    let mut i: usize = 0;
    while i < ids.len()
        invariant
            i <= ids.len(),
            forall|j: int| 0 <= j < i ==> ids@[j] != *id,
        decreases ids.len() - i,
    {
        if ids[i].0 == id.0 {
            assert(ids@[i as int] == *id);
            return true;
        }
        i += 1;
    }
    false
}

fn without(ids: &Vec<QuipId>, id: &QuipId) -> (kept: Vec<QuipId>)
    ensures
        kept@ == minus(ids@, *id),
{
    let mut kept: Vec<QuipId> = Vec::new();
    let mut i: usize = 0;
    assert(ids@.subrange(0, 0) =~= Seq::<QuipId>::empty());
    while i < ids.len()
        invariant
            i <= ids.len(),
            kept@ == minus(ids@.subrange(0, i as int), *id),
        decreases ids.len() - i,
    {
        proof {
            let longer = ids@.subrange(0, i + 1);
            assert(longer.drop_last() =~= ids@.subrange(0, i as int));
            assert(longer.last() == ids@[i as int]);
        }
        if ids[i].0 != id.0 {
            kept.push(ids[i]);
        }
        i += 1;
    }
    assert(ids@.subrange(0, ids@.len() as int) =~= ids@);
    kept
}

proof fn lemma_held_at(back: Seq<Supervised>, id: QuipId, at: int)
    requires
        0 <= at <= back.len(),
        forall|j: int| 0 <= j < at ==> back[j].ident() != id,
        at < back.len() ==> back[at].ident() == id,
    ensures
        held_at(back, id) == at,
    decreases back.len(),
{
    if back.len() > 0 && at > 0 {
        let rest = back.drop_first();
        assert forall|j: int| 0 <= j < at - 1 implies rest[j].ident() != id by {
            assert(rest[j] == back[j + 1]);
        }
        lemma_held_at(rest, id, at - 1);
    }
}

impl Supervisor {
    /// Starts the supervisor.
    pub fn start(&mut self) -> (actions: Vec<SupervisorAction>)
        ensures
            final(self).wf() == old(self).wf(),
            sv_starts(*old(self), *final(self), actions@),
    {
        if matches!(self.phase, SupervisorPhase::Init) {
            self.phase = SupervisorPhase::Started;
        }
        let env = self.bcast.sign(QuipMessage::start());
        let deliveries = self.bcast.send_children(env);
        assert(fans_out(
            deliveries@,
            old(self).mail().children(),
            from_sv(*old(self), QuipMessage::Start),
        ));
        assert(self@ =~= (Supervision {
            phase: if old(self)@.phase is Init {
                SupervisorPhase::Started
            } else {
                old(self)@.phase
            },
            ..old(self)@
        }));
        wrap_sv(deliveries)
    }

    fn end(&mut self, kill: bool, fault: bool) -> (actions: Vec<SupervisorAction>)
        requires
            old(self).wf(),
        ensures
            final(self).wf(),
            sv_ends(
                *old(self),
                if kill {
                    QuipMessage::Kill
                } else {
                    QuipMessage::Stop
                },
                if fault {
                    QuipMessage::Faulted { id: old(self).ident() }
                } else {
                    QuipMessage::Stopped { id: old(self).ident() }
                },
                if fault {
                    SupervisorPhase::Faulting
                } else {
                    SupervisorPhase::Stopping
                },
                *final(self),
                actions@,
            ),
    {
        let down = if kill {
            self.bcast.kill_children()
        } else {
            self.bcast.stop_children()
        };
        let ghost ds = down@;
        let mut actions = wrap_sv(down);
        let id = *self.bcast.id();
        let up = if fault {
            QuipMessage::faulted(id)
        } else {
            QuipMessage::stopped(id)
        };
        let env = self.bcast.sign(up);
        let ghost mut told: Delivery;
        match self.bcast.send_parent(env) {
            Ok(d) => {
                proof {
                    told = d;
                }
                actions.push(SupervisorAction::Deliver(d));
            },
            Err(_) => {},
        }
        move_all(&mut self.launched, &mut self.waiting);
        self.order = Vec::new();
        self.plan = Vec::new();
        self.back = Vec::new();
        self.pre_start_msgs = Vec::new();
        let none_left = set_is_empty(&self.waiting);
        self.phase = if none_left {
            SupervisorPhase::Terminated
        } else if fault {
            SupervisorPhase::Faulting
        } else {
            SupervisorPhase::Stopping
        };
        if none_left {
            actions.push(SupervisorAction::Terminate);
        }
        proof {
            let phase = if fault {
                SupervisorPhase::Faulting
            } else {
                SupervisorPhase::Stopping
            };
            let want = ending(old(self)@, phase);
            assert(self@.waiting =~= want.waiting);
            assert(self@.launched =~= want.launched);
            if none_left {
                assert(self@.waiting =~= Set::<QuipId>::empty());
            } else {
                let key = choose|key: u128| self.waiting@.contains(key);
                assert(self@.waiting.contains(QuipId(key)));
            }
            assert(self@ =~= want);
            assert(actions@ =~= deliver_seq(ds) + seq![SupervisorAction::Deliver(told)] + farewell(
                self@,
            ));
            let down_msg = if kill {
                QuipMessage::Kill
            } else {
                QuipMessage::Stop
            };
            let up_msg = if fault {
                QuipMessage::Faulted { id: old(self).ident() }
            } else {
                QuipMessage::Stopped { id: old(self).ident() }
            };
            assert(fans_out(ds, old(self).mail().children(), from_sv(*old(self), down_msg))
                && old(self).mail().owner().receives(told, from_sv(*old(self), up_msg)));
        }
        actions
    }

    /// Stops the supervisor: every element is asked to stop, the parent
    /// is told that the supervisor stopped, and the supervisor waits for
    /// its elements to terminate.
    pub fn stop(&mut self) -> (actions: Vec<SupervisorAction>)
        requires
            old(self).wf(),
        ensures
            final(self).wf(),
            sv_stops(*old(self), *final(self), actions@),
    {
        self.end(false, false)
    }

    /// Kills the supervisor: every element is killed, the parent is told
    /// that the supervisor stopped, and the supervisor waits for its
    /// elements to terminate.
    pub fn kill(&mut self) -> (actions: Vec<SupervisorAction>)
        requires
            old(self).wf(),
        ensures
            final(self).wf(),
            sv_kills(*old(self), *final(self), actions@),
    {
        self.end(true, false)
    }

    /// Makes the supervisor give up: every element is killed, the parent
    /// is told that the supervisor faulted, and the supervisor waits for
    /// its elements to terminate.
    pub fn fault(&mut self) -> (actions: Vec<SupervisorAction>)
        requires
            old(self).wf(),
        ensures
            final(self).wf(),
            sv_faults(*old(self), *final(self), actions@),
    {
        self.end(true, true)
    }

    /// Deploys an element.
    pub fn deploy(&mut self, element: Supervised) -> (actions: Vec<SupervisorAction>)
        ensures
            final(self).wf() == old(self).wf(),
            sv_deploys(*old(self), element, *final(self), actions@),
    {
        let mut actions: Vec<SupervisorAction> = Vec::new();
        let id = element.id();
        actions.push(SupervisorAction::Callback { id, callback: CallbackType::BeforeStart });
        self.bcast.register(element.bcast());
        let started = match self.phase {
            SupervisorPhase::Started => true,
            SupervisorPhase::Restarting => true,
            _ => false,
        };
        if started {
            let env = self.bcast.sign(QuipMessage::start());
            match self.bcast.send_child(&id, env) {
                Some(d) => {
                    actions.push(SupervisorAction::Deliver(d));
                },
                None => {},
            }
        }
        let _ = set_insert(&mut self.launched, id.0);
        if !has_id(&self.order, &id) {
            self.order.push(id);
        }
        let ghost before = actions@;
        actions.push(
            SupervisorAction::Launch { element, mailboxes: Vec::new(), formerly: None },
        );
        proof {
            assert(self@.launched =~= old(self)@.launched.insert(id));
            assert(self@ =~= (Supervision {
                order: if old(self)@.order.contains(id) {
                    old(self)@.order
                } else {
                    old(self)@.order.push(id)
                },
                launched: old(self)@.launched.insert(id),
                ..old(self)@
            }));
            assert(actions@.drop_last() =~= before);
            let hook = SupervisorAction::Callback { id, callback: CallbackType::BeforeStart };
            let start = SupervisorAction::Deliver(
                Delivery {
                    to: element.mail().mailbox(),
                    envelope: from_sv(*old(self), QuipMessage::Start),
                },
            );
            if is_started(old(self)@.phase) {
                assert(before =~= seq![hook, start]);
            } else {
                assert(before =~= seq![hook]);
            }
        }
        actions
    }

    /// Prunes the element with the identifier.
    pub fn prune(&mut self, id: QuipId) -> (actions: Vec<SupervisorAction>)
        ensures
            final(self).wf() == old(self).wf(),
            sv_prunes(*old(self), id, *final(self), actions@),
    {
        let mut actions: Vec<SupervisorAction> = Vec::new();
        if set_remove(&mut self.launched, id.0) {
            match self.bcast.kill_child(&id) {
                Some(d) => {
                    actions.push(SupervisorAction::Deliver(d));
                    assert(actions@ =~= seq![SupervisorAction::Deliver(d)]);
                },
                None => {},
            }
            let _ = set_insert(&mut self.waiting, id.0);
            assert(self@.launched =~= old(self)@.launched.remove(id));
            assert(self@.waiting =~= old(self)@.waiting.insert(id));
            assert(self@ =~= (Supervision {
                launched: old(self)@.launched.remove(id),
                waiting: old(self)@.waiting.insert(id),
                ..old(self)@
            }));
        } else {
            assert(self@.launched =~= old(self)@.launched);
            assert(self@ =~= old(self)@);
        }
        actions
    }

    /// Answers a group that asks at the time `now` whether its child `id`
    /// is to be restarted.
    pub fn restart_child(&mut self, id: QuipId, parent_id: QuipId, now: u64) -> (actions: Vec<
        SupervisorAction,
    >)
        requires
            old(self).wf(),
        ensures
            final(self).wf(),
            sv_decides(*old(self), id, parent_id, now, *final(self), actions@),
    {
        let state = match table_get(&self.states, id.0) {
            Some(state) => *state,
            None => StateHandle(id),
        };
        let mut tracker = match table_get(&self.counters, state.0.0) {
            Some(tracker) => *tracker,
            None => RestartTracker::new(self.restart_policy, self.window, now),
        };
        assert(tracker@ == count_of(*old(self), state, now));
        let before = tracker.counted_at(now);
        let granted = tracker.try_restart(now);
        if granted {
            let mut actions: Vec<SupervisorAction> = Vec::new();
            let _ = table_remove(&mut self.states, id.0);
            let _ = table_insert(&mut self.counters, state.0.0, tracker);
            let env = self.bcast.sign(QuipMessage::RestoreChild { id, state });
            match self.bcast.send_child(&parent_id, env) {
                None => {},
                Some(d) => match self.restart_strategy.calculate(before) {
                    None => {
                        actions.push(SupervisorAction::Deliver(d));
                        assert(actions@ =~= seq![SupervisorAction::Deliver(d)]);
                    },
                    Some(wait) => {
                        actions.push(SupervisorAction::DeliverAfter { wait, delivery: d });
                        assert(actions@ =~= seq![
                            SupervisorAction::DeliverAfter { wait, delivery: d },
                        ]);
                    },
                },
            }
            proof {
                assert(self@.states =~= old(self)@.states.remove(id));
                assert(self@.counters =~= old(self)@.counters.insert(state, tracker@));
                assert(self@ =~= (Supervision {
                    states: old(self)@.states.remove(id),
                    counters: old(self)@.counters.insert(state, tracker@),
                    ..old(self)@
                }));
            }
            actions
        } else if matches!(self.restart_policy, RestartPolicy::Never) {
            self.stop()
        } else {
            self.fault()
        }
    }

    /// Takes the news that the child `child_id` has the state `state`.
    pub fn instantiated_child(&mut self, child_id: QuipId, state: StateHandle)
        ensures
            final(self).wf() == old(self).wf(),
            same_rules(*old(self), *final(self)),
            final(self).mail().children() == old(self).mail().children(),
            final(self)@ == (Supervision {
                states: old(self)@.states.insert(child_id, state),
                ..old(self)@
            }),
    {
        let _ = table_insert(&mut self.states, child_id.0, state);
        assert(self@.states =~= old(self)@.states.insert(child_id, state));
        assert(self@ =~= (Supervision {
            states: old(self)@.states.insert(child_id, state),
            ..old(self)@
        }));
    }

    /// Takes the end of an element's run.
    pub fn finished(&mut self, fin: Ended) -> (actions: Vec<SupervisorAction>)
        ensures
            final(self).wf() == old(self).wf(),
            sv_finishes(*old(self), fin, *final(self), actions@),
    {
        let mut actions: Vec<SupervisorAction> = Vec::new();
        let id = match &fin {
            Ended::Returned(element) => element.id(),
            Ended::Cancelled(id) => *id,
        };
        let _ = set_remove(&mut self.waiting, id.0);
        assert(self@.waiting =~= old(self)@.waiting.remove(id));
        match self.phase {
            SupervisorPhase::Terminated => {
                assert(self@ =~= (Supervision {
                    waiting: old(self)@.waiting.remove(id),
                    ..old(self)@
                }));
            },
            SupervisorPhase::Stopping | SupervisorPhase::Faulting => {
                let none_left = set_is_empty(&self.waiting);
                proof {
                    if none_left {
                        assert(self@.waiting =~= Set::<QuipId>::empty());
                    } else {
                        let key = choose|key: u128| self.waiting@.contains(key);
                        assert(self@.waiting.contains(QuipId(key)));
                    }
                }
                if none_left {
                    self.phase = SupervisorPhase::Terminated;
                    actions.push(SupervisorAction::Terminate);
                }
                assert(self@ =~= (Supervision {
                    waiting: old(self)@.waiting.remove(id),
                    phase: if old(self)@.waiting.remove(id) == Set::<QuipId>::empty() {
                        SupervisorPhase::Terminated
                    } else {
                        old(self)@.phase
                    },
                    ..old(self)@
                }));
                assert(actions@ =~= farewell(self@));
            },
            _ => match fin {
                Ended::Returned(element) => {
                    if has_id(&self.plan, &id) {
                        self.back.push(element);
                        assert(self@ =~= (Supervision {
                            waiting: old(self)@.waiting.remove(id),
                            back: old(self)@.back.push(element),
                            ..old(self)@
                        }));
                    } else {
                        self.bcast.unregister(&id);
                        self.order = without(&self.order, &id);
                        actions.push(
                            SupervisorAction::Callback { id, callback: CallbackType::AfterStop },
                        );
                        assert(self@ =~= (Supervision {
                            waiting: old(self)@.waiting.remove(id),
                            order: minus(old(self)@.order, id),
                            ..old(self)@
                        }));
                        assert(actions@ =~= seq![
                            SupervisorAction::Callback { id, callback: CallbackType::AfterStop },
                        ]);
                    }
                },
                Ended::Cancelled(_) => {
                    self.bcast.unregister(&id);
                    self.plan = without(&self.plan, &id);
                    self.order = without(&self.order, &id);
                    if matches!(self.phase, SupervisorPhase::Restarting) && self.plan.len() == 0 {
                        self.phase = SupervisorPhase::Started;
                    }
                    assert(self@ =~= (Supervision {
                        waiting: old(self)@.waiting.remove(id),
                        plan: minus(old(self)@.plan, id),
                        order: minus(old(self)@.order, id),
                        phase: if old(self)@.phase is Restarting && minus(
                            old(self)@.plan,
                            id,
                        ).len() == 0 {
                            SupervisorPhase::Started
                        } else {
                            old(self)@.phase
                        },
                        ..old(self)@
                    }));
                },
            },
        }
        actions
    }
}

/// Whether `x` is among the first `j` of `ids`.
pub open spec fn seen(ids: Seq<QuipId>, j: int, x: QuipId) -> bool {
    ids.subrange(0, j).contains(x)
}

proof fn lemma_seen_step(ids: Seq<QuipId>, j: int)
    requires
        0 <= j < ids.len(),
    ensures
        forall|x: QuipId| seen(ids, j + 1, x) <==> seen(ids, j, x) || ids[j] == x,
        ids.subrange(0, j + 1).drop_last() == ids.subrange(0, j),
        ids.subrange(0, j + 1).last() == ids[j],
{
    let shorter = ids.subrange(0, j);
    let longer = ids.subrange(0, j + 1);
    assert(longer.drop_last() =~= shorter);
    assert forall|x: QuipId| seen(ids, j + 1, x) <==> seen(ids, j, x) || ids[j] == x by {
        if shorter.contains(x) {
            let k = choose|k: int| 0 <= k < shorter.len() && shorter[k] == x;
            assert(longer[k] == x);
        }
        if ids[j] == x {
            assert(longer[j] == x);
        }
        if longer.contains(x) && ids[j] != x {
            let k = choose|k: int| 0 <= k < longer.len() && longer[k] == x;
            assert(shorter[k] == x);
        }
    }
}

/// Where the supervisor stands when the first `j` of the elements `hit`
/// have been looked at: those of them that ran run no more, are awaited,
/// are taken out of the table and are on the plan; nothing else has
/// changed.
pub open spec fn progress(
    hit: Seq<QuipId>,
    j: int,
    launched: Set<QuipId>,
    waiting: Set<QuipId>,
    children: Map<QuipId, Sender>,
    now_launched: Set<QuipId>,
    now_waiting: Set<QuipId>,
    now_children: Map<QuipId, Sender>,
    now_plan: Seq<QuipId>,
) -> bool {
    forall|x: QuipId|
        #![trigger looked_at(x)]
        looked_at(x) ==> step_done(
            x,
            launched.contains(x) && seen(hit, j, x),
            launched,
            waiting,
            children,
            now_launched,
            now_waiting,
            now_children,
            now_plan,
        )
}

/// Marks the element that a step of the proof looks at.
pub open spec fn looked_at(x: QuipId) -> bool {
    true
}

/// What holds of the element `x` while the elements that were hit are
/// looked at; `gone` says whether `x` ran and has been looked at.
pub open spec fn step_done(
    x: QuipId,
    gone: bool,
    launched: Set<QuipId>,
    waiting: Set<QuipId>,
    children: Map<QuipId, Sender>,
    now_launched: Set<QuipId>,
    now_waiting: Set<QuipId>,
    now_children: Map<QuipId, Sender>,
    now_plan: Seq<QuipId>,
) -> bool {
    &&& now_launched.contains(x) <==> launched.contains(x) && !gone
    &&& now_waiting.contains(x) <==> waiting.contains(x) || gone
    &&& now_children.contains_key(x) <==> children.contains_key(x) && !gone
    &&& now_children.contains_key(x) ==> now_children[x] == children[x]
    &&& gone ==> now_plan.contains(x)
}

proof fn lemma_progress(
    hit: Seq<QuipId>,
    j: int,
    launched: Set<QuipId>,
    waiting: Set<QuipId>,
    children: Map<QuipId, Sender>,
    before_launched: Set<QuipId>,
    before_waiting: Set<QuipId>,
    before_children: Map<QuipId, Sender>,
    before_plan: Seq<QuipId>,
    now_launched: Set<QuipId>,
    now_waiting: Set<QuipId>,
    now_children: Map<QuipId, Sender>,
    now_plan: Seq<QuipId>,
)
    requires
        0 <= j < hit.len(),
        progress(
            hit,
            j,
            launched,
            waiting,
            children,
            before_launched,
            before_waiting,
            before_children,
            before_plan,
        ),
        now_launched == before_launched.remove(hit[j]),
        before_launched.contains(hit[j]) ==> now_waiting == before_waiting.insert(hit[j])
            && now_children == before_children.remove(hit[j]) && now_plan.contains(hit[j]),
        !before_launched.contains(hit[j]) ==> now_waiting == before_waiting && now_children
            == before_children,
        forall|x: QuipId| before_plan.contains(x) ==> now_plan.contains(x),
    ensures
        progress(
            hit,
            j + 1,
            launched,
            waiting,
            children,
            now_launched,
            now_waiting,
            now_children,
            now_plan,
        ),
{
    lemma_seen_step(hit, j);
    let a = hit[j];
    assert(looked_at(a));
    assert(step_done(
        a,
        launched.contains(a) && seen(hit, j, a),
        launched,
        waiting,
        children,
        before_launched,
        before_waiting,
        before_children,
        before_plan,
    ));
    assert forall|x: QuipId| #![trigger looked_at(x)] looked_at(x) implies step_done(
        x,
        launched.contains(x) && seen(hit, j + 1, x),
        launched,
        waiting,
        children,
        now_launched,
        now_waiting,
        now_children,
        now_plan,
    ) by {
        assert(seen(hit, j + 1, x) <==> seen(hit, j, x) || a == x);
        assert(step_done(
            x,
            launched.contains(x) && seen(hit, j, x),
            launched,
            waiting,
            children,
            before_launched,
            before_waiting,
            before_children,
            before_plan,
        ));
    }
}

impl Supervisor {
    /// Takes the news that the element with the identifier stopped or
    /// faulted.
    pub fn element_ended(&mut self, id: QuipId) -> (actions: Vec<SupervisorAction>)
        requires
            old(self).wf(),
        ensures
            final(self).wf(),
            sv_element_ends(*old(self), id, *final(self), actions@),
    {
        if !set_contains(&self.launched, id.0) {
            return Vec::new();
        }
        if matches!(self.restart_policy, RestartPolicy::Never) {
            return self.stop();
        }
        let hit = self.strategy.to_restart(&self.order, &id);
        let ghost env = from_sv(*old(self), QuipMessage::Stop);
        let ghost children = old(self).mail().children();
        let ghost launched = old(self)@.launched;
        let ghost waiting = old(self)@.waiting;
        let mut actions: Vec<SupervisorAction> = Vec::new();
        let mut j: usize = 0;
        assert(hit@.subrange(0, 0) =~= Seq::<QuipId>::empty());
        while j < hit.len()
            invariant
                j <= hit.len(),
                hit@ == affected(old(self).strategy_spec(), old(self)@.order, id),
                env == from_sv(*old(self), QuipMessage::Stop),
                children == old(self).mail().children(),
                launched == old(self)@.launched,
                waiting == old(self)@.waiting,
                same_rules(*old(self), *self),
                self.order == old(self).order,
                self.back == old(self).back,
                self.states == old(self).states,
                self.counters == old(self).counters,
                self.pre_start_msgs == old(self).pre_start_msgs,
                self.phase == old(self).phase,
                progress(
                    hit@,
                    j as int,
                    launched,
                    waiting,
                    children,
                    self@.launched,
                    self@.waiting,
                    self.mail().children(),
                    self.plan@,
                ),
                self.plan@ == planned(old(self)@.plan, hit@.subrange(0, j as int), launched),
                actions@ == stopped_by(hit@.subrange(0, j as int), id, launched, children, env),
            decreases hit.len() - j,
        {
            let a = hit[j];
            proof {
                lemma_seen_step(hit@, j as int);
            }
            let ghost before = *self;
            let was = set_remove(&mut self.launched, a.0);
            assert(was == before@.launched.contains(a));
            assert(self@.launched =~= before@.launched.remove(a));
            if was {
                let _ = set_insert(&mut self.waiting, a.0);
                assert(self@.waiting =~= before@.waiting.insert(a));
                if a.0 != id.0 {
                    match self.bcast.stop_child(&a) {
                        Some(d) => {
                            actions.push(SupervisorAction::Deliver(d));
                        },
                        None => {},
                    }
                } else {
                    self.bcast.unregister(&a);
                }
                if !has_id(&self.plan, &a) {
                    self.plan.push(a);
                    assert(self.plan@[self.plan@.len() - 1] == a);
                }
            }
            proof {
                assert(looked_at(a));
                assert(seen(hit@, j as int, a) || !seen(hit@, j as int, a));
                assert forall|x: QuipId| before.plan@.contains(x) implies self.plan@.contains(
                    x,
                ) by {
                    let k = choose|k: int| 0 <= k < before.plan@.len() && before.plan@[k] == x;
                    assert(self.plan@[k] == x);
                }
                lemma_progress(
                    hit@,
                    j as int,
                    launched,
                    waiting,
                    children,
                    before@.launched,
                    before@.waiting,
                    before.mail().children(),
                    before.plan@,
                    self@.launched,
                    self@.waiting,
                    self.mail().children(),
                    self.plan@,
                );
            }
            j += 1;
        }
        self.phase = SupervisorPhase::Restarting;
        proof {
            assert(hit@.subrange(0, hit@.len() as int) =~= hit@);
            assert forall|x: QuipId|
                self@.launched.contains(x) <==> launched.contains(x) && !hit@.contains(x) by {
                assert(looked_at(x));
            }
            assert forall|x: QuipId|
                self@.waiting.contains(x) <==> waiting.contains(x) || (launched.contains(x)
                    && hit@.contains(x)) by {
                assert(looked_at(x));
            }
            let now = self.mail().children();
            let want = Map::new(
                |x: QuipId| children.contains_key(x) && !(hit@.contains(x) && launched.contains(x)),
                |x: QuipId| children[x],
            );
            assert forall|x: QuipId| #[trigger] now.contains_key(x) <==> want.contains_key(x) by {
                assert(looked_at(x));
            }
            assert forall|x: QuipId| #[trigger] now.contains_key(x) implies now[x] == want[x] by {
                assert(looked_at(x));
            }
            assert(now =~= want);
            assert(self@.launched =~= Set::new(
                |x: QuipId| launched.contains(x) && !hit@.contains(x),
            ));
            assert(self@.waiting =~= Set::new(
                |x: QuipId| waiting.contains(x) || (launched.contains(x) && hit@.contains(x)),
            ));
            assert(self.mail().children() =~= Map::new(
                |x: QuipId| children.contains_key(x) && !(hit@.contains(x) && launched.contains(x)),
                |x: QuipId| children[x],
            ));
            assert(self@ =~= (Supervision {
                launched: Set::new(|x: QuipId| launched.contains(x) && !hit@.contains(x)),
                waiting: Set::new(
                    |x: QuipId| waiting.contains(x) || (launched.contains(x) && hit@.contains(x)),
                ),
                plan: planned(old(self)@.plan, hit@, launched),
                phase: SupervisorPhase::Restarting,
                ..old(self)@
            }));
        }
        actions
    }

    fn ready(&self) -> (at: Option<usize>)
        ensures
            at is Some <==> can_relaunch(self@),
            at is Some ==> at->0 == held_at(self@.back, self@.plan[0]),
    {
        if !matches!(self.phase, SupervisorPhase::Restarting) || self.plan.len() == 0 {
            return None;
        }
        let mut i: usize = 0;
        while i < self.plan.len()
            invariant
                i <= self.plan.len(),
                forall|k: int| 0 <= k < i ==> !self@.waiting.contains(#[trigger] self@.plan[k]),
            decreases self.plan.len() - i,
        {
            if set_contains(&self.waiting, self.plan[i].0) {
                assert(self@.waiting.contains(self@.plan[i as int]));
                return None;
            }
            i += 1;
        }
        let head = self.plan[0];
        let mut at: usize = 0;
        while at < self.back.len()
            invariant
                at <= self.back.len(),
                self.phase is Restarting,
                self.plan@.len() > 0,
                head == self.plan@[0],
                forall|k: int|
                    0 <= k < self@.plan.len() ==> !self@.waiting.contains(#[trigger] self@.plan[k]),
                forall|j: int| 0 <= j < at ==> self.back@[j].ident() != head,
            decreases self.back.len() - at,
        {
            if self.back[at].id().0 == head.0 {
                proof {
                    lemma_held_at(self.back@, head, at as int);
                }
                return Some(at);
            }
            at += 1;
        }
        proof {
            lemma_held_at(self.back@, head, at as int);
        }
        None
    }

    fn rename(&mut self, old_id: QuipId, new_id: QuipId)
        ensures
            final(self).order@ == renamed(old(self).order@, old_id, new_id),
            final(self).bcast == old(self).bcast,
            final(self).strategy == old(self).strategy,
            final(self).restart_policy == old(self).restart_policy,
            final(self).restart_strategy == old(self).restart_strategy,
            final(self).window == old(self).window,
            final(self).launched == old(self).launched,
            final(self).waiting == old(self).waiting,
            final(self).plan == old(self).plan,
            final(self).back == old(self).back,
            final(self).states == old(self).states,
            final(self).counters == old(self).counters,
            final(self).pre_start_msgs == old(self).pre_start_msgs,
            final(self).phase == old(self).phase,
    {
        let mut order: Vec<QuipId> = Vec::new();
        let mut i: usize = 0;
        while i < self.order.len()
            invariant
                i <= self.order.len(),
                *self == *old(self),
                order@.len() == i,
                forall|j: int|
                    0 <= j < i ==> order@[j] == if self.order@[j] == old_id {
                        new_id
                    } else {
                        self.order@[j]
                    },
            decreases self.order.len() - i,
        {
            if self.order[i].0 == old_id.0 {
                order.push(new_id);
            } else {
                order.push(self.order[i]);
            }
            i += 1;
        }
        assert(order@ =~= renamed(self.order@, old_id, new_id));
        self.order = order;
    }

    /// Launches the first element of the plan again, if the supervisor
    /// can (see [`can_relaunch`]). Whoever drives the supervisor calls
    /// this after every end of an element's run, until it does nothing.
    pub fn relaunch_next(&mut self) -> (actions: Option<Vec<SupervisorAction>>)
        requires
            old(self).wf(),
        ensures
            final(self).wf(),
            actions is Some <==> can_relaunch(old(self)@),
            actions is None ==> *final(self) == *old(self),
            actions is Some ==> sv_relaunches(*old(self), *final(self), actions->0@),
    {
        let at = match self.ready() {
            Some(at) => at,
            None => {
                return None;
            },
        };
        let old_id = self.plan.remove(0);
        let element = self.back.remove(at);
        let new_id = QuipId::new();
        let parent = Parent::supervisor(self.as_ref());
        let mut mailboxes: Vec<Broadcast> = Vec::new();
        let next = match element {
            Supervised::Supervisor(sv) => {
                let mut sv = sv;
                let bcast = Broadcast::new(parent, QuipPathElement::Supervisor(new_id));
                sv.reset(Some(bcast));
                Supervised::Supervisor(sv)
            },
            Supervised::Children(group) => {
                let mut group = group;
                let bcast = Broadcast::new(parent, QuipPathElement::Children(new_id));
                group.reset(bcast);
                let ghost fresh = group;
                assert(fresh.bcast.address()@.last() == QuipPathElement::Children(new_id));
                mailboxes = group.launch_elems();
                assert(reset_as(element->Children_0, fresh.bcast, fresh) && fresh.bcast.address()
                    == group.bcast.address() && fresh.bcast.children() == Map::<
                    QuipId,
                    Sender,
                >::empty() && launches(fresh, group, mailboxes@));
                Supervised::Children(group)
            },
        };
        assert(next.mail().address()@.last().ident() == new_id);
        assert(relaunched_as(*old(self), element, next, mailboxes@));
        let mut actions: Vec<SupervisorAction> = Vec::new();
        actions.push(
            SupervisorAction::Callback { id: old_id, callback: CallbackType::BeforeRestart },
        );
        actions.push(
            SupervisorAction::Callback { id: old_id, callback: CallbackType::AfterRestart },
        );
        self.bcast.register(next.bcast());
        let env = self.bcast.sign(QuipMessage::start());
        let start = self.bcast.send_child(&new_id, env);
        let _ = set_insert(&mut self.launched, new_id.0);
        self.rename(old_id, new_id);
        if self.plan.len() == 0 {
            self.phase = SupervisorPhase::Started;
        }
        actions.push(SupervisorAction::Launch { element: next, mailboxes, formerly: Some(old_id) });
        match start {
            Some(d) => {
                actions.push(SupervisorAction::Deliver(d));
            },
            None => {},
        }
        proof {
            assert(self@.launched =~= old(self)@.launched.insert(new_id));
            assert(self@.plan =~= old(self)@.plan.drop_first());
            assert(self@ =~= (Supervision {
                order: renamed(old(self)@.order, old_id, new_id),
                launched: old(self)@.launched.insert(new_id),
                plan: old(self)@.plan.drop_first(),
                back: old(self)@.back.remove(at as int),
                phase: if old(self)@.plan.len() == 1 {
                    SupervisorPhase::Started
                } else {
                    SupervisorPhase::Restarting
                },
                ..old(self)@
            }));
        }
        Some(actions)
    }

    /// Handles an envelope at the time `now`.
    pub fn handle(&mut self, env: Envelope, now: u64) -> (actions: Vec<SupervisorAction>)
        requires
            old(self).wf(),
        ensures
            final(self).wf(),
            sv_handles(*old(self), env, now, *final(self), actions@),
    {
        match env.msg {
            QuipMessage::Start => self.start(),
            QuipMessage::Stop => self.stop(),
            QuipMessage::Kill => self.kill(),
            QuipMessage::Deploy(Deployment::Supervisor(sv)) => self.deploy(
                Supervised::Supervisor(sv),
            ),
            QuipMessage::Deploy(Deployment::Children(group)) => self.deploy(
                Supervised::Children(group),
            ),
            QuipMessage::Prune { id } => self.prune(id),
            QuipMessage::SuperviseWith(strategy) => {
                self.strategy = strategy;
                Vec::new()
            },
            QuipMessage::Message(_) => {
                let deliveries = self.bcast.send_children(env);
                assert(sent_to_children(deliveries@, self.mail().children(), env));
                wrap_sv(deliveries)
            },
            QuipMessage::RestartRequired { id, parent_id } => self.restart_child(
                id,
                parent_id,
                now,
            ),
            QuipMessage::InstantiatedChild { child_id, state, .. } => {
                self.instantiated_child(child_id, state);
                Vec::new()
            },
            QuipMessage::Stopped { id } => self.element_ended(id),
            QuipMessage::Faulted { id } => self.element_ended(id),
            _ => Vec::new(),
        }
    }

    /// Makes a children group below the supervisor, lets `init` configure
    /// it, launches its children, and hands the group to the supervisor
    /// as if it had arrived in the supervisor's mailbox at the time
    /// `now`: a supervisor that has not started keeps it until it
    /// starts. The result is a reference to the group, the mailboxes of
    /// its children, and what is to be done.
    pub fn children<C: FnOnce(Children) -> Children>(&mut self, init: C, now: u64) -> (res: (
        ChildrenRef,
        Vec<Broadcast>,
        Vec<SupervisorAction>,
    ))
        requires
            old(self).wf(),
            forall|fresh: Children| fresh.wf() ==> init.requires((fresh,)),
            forall|fresh: Children, configured: Children|
                fresh.wf() && init.ensures((fresh,), configured) ==> configured.wf(),
        ensures
            final(self).wf(),
            sv_adopts(*old(self), init, now, *final(self), res.0, res.1@, res.2@),
    {
        let me = self.as_ref();
        let (group, mailboxes, d) = me.children(init);
        let ghost made = d;
        assert(group_made(me, init, made, group, mailboxes@));
        let actions = self.received(d.envelope, now);
        assert(adopts_with(*old(self), init, now, *self, group, mailboxes@, actions@, me, made));
        (group, mailboxes, actions)
    }

    /// Takes an envelope that arrived in the supervisor's mailbox at the
    /// time `now`.
    pub fn received(&mut self, env: Envelope, now: u64) -> (actions: Vec<SupervisorAction>)
        requires
            old(self).wf(),
        ensures
            final(self).wf(),
            sv_receives(*old(self), env, now, *final(self), actions@),
    {
        match self.phase {
            SupervisorPhase::Stopping | SupervisorPhase::Faulting | SupervisorPhase::Terminated => {
                return Vec::new();
            },
            _ => {},
        }
        if matches!(env.msg, QuipMessage::Start) {
            let mut actions = self.start();
            let ghost mid = *self;
            let ghost first = actions@;
            let mut rest = self.replay_all(now);
            let ghost later = rest@;
            actions.append(&mut rest);
            assert(sv_starts_via(*old(self), now, mid, first, later, *self, actions@));
            return actions;
        }
        let urgent = match &env.msg {
            QuipMessage::Stop => true,
            QuipMessage::Kill => true,
            _ => false,
        };
        if !urgent && (matches!(self.phase, SupervisorPhase::Init) || self.pre_start_msgs.len()
            > 0) {
            self.pre_start_msgs.push(env);
            assert(self@ =~= (Supervision {
                buffered: old(self)@.buffered.push(env),
                ..old(self)@
            }));
            return Vec::new();
        }
        self.handle(env, now)
    }

    /// Handles, at the time `now`, the envelopes that were kept for
    /// later, oldest first, until none is left or the supervisor has
    /// begun to end.
    pub fn replay_all(&mut self, now: u64) -> (actions: Vec<SupervisorAction>)
        requires
            old(self).wf(),
        ensures
            final(self).wf(),
            sv_catches_up(*old(self), now, *final(self), actions@),
    {
        let mut actions: Vec<SupervisorAction> = Vec::new();
        let ghost mut states: Seq<Supervisor> = seq![*self];
        let ghost mut parts: Seq<Seq<SupervisorAction>> = Seq::empty();
        loop
            invariant
                self.wf(),
                sv_replays_through(*old(self), now, states, parts, *self),
                actions@ == all_sv_actions(parts),
            ensures
                self.wf(),
                !sv_has_backlog(*self),
                sv_replays_through(*old(self), now, states, parts, *self),
                actions@ == all_sv_actions(parts),
            decreases self@.buffered.len(),
        {
            let ghost cur = *self;
            match self.replay(now) {
                None => {
                    break ;
                },
                Some(handled_now) => {
                    let mut handled_now = handled_now;
                    let ghost first = handled_now@;
                    actions.append(&mut handled_now);
                    proof {
                        let longer = states.push(*self);
                        let more = parts.push(first);
                        assert(more.drop_last() =~= parts);
                        assert forall|i: int| 0 <= i < more.len() implies #[trigger] sv_replays_at(
                            now,
                            longer,
                            more,
                            i,
                        ) by {
                            if i < parts.len() {
                                assert(sv_replays_at(now, states, parts, i));
                            } else {
                                assert(longer[i] == cur);
                            }
                        }
                        states = longer;
                        parts = more;
                    }
                },
            }
        }
        actions
    }

    /// Handles, at the time `now`, the oldest of the envelopes that were
    /// kept for later, if the supervisor has started, has not begun to
    /// end, and there is one.
    pub fn replay(&mut self, now: u64) -> (actions: Option<Vec<SupervisorAction>>)
        requires
            old(self).wf(),
        ensures
            final(self).wf(),
            actions is Some <==> sv_has_backlog(*old(self)),
            actions is None ==> *final(self) == *old(self),
            actions is Some ==> sv_replays(*old(self), now, *final(self), actions->0@),
            actions is Some ==> final(self)@.buffered.len() < old(self)@.buffered.len(),
    {
        let started = match self.phase {
            SupervisorPhase::Started => true,
            SupervisorPhase::Restarting => true,
            _ => false,
        };
        if started && self.pre_start_msgs.len() > 0 {
            let env = self.pre_start_msgs.remove(0);
            let ghost mid = *self;
            assert(mid@ =~= (Supervision {
                buffered: old(self)@.buffered.drop_first(),
                ..old(self)@
            }));
            let handled = self.handle(env, now);
            assert(sv_takes_oldest(*old(self), mid) && sv_handles(
                mid,
                old(self)@.buffered[0],
                now,
                *self,
                handled@,
            ));
            Some(handled)
        } else {
            None
        }
    }
}

/// Whether `d` hands the supervisor at `me` a children group that was
/// made below it under an identifier that is not the reserved one, was
/// configured by `init`, and had its children launched; `group` is a
/// reference to the group and `mailboxes` are the mailboxes of its
/// children.
pub open spec fn group_made<C: FnOnce(Children) -> Children>(
    me: SupervisorRef,
    init: C,
    d: Delivery,
    group: ChildrenRef,
    mailboxes: Seq<Broadcast>,
) -> bool {
    &&& d.envelope.msg is Deploy
    &&& d.envelope.msg->Deploy_0 is Children
    &&& me.is_handed(d, d.envelope.msg->Deploy_0->Children_0)
    &&& d.envelope.msg->Deploy_0->Children_0.refers(group)
    &&& exists|id: QuipId, fresh: Children, configured: Children|
        id != nil_id() && #[trigger] me.begets(id, fresh) && #[trigger] init.ensures(
            (fresh,),
            configured,
        ) && launches(configured, d.envelope.msg->Deploy_0->Children_0, mailboxes)
}

/// Whether the supervisor `pre` made a children group and took it in
/// through the delivery `d`, made out by its reference `me`.
pub open spec fn adopts_with<C: FnOnce(Children) -> Children>(
    pre: Supervisor,
    init: C,
    now: u64,
    post: Supervisor,
    group: ChildrenRef,
    mailboxes: Seq<Broadcast>,
    actions: Seq<SupervisorAction>,
    me: SupervisorRef,
    d: Delivery,
) -> bool {
    &&& me.id == pre.ident()
    &&& me.sender == pre.mail().mailbox()
    &&& me.path == pre.mail().address()
    &&& group_made(me, init, d, group, mailboxes)
    &&& sv_receives(pre, d.envelope, now, post, actions)
}

/// Making a children group below a supervisor and handing it over: the
/// group is made, configured and launched as for a reference to the
/// supervisor, and the envelope that hands it over is received by the
/// supervisor.
pub open spec fn sv_adopts<C: FnOnce(Children) -> Children>(
    pre: Supervisor,
    init: C,
    now: u64,
    post: Supervisor,
    group: ChildrenRef,
    mailboxes: Seq<Broadcast>,
    actions: Seq<SupervisorAction>,
) -> bool {
    exists|me: SupervisorRef, d: Delivery| #[trigger]
        adopts_with(pre, init, now, post, group, mailboxes, actions, me, d)
}

/// Whether `mid` is the supervisor `pre` without the oldest of the
/// envelopes that were kept for later.
pub open spec fn sv_takes_oldest(pre: Supervisor, mid: Supervisor) -> bool {
    &&& same_rules(pre, mid)
    &&& mid.mail().children() == pre.mail().children()
    &&& pre@.buffered.len() > 0
    &&& mid@ == (Supervision { buffered: pre@.buffered.drop_first(), ..pre@ })
}

/// Handling the oldest of the envelopes that were kept for later: it is
/// taken out and handled.
pub open spec fn sv_replays(
    pre: Supervisor,
    now: u64,
    post: Supervisor,
    actions: Seq<SupervisorAction>,
) -> bool {
    exists|mid: Supervisor| #[trigger]
        sv_takes_oldest(pre, mid) && sv_handles(mid, pre@.buffered[0], now, post, actions)
}

} // verus!
