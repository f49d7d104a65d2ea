//! The system: the root of the supervision tree.
//!
//! The system owns the root mailbox and keeps track of the supervisors it
//! has launched. It is written as a state machine. Whoever drives it hands
//! it what happened (an envelope arrived in the root mailbox, a launched
//! supervisor terminated) and gets back what is to be done (envelopes to
//! deliver, hooks to call, supervisors to launch or cancel).

use crate::broadcast::{fans_out, sent_to_children, Broadcast, Delivery, Parent, Sender};
use crate::children::{launches, Children};
use crate::children_ref::ChildrenRef;
use crate::envelope::{dead_letters_chain, Envelope, RefAddr};
use crate::id::{nil_id, QuipId};
use crate::message::{CallbackType, Deployment, QuipMessage};
use crate::path::{QuipPath, QuipPathElement};
use crate::supervisor::{Supervisor, SupervisorRef};
use crate::table::{
    ids_of, lists_members, move_all, set_insert, set_is_empty, set_items, set_new, set_remove,
};
use fxhash::FxHashSet;
use std::sync::Arc;
use vstd::prelude::*;

verus! {

/// How far the system has come.
#[derive(Clone, Copy, Debug, PartialEq, Eq, Structural)]
pub enum Phase {
    /// It takes envelopes and supervises.
    Running,
    /// It was asked to stop and waits for its supervisors to terminate.
    Stopping,
    /// It was killed and waits for its supervisors to terminate.
    Killing,
    /// It has terminated.
    Terminated,
}

/// Something the driver of the system is to do.
#[derive(Debug)]
pub enum SystemAction {
    /// Put an envelope into a mailbox.
    Deliver(Delivery),
    /// Call a lifecycle hook of the supervisor that was launched under
    /// the identifier.
    Callback { id: QuipId, callback: CallbackType },
    /// Run the supervisor and watch for its termination. `formerly` is
    /// the identifier it ran under before, if it is being restarted.
    Launch { supervisor: Supervisor, formerly: Option<QuipId> },
    /// Cancel the run of the supervisor with the identifier.
    Cancel { id: QuipId },
    /// Let go of the system and wake those who wait for its end.
    Terminate,
}

/// How the run of a launched supervisor ended.
#[derive(Debug)]
pub enum Finished {
    /// It terminated and hands itself back.
    Returned(Supervisor),
    /// It was cancelled; all that is left is the identifier it ran under.
    Cancelled(QuipId),
}

/// The state of the system.
#[verifier::ext_equal]
pub struct SystemState {
    /// The signature of the system.
    pub sign: RefAddr,
    /// The supervisors registered with the root mailbox.
    pub children: Map<QuipId, Sender>,
    /// The supervisors that run.
    pub launched: Set<QuipId>,
    /// The supervisors that are restarted once they have terminated.
    pub restart: Set<QuipId>,
    /// The supervisors whose termination is awaited.
    pub waiting: Set<QuipId>,
    /// The envelopes that wait to be handled, oldest first.
    pub buffered: Seq<Envelope>,
    /// Whether the system was started.
    pub started: bool,
    /// How far the system has come.
    pub phase: Phase,
    /// While stopping: the supervisors that have handed themselves back,
    /// in the order in which they did.
    pub stopped: Seq<QuipId>,
}

/// The deliveries, each as an action.
pub open spec fn deliver_all(deliveries: Seq<Delivery>) -> Seq<SystemAction> {
    Seq::new(deliveries.len(), |i: int| SystemAction::Deliver(deliveries[i]))
}

/// A hook call for each of the supervisors, in order.
pub open spec fn call_all(ids: Seq<QuipId>, callback: CallbackType) -> Seq<SystemAction> {
    Seq::new(ids.len(), |i: int| SystemAction::Callback { id: ids[i], callback })
}

/// A cancellation for each of the supervisors, in order.
pub open spec fn cancel_all(ids: Seq<QuipId>) -> Seq<SystemAction> {
    Seq::new(ids.len(), |i: int| SystemAction::Cancel { id: ids[i] })
}

/// Whether the system knows what to do with the message. It does with a
/// request to stop or to kill, the deployment of a supervisor, a request
/// to prune, a user's message, and the news that a supervisor stopped or
/// faulted.
pub open spec fn expected(msg: QuipMessage) -> bool {
    match msg {
        QuipMessage::Stop => true,
        QuipMessage::Kill => true,
        QuipMessage::Deploy(Deployment::Supervisor(_)) => true,
        QuipMessage::Prune { .. } => true,
        QuipMessage::Message(_) => true,
        QuipMessage::Stopped { .. } => true,
        QuipMessage::Faulted { .. } => true,
        _ => false,
    }
}

/// The envelope with `msg`, signed by the system.
pub open spec fn from_system(pre: SystemState, msg: QuipMessage) -> Envelope {
    Envelope { msg, sign: pre.sign }
}

/// Deploying a supervisor: its `before_start` hook is called, it is
/// registered, told to start if the system has started, and launched.
pub open spec fn deploys(
    pre: SystemState,
    sv: Supervisor,
    post: SystemState,
    actions: Seq<SystemAction>,
) -> bool {
    let id = sv.ident();
    let hook = SystemAction::Callback { id, callback: CallbackType::BeforeStart };
    let start = SystemAction::Deliver(
        Delivery { to: sv.mail().mailbox(), envelope: from_system(pre, QuipMessage::Start) },
    );
    let launch = SystemAction::Launch { supervisor: sv, formerly: None };
    &&& post == (SystemState {
        children: pre.children.insert(id, sv.mail().mailbox()),
        launched: pre.launched.insert(id),
        ..pre
    })
    &&& actions == if pre.started {
        seq![hook, start, launch]
    } else {
        seq![hook, launch]
    }
}

/// Pruning a supervisor that runs: it is killed, taken out of the
/// table, and its termination is awaited. Pruning any other does nothing.
pub open spec fn prunes(pre: SystemState, id: QuipId, post: SystemState, actions: Seq<SystemAction>)
    -> bool {
    if pre.launched.contains(id) {
        &&& post == (SystemState {
            children: pre.children.remove(id),
            launched: pre.launched.remove(id),
            waiting: pre.waiting.insert(id),
            ..pre
        })
        &&& actions == if pre.children.contains_key(id) {
            seq![
                SystemAction::Deliver(
                    Delivery { to: pre.children[id], envelope: from_system(pre, QuipMessage::Kill) },
                ),
            ]
        } else {
            Seq::<SystemAction>::empty()
        }
    } else {
        post == pre && actions.len() == 0
    }
}

/// The news that a supervisor that runs stopped or faulted: its
/// termination is awaited, and it is marked to be restarted then. Of any
/// other supervisor the news does nothing.
pub open spec fn marks(pre: SystemState, id: QuipId, post: SystemState, actions: Seq<SystemAction>)
    -> bool {
    &&& actions.len() == 0
    &&& post == if pre.launched.contains(id) {
        SystemState {
            launched: pre.launched.remove(id),
            waiting: pre.waiting.insert(id),
            restart: pre.restart.insert(id),
            ..pre
        }
    } else {
        pre
    }
}

/// A user's message: a copy goes to every registered supervisor, if it
/// may be copied.
pub open spec fn forwards(
    pre: SystemState,
    env: Envelope,
    post: SystemState,
    actions: Seq<SystemAction>,
) -> bool {
    &&& post == pre
    &&& exists|ds: Seq<Delivery>| #[trigger]
        sent_to_children(ds, pre.children, env) && actions == deliver_all(ds)
}

/// The state after the system was asked to stop or was killed: nothing is
/// registered, nothing buffered, and the termination of every supervisor
/// that ran is awaited. With none to wait for the system has terminated.
pub open spec fn winding_down(pre: SystemState, phase: Phase) -> SystemState {
    let waiting = pre.waiting.union(pre.launched);
    SystemState {
        children: Map::empty(),
        launched: Set::empty(),
        waiting,
        buffered: Seq::empty(),
        phase: if waiting == Set::<QuipId>::empty() {
            Phase::Terminated
        } else {
            phase
        },
        ..pre
    }
}

/// What ends the list of actions where the system terminates at once.
pub open spec fn last_words(post: SystemState) -> Seq<SystemAction> {
    if post.phase is Terminated {
        seq![SystemAction::Terminate]
    } else {
        Seq::empty()
    }
}

/// A request to stop: every registered supervisor is asked to stop.
pub open spec fn stops(pre: SystemState, post: SystemState, actions: Seq<SystemAction>) -> bool {
    &&& post == winding_down(pre, Phase::Stopping)
    &&& exists|ds: Seq<Delivery>| #[trigger]
        fans_out(ds, pre.children, from_system(pre, QuipMessage::Stop)) && actions == deliver_all(
            ds,
        ) + last_words(post)
}

/// Whether `ids` lists the members of `set`: every member once, and
/// nothing else.
pub open spec fn lists_ids(ids: Seq<QuipId>, set: Set<QuipId>) -> bool {
    &&& ids.no_duplicates()
    &&& forall|id: QuipId| ids.contains(id) <==> set.contains(id)
}

/// Whether `actions` is what a kill asks for: the killing envelopes `ds`
/// to the registered supervisors, then the cancellation of the runs of
/// `ids`, the supervisors whose termination is awaited.
pub open spec fn kills_with(
    pre: SystemState,
    post: SystemState,
    actions: Seq<SystemAction>,
    ds: Seq<Delivery>,
    ids: Seq<QuipId>,
) -> bool {
    &&& fans_out(ds, pre.children, from_system(pre, QuipMessage::Kill))
    &&& lists_ids(ids, post.waiting)
    &&& actions == deliver_all(ds) + cancel_all(ids) + last_words(post)
}

/// A kill: every registered supervisor is sent a kill, and every run that
/// is awaited, or was under way, is cancelled.
pub open spec fn kills(pre: SystemState, post: SystemState, actions: Seq<SystemAction>) -> bool {
    &&& post == winding_down(pre, Phase::Killing)
    &&& exists|ds: Seq<Delivery>, ids: Seq<QuipId>| #[trigger]
        kills_with(pre, post, actions, ds, ids)
}

/// What handling an envelope does to a running system.
pub open spec fn handled(
    pre: SystemState,
    env: Envelope,
    post: SystemState,
    actions: Seq<SystemAction>,
) -> bool {
    match env.msg {
        QuipMessage::Stop => stops(pre, post, actions),
        QuipMessage::Kill => kills(pre, post, actions),
        QuipMessage::Deploy(Deployment::Supervisor(sv)) => deploys(pre, sv, post, actions),
        QuipMessage::Prune { id } => prunes(pre, id, post, actions),
        QuipMessage::Message(_) => forwards(pre, env, post, actions),
        QuipMessage::Stopped { id } => marks(pre, id, post, actions),
        QuipMessage::Faulted { id } => marks(pre, id, post, actions),
        _ => false,
    }
}

/// Recovering a supervisor: its `before_restart` hook is called; unless
/// it is the root supervisor it gets a fresh mailbox below the system,
/// under a fresh identifier; its `after_restart` hook is called; it is
/// registered and launched as `next`.
pub open spec fn recovers_as(
    pre: SystemState,
    sv: Supervisor,
    next: Supervisor,
    post: SystemState,
    actions: Seq<SystemAction>,
) -> bool {
    let old_id = sv.ident();
    let new_id = next.ident();
    &&& next.strategy_spec() == sv.strategy_spec()
    &&& next.policy_spec() == sv.policy_spec()
    &&& next.back_off_spec() == sv.back_off_spec()
    &&& next.window_spec() == sv.window_spec()
    &&& next@ == crate::supervisor::nothing_supervised()
    &&& if old_id == nil_id() {
        next.mail() == sv.mail()
    } else {
        &&& new_id != nil_id()
        &&& next.mail().address()@ == seq![QuipPathElement::Supervisor(new_id)]
        &&& next.mail().mailbox().target == next.mail().address()
        &&& next.mail().owner() == Parent::System
        &&& next.mail().children() == Map::<QuipId, Sender>::empty()
    }
    &&& post == (SystemState {
        children: pre.children.insert(new_id, next.mail().mailbox()),
        launched: pre.launched.insert(new_id),
        ..pre
    })
    &&& actions == seq![
        SystemAction::Callback { id: old_id, callback: CallbackType::BeforeRestart },
        SystemAction::Callback { id: old_id, callback: CallbackType::AfterRestart },
        SystemAction::Launch { supervisor: next, formerly: Some(old_id) },
    ]
}

/// See [`recovers_as`]: the supervisor that is launched is the one named
/// in the last action.
pub open spec fn recovers(
    pre: SystemState,
    sv: Supervisor,
    post: SystemState,
    actions: Seq<SystemAction>,
) -> bool {
    &&& actions.len() == 3
    &&& actions[2] is Launch
    &&& recovers_as(pre, sv, actions[2]->supervisor, post, actions)
}

/// What follows when one run fewer is awaited. A system that winds down
/// and has none left to wait for terminates: if it was stopping, the
/// `after_stop` hook of every supervisor that handed itself back is
/// called, in the order in which they did.
pub open spec fn concludes(mid: SystemState, post: SystemState, actions: Seq<SystemAction>)
    -> bool {
    if (mid.phase is Stopping || mid.phase is Killing) && mid.waiting == Set::<QuipId>::empty() {
        &&& post == (SystemState { phase: Phase::Terminated, stopped: Seq::empty(), ..mid })
        &&& actions == call_all(mid.stopped, CallbackType::AfterStop) + seq![
            SystemAction::Terminate,
        ]
    } else {
        post == mid && actions.len() == 0
    }
}

/// What the end of a supervisor's run does to the system.
pub open spec fn finishes(
    pre: SystemState,
    fin: Finished,
    post: SystemState,
    actions: Seq<SystemAction>,
) -> bool {
    match fin {
        Finished::Cancelled(id) => concludes(
            SystemState { waiting: pre.waiting.remove(id), ..pre },
            post,
            actions,
        ),
        Finished::Returned(sv) => {
            let id = sv.ident();
            let mid = SystemState { waiting: pre.waiting.remove(id), ..pre };
            match pre.phase {
                Phase::Running => {
                    if pre.restart.contains(id) {
                        recovers(
                            SystemState {
                                children: pre.children.remove(id),
                                restart: pre.restart.remove(id),
                                ..mid
                            },
                            sv,
                            post,
                            actions,
                        )
                    } else {
                        &&& post == (SystemState { children: pre.children.remove(id), ..mid })
                        &&& actions == seq![
                            SystemAction::Callback { id, callback: CallbackType::AfterStop },
                        ]
                    }
                },
                Phase::Stopping => concludes(
                    SystemState { stopped: pre.stopped.push(id), ..mid },
                    post,
                    actions,
                ),
                _ => concludes(mid, post, actions),
            }
        },
    }
}

/// Whether a system in the state has an envelope that was kept for later
/// and can be handled now.
pub open spec fn has_backlog(s: SystemState) -> bool {
    s.phase is Running && s.started && s.buffered.len() > 0
}

/// Handling the oldest of the envelopes that were kept for later: it is
/// taken out and handled.
pub open spec fn replays(pre: SystemState, post: SystemState, actions: Seq<SystemAction>) -> bool {
    has_backlog(pre) && handled(
        SystemState { buffered: pre.buffered.drop_first(), ..pre },
        pre.buffered[0],
        post,
        actions,
    )
}

/// The actions of the parts, part after part.
pub open spec fn all_actions(parts: Seq<Seq<SystemAction>>) -> Seq<SystemAction>
    decreases parts.len(),
{
    if parts.len() == 0 {
        Seq::empty()
    } else {
        all_actions(parts.drop_last()) + parts.last()
    }
}

/// Whether the system gets from `pre` to `post` through `states` by
/// handling, one after the other, the oldest of the envelopes that were
/// kept for later, where handling the envelope in the state at place `i`
/// asks for the actions at place `i` of `parts`.
pub open spec fn replays_through(
    pre: SystemState,
    states: Seq<SystemState>,
    parts: Seq<Seq<SystemAction>>,
    post: SystemState,
) -> bool {
    &&& states.len() == parts.len() + 1
    &&& states[0] == pre
    &&& states.last() == post
    &&& forall|i: int|
        0 <= i < parts.len() ==> replays(states[i], states[i + 1], #[trigger] parts[i])
}

/// Handling the envelopes that were kept for later, oldest first, until
/// none is left or the system runs no more.
pub open spec fn catches_up(pre: SystemState, post: SystemState, actions: Seq<SystemAction>)
    -> bool {
    &&& !has_backlog(post)
    &&& exists|states: Seq<SystemState>, parts: Seq<Seq<SystemAction>>| #[trigger]
        replays_through(pre, states, parts, post) && actions == all_actions(parts)
}

/// What the arrival of an envelope in the root mailbox does to the
/// system. A request to start is passed on to every registered
/// supervisor, and then what was kept for later is handled, oldest
/// first.
pub open spec fn receives(
    pre: SystemState,
    env: Envelope,
    post: SystemState,
    actions: Seq<SystemAction>,
) -> bool {
    if !(pre.phase is Running) {
        post == pre && actions.len() == 0
    } else if env.msg is Start {
        exists|ds: Seq<Delivery>, rest: Seq<SystemAction>| #[trigger]
            starts_with(pre, ds, rest, post, actions)
    } else if !pre.started || pre.buffered.len() > 0 {
        post == (SystemState { buffered: pre.buffered.push(env), ..pre }) && actions.len() == 0
    } else {
        handled(pre, env, post, actions)
    }
}

/// Starting the system: the deliveries `ds` pass the request on to the
/// registered supervisors, and handling what was kept for later asks
/// for `rest`.
pub open spec fn starts_with(
    pre: SystemState,
    ds: Seq<Delivery>,
    rest: Seq<SystemAction>,
    post: SystemState,
    actions: Seq<SystemAction>,
) -> bool {
    &&& fans_out(ds, pre.children, from_system(pre, QuipMessage::Start))
    &&& catches_up(SystemState { started: true, ..pre }, post, rest)
    &&& actions == deliver_all(ds) + rest
}

/// What the rest of the program knows of the system: how to reach it, its
/// root supervisor and its dead-letters group, and whether it still runs.
#[derive(Debug)]
pub struct GlobalSystem {
    pub sender: Sender,
    pub supervisor: SupervisorRef,
    pub dead_letters: ChildrenRef,
    pub path: Arc<QuipPath>,
    pub running: bool,
}

impl GlobalSystem {
    /// What is known of a system that has just been made: it runs.
    pub fn new(sender: Sender, supervisor: SupervisorRef, dead_letters: ChildrenRef) -> (global:
        Self)
        ensures
            global.sender == sender,
            global.supervisor == supervisor,
            global.dead_letters == dead_letters,
            global.path@ == Seq::<QuipPathElement>::empty(),
            global.running,
    {
        GlobalSystem {
            sender,
            supervisor,
            dead_letters,
            path: Arc::new(QuipPath::root()),
            running: true,
        }
    }

    /// The sending half of the root mailbox.
    pub fn sender(&self) -> (sender: &Sender)
        ensures
            *sender == self.sender,
    {
        &self.sender
    }

    /// The root supervisor.
    pub fn supervisor(&self) -> (supervisor: &SupervisorRef)
        ensures
            *supervisor == self.supervisor,
    {
        &self.supervisor
    }

    /// The dead-letters group.
    pub fn dead_letters(&self) -> (dead_letters: &ChildrenRef)
        ensures
            *dead_letters == self.dead_letters,
    {
        &self.dead_letters
    }

    /// The path of the system: the empty one.
    pub fn path(&self) -> (path: &Arc<QuipPath>)
        ensures
            *path == self.path,
    {
        &self.path
    }

    /// Notes that the system has terminated.
    pub fn notify_stopped(&mut self)
        ensures
            *final(self) == (GlobalSystem { running: false, ..*old(self) }),
    {
        self.running = false;
    }

    /// Whether one who waits for the end of the system has to go on
    /// waiting: whether the system still runs.
    pub fn wait_until_stopped(&self) -> (waits: bool)
        ensures
            waits == self.running,
    {
        self.running
    }
}

/// A system that has just been made, and what is to be done to bring it
/// to life.
#[derive(Debug)]
pub struct Boot {
    /// The system, to be driven.
    pub system: System,
    /// What the rest of the program is to know of it.
    pub global: GlobalSystem,
    /// The deliveries that deploy the root supervisor and the
    /// dead-letters group, in this order.
    pub deliveries: Vec<Delivery>,
    /// The mailboxes of the children of the dead-letters group, to be
    /// run.
    pub dead_letters: Vec<Broadcast>,
}

/// Whether `boot` is a system that has just been made.
pub open spec fn boots(boot: Boot) -> bool {
    let system = boot.system@;
    let global = boot.global;
    &&& boot.system.wf()
    &&& system.sign.path@ == Seq::<QuipPathElement>::empty()
    &&& system.sign.sender.target == system.sign.path
    &&& system.children == Map::<QuipId, Sender>::empty()
    &&& system.launched == Set::<QuipId>::empty()
    &&& system.restart == Set::<QuipId>::empty()
    &&& system.waiting == Set::<QuipId>::empty()
    &&& system.buffered == Seq::<Envelope>::empty()
    &&& !system.started
    &&& system.phase is Running
    &&& system.stopped == Seq::<QuipId>::empty()
    &&& global.running
    &&& global.sender == system.sign.sender
    &&& global.path@ == Seq::<QuipPathElement>::empty()
    &&& global.supervisor.id == nil_id()
    &&& global.supervisor.path@ == seq![QuipPathElement::Supervisor(nil_id())]
    &&& global.supervisor.sender.target == global.supervisor.path
    &&& global.dead_letters.id == nil_id()
    &&& global.dead_letters.path@ == dead_letters_chain()
    &&& global.dead_letters.sender.target == global.dead_letters.path
    &&& global.dead_letters.children@.len() == 1
    &&& boot.dead_letters@.len() == 1
    &&& boot.deliveries@.len() == 2
    &&& boot.deliveries@[0].to == system.sign.sender
    &&& boot.deliveries@[0].envelope.sign == system.sign
    &&& boot.deliveries@[0].envelope.msg is Deploy
    &&& boot.deliveries@[0].envelope.msg->Deploy_0 is Supervisor
    &&& ({
        let root = boot.deliveries@[0].envelope.msg->Deploy_0->Supervisor_0;
        &&& root.mail().address() == global.supervisor.path
        &&& root.mail().mailbox() == global.supervisor.sender
        &&& root.mail().owner() == Parent::System
        &&& root.mail().children() == Map::<QuipId, Sender>::empty()
    })
    &&& boot.deliveries@[1].envelope.msg is Deploy
    &&& boot.deliveries@[1].envelope.msg->Deploy_0 is Children
    &&& ({
        let group = boot.deliveries@[1].envelope.msg->Deploy_0->Children_0;
        &&& global.supervisor.is_handed(boot.deliveries@[1], group)
        &&& group.refers(global.dead_letters)
        &&& exists|fresh: Children| #[trigger]
            global.supervisor.begets(nil_id(), fresh) && launches(fresh, group, boot.dead_letters@)
    })
}

/// The system.
#[derive(Debug)]
pub struct System {
    bcast: Broadcast,
    launched: FxHashSet<u128>,
    restart: FxHashSet<u128>,
    waiting: FxHashSet<u128>,
    pre_start_msgs: Vec<Envelope>,
    started: bool,
    phase: Phase,
    stopped: Vec<QuipId>,
}

impl View for System {
    type V = SystemState;

    closed spec fn view(&self) -> SystemState {
        SystemState {
            sign: self.bcast.signature(),
            children: self.bcast.children(),
            launched: ids_of(self.launched@),
            restart: ids_of(self.restart@),
            waiting: ids_of(self.waiting@),
            buffered: self.pre_start_msgs@,
            started: self.started,
            phase: self.phase,
            stopped: self.stopped@,
        }
    }
}

/// Whether a state is one the system can be in: what is buffered is what
/// the system knows to handle; only a running system has supervisors
/// that run; a system that winds down waits for some supervisor, and one
/// that has terminated for none.
pub open spec fn well_formed_state(s: SystemState) -> bool {
    &&& forall|i: int| 0 <= i < s.buffered.len() ==> expected(#[trigger] s.buffered[i].msg)
    &&& !(s.phase is Running) ==> s.launched == Set::<QuipId>::empty() && s.buffered.len() == 0
    &&& (s.phase is Stopping || s.phase is Killing) ==> s.waiting != Set::<QuipId>::empty()
    &&& s.phase is Terminated ==> s.waiting == Set::<QuipId>::empty()
}

fn wrap(deliveries: Vec<Delivery>) -> (actions: Vec<SystemAction>)
    ensures
        actions@ == deliver_all(deliveries@),
{
    let mut actions: Vec<SystemAction> = Vec::new();
    let mut deliveries = deliveries;
    let ghost all = deliveries@;
    while deliveries.len() > 0
        invariant
            actions@.len() + deliveries@.len() == all.len(),
            forall|i: int| 0 <= i < actions@.len() ==> actions@[i] == SystemAction::Deliver(all[i]),
            forall|i: int|
                0 <= i < deliveries@.len() ==> deliveries@[i] == all[actions@.len() + i],
        decreases deliveries@.len(),
    {
        let d = deliveries.remove(0);
        actions.push(SystemAction::Deliver(d));
    }
    assert(actions@ =~= deliver_all(all));
    actions
}

fn ids_of_bits(bits: &Vec<u128>) -> (ids: Vec<QuipId>)
    ensures
        ids@.len() == bits@.len(),
        forall|i: int| 0 <= i < ids@.len() ==> ids@[i] == QuipId(bits@[i]),
{
    let mut ids: Vec<QuipId> = Vec::new();
    let mut i: usize = 0;
    while i < bits.len()
        invariant
            i <= bits.len(),
            ids@.len() == i,
            forall|j: int| 0 <= j < i ==> ids@[j] == QuipId(bits@[j]),
        decreases bits.len() - i,
    {
        ids.push(QuipId::from_u128(bits[i]));
        i += 1;
    }
    ids
}

proof fn lemma_lists_ids(bits: Seq<u128>, ids: Seq<QuipId>, set: Set<u128>)
    requires
        lists_members(bits, set),
        ids.len() == bits.len(),
        forall|i: int| 0 <= i < ids.len() ==> ids[i] == QuipId(bits[i]),
    ensures
        lists_ids(ids, ids_of(set)),
{
    assert forall|a: int, b: int| 0 <= a < ids.len() && 0 <= b < ids.len() && a != b implies ids[a]
        != ids[b] by {
        assert(bits[a] != bits[b]);
    }
    assert forall|id: QuipId| ids.contains(id) <==> ids_of(set).contains(id) by {
        if ids.contains(id) {
            let k = choose|k: int| 0 <= k < ids.len() && ids[k] == id;
            assert(bits[k] == id.0);
            assert(bits.contains(id.0));
        }
        if ids_of(set).contains(id) {
            assert(bits.contains(id.0));
            let k = choose|k: int| 0 <= k < bits.len() && bits[k] == id.0;
            assert(ids[k] == id);
        }
    }
}

impl System {
    /// Whether the system is in a state it can be in.
    pub open spec fn wf(&self) -> bool {
        well_formed_state(self@)
    }

    /// A system that was not started and supervises nothing.
    pub fn new() -> (system: System)
        ensures
            system.wf(),
            system@.sign.path@ == Seq::<QuipPathElement>::empty(),
            system@.sign.sender.target == system@.sign.path,
            system@.children == Map::<QuipId, Sender>::empty(),
            system@.launched == Set::<QuipId>::empty(),
            system@.restart == Set::<QuipId>::empty(),
            system@.waiting == Set::<QuipId>::empty(),
            system@.buffered == Seq::<Envelope>::empty(),
            !system@.started,
            system@.phase is Running,
            system@.stopped == Seq::<QuipId>::empty(),
    {
        let bcast = Broadcast::new_root(Parent::none());
        let system = System {
            bcast,
            launched: set_new(),
            restart: set_new(),
            waiting: set_new(),
            pre_start_msgs: Vec::new(),
            started: false,
            phase: Phase::Running,
            stopped: Vec::new(),
        };
        assert(system@.launched =~= Set::<QuipId>::empty());
        assert(system@.restart =~= Set::<QuipId>::empty());
        assert(system@.waiting =~= Set::<QuipId>::empty());
        system
    }

    /// Makes the system, its root supervisor and its dead-letters group.
    /// The root supervisor and the dead-letters group carry the reserved
    /// identifier. Nothing is sent and nothing runs yet: the result says
    /// what is to be delivered and run.
    pub fn init() -> (boot: Boot)
        ensures
            boots(boot),
    {
        let system = System::new();
        let sender = system.bcast.sender().clone();
        let bcast = Broadcast::new(Parent::system(), QuipPathElement::Supervisor(QuipId::nil()));
        let supervisor = Supervisor::system(bcast);
        let supervisor_ref = supervisor.as_ref();
        let env = system.bcast.sign(QuipMessage::deploy_supervisor(supervisor));
        let mut deliveries: Vec<Delivery> = Vec::new();
        deliveries.push(system.bcast.send_self(env));
        let (dead_letters_ref, dead_letters, deploy) = System::spawn_dead_letters(&supervisor_ref);
        deliveries.push(deploy);
        let global = GlobalSystem::new(sender, supervisor_ref, dead_letters_ref);
        let boot = Boot { system, global, deliveries, dead_letters };
        proof {
            let group = boot.deliveries@[1].envelope.msg->Deploy_0->Children_0;
            let fresh = choose|fresh: Children| #[trigger]
                supervisor_ref.begets(nil_id(), fresh) && launches(fresh, group, dead_letters@);
            assert(boot.global.supervisor.begets(nil_id(), fresh));
            assert(group.bcast.address()@ == dead_letters_chain());
        }
        boot
    }

    /// Makes the dead-letters group below the root supervisor: a group of
    /// one child under the reserved identifier.
    pub fn spawn_dead_letters(root_sv: &SupervisorRef) -> (res: (
        ChildrenRef,
        Vec<Broadcast>,
        Delivery,
    ))
        requires
            root_sv.wf(),
        ensures
            res.2.envelope.msg is Deploy,
            res.2.envelope.msg->Deploy_0 is Children,
            ({
                let group = res.2.envelope.msg->Deploy_0->Children_0;
                &&& root_sv.is_handed(res.2, group)
                &&& group.refers(res.0)
                &&& exists|fresh: Children| #[trigger]
                    root_sv.begets(nil_id(), fresh) && launches(fresh, group, res.1@)
            }),
    {
        let keep = |children: Children| -> (same: Children)
            requires
                true,
            ensures
                same == children,
            { children };
        let res = root_sv.children_with_id(QuipId::nil(), keep);
        proof {
            let group = res.2.envelope.msg->Deploy_0->Children_0;
            let (fresh, configured) = choose|fresh: Children, configured: Children|
                root_sv.begets(nil_id(), fresh) && #[trigger] keep.ensures((fresh,), configured)
                    && launches(configured, group, res.1@);
            assert(root_sv.begets(nil_id(), fresh) && launches(fresh, group, res.1@));
        }
        res
    }

    /// The root mailbox.
    pub fn bcast(&self) -> (bcast: &Broadcast)
        ensures
            bcast.signature() == self@.sign,
            bcast.children() == self@.children,
    {
        &self.bcast
    }

    /// Whether the system was started.
    pub fn is_started(&self) -> (b: bool)
        ensures
            b == self@.started,
    {
        self.started
    }

    /// How far the system has come.
    pub fn phase(&self) -> (phase: Phase)
        ensures
            phase == self@.phase,
    {
        self.phase
    }

    /// Whether the system knows what to do with the message.
    pub fn expects(msg: &QuipMessage) -> (b: bool)
        ensures
            b == expected(*msg),
    {
        match msg {
            QuipMessage::Stop => true,
            QuipMessage::Kill => true,
            QuipMessage::Deploy(Deployment::Supervisor(_)) => true,
            QuipMessage::Prune { .. } => true,
            QuipMessage::Message(_) => true,
            QuipMessage::Stopped { .. } => true,
            QuipMessage::Faulted { .. } => true,
            _ => false,
        }
    }

    /// Deploys a supervisor.
    pub fn deploy(&mut self, deployment: Deployment) -> (actions: Vec<SystemAction>)
        requires
            old(self).wf(),
            old(self)@.phase is Running,
            deployment is Supervisor,
        ensures
            final(self).wf(),
            deploys(old(self)@, deployment->Supervisor_0, final(self)@, actions@),
    {
        let mut actions: Vec<SystemAction> = Vec::new();
        match deployment {
            Deployment::Supervisor(supervisor) => {
                let id = supervisor.id();
                actions.push(
                    SystemAction::Callback { id, callback: CallbackType::BeforeStart },
                );
                self.bcast.register(supervisor.bcast());
                if self.started {
                    let envelope = self.bcast.sign(QuipMessage::start());
                    match self.bcast.send_child(&id, envelope) {
                        Some(d) => {
                            actions.push(SystemAction::Deliver(d));
                        },
                        None => {},
                    }
                }
                let _ = set_insert(&mut self.launched, id.0);
                assert(self@.launched =~= old(self)@.launched.insert(id));
                actions.push(SystemAction::Launch { supervisor, formerly: None });
                proof {
                    let hook = SystemAction::Callback { id, callback: CallbackType::BeforeStart };
                    let start = SystemAction::Deliver(
                        Delivery {
                            to: supervisor.mail().mailbox(),
                            envelope: from_system(old(self)@, QuipMessage::Start),
                        },
                    );
                    let launch = SystemAction::Launch { supervisor, formerly: None };
                    assert(self@ =~= (SystemState {
                        children: old(self)@.children.insert(id, supervisor.mail().mailbox()),
                        launched: old(self)@.launched.insert(id),
                        ..old(self)@
                    }));
                    if old(self)@.started {
                        assert(actions@ =~= seq![hook, start, launch]);
                    } else {
                        assert(actions@ =~= seq![hook, launch]);
                    }
                }
            },
            Deployment::Children(_) => {},
        }
        actions
    }

    /// Prunes the supervisor with the identifier.
    pub fn prune_supervised_object(&mut self, id: QuipId) -> (actions: Vec<SystemAction>)
        requires
            old(self).wf(),
            old(self)@.phase is Running,
        ensures
            final(self).wf(),
            prunes(old(self)@, id, final(self)@, actions@),
    {
        let mut actions: Vec<SystemAction> = Vec::new();
        if set_remove(&mut self.launched, id.0) {
            match self.bcast.kill_child(&id) {
                Some(d) => {
                    actions.push(SystemAction::Deliver(d));
                },
                None => {},
            }
            let _ = set_insert(&mut self.waiting, id.0);
            assert(self@.launched =~= old(self)@.launched.remove(id));
            assert(self@.waiting =~= old(self)@.waiting.insert(id));
        } else {
            assert(self@.launched =~= old(self)@.launched);
        }
        actions
    }

    /// Takes the news that the supervisor with the identifier stopped or
    /// faulted.
    pub fn restart_supervised_object(&mut self, id: QuipId)
        requires
            old(self).wf(),
            old(self)@.phase is Running,
        ensures
            final(self).wf(),
            marks(old(self)@, id, final(self)@, Seq::<SystemAction>::empty()),
    {
        if set_remove(&mut self.launched, id.0) {
            let _ = set_insert(&mut self.waiting, id.0);
            let _ = set_insert(&mut self.restart, id.0);
            assert(self@.launched =~= old(self)@.launched.remove(id));
            assert(self@.waiting =~= old(self)@.waiting.insert(id));
            assert(self@.restart =~= old(self)@.restart.insert(id));
        } else {
            assert(self@.launched =~= old(self)@.launched);
        }
    }

    /// Recovers a supervisor that has terminated and is to be restarted.
    pub fn recover(&mut self, supervisor: Supervisor) -> (actions: Vec<SystemAction>)
        requires
            old(self).wf(),
            old(self)@.phase is Running,
        ensures
            final(self).wf(),
            recovers(old(self)@, supervisor, final(self)@, actions@),
    {
        let mut supervisor = supervisor;
        let ghost before = supervisor;
        let old_id = supervisor.id();
        let mut actions: Vec<SystemAction> = Vec::new();
        actions.push(SystemAction::Callback { id: old_id, callback: CallbackType::BeforeRestart });
        let bcast = if old_id.is_nil() {
            None
        } else {
            let id = QuipId::new();
            Some(Broadcast::new(Parent::system(), QuipPathElement::Supervisor(id)))
        };
        supervisor.reset(bcast);
        actions.push(SystemAction::Callback { id: old_id, callback: CallbackType::AfterRestart });
        self.bcast.register(supervisor.bcast());
        let id = supervisor.id();
        let _ = set_insert(&mut self.launched, id.0);
        assert(self@.launched =~= old(self)@.launched.insert(id));
        actions.push(SystemAction::Launch { supervisor, formerly: Some(old_id) });
        proof {
            assert(self@ =~= (SystemState {
                children: old(self)@.children.insert(id, supervisor.mail().mailbox()),
                launched: old(self)@.launched.insert(id),
                ..old(self)@
            }));
            assert(actions@ =~= seq![
                SystemAction::Callback { id: old_id, callback: CallbackType::BeforeRestart },
                SystemAction::Callback { id: old_id, callback: CallbackType::AfterRestart },
                SystemAction::Launch { supervisor, formerly: Some(old_id) },
            ]);
        }
        assert(recovers_as(old(self)@, before, supervisor, self@, actions@));
        actions
    }

    fn wind_down(&mut self, phase: Phase)
        requires
            old(self).wf(),
            old(self)@.phase is Running,
            phase is Stopping || phase is Killing,
            old(self)@.children == Map::<QuipId, Sender>::empty(),
        ensures
            final(self).wf(),
            final(self)@ == winding_down(old(self)@, phase),
    {
        move_all(&mut self.launched, &mut self.waiting);
        self.pre_start_msgs = Vec::new();
        self.phase = if set_is_empty(&self.waiting) {
            Phase::Terminated
        } else {
            phase
        };
        proof {
            let want = winding_down(old(self)@, phase);
            assert(self@.launched =~= Set::<QuipId>::empty());
            assert(self@.waiting =~= want.waiting);
            assert(self@.buffered =~= Seq::<Envelope>::empty());
            if self.waiting@ == Set::<u128>::empty() {
                assert(self@.waiting =~= Set::<QuipId>::empty());
            } else {
                let key = choose|key: u128| self.waiting@.contains(key);
                assert(self@.waiting.contains(QuipId(key)));
            }
            assert(self@ =~= want);
        }
    }

    /// Asks every supervisor to stop and begins to wait for their
    /// termination.
    pub fn stop(&mut self) -> (actions: Vec<SystemAction>)
        requires
            old(self).wf(),
            old(self)@.phase is Running,
        ensures
            final(self).wf(),
            stops(old(self)@, final(self)@, actions@),
    {
        let deliveries = self.bcast.stop_children();
        let ghost ds = deliveries@;
        let ghost mid = self@;
        let mut actions = wrap(deliveries);
        self.wind_down(Phase::Stopping);
        if matches!(self.phase, Phase::Terminated) {
            actions.push(SystemAction::Terminate);
        }
        proof {
            assert(winding_down(mid, Phase::Stopping) == winding_down(
                old(self)@,
                Phase::Stopping,
            ));
            assert(actions@ =~= deliver_all(ds) + last_words(self@));
            assert(fans_out(ds, old(self)@.children, from_system(old(self)@, QuipMessage::Stop)));
        }
        actions
    }

    /// Kills every supervisor, cancels every run, and begins to wait for
    /// their termination.
    pub fn kill(&mut self) -> (actions: Vec<SystemAction>)
        requires
            old(self).wf(),
            old(self)@.phase is Running,
        ensures
            final(self).wf(),
            kills(old(self)@, final(self)@, actions@),
    {
        let deliveries = self.bcast.kill_children();
        let ghost ds = deliveries@;
        let ghost mid = self@;
        let mut actions = wrap(deliveries);
        self.wind_down(Phase::Killing);
        let bits = set_items(&self.waiting);
        let ids = ids_of_bits(&bits);
        let mut i: usize = 0;
        while i < ids.len()
            invariant
                i <= ids.len(),
                actions@ == deliver_all(ds) + cancel_all(ids@.subrange(0, i as int)),
            decreases ids.len() - i,
        {
            actions.push(SystemAction::Cancel { id: ids[i] });
            i += 1;
            assert(actions@ =~= deliver_all(ds) + cancel_all(ids@.subrange(0, i as int)));
        }
        assert(ids@.subrange(0, ids@.len() as int) == ids@);
        if matches!(self.phase, Phase::Terminated) {
            actions.push(SystemAction::Terminate);
        }
        proof {
            assert(winding_down(mid, Phase::Killing) == winding_down(old(self)@, Phase::Killing));
            lemma_lists_ids(bits@, ids@, self.waiting@);
            assert(actions@ =~= deliver_all(ds) + cancel_all(ids@) + last_words(self@));
            assert(kills_with(old(self)@, self@, actions@, ds, ids@));
        }
        actions
    }

    /// Handles an envelope that the system knows to handle.
    pub fn handle(&mut self, env: Envelope) -> (actions: Vec<SystemAction>)
        requires
            old(self).wf(),
            old(self)@.phase is Running,
            expected(env.msg),
        ensures
            final(self).wf(),
            handled(old(self)@, env, final(self)@, actions@),
    {
        match env.msg {
            QuipMessage::Stop => self.stop(),
            QuipMessage::Kill => self.kill(),
            QuipMessage::Deploy(deployment) => self.deploy(deployment),
            QuipMessage::Prune { id } => self.prune_supervised_object(id),
            QuipMessage::Message(_) => {
                let deliveries = self.bcast.send_children(env);
                let actions = wrap(deliveries);
                assert(sent_to_children(deliveries@, self@.children, env));
                actions
            },
            QuipMessage::Stopped { id } => {
                self.restart_supervised_object(id);
                Vec::new()
            },
            QuipMessage::Faulted { id } => {
                self.restart_supervised_object(id);
                Vec::new()
            },
            _ => Vec::new(),
        }
    }

    fn conclude(&mut self) -> (actions: Vec<SystemAction>)
        requires
            forall|i: int|
                0 <= i < old(self)@.buffered.len() ==> expected(
                    #[trigger] old(self)@.buffered[i].msg,
                ),
            !(old(self)@.phase is Running) ==> old(self)@.launched == Set::<QuipId>::empty()
                && old(self)@.buffered.len() == 0,
            old(self)@.phase is Terminated ==> old(self)@.waiting == Set::<QuipId>::empty(),
        ensures
            final(self).wf(),
            concludes(old(self)@, final(self)@, actions@),
    {
        let mut actions: Vec<SystemAction> = Vec::new();
        let winding = match self.phase {
            Phase::Stopping => true,
            Phase::Killing => true,
            _ => false,
        };
        let none_left = set_is_empty(&self.waiting);
        proof {
            if none_left {
                assert(self@.waiting =~= Set::<QuipId>::empty());
            } else {
                let key = choose|key: u128| self.waiting@.contains(key);
                assert(self@.waiting.contains(QuipId(key)));
            }
        }
        if winding && none_left {
            let mut i: usize = 0;
            while i < self.stopped.len()
                invariant
                    i <= self.stopped.len(),
                    *self == *old(self),
                    actions@ == call_all(self.stopped@.subrange(0, i as int), CallbackType::AfterStop),
                decreases self.stopped.len() - i,
            {
                actions.push(
                    SystemAction::Callback { id: self.stopped[i], callback: CallbackType::AfterStop },
                );
                i += 1;
                assert(actions@ =~= call_all(
                    self.stopped@.subrange(0, i as int),
                    CallbackType::AfterStop,
                ));
            }
            assert(self.stopped@.subrange(0, self.stopped@.len() as int) == self.stopped@);
            actions.push(SystemAction::Terminate);
            assert(actions@ =~= call_all(old(self)@.stopped, CallbackType::AfterStop) + seq![
                SystemAction::Terminate,
            ]);
            self.stopped = Vec::new();
            self.phase = Phase::Terminated;
            assert(self@ =~= (SystemState {
                phase: Phase::Terminated,
                stopped: Seq::empty(),
                ..old(self)@
            }));
        }
        actions
    }

    /// Takes the end of a supervisor's run.
    pub fn finished(&mut self, fin: Finished) -> (actions: Vec<SystemAction>)
        requires
            old(self).wf(),
        ensures
            final(self).wf(),
            finishes(old(self)@, fin, final(self)@, actions@),
    {
        match fin {
            Finished::Cancelled(id) => {
                let _ = set_remove(&mut self.waiting, id.0);
                assert(self@.waiting =~= old(self)@.waiting.remove(id));
                assert(self@ =~= (SystemState {
                    waiting: old(self)@.waiting.remove(id),
                    ..old(self)@
                }));
                assert(old(self)@.waiting == Set::<QuipId>::empty() ==> self@.waiting
                    =~= Set::<QuipId>::empty());
                self.conclude()
            },
            Finished::Returned(supervisor) => {
                let id = supervisor.id();
                let _ = set_remove(&mut self.waiting, id.0);
                assert(self@.waiting =~= old(self)@.waiting.remove(id));
                assert(old(self)@.waiting == Set::<QuipId>::empty() ==> self@.waiting
                    =~= Set::<QuipId>::empty());
                match self.phase {
                    Phase::Running => {
                        self.bcast.unregister(&id);
                        if set_remove(&mut self.restart, id.0) {
                            assert(self@.restart =~= old(self)@.restart.remove(id));
                            assert(self@ =~= (SystemState {
                                children: old(self)@.children.remove(id),
                                restart: old(self)@.restart.remove(id),
                                waiting: old(self)@.waiting.remove(id),
                                ..old(self)@
                            }));
                            self.recover(supervisor)
                        } else {
                            assert(self@.restart =~= old(self)@.restart);
                            assert(self@ =~= (SystemState {
                                children: old(self)@.children.remove(id),
                                waiting: old(self)@.waiting.remove(id),
                                ..old(self)@
                            }));
                            let mut actions: Vec<SystemAction> = Vec::new();
                            actions.push(
                                SystemAction::Callback { id, callback: CallbackType::AfterStop },
                            );
                            actions
                        }
                    },
                    Phase::Stopping => {
                        self.stopped.push(id);
                        assert(self@ =~= (SystemState {
                            stopped: old(self)@.stopped.push(id),
                            waiting: old(self)@.waiting.remove(id),
                            ..old(self)@
                        }));
                        self.conclude()
                    },
                    _ => {
                        assert(self@ =~= (SystemState {
                            waiting: old(self)@.waiting.remove(id),
                            ..old(self)@
                        }));
                        self.conclude()
                    },
                }
            },
        }
    }

    /// Takes an envelope that arrived in the root mailbox. A request to
    /// start is obeyed at once. Before the system has started, and while
    /// older envelopes wait, the envelope is kept for later. A system that
    /// winds down or has terminated drops it.
    pub fn received(&mut self, env: Envelope) -> (actions: Vec<SystemAction>)
        requires
            old(self).wf(),
            env.msg is Start || expected(env.msg),
        ensures
            final(self).wf(),
            receives(old(self)@, env, final(self)@, actions@),
    {
        if !matches!(self.phase, Phase::Running) {
            return Vec::new();
        }
        if matches!(env.msg, QuipMessage::Start) {
            self.started = true;
            let start = self.bcast.sign(QuipMessage::start());
            let deliveries = self.bcast.send_children(start);
            let ghost ds = deliveries@;
            assert(self@ =~= (SystemState { started: true, ..old(self)@ }));
            assert(fans_out(ds, old(self)@.children, from_system(old(self)@, QuipMessage::Start)));
            let mut actions = wrap(deliveries);
            let mut rest = self.replay_all();
            let ghost later = rest@;
            actions.append(&mut rest);
            assert(starts_with(old(self)@, ds, later, self@, actions@));
            return actions;
        }
        if !self.started || self.pre_start_msgs.len() > 0 {
            self.pre_start_msgs.push(env);
            assert(self@ =~= (SystemState {
                buffered: old(self)@.buffered.push(env),
                ..old(self)@
            }));
            return Vec::new();
        }
        self.handle(env)
    }

    /// Handles the envelopes that were kept for later, oldest first,
    /// until none is left or the system runs no more.
    pub fn replay_all(&mut self) -> (actions: Vec<SystemAction>)
        requires
            old(self).wf(),
        ensures
            final(self).wf(),
            catches_up(old(self)@, final(self)@, actions@),
    {
        let mut actions: Vec<SystemAction> = Vec::new();
        let ghost mut states: Seq<SystemState> = seq![self@];
        let ghost mut parts: Seq<Seq<SystemAction>> = Seq::empty();
        loop
            invariant
                self.wf(),
                replays_through(old(self)@, states, parts, self@),
                actions@ == all_actions(parts),
            ensures
                self.wf(),
                !has_backlog(self@),
                replays_through(old(self)@, states, parts, self@),
                actions@ == all_actions(parts),
            decreases self@.buffered.len(),
        {
            let ghost cur = self@;
            match self.replay() {
                None => {
                    break ;
                },
                Some(handled_now) => {
                    let mut handled_now = handled_now;
                    let ghost first = handled_now@;
                    actions.append(&mut handled_now);
                    proof {
                        let longer = states.push(self@);
                        let more = parts.push(first);
                        assert(more.drop_last() =~= parts);
                        assert forall|i: int| 0 <= i < more.len() implies replays(
                            longer[i],
                            longer[i + 1],
                            #[trigger] more[i],
                        ) by {
                            if i < parts.len() {
                                assert(replays(states[i], states[i + 1], parts[i]));
                            }
                        }
                        states = longer;
                        parts = more;
                    }
                },
            }
        }
        actions
    }

    /// Handles the oldest of the envelopes that were kept for later, if
    /// the system runs and has started and there is one.
    pub fn replay(&mut self) -> (actions: Option<Vec<SystemAction>>)
        requires
            old(self).wf(),
        ensures
            final(self).wf(),
            actions is Some <==> has_backlog(old(self)@),
            actions is None ==> final(self)@ == old(self)@,
            actions is Some ==> replays(old(self)@, final(self)@, actions->0@),
            actions is Some ==> final(self)@.buffered.len() < old(self)@.buffered.len(),
    {
        if matches!(self.phase, Phase::Running) && self.started && self.pre_start_msgs.len() > 0 {
            let env = self.pre_start_msgs.remove(0);
            assert(self@ =~= (SystemState {
                buffered: old(self)@.buffered.drop_first(),
                ..old(self)@
            }));
            assert forall|i: int| 0 <= i < self@.buffered.len() implies expected(
                #[trigger] self@.buffered[i].msg,
            ) by {
                assert(self@.buffered[i] == old(self)@.buffered[i + 1]);
            }
            Some(self.handle(env))
        } else {
            None
        }
    }
}

} // verus!
