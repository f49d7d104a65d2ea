//! Children: the lifecycle of one child.
//!
//! A child waits to be started, runs the future of its user, and ends
//! either stopped or faulted. Whoever drives it hands it what happened (an
//! envelope arrived, the future returned or panicked) and gets back what
//! is to be done.

use crate::broadcast::{Broadcast, Delivery, Parent};
use crate::envelope::{Envelope, SignedMessage};
use crate::id::QuipId;
use crate::message::QuipMessage;
use vstd::prelude::*;

verus! {

/// Where a child stands in its life.
#[derive(Clone, Copy, Debug, PartialEq, Eq, Structural)]
pub enum ChildState {
    /// Made, not yet started.
    Init,
    /// Running the future of its user.
    Running,
    /// Asked to stop, or done; about to terminate.
    Stopping,
    /// Failed or panicked; about to terminate.
    Faulting,
    /// Terminated.
    Terminated,
}

/// The hooks a child calls at its end.
#[derive(Clone, Copy, Debug, PartialEq, Eq, Structural)]
pub enum ChildHook {
    AfterStop,
    AfterPanic,
}

/// Something that happened to a child.
#[derive(Debug)]
pub enum ChildEvent {
    /// An envelope arrived in its mailbox.
    Received(Envelope),
    /// The future of its user returned without error.
    Completed,
    /// The future of its user returned an error.
    Failed,
    /// The future of its user panicked while it was polled.
    Panicked,
}

/// Something the driver of a child is to do.
#[derive(Debug)]
pub enum ChildAction {
    /// Put an envelope into a mailbox.
    Deliver(Delivery),
    /// Call a hook of the child.
    Callback(ChildHook),
    /// Hand a message to the future of the user, which takes it with its
    /// next `recv`.
    Hand(SignedMessage),
}

/// A child as its driver holds it.
#[derive(Debug)]
pub struct Child {
    /// The child's mailbox; its parent is the group.
    pub bcast: Broadcast,
    /// Where the child stands.
    pub state: ChildState,
    /// The messages of users that arrived before the child was started,
    /// oldest first.
    pub pre_start_msgs: Vec<SignedMessage>,
}

/// The state a child is in after an event.
pub open spec fn after_event(state: ChildState, event: ChildEvent) -> ChildState {
    match state {
        ChildState::Init => match event {
            ChildEvent::Received(env) => match env.msg {
                QuipMessage::Start => ChildState::Running,
                QuipMessage::Stop => ChildState::Stopping,
                QuipMessage::Kill => ChildState::Stopping,
                _ => ChildState::Init,
            },
            _ => ChildState::Init,
        },
        ChildState::Running => match event {
            ChildEvent::Received(env) => match env.msg {
                QuipMessage::Stop => ChildState::Stopping,
                QuipMessage::Kill => ChildState::Stopping,
                _ => ChildState::Running,
            },
            ChildEvent::Completed => ChildState::Stopping,
            ChildEvent::Failed => ChildState::Faulting,
            ChildEvent::Panicked => ChildState::Faulting,
        },
        _ => state,
    }
}

/// The messages that are kept for later after an event: a message of a
/// user that arrives before the start is added; the start, and the end of
/// the wait for it, let go of them all.
pub open spec fn kept_after(state: ChildState, kept: Seq<SignedMessage>, event: ChildEvent) -> Seq<
    SignedMessage,
> {
    match state {
        ChildState::Init => match event {
            ChildEvent::Received(env) => match env.msg {
                QuipMessage::Start => Seq::empty(),
                QuipMessage::Stop => Seq::empty(),
                QuipMessage::Kill => Seq::empty(),
                QuipMessage::Message(msg) => kept.push(SignedMessage { msg, sign: env.sign }),
                _ => kept,
            },
            _ => kept,
        },
        _ => kept,
    }
}

/// The messages handed to the user's future on an event: at the start
/// those that were kept, oldest first; while running, the message of a
/// user that arrives.
pub open spec fn handed_on(state: ChildState, kept: Seq<SignedMessage>, event: ChildEvent) -> Seq<
    SignedMessage,
> {
    match state {
        ChildState::Init => match event {
            ChildEvent::Received(env) => match env.msg {
                QuipMessage::Start => kept,
                _ => Seq::empty(),
            },
            _ => Seq::empty(),
        },
        ChildState::Running => match event {
            ChildEvent::Received(env) => match env.msg {
                QuipMessage::Message(msg) => seq![SignedMessage { msg, sign: env.sign }],
                _ => Seq::empty(),
            },
            _ => Seq::empty(),
        },
        _ => Seq::empty(),
    }
}

/// The messages, each as an action that hands it to the user's future.
pub open spec fn hand_all(msgs: Seq<SignedMessage>) -> Seq<ChildAction> {
    Seq::new(msgs.len(), |i: int| ChildAction::Hand(msgs[i]))
}

/// The hook a child calls when it settles, if any: `after_stop` when it
/// was stopping, `after_panic` when it was faulting.
pub open spec fn hook_of(state: ChildState) -> Option<ChildHook> {
    match state {
        ChildState::Stopping => Some(ChildHook::AfterStop),
        ChildState::Faulting => Some(ChildHook::AfterPanic),
        _ => None,
    }
}

/// The state a child is in after it has settled.
pub open spec fn settled(state: ChildState) -> ChildState {
    match state {
        ChildState::Stopping => ChildState::Terminated,
        ChildState::Faulting => ChildState::Terminated,
        _ => state,
    }
}

/// One step of a child's life: an event is handled, or the child settles.
pub enum ChildStep {
    Handle(ChildEvent),
    Settle,
}

/// The state a child is in after the steps.
pub open spec fn state_after(state: ChildState, steps: Seq<ChildStep>) -> ChildState
    decreases steps.len(),
{
    if steps.len() == 0 {
        state
    } else {
        let next = match steps[0] {
            ChildStep::Handle(event) => after_event(state, event),
            ChildStep::Settle => settled(state),
        };
        state_after(next, steps.drop_first())
    }
}

/// How often a child calls `hook` during the steps.
pub open spec fn calls_during(state: ChildState, steps: Seq<ChildStep>, hook: ChildHook) -> nat
    decreases steps.len(),
{
    if steps.len() == 0 {
        0
    } else {
        match steps[0] {
            ChildStep::Handle(event) => calls_during(
                after_event(state, event),
                steps.drop_first(),
                hook,
            ),
            ChildStep::Settle => (if hook_of(state) == Some(hook) {
                1nat
            } else {
                0nat
            }) + calls_during(settled(state), steps.drop_first(), hook),
        }
    }
}

/// Whatever happens to a child, and however often it is asked to settle,
/// it calls each of its hooks at most once, and never both; a child that
/// has terminated calls none.
pub proof fn lemma_hooks_at_most_once(state: ChildState, steps: Seq<ChildStep>)
    ensures
        calls_during(state, steps, ChildHook::AfterStop) + calls_during(
            state,
            steps,
            ChildHook::AfterPanic,
        ) <= 1,
        state is Terminated ==> calls_during(state, steps, ChildHook::AfterStop) == 0
            && calls_during(state, steps, ChildHook::AfterPanic) == 0,
        state is Stopping ==> calls_during(state, steps, ChildHook::AfterPanic) == 0,
        state is Faulting ==> calls_during(state, steps, ChildHook::AfterStop) == 0,
    decreases steps.len(),
{
    if steps.len() > 0 {
        match steps[0] {
            ChildStep::Handle(event) => {
                lemma_hooks_at_most_once(after_event(state, event), steps.drop_first());
            },
            ChildStep::Settle => {
                lemma_hooks_at_most_once(settled(state), steps.drop_first());
            },
        }
    }
}

/// A running child whose future panics, and which is then asked to
/// settle, has terminated after these two steps and has called
/// `after_panic` once; whatever follows, it does not call it again and
/// stays terminated.
pub proof fn lemma_panic_is_answered_once(rest: Seq<ChildStep>)
    ensures
        ({
            let steps = seq![ChildStep::Handle(ChildEvent::Panicked), ChildStep::Settle] + rest;
            &&& state_after(
                ChildState::Running,
                seq![ChildStep::Handle(ChildEvent::Panicked), ChildStep::Settle],
            ) is Terminated
            &&& state_after(ChildState::Running, steps) is Terminated
            &&& calls_during(ChildState::Running, steps, ChildHook::AfterPanic) == 1
            &&& calls_during(ChildState::Running, steps, ChildHook::AfterStop) == 0
        }),
{
    let first = seq![ChildStep::Handle(ChildEvent::Panicked), ChildStep::Settle];
    let steps = first + rest;
    assert(steps.drop_first().drop_first() == rest);
    assert(steps[0] == ChildStep::Handle(ChildEvent::Panicked));
    assert(steps.drop_first()[0] == ChildStep::Settle);
    assert(first.drop_first().drop_first() == Seq::<ChildStep>::empty());
    assert(first.drop_first()[0] == ChildStep::Settle);
    lemma_terminated_stays(rest);
    lemma_hooks_at_most_once(ChildState::Terminated, rest);
    reveal_with_fuel(state_after, 3);
    reveal_with_fuel(calls_during, 3);
}

/// A child that waits for its start, or runs, and is asked to stop or is
/// killed, and is then asked to settle, has terminated after these two
/// steps and has called `after_stop` once; whatever follows, it does not
/// call it again, never calls `after_panic`, and stays terminated.
pub proof fn lemma_stop_is_answered_once(state: ChildState, env: Envelope, rest: Seq<ChildStep>)
    requires
        state is Init || state is Running,
        env.msg is Stop || env.msg is Kill,
    ensures
        ({
            let steps = seq![ChildStep::Handle(ChildEvent::Received(env)), ChildStep::Settle] + rest;
            &&& state_after(state, steps) is Terminated
            &&& calls_during(state, steps, ChildHook::AfterStop) == 1
            &&& calls_during(state, steps, ChildHook::AfterPanic) == 0
        }),
{
    let first = seq![ChildStep::Handle(ChildEvent::Received(env)), ChildStep::Settle];
    let steps = first + rest;
    assert(steps.drop_first().drop_first() == rest);
    assert(steps[0] == ChildStep::Handle(ChildEvent::Received(env)));
    assert(steps.drop_first()[0] == ChildStep::Settle);
    lemma_terminated_stays(rest);
    lemma_hooks_at_most_once(ChildState::Terminated, rest);
    reveal_with_fuel(state_after, 3);
    reveal_with_fuel(calls_during, 3);
}

/// A child that has terminated stays so.
pub proof fn lemma_terminated_stays(steps: Seq<ChildStep>)
    ensures
        state_after(ChildState::Terminated, steps) is Terminated,
    decreases steps.len(),
{
    if steps.len() > 0 {
        lemma_terminated_stays(steps.drop_first());
    }
}

impl Child {
    /// Whether the child stands below a children group.
    pub open spec fn wf(&self) -> bool {
        self.bcast.owner() is Children
    }

    /// Whether the child stands below a children group.
    pub fn is_wf(&self) -> (b: bool)
        ensures
            b == self.wf(),
    {
        match self.bcast.parent() {
            Parent::Children(_) => true,
            _ => false,
        }
    }

    /// A child with the mailbox, not yet started.
    pub fn new(bcast: Broadcast) -> (child: Self)
        ensures
            child.bcast == bcast,
            child.state is Init,
            child.pre_start_msgs@.len() == 0,
    {
        Child { bcast, state: ChildState::Init, pre_start_msgs: Vec::new() }
    }

    /// The child's identifier.
    pub fn id(&self) -> (id: QuipId)
        ensures
            id == self.bcast.ident(),
    {
        *self.bcast.id()
    }

    /// Where the child stands.
    pub fn state(&self) -> (state: ChildState)
        ensures
            state == self.state,
    {
        self.state
    }

    /// Takes an event. The child goes where [`after_event`] says, and the
    /// messages that [`handed_on`] names are to be handed to the future
    /// of the user. No hook is called and nothing is sent.
    pub fn handle(&mut self, event: ChildEvent) -> (actions: Vec<ChildAction>)
        ensures
            final(self).bcast == old(self).bcast,
            final(self).state == after_event(old(self).state, event),
            final(self).pre_start_msgs@ == kept_after(
                old(self).state,
                old(self).pre_start_msgs@,
                event,
            ),
            actions@ == hand_all(handed_on(old(self).state, old(self).pre_start_msgs@, event)),
    {
        let mut actions: Vec<ChildAction> = Vec::new();
        match self.state {
            ChildState::Init => match event {
                ChildEvent::Received(env) => match env.msg {
                    QuipMessage::Start => {
                        self.state = ChildState::Running;
                        let ghost kept = self.pre_start_msgs@;
                        while self.pre_start_msgs.len() > 0
                            invariant
                                self.bcast == old(self).bcast,
                                self.state is Running,
                                actions@.len() + self.pre_start_msgs@.len() == kept.len(),
                                forall|i: int|
                                    0 <= i < actions@.len() ==> actions@[i] == ChildAction::Hand(
                                        kept[i],
                                    ),
                                forall|i: int|
                                    0 <= i < self.pre_start_msgs@.len() ==> self.pre_start_msgs@[i]
                                        == kept[actions@.len() + i],
                            decreases self.pre_start_msgs@.len(),
                        {
                            let msg = self.pre_start_msgs.remove(0);
                            actions.push(ChildAction::Hand(msg));
                        }
                        assert(actions@ =~= hand_all(kept));
                        assert(self.pre_start_msgs@ =~= Seq::<SignedMessage>::empty());
                    },
                    QuipMessage::Stop => {
                        self.state = ChildState::Stopping;
                        self.pre_start_msgs = Vec::new();
                    },
                    QuipMessage::Kill => {
                        self.state = ChildState::Stopping;
                        self.pre_start_msgs = Vec::new();
                    },
                    QuipMessage::Message(msg) => {
                        self.pre_start_msgs.push(SignedMessage::new(msg, env.sign));
                    },
                    _ => {},
                },
                _ => {},
            },
            ChildState::Running => match event {
                ChildEvent::Received(env) => match env.msg {
                    QuipMessage::Stop => {
                        self.state = ChildState::Stopping;
                    },
                    QuipMessage::Kill => {
                        self.state = ChildState::Stopping;
                    },
                    QuipMessage::Message(msg) => {
                        actions.push(ChildAction::Hand(SignedMessage::new(msg, env.sign)));
                    },
                    _ => {},
                },
                ChildEvent::Completed => {
                    self.state = ChildState::Stopping;
                },
                ChildEvent::Failed => {
                    self.state = ChildState::Faulting;
                },
                ChildEvent::Panicked => {
                    self.state = ChildState::Faulting;
                },
            },
            _ => {},
        }
        assert(actions@ =~= hand_all(
            handed_on(old(self).state, old(self).pre_start_msgs@, event),
        ));
        actions
    }

    /// Lets a child that is stopping or faulting terminate: its group is
    /// told that it stopped or faulted, and then the hook that
    /// [`hook_of`] names is called. A child in any other state does
    /// nothing.
    pub fn settle(&mut self) -> (actions: Vec<ChildAction>)
        requires
            old(self).wf(),
        ensures
            final(self).wf(),
            final(self).state == settled(old(self).state),
            final(self).pre_start_msgs == old(self).pre_start_msgs,
            final(self).bcast.address() == old(self).bcast.address(),
            final(self).bcast.mailbox() == old(self).bcast.mailbox(),
            final(self).bcast.owner() == old(self).bcast.owner(),
            match hook_of(old(self).state) {
                None => actions@.len() == 0 && final(self).bcast == old(self).bcast,
                Some(hook) => {
                    &&& actions@.len() == 2
                    &&& actions@[0] is Deliver
                    &&& old(self).bcast.owner().receives(
                        actions@[0]->Deliver_0,
                        old(self).bcast.signed(
                            match hook {
                                ChildHook::AfterStop => QuipMessage::Stopped {
                                    id: old(self).bcast.ident(),
                                },
                                ChildHook::AfterPanic => QuipMessage::Faulted {
                                    id: old(self).bcast.ident(),
                                },
                            },
                        ),
                    )
                    &&& actions@[1] == ChildAction::Callback(hook)
                },
            },
    {
        let mut actions: Vec<ChildAction> = Vec::new();
        match self.state {
            ChildState::Stopping => {
                let env = self.bcast.sign(QuipMessage::stopped(*self.bcast.id()));
                match self.bcast.send_parent(env) {
                    Ok(d) => {
                        actions.push(ChildAction::Deliver(d));
                    },
                    Err(_) => {},
                }
                actions.push(ChildAction::Callback(ChildHook::AfterStop));
                self.state = ChildState::Terminated;
            },
            ChildState::Faulting => {
                let env = self.bcast.sign(QuipMessage::faulted(*self.bcast.id()));
                match self.bcast.send_parent(env) {
                    Ok(d) => {
                        actions.push(ChildAction::Deliver(d));
                    },
                    Err(_) => {},
                }
                actions.push(ChildAction::Callback(ChildHook::AfterPanic));
                self.state = ChildState::Terminated;
            },
            _ => {},
        }
        actions
    }
}

} // verus!
