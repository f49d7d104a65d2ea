use quip::broadcast::{Broadcast, Delivery, Parent};
use quip::child::{Child, ChildAction, ChildEvent, ChildHook, ChildState};
use quip::children::{Children, GroupAction, MemberEnd};
use quip::dispatcher::DispatcherType;
use quip::distributor::Distributor;
use quip::envelope::Envelope;
use quip::id::QuipId;
use quip::message::{CallbackType, Deployment, Msg, Payload, QuipMessage, StateHandle};
use quip::path::QuipPathElement;
use quip::quip::Quip;
use quip::supervisor::{SupervisorAction, SupervisorRef};

fn group_of(n: usize) -> (Children, Vec<Broadcast>, SupervisorRef) {
    let sv = Quip::root_supervisor();
    let (_, mailboxes, d) = sv.children(|c| c.with_redundancy(n));
    match d.envelope.msg {
        QuipMessage::Deploy(Deployment::Children(group)) => (group, mailboxes, sv),
        _ => panic!(),
    }
}

fn only_delivery(actions: Vec<GroupAction>) -> Delivery {
    assert_eq!(actions.len(), 1);
    match actions.into_iter().next().unwrap() {
        GroupAction::Deliver(d) => d,
        _ => panic!(),
    }
}

#[test]
fn a_group_launches_as_many_children_as_its_redundancy() {
    for n in 1..6 {
        let (group, mailboxes, _) = group_of(n);
        assert_eq!(group.redundancy, n);
        assert_eq!(group.launched.len(), n);
        assert_eq!(mailboxes.len(), n);
        for (child, mailbox) in group.launched.iter().zip(mailboxes.iter()) {
            assert!(child.is_public());
            assert_eq!(child.name(), "__Anonymous__");
            assert_eq!(child.id(), mailbox.id());
            assert_eq!(child.sender(), mailbox.sender());
            assert!(!child.id().is_nil());
        }
    }
}

#[test]
fn a_group_has_at_least_one_child() {
    let (group, mailboxes, _) = group_of(0);
    assert_eq!(group.redundancy, 1);
    assert_eq!(mailboxes.len(), 1);
}

#[test]
fn group_builders() {
    let sv = Quip::root_supervisor();
    let (group_ref, _, d) = sv.children(|c| {
        c.with_name("workers".to_string())
            .with_dispatcher(DispatcherType::Named("pool".to_string()))
            .with_distributor(Distributor::named("say_hi"))
            .with_heartbeat_tick(500)
            .with_redundancy(2)
    });
    let group = match d.envelope.msg {
        QuipMessage::Deploy(Deployment::Children(group)) => group,
        _ => panic!(),
    };
    assert_eq!(group.name(), "workers");
    assert_eq!(group.heartbeat_tick, 500);
    assert_eq!(group_of(1).0.heartbeat_tick, quip::children::DEFAULT_HEARTBEAT_TICK);
    assert_eq!(group_ref.dispatchers(), &vec![DispatcherType::Named("pool".to_string())]);
    assert_eq!(group_ref.distributors(), &vec![Distributor::named("say_hi")]);
    assert_eq!(group_ref.elems()[0].name(), "workers");
    assert_eq!(group_ref.id(), &group.id());
    assert_eq!(group.as_ref(), group_ref);
    assert_eq!(group_ref.sender(), group.bcast().sender());
}

#[test]
fn children_ref_requests() {
    let (group, _, _) = group_of(1);
    let group_ref = group.as_ref();
    let p = Payload { type_tag: 0, value: 8 };
    let d = group_ref.broadcast(p);
    assert_eq!(&d.to, group_ref.sender());
    assert!(matches!(d.envelope.msg, QuipMessage::Message(Msg::Broadcast(q)) if q == p));
    assert!(matches!(group_ref.stop().envelope.msg, QuipMessage::Stop));
    assert!(matches!(group_ref.kill().envelope.msg, QuipMessage::Kill));
}

#[test]
fn child_life_from_start_to_stop() {
    let (_, mut mailboxes, _) = group_of(1);
    let mut child = Child::new(mailboxes.remove(0));
    let id = child.id();
    assert_eq!(child.state(), ChildState::Init);

    // A message before the start is kept and handed over at the start.
    let early = Envelope::from_dead_letters(QuipMessage::tell(Payload { type_tag: 0, value: 1 }));
    assert!(child.handle(ChildEvent::Received(early)).is_empty());
    let actions = child.handle(ChildEvent::Received(Envelope::from_dead_letters(QuipMessage::start())));
    assert_eq!(child.state(), ChildState::Running);
    assert_eq!(actions.len(), 1);
    assert!(matches!(&actions[0], ChildAction::Hand(m) if m.msg == Msg::Tell(Payload { type_tag: 0, value: 1 })));

    let later = Envelope::from_dead_letters(QuipMessage::tell(Payload { type_tag: 0, value: 2 }));
    let actions = child.handle(ChildEvent::Received(later));
    assert!(matches!(&actions[0], ChildAction::Hand(m) if m.msg == Msg::Tell(Payload { type_tag: 0, value: 2 })));
    assert!(child.settle().is_empty());

    assert!(child
        .handle(ChildEvent::Received(Envelope::from_dead_letters(QuipMessage::stop())))
        .is_empty());
    assert_eq!(child.state(), ChildState::Stopping);
    let actions = child.settle();
    assert_eq!(actions.len(), 2);
    assert!(matches!(&actions[0], ChildAction::Deliver(d) if matches!(d.envelope.msg, QuipMessage::Stopped { id: i } if i == id)));
    assert!(matches!(actions[1], ChildAction::Callback(ChildHook::AfterStop)));
    assert_eq!(child.state(), ChildState::Terminated);
    assert!(child.settle().is_empty());
    assert!(child.handle(ChildEvent::Panicked).is_empty());
    assert_eq!(child.state(), ChildState::Terminated);
}

#[test]
fn a_panic_is_answered_by_after_panic_exactly_once() {
    for event in [ChildEvent::Panicked, ChildEvent::Failed] {
        let (group, mut mailboxes, _) = group_of(1);
        let mut child = Child::new(mailboxes.remove(0));
        child.handle(ChildEvent::Received(Envelope::from_dead_letters(QuipMessage::start())));
        assert!(child.handle(event).is_empty());
        assert_eq!(child.state(), ChildState::Faulting);
        let mut hooks = 0;
        let mut told = 0;
        for _ in 0..5 {
            for action in child.settle() {
                match action {
                    ChildAction::Callback(ChildHook::AfterPanic) => hooks += 1,
                    ChildAction::Deliver(d) => {
                        assert_eq!(&d.to, group.bcast().sender());
                        assert!(matches!(d.envelope.msg, QuipMessage::Faulted { .. }));
                        told += 1;
                    }
                    _ => panic!(),
                }
            }
            child.handle(ChildEvent::Panicked);
        }
        assert_eq!(hooks, 1);
        assert_eq!(told, 1);
        assert_eq!(child.state(), ChildState::Terminated);
    }
}

#[test]
fn a_finished_future_stops_the_child() {
    let (_, mut mailboxes, _) = group_of(1);
    let mut child = Child::new(mailboxes.remove(0));
    // Nothing runs before the start.
    child.handle(ChildEvent::Completed);
    assert_eq!(child.state(), ChildState::Init);
    child.handle(ChildEvent::Received(Envelope::from_dead_letters(QuipMessage::start())));
    child.handle(ChildEvent::Completed);
    assert_eq!(child.state(), ChildState::Stopping);
    // A kill before the start stops the child too.
    let (_, mut mailboxes, _) = group_of(1);
    let mut child = Child::new(mailboxes.remove(0));
    child.handle(ChildEvent::Received(Envelope::from_dead_letters(QuipMessage::kill())));
    assert_eq!(child.state(), ChildState::Stopping);
}

#[test]
fn restart_of_one_child_leaves_its_sibling_alone() {
    // One for one, always: the group restarts the member that panicked;
    // the second child goes on uninterrupted.
    let (group, mut mailboxes, sv_ref) = group_of(2);
    let group_id = group.id();
    let mut supervisor = quip::supervisor::Supervisor::system(Broadcast::new(
        Parent::system(),
        QuipPathElement::Supervisor(QuipId::nil()),
    ));
    assert_eq!(supervisor.as_ref(), sv_ref);
    supervisor.start();
    let mut group = match supervisor
        .deploy(quip::supervisor::Supervised::Children(group))
        .pop()
        .unwrap()
    {
        SupervisorAction::Launch { element: quip::supervisor::Supervised::Children(group), .. } => group,
        _ => panic!(),
    };
    group.received(Envelope::from_dead_letters(QuipMessage::start()));

    let mut failing = Child::new(mailboxes.remove(0));
    let mut sibling = Child::new(mailboxes.remove(0));
    let (failing_id, sibling_id) = (failing.id(), sibling.id());
    for child in [&mut failing, &mut sibling] {
        child.handle(ChildEvent::Received(Envelope::from_dead_letters(QuipMessage::start())));
    }

    failing.handle(ChildEvent::Panicked);
    let mut actions = failing.settle();
    assert!(matches!(actions.pop().unwrap(), ChildAction::Callback(ChildHook::AfterPanic)));
    let faulted = match actions.pop().unwrap() {
        ChildAction::Deliver(d) => d,
        _ => panic!(),
    };
    assert_eq!(&faulted.to, group.bcast().sender());

    let ask = only_delivery(group.received(faulted.envelope));
    assert_eq!(&ask.to, sv_ref.sender());
    assert!(matches!(ask.envelope.msg, QuipMessage::RestartRequired { id, parent_id }
        if id == failing_id && parent_id == group_id));
    assert_eq!(group.launched.len(), 1);
    assert_eq!(group.launched[0].id(), &sibling_id);

    let mut verdict = supervisor.received(ask.envelope, 0);
    assert_eq!(verdict.len(), 1);
    let restore = match verdict.pop().unwrap() {
        SupervisorAction::Deliver(d) => d,
        _ => panic!(),
    };
    assert_eq!(&restore.to, group.bcast().sender());
    assert!(matches!(restore.envelope.msg, QuipMessage::RestoreChild { id, state }
        if id == failing_id && state == StateHandle(failing_id)));

    let actions = group.received(restore.envelope);
    assert_eq!(actions.len(), 4);
    let new_id = match &actions[0] {
        GroupAction::Spawn { mailbox, state } => {
            assert_eq!(*state, Some(StateHandle(failing_id)));
            *mailbox.id()
        }
        _ => panic!(),
    };
    assert_ne!(new_id, failing_id);
    assert!(matches!(actions[1], GroupAction::Callback { child, callback: CallbackType::AfterRestart } if child == new_id));
    assert!(matches!(&actions[2], GroupAction::Deliver(d)
        if matches!(d.envelope.msg, QuipMessage::InstantiatedChild { parent_id, child_id, state }
            if parent_id == group_id && child_id == new_id && state == StateHandle(failing_id))
        && &d.to == sv_ref.sender()));
    assert!(matches!(&actions[3], GroupAction::Deliver(d) if matches!(d.envelope.msg, QuipMessage::Start)));

    let ids: Vec<QuipId> = group.launched.iter().map(|c| *c.id()).collect();
    assert_eq!(ids, vec![sibling_id, new_id]);
    // Nothing was sent to the sibling, and it still runs.
    assert_eq!(sibling.state(), ChildState::Running);
    assert!(sibling.settle().is_empty());
}

#[test]
fn a_stopped_member_is_restored_without_after_restart() {
    let (mut group, _, _) = group_of(1);
    let id = *group.launched[0].id();
    let actions = group.member_terminated(id, MemberEnd::Stopped);
    assert_eq!(actions.len(), 1);
    assert!(group.launched.is_empty());
    let actions = group.restore_child(id, StateHandle(id));
    assert_eq!(actions.len(), 2);
    assert!(matches!(actions[0], GroupAction::Spawn { .. }));
    assert!(matches!(&actions[1], GroupAction::Deliver(d) if matches!(d.envelope.msg, QuipMessage::InstantiatedChild { .. })));
    assert_eq!(group.launched.len(), 1);
}

#[test]
fn a_finished_member_is_dropped_without_asking() {
    let (mut group, _, _) = group_of(2);
    let id = *group.launched[1].id();
    assert!(group.member_terminated(id, MemberEnd::Finished).is_empty());
    assert_eq!(group.launched.len(), 1);
    // The end of a stranger does nothing.
    assert!(group.member_terminated(QuipId::new(), MemberEnd::Faulted).is_empty());
    assert_eq!(group.launched.len(), 1);
}

#[test]
fn a_group_buffers_until_started_but_obeys_stop() {
    let (mut group, _, sv_ref) = group_of(2);
    let p = Payload { type_tag: 0, value: 3 };
    assert!(group.received(Envelope::from_dead_letters(QuipMessage::broadcast(p))).is_empty());
    assert!(group.replay().is_none());
    assert!(group.replay_all().is_empty());
    // The start is passed on, and then what waited is handled.
    let actions = group.received(Envelope::from_dead_letters(QuipMessage::start()));
    assert_eq!(actions.len(), 4);
    for a in &actions[..2] {
        assert!(matches!(a, GroupAction::Deliver(d) if matches!(d.envelope.msg, QuipMessage::Start)));
    }
    for a in &actions[2..] {
        assert!(matches!(a, GroupAction::Deliver(d)
            if matches!(d.envelope.msg, QuipMessage::Message(Msg::Broadcast(q)) if q == p)));
    }
    assert!(group.replay().is_none());

    let actions = group.received(Envelope::from_dead_letters(QuipMessage::stop()));
    assert_eq!(actions.len(), 4);
    assert!(matches!(&actions[0], GroupAction::Deliver(d) if matches!(d.envelope.msg, QuipMessage::Stop)));
    assert!(matches!(&actions[1], GroupAction::Deliver(d) if matches!(d.envelope.msg, QuipMessage::Stop)));
    assert!(matches!(&actions[2], GroupAction::Deliver(d)
        if matches!(d.envelope.msg, QuipMessage::Stopped { .. }) && &d.to == sv_ref.sender()));
    assert!(matches!(actions[3], GroupAction::Terminate));
    assert!(group.terminated);
    assert!(group.launched.is_empty());
    // After its end the group sends nothing more.
    assert!(group.received(Envelope::from_dead_letters(QuipMessage::broadcast(p))).is_empty());
}

#[test]
fn a_killed_group_kills_its_children() {
    let (mut group, _, _) = group_of(3);
    let actions = group.kill();
    assert_eq!(actions.len(), 5);
    for a in &actions[..3] {
        assert!(matches!(a, GroupAction::Deliver(d) if matches!(d.envelope.msg, QuipMessage::Kill)));
    }
    assert!(matches!(&actions[3], GroupAction::Deliver(d) if matches!(d.envelope.msg, QuipMessage::Stopped { .. })));
}
