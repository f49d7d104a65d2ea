use quip::broadcast::{Broadcast, Parent};
use quip::children::Children;
use quip::envelope::Envelope;
use quip::id::QuipId;
use quip::message::{CallbackType, Deployment, Payload, QuipMessage, StateHandle};
use quip::path::{QuipPath, QuipPathElement};
use quip::restart::ActorRestartStrategy;
use quip::supervisor::{
    Ended, RestartPolicy, Supervised, SupervisionStrategy, Supervisor, SupervisorAction,
    SupervisorPhase,
};

fn supervisor() -> Supervisor {
    Supervisor::new(Broadcast::new(
        Parent::system(),
        QuipPathElement::Supervisor(QuipId::new()),
    ))
}

fn group_below(sv: &Supervisor, n: usize) -> Children {
    let (_, _, d) = sv.as_ref().children(|c| c.with_redundancy(n));
    match d.envelope.msg {
        QuipMessage::Deploy(Deployment::Children(group)) => group,
        _ => panic!(),
    }
}

fn launch(sv: &mut Supervisor, n: usize) -> Vec<Supervised> {
    let mut out = vec![];
    for _ in 0..n {
        let group = group_below(sv, 1);
        match sv.deploy(Supervised::Children(group)).pop().unwrap() {
            SupervisorAction::Launch { element, .. } => out.push(element),
            _ => panic!(),
        }
    }
    out
}

fn anonymous(msg: QuipMessage) -> Envelope {
    Envelope::from_dead_letters(msg)
}

#[test]
fn a_supervisor_buffers_until_started() {
    let mut sv = supervisor();
    assert_eq!(sv.phase(), SupervisorPhase::Init);
    let group = group_below(&sv, 1);
    let group_id = group.id();
    assert!(sv
        .received(anonymous(QuipMessage::deploy_children(group)), 0)
        .is_empty());
    assert!(sv.replay(0).is_none());
    assert!(sv.replay_all(0).is_empty());
    let actions = sv.received(anonymous(QuipMessage::start()), 0);
    assert_eq!(sv.phase(), SupervisorPhase::Started);
    assert_eq!(actions.len(), 3);
    assert!(matches!(actions[0], SupervisorAction::Callback { id, callback: CallbackType::BeforeStart } if id == group_id));
    assert!(matches!(&actions[1], SupervisorAction::Deliver(d) if matches!(d.envelope.msg, QuipMessage::Start)));
    assert!(matches!(&actions[2], SupervisorAction::Launch { element, formerly: None, mailboxes }
        if element.id() == group_id && mailboxes.is_empty()));
    assert!(sv.replay(0).is_none());
}

#[test]
fn one_for_one_restarts_the_element_that_ended() {
    let mut sv = supervisor();
    sv.start();
    let mut elements = launch(&mut sv, 3);
    let failed = elements.remove(1);
    let failed_id = failed.id();

    assert!(sv.received(anonymous(QuipMessage::faulted(failed_id)), 0).is_empty());
    assert_eq!(sv.phase(), SupervisorPhase::Restarting);
    assert!(sv.relaunch_next().is_none());
    assert!(sv.finished(Ended::Returned(failed)).is_empty());
    let actions = sv.relaunch_next().unwrap();
    assert_eq!(actions.len(), 4);
    assert!(matches!(actions[0], SupervisorAction::Callback { id, callback: CallbackType::BeforeRestart } if id == failed_id));
    assert!(matches!(actions[1], SupervisorAction::Callback { id, callback: CallbackType::AfterRestart } if id == failed_id));
    let new_id = match &actions[2] {
        SupervisorAction::Launch { element, mailboxes, formerly } => {
            assert_eq!(*formerly, Some(failed_id));
            assert_eq!(mailboxes.len(), 1);
            assert!(matches!(element, Supervised::Children(group) if group.launched.len() == 1 && !group.started));
            assert!(element.bcast().path().elem().as_ref().unwrap().is_children());
            element.id()
        }
        _ => panic!(),
    };
    assert_ne!(new_id, failed_id);
    assert!(matches!(&actions[3], SupervisorAction::Deliver(d) if matches!(d.envelope.msg, QuipMessage::Start)));
    assert_eq!(sv.phase(), SupervisorPhase::Started);
    assert!(sv.relaunch_next().is_none());

    // All three are registered: a broadcast reaches three mailboxes.
    let actions = sv.received(anonymous(QuipMessage::broadcast(Payload { type_tag: 0, value: 0 })), 0);
    assert_eq!(actions.len(), 3);
}

#[test]
fn one_for_all_stops_the_siblings_and_restarts_all_in_order() {
    let mut sv = supervisor().with_strategy(SupervisionStrategy::OneForAll);
    sv.start();
    let elements = launch(&mut sv, 3);
    let ids: Vec<QuipId> = elements.iter().map(|e| e.id()).collect();

    let actions = sv.element_ended(ids[1]);
    assert_eq!(actions.len(), 2);
    assert!(matches!(&actions[0], SupervisorAction::Deliver(d)
        if matches!(d.envelope.msg, QuipMessage::Stop) && &d.to == elements[0].bcast().sender()));
    assert!(matches!(&actions[1], SupervisorAction::Deliver(d)
        if matches!(d.envelope.msg, QuipMessage::Stop) && &d.to == elements[2].bcast().sender()));

    // They come back in another order; none is launched before all are back.
    let mut elements = elements;
    let third = elements.pop().unwrap();
    let second = elements.pop().unwrap();
    let first = elements.pop().unwrap();
    assert!(sv.finished(Ended::Returned(third)).is_empty());
    assert!(sv.relaunch_next().is_none());
    assert!(sv.finished(Ended::Returned(first)).is_empty());
    assert!(sv.relaunch_next().is_none());
    assert!(sv.finished(Ended::Returned(second)).is_empty());

    let mut formerly = vec![];
    while let Some(actions) = sv.relaunch_next() {
        match &actions[2] {
            SupervisorAction::Launch { formerly: Some(id), .. } => formerly.push(*id),
            _ => panic!(),
        }
    }
    assert_eq!(formerly, ids);
    assert_eq!(sv.phase(), SupervisorPhase::Started);
}

#[test]
fn rest_for_one_spares_the_earlier_elements() {
    let mut sv = supervisor().with_strategy(SupervisionStrategy::RestForOne);
    sv.start();
    let elements = launch(&mut sv, 4);
    let ids: Vec<QuipId> = elements.iter().map(|e| e.id()).collect();
    let actions = sv.element_ended(ids[1]);
    assert_eq!(actions.len(), 2);
    assert!(matches!(&actions[0], SupervisorAction::Deliver(d) if &d.to == elements[2].bcast().sender()));
    assert!(matches!(&actions[1], SupervisorAction::Deliver(d) if &d.to == elements[3].bcast().sender()));
    let mut back = elements;
    back.remove(0);
    for element in back {
        assert!(sv.finished(Ended::Returned(element)).is_empty());
    }
    let mut formerly = vec![];
    while let Some(actions) = sv.relaunch_next() {
        match &actions[2] {
            SupervisorAction::Launch { formerly: Some(id), .. } => formerly.push(*id),
            _ => panic!(),
        }
    }
    assert_eq!(formerly, ids[1..].to_vec());
}

#[test]
fn never_propagates_stopped_upward() {
    let mut sv = supervisor().with_restart_policy(RestartPolicy::Never);
    let sv_id = sv.id();
    sv.start();
    let elements = launch(&mut sv, 2);
    let actions = sv.element_ended(elements[0].id());
    // Both elements are asked to stop, the system is told.
    assert_eq!(actions.len(), 3);
    assert!(matches!(&actions[2], SupervisorAction::Deliver(d)
        if matches!(d.envelope.msg, QuipMessage::Stopped { id } if id == sv_id)
        && d.to.target().same_as(&QuipPath::root())));
    assert_eq!(sv.phase(), SupervisorPhase::Stopping);
    let mut elements = elements;
    assert!(sv.finished(Ended::Returned(elements.pop().unwrap())).is_empty());
    let actions = sv.finished(Ended::Cancelled(elements[0].id()));
    assert_eq!(actions.len(), 1);
    assert!(matches!(actions[0], SupervisorAction::Terminate));
    assert_eq!(sv.phase(), SupervisorPhase::Terminated);
    assert!(sv.received(anonymous(QuipMessage::start()), 0).is_empty());
}

#[test]
fn a_child_is_restarted_at_most_max_times() {
    let mut sv = supervisor()
        .with_restart_policy(RestartPolicy::Tries(2))
        .with_restart_strategy(ActorRestartStrategy::LinearBackOff { timeout: 100 }, None);
    let sv_id = sv.id();
    sv.start();
    let elements = launch(&mut sv, 1);
    let group_id = elements[0].id();
    let first = QuipId::new();
    let state = StateHandle(first);

    // First restart: after 100 ms.
    let actions = sv.restart_child(first, group_id, 0);
    assert_eq!(actions.len(), 1);
    assert!(matches!(&actions[0], SupervisorAction::DeliverAfter { wait: 100, delivery }
        if matches!(delivery.envelope.msg, QuipMessage::RestoreChild { id, state: s } if id == first && s == state)
        && &delivery.to == elements[0].bcast().sender()));

    // The child comes back under a new identifier with the same state.
    let second = QuipId::new();
    sv.instantiated_child(second, state);
    let actions = sv.restart_child(second, group_id, 10);
    assert!(matches!(&actions[0], SupervisorAction::DeliverAfter { wait: 200, delivery }
        if matches!(delivery.envelope.msg, QuipMessage::RestoreChild { id, state: s } if id == second && s == state)));

    // The third time the supervisor gives up and faults.
    let third = QuipId::new();
    sv.instantiated_child(third, state);
    let actions = sv.restart_child(third, group_id, 20);
    assert_eq!(actions.len(), 2);
    assert!(matches!(&actions[0], SupervisorAction::Deliver(d) if matches!(d.envelope.msg, QuipMessage::Kill)));
    assert!(matches!(&actions[1], SupervisorAction::Deliver(d)
        if matches!(d.envelope.msg, QuipMessage::Faulted { id } if id == sv_id)));
    assert_eq!(sv.phase(), SupervisorPhase::Faulting);
}

#[test]
fn restart_to_an_unknown_group_sends_nothing() {
    let mut sv = supervisor();
    sv.start();
    assert!(sv.restart_child(QuipId::new(), QuipId::new(), 0).is_empty());
}

#[test]
fn prune_and_supervise_with() {
    let mut sv = supervisor();
    sv.start();
    let elements = launch(&mut sv, 2);
    let actions = sv.received(anonymous(QuipMessage::prune(elements[0].id())), 0);
    assert_eq!(actions.len(), 1);
    assert!(matches!(&actions[0], SupervisorAction::Deliver(d) if matches!(d.envelope.msg, QuipMessage::Kill)));
    assert!(sv.prune(QuipId::new()).is_empty());
    let mut elements = elements;
    let pruned = elements.remove(0);
    let pruned_id = pruned.id();
    let actions = sv.finished(Ended::Returned(pruned));
    assert_eq!(actions.len(), 1);
    assert!(matches!(actions[0], SupervisorAction::Callback { id, callback: CallbackType::AfterStop } if id == pruned_id));

    assert_eq!(sv.strategy(), SupervisionStrategy::OneForOne);
    assert!(sv
        .received(anonymous(QuipMessage::SuperviseWith(SupervisionStrategy::RestForOne)), 0)
        .is_empty());
    assert_eq!(sv.strategy(), SupervisionStrategy::RestForOne);
}

#[test]
fn stop_and_kill_end_the_supervisor() {
    let mut sv = supervisor();
    sv.start();
    let mut elements = launch(&mut sv, 1);
    let actions = sv.received(anonymous(QuipMessage::stop()), 0);
    assert_eq!(actions.len(), 2);
    assert!(matches!(&actions[0], SupervisorAction::Deliver(d) if matches!(d.envelope.msg, QuipMessage::Stop)));
    assert!(matches!(&actions[1], SupervisorAction::Deliver(d) if matches!(d.envelope.msg, QuipMessage::Stopped { .. })));
    let actions = sv.finished(Ended::Returned(elements.pop().unwrap()));
    assert!(matches!(actions[0], SupervisorAction::Terminate));

    let mut sv = supervisor();
    let actions = sv.received(anonymous(QuipMessage::kill()), 0);
    // Nothing runs: the parent is told and the supervisor terminates at once.
    assert_eq!(actions.len(), 2);
    assert!(matches!(&actions[0], SupervisorAction::Deliver(d) if matches!(d.envelope.msg, QuipMessage::Stopped { .. })));
    assert!(matches!(actions[1], SupervisorAction::Terminate));
    assert_eq!(sv.phase(), SupervisorPhase::Terminated);
}

#[test]
fn a_reset_supervisor_starts_anew() {
    let mut sv = supervisor().with_strategy(SupervisionStrategy::OneForAll);
    sv.start();
    launch(&mut sv, 2);
    let old_id = sv.id();
    sv.reset(None);
    assert_eq!(sv.id(), old_id);
    assert_eq!(sv.phase(), SupervisorPhase::Init);
    assert_eq!(sv.strategy(), SupervisionStrategy::OneForAll);
    let fresh = Broadcast::new(Parent::system(), QuipPathElement::Supervisor(QuipId::new()));
    let new_id = *fresh.id();
    sv.reset(Some(fresh));
    assert_eq!(sv.id(), new_id);
    assert!(sv.start().is_empty());
}

#[test]
fn a_group_made_by_a_supervisor_waits_for_its_start() {
    let mut sv = supervisor();
    let (group_ref, mailboxes, actions) = sv.children(|c| c.with_redundancy(2), 0);
    assert!(actions.is_empty());
    assert_eq!(group_ref.elems().len(), 2);
    assert_eq!(mailboxes.len(), 2);
    assert_eq!(group_ref.path().iter().count(), 2);
    assert!(sv.start().is_empty());
    let actions = sv.replay(0).unwrap();
    assert_eq!(actions.len(), 3);
    assert!(matches!(&actions[2], SupervisorAction::Launch { element, .. } if &element.id() == group_ref.id()));

    // Once the supervisor has started the group is deployed at once.
    let (group_ref, _, actions) = sv.children(|c| c, 0);
    assert_eq!(actions.len(), 3);
    assert!(matches!(&actions[1], SupervisorAction::Deliver(d)
        if matches!(d.envelope.msg, QuipMessage::Start) && &d.to == group_ref.sender()));
}
