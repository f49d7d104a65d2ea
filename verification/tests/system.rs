use quip::broadcast::{Broadcast, Delivery, Parent};
use quip::envelope::{Envelope, RefAddr};
use quip::id::QuipId;
use quip::message::{CallbackType, Deployment, Msg, Payload, QuipMessage};
use quip::path::{QuipPath, QuipPathElement};
use quip::quip::Quip;
use quip::supervisor::Supervisor;
use quip::system::{Finished, Phase, System, SystemAction};

fn supervisor() -> Supervisor {
    Supervisor::new(Broadcast::new(
        Parent::system(),
        QuipPathElement::Supervisor(QuipId::new()),
    ))
}

fn deploy(sv: Supervisor) -> Envelope {
    Envelope::from_dead_letters(QuipMessage::deploy_supervisor(sv))
}

fn anonymous(msg: QuipMessage) -> Envelope {
    Envelope::from_dead_letters(msg)
}

fn deliveries(actions: &[SystemAction]) -> Vec<&Delivery> {
    actions
        .iter()
        .filter_map(|a| match a {
            SystemAction::Deliver(d) => Some(d),
            _ => None,
        })
        .collect()
}

fn launched(actions: Vec<SystemAction>) -> Supervisor {
    for a in actions {
        if let SystemAction::Launch { supervisor, .. } = a {
            return supervisor;
        }
    }
    panic!("nothing was launched")
}

/// A started system with `n` supervisors deployed; hands out the
/// supervisors as they were launched.
fn running(n: usize) -> (System, Vec<Supervisor>) {
    let mut system = System::new();
    assert!(system.received(anonymous(QuipMessage::start())).is_empty());
    let mut svs = vec![];
    for _ in 0..n {
        svs.push(launched(system.received(deploy(supervisor()))));
    }
    (system, svs)
}

#[test]
fn init_makes_root_supervisor_and_dead_letters() {
    let (silence, boot) = Quip::init();
    assert!(!silence);
    let nil = QuipId::nil();

    assert!(matches!(boot.system.phase(), Phase::Running));
    assert!(!boot.system.is_started());
    assert!(boot.global.running);
    assert!(boot.global.path().same_as(&QuipPath::root()));
    assert!(boot.global.sender().target().same_as(&QuipPath::root()));
    assert_eq!(boot.global.supervisor().id(), &nil);
    assert_eq!(
        boot.global.supervisor().path().iter().collect::<Vec<&QuipId>>(),
        vec![&nil]
    );
    assert_eq!(boot.global.dead_letters().id(), &nil);
    assert!(boot
        .global
        .dead_letters()
        .path()
        .same_as(RefAddr::dead_letters().path()));
    assert_eq!(boot.global.dead_letters().elems().len(), 1);
    let dead_child = &boot.global.dead_letters().elems()[0];
    assert!(dead_child.path().is_dead_letters());
    assert_eq!(boot.dead_letters.len(), 1);
    assert!(boot.dead_letters[0].path().same_as(dead_child.path()));

    assert_eq!(boot.deliveries.len(), 2);
    let first = &boot.deliveries[0];
    assert!(first.to.target().same_as(&QuipPath::root()));
    match &first.envelope.msg {
        QuipMessage::Deploy(Deployment::Supervisor(root)) => assert_eq!(root.id(), nil),
        _ => panic!(),
    }
    let second = &boot.deliveries[1];
    assert_eq!(&second.to, boot.global.supervisor().sender());
    match &second.envelope.msg {
        QuipMessage::Deploy(Deployment::Children(group)) => {
            assert_eq!(group.id(), nil);
            assert_eq!(group.launched.len(), 1);
        }
        _ => panic!(),
    }
}

#[test]
fn hidden_backtraces_ask_for_silence() {
    let (silence, _) = Quip::init_with(quip::config::Config::new().hide_backtraces());
    assert!(silence);
    let (silence, _) = Quip::init_with(quip::config::Config::new().show_backtraces());
    assert!(!silence);
}

#[test]
fn envelopes_before_start_are_replayed_in_order() {
    let mut system = System::new();
    let first = supervisor();
    let second = supervisor();
    let (first_id, second_id) = (first.id(), second.id());
    assert!(system.received(deploy(first)).is_empty());
    assert!(system.received(deploy(second)).is_empty());
    assert!(system
        .received(anonymous(QuipMessage::broadcast(Payload { type_tag: 0, value: 1 })))
        .is_empty());
    assert!(system.replay().is_none());
    assert!(system.replay_all().is_empty());
    assert!(!system.is_started());

    let actions = system.received(anonymous(QuipMessage::start()));
    assert!(system.is_started());
    assert_eq!(actions.len(), 8);

    assert!(matches!(
        actions[0],
        SystemAction::Callback { id, callback: CallbackType::BeforeStart } if id == first_id
    ));
    assert!(matches!(&actions[1], SystemAction::Deliver(d) if matches!(d.envelope.msg, QuipMessage::Start)));
    assert!(matches!(&actions[2], SystemAction::Launch { supervisor, formerly: None } if supervisor.id() == first_id));
    assert!(matches!(
        actions[3],
        SystemAction::Callback { id, callback: CallbackType::BeforeStart } if id == second_id
    ));
    assert!(matches!(&actions[5], SystemAction::Launch { supervisor, .. } if supervisor.id() == second_id));
    // The message that came last is passed on to both supervisors.
    assert_eq!(deliveries(&actions[6..]).len(), 2);
    for d in deliveries(&actions[6..]) {
        assert!(matches!(d.envelope.msg, QuipMessage::Message(Msg::Broadcast(_))));
    }
    assert!(system.replay().is_none());
}

#[test]
fn a_stop_that_waited_for_the_start_ends_the_replay() {
    let mut system = System::new();
    let sv = supervisor();
    let sender = sv.bcast().sender().clone();
    assert!(system.received(deploy(sv)).is_empty());
    assert!(system.received(anonymous(QuipMessage::stop())).is_empty());
    assert!(system.received(deploy(supervisor())).is_empty());
    let actions = system.received(anonymous(QuipMessage::start()));
    // The first supervisor is deployed and then asked to stop; the
    // second deployment is dropped.
    assert_eq!(actions.len(), 4);
    assert!(matches!(&actions[3], SystemAction::Deliver(d)
        if matches!(d.envelope.msg, QuipMessage::Stop) && d.to == sender));
    assert!(matches!(system.phase(), Phase::Stopping));
    assert!(system.replay().is_none());
}

#[test]
fn start_is_passed_on_to_registered_supervisors() {
    let mut system = System::new();
    let sv = supervisor();
    let sender = sv.bcast().sender().clone();
    let actions = system.deploy(Deployment::Supervisor(sv));
    // Not started yet: the supervisor is launched but not told to start.
    assert_eq!(actions.len(), 2);
    assert!(matches!(actions[0], SystemAction::Callback { callback: CallbackType::BeforeStart, .. }));
    assert!(matches!(actions[1], SystemAction::Launch { .. }));
    let actions = system.received(anonymous(QuipMessage::start()));
    assert_eq!(actions.len(), 1);
    let d = deliveries(&actions)[0];
    assert_eq!(d.to, sender);
    assert!(matches!(d.envelope.msg, QuipMessage::Start));
    assert!(d.envelope.sign.path.same_as(&QuipPath::root()));
}

#[test]
fn user_messages_are_copied_to_every_supervisor() {
    let (mut system, svs) = running(3);
    let p = Payload { type_tag: 4, value: 2 };
    let actions = system.received(anonymous(QuipMessage::broadcast(p)));
    assert_eq!(actions.len(), 3);
    for sv in &svs {
        let n = deliveries(&actions)
            .iter()
            .filter(|d| &d.to == sv.bcast().sender())
            .count();
        assert_eq!(n, 1);
    }
    for d in deliveries(&actions) {
        assert!(matches!(d.envelope.msg, QuipMessage::Message(Msg::Broadcast(q)) if q == p));
    }
    // A message for one receiver cannot be copied: nobody gets it.
    assert!(system.received(anonymous(QuipMessage::tell(p))).is_empty());
}

#[test]
fn stop_cascade() {
    let (mut system, svs) = running(2);
    let ids: Vec<QuipId> = svs.iter().map(|sv| sv.id()).collect();
    let actions = system.received(anonymous(QuipMessage::stop()));
    assert_eq!(actions.len(), 2);
    for d in deliveries(&actions) {
        assert!(matches!(d.envelope.msg, QuipMessage::Stop));
    }
    assert!(matches!(system.phase(), Phase::Stopping));

    // While it winds down the system takes nothing.
    assert!(system.received(anonymous(QuipMessage::start())).is_empty());
    assert!(system.replay().is_none());

    let mut svs = svs;
    let last = svs.pop().unwrap();
    let first = svs.pop().unwrap();
    assert!(system.finished(Finished::Returned(last)).is_empty());
    assert!(matches!(system.phase(), Phase::Stopping));
    let actions = system.finished(Finished::Returned(first));
    assert_eq!(actions.len(), 3);
    assert!(matches!(actions[0], SystemAction::Callback { id, callback: CallbackType::AfterStop } if id == ids[1]));
    assert!(matches!(actions[1], SystemAction::Callback { id, callback: CallbackType::AfterStop } if id == ids[0]));
    assert!(matches!(actions[2], SystemAction::Terminate));
    assert!(matches!(system.phase(), Phase::Terminated));

    let (_, mut boot) = Quip::init();
    assert!(Quip::block_until_stopped(&boot.global));
    boot.global.notify_stopped();
    assert!(!Quip::block_until_stopped(&boot.global));
}

#[test]
fn stop_with_nothing_running_terminates_at_once() {
    let (mut system, _) = running(0);
    let actions = system.received(anonymous(QuipMessage::stop()));
    assert_eq!(actions.len(), 1);
    assert!(matches!(actions[0], SystemAction::Terminate));
    assert!(matches!(system.phase(), Phase::Terminated));
    assert!(system.finished(Finished::Cancelled(QuipId::new())).is_empty());
}

#[test]
fn kill_cancels_every_run() {
    let (mut system, svs) = running(3);
    let actions = system.received(anonymous(QuipMessage::kill()));
    assert_eq!(actions.len(), 6);
    for a in &actions[..3] {
        assert!(matches!(a, SystemAction::Deliver(d) if matches!(d.envelope.msg, QuipMessage::Kill)));
    }
    for sv in &svs {
        let id = sv.id();
        let n = actions[3..]
            .iter()
            .filter(|a| matches!(a, SystemAction::Cancel { id: c } if *c == id))
            .count();
        assert_eq!(n, 1);
    }
    assert!(matches!(system.phase(), Phase::Killing));
    assert!(system.finished(Finished::Cancelled(svs[0].id())).is_empty());
    assert!(system.finished(Finished::Cancelled(svs[1].id())).is_empty());
    let actions = system.finished(Finished::Cancelled(svs[2].id()));
    assert_eq!(actions.len(), 1);
    assert!(matches!(actions[0], SystemAction::Terminate));
    assert!(matches!(system.phase(), Phase::Terminated));
}

#[test]
fn a_faulted_supervisor_is_recovered_under_a_fresh_id() {
    let (mut system, mut svs) = running(2);
    let sv = svs.remove(0);
    let old_id = sv.id();
    assert!(system
        .received(anonymous(QuipMessage::faulted(old_id)))
        .is_empty());
    let actions = system.finished(Finished::Returned(sv));
    assert_eq!(actions.len(), 3);
    assert!(matches!(actions[0], SystemAction::Callback { id, callback: CallbackType::BeforeRestart } if id == old_id));
    assert!(matches!(actions[1], SystemAction::Callback { id, callback: CallbackType::AfterRestart } if id == old_id));
    let new_id = match &actions[2] {
        SystemAction::Launch { supervisor, formerly } => {
            assert_eq!(*formerly, Some(old_id));
            assert_eq!(supervisor.bcast().path().iter().count(), 1);
            supervisor.id()
        }
        _ => panic!(),
    };
    assert_ne!(new_id, old_id);
    assert!(!new_id.is_nil());

    // The recovered supervisor is registered under its new identifier.
    let actions = system.received(anonymous(QuipMessage::broadcast(Payload { type_tag: 0, value: 0 })));
    assert_eq!(actions.len(), 2);
    // The sibling went on undisturbed: it is still launched and can be pruned.
    let actions = system.received(anonymous(QuipMessage::prune(svs[0].id())));
    assert_eq!(actions.len(), 1);
}

#[test]
fn the_root_supervisor_keeps_its_id_when_recovered() {
    let mut system = System::new();
    system.received(anonymous(QuipMessage::start()));
    let root = Supervisor::system(Broadcast::new(
        Parent::system(),
        QuipPathElement::Supervisor(QuipId::nil()),
    ));
    let root = launched(system.received(deploy(root)));
    system.received(anonymous(QuipMessage::stopped(QuipId::nil())));
    let recovered = launched(system.finished(Finished::Returned(root)));
    assert!(recovered.id().is_nil());
}

#[test]
fn a_supervisor_that_just_ends_is_forgotten() {
    let (mut system, mut svs) = running(1);
    let sv = svs.remove(0);
    let id = sv.id();
    let actions = system.finished(Finished::Returned(sv));
    assert_eq!(actions.len(), 1);
    assert!(matches!(actions[0], SystemAction::Callback { id: i, callback: CallbackType::AfterStop } if i == id));
    assert!(system
        .received(anonymous(QuipMessage::broadcast(Payload { type_tag: 0, value: 0 })))
        .is_empty());
}

#[test]
fn prune_kills_and_awaits() {
    let (mut system, svs) = running(2);
    let id = svs[0].id();
    let actions = system.received(anonymous(QuipMessage::prune(id)));
    assert_eq!(actions.len(), 1);
    assert!(matches!(&actions[0], SystemAction::Deliver(d)
        if matches!(d.envelope.msg, QuipMessage::Kill) && &d.to == svs[0].bcast().sender()));
    // Pruning again, or pruning a stranger, does nothing.
    assert!(system.received(anonymous(QuipMessage::prune(id))).is_empty());
    assert!(system
        .received(anonymous(QuipMessage::prune(QuipId::new())))
        .is_empty());
    // The system now waits for both when it stops.
    let actions = system.received(anonymous(QuipMessage::stop()));
    assert_eq!(actions.len(), 1);
    assert!(matches!(system.phase(), Phase::Stopping));
}

#[test]
fn the_system_knows_what_it_handles() {
    let id = QuipId::new();
    assert!(System::expects(&QuipMessage::stop()));
    assert!(System::expects(&QuipMessage::kill()));
    assert!(System::expects(&QuipMessage::prune(id)));
    assert!(System::expects(&QuipMessage::stopped(id)));
    assert!(System::expects(&QuipMessage::faulted(id)));
    assert!(System::expects(&QuipMessage::tell(Payload { type_tag: 0, value: 0 })));
    assert!(System::expects(&QuipMessage::deploy_supervisor(supervisor())));
    assert!(!System::expects(&QuipMessage::start()));
    assert!(!System::expects(&QuipMessage::Heartbeat));
    assert!(!System::expects(&QuipMessage::RestartSubtree));
    assert!(!System::expects(&QuipMessage::DropChild { id }));
}

#[test]
fn facade_requests_go_to_the_root_mailbox() {
    let p = Payload { type_tag: 9, value: 9 };
    for (d, what) in [
        (Quip::start(), "start"),
        (Quip::stop(), "stop"),
        (Quip::broadcast(p), "broadcast"),
    ] {
        assert!(d.to.target().same_as(&QuipPath::root()));
        assert!(d.envelope.sign.path.same_as(RefAddr::dead_letters().path()));
        match what {
            "start" => assert!(matches!(d.envelope.msg, QuipMessage::Start)),
            "stop" => assert!(matches!(d.envelope.msg, QuipMessage::Stop)),
            _ => assert!(matches!(d.envelope.msg, QuipMessage::Message(Msg::Broadcast(q)) if q == p)),
        }
    }
    let (_, mut boot) = Quip::init();
    let d = Quip::kill(&mut boot.global);
    assert!(matches!(d.envelope.msg, QuipMessage::Kill));
    assert!(d.to.target().same_as(&QuipPath::root()));
    assert!(!boot.global.running);
}

#[test]
fn facade_supervisor_is_configured_and_deployed() {
    let (sv_ref, d) = Quip::supervisor(|sv| {
        sv.with_strategy(quip::supervisor::SupervisionStrategy::OneForAll)
            .with_restart_policy(quip::supervisor::RestartPolicy::Tries(3))
    });
    assert!(d.to.target().same_as(&QuipPath::root()));
    assert!(d.envelope.sign.path.same_as(&QuipPath::root()));
    match d.envelope.msg {
        QuipMessage::Deploy(Deployment::Supervisor(sv)) => {
            assert_eq!(&sv.id(), sv_ref.id());
            assert!(!sv.id().is_nil());
            assert_eq!(sv.strategy(), quip::supervisor::SupervisionStrategy::OneForAll);
            assert_eq!(sv.restart_policy(), quip::supervisor::RestartPolicy::Tries(3));
            assert_eq!(sv.as_ref(), sv_ref);
            assert_eq!(sv_ref.path().iter().count(), 1);
        }
        _ => panic!(),
    }
}

#[test]
fn facade_children_stand_below_the_root_supervisor() {
    let (group_ref, mailboxes, d) = Quip::children(|c| c.with_redundancy(3));
    let nil = QuipId::nil();
    assert_eq!(d.to.target().iter().collect::<Vec<&QuipId>>(), vec![&nil]);
    assert_eq!(group_ref.elems().len(), 3);
    assert_eq!(mailboxes.len(), 3);
    assert_eq!(group_ref.path().iter().count(), 2);
    for (child, mailbox) in group_ref.elems().iter().zip(mailboxes.iter()) {
        assert!(child.path().same_as(mailbox.path()));
        assert_eq!(child.path().iter().count(), 3);
        assert!(child.path().elem().as_ref().unwrap().is_child());
    }
    let (group_ref, mailboxes, _) = Quip::spawn();
    assert_eq!(group_ref.elems().len(), 1);
    assert_eq!(mailboxes.len(), 1);
}
