use quip::broadcast::{Broadcast, Delivery, Parent, Sender};
use quip::envelope::Envelope;
use quip::id::QuipId;
use quip::mailbox::PostOffice;
use quip::message::{Msg, Payload, QuipMessage};
use quip::path::{QuipPath, QuipPathElement};
use quip::supervisor::{Supervisor, SupervisorRef};
use std::sync::Arc;

fn post_all(post: &mut PostOffice, deliveries: Vec<Delivery>) {
    for d in deliveries {
        post.send(d).unwrap();
    }
}

#[test]
fn send_children() {
    let mut parent = Broadcast::new_root(Parent::System);
    let mut post = PostOffice::new();

    let mut children = vec![];
    for _ in 0..4 {
        let child = Broadcast::new(Parent::System, QuipPathElement::Supervisor(QuipId::new()));
        parent.register(&child);
        post.open(child.sender());
        children.push(child);
    }

    let msg = QuipMessage::start();

    let path = Arc::new(
        QuipPath::root()
            .append(QuipPathElement::Supervisor(QuipId::nil()))
            .unwrap()
            .append(QuipPathElement::Children(QuipId::nil()))
            .unwrap(),
    );
    let sender = Sender::new(path.clone());
    let env = Envelope::new(msg, path, sender);

    post_all(&mut post, parent.send_children(env.try_clone().unwrap()));
    for child in &children {
        match post.take(child.path()) {
            Some(Envelope {
                msg: QuipMessage::Start,
                ..
            }) => (),
            _ => panic!(),
        }
    }

    parent.unregister(children[0].id());
    post_all(&mut post, parent.send_children(env.try_clone().unwrap()));
    assert!(post.take(children[0].path()).is_none());
    for child in &children[1..] {
        match post.take(child.path()) {
            Some(Envelope {
                msg: QuipMessage::Start,
                ..
            }) => (),
            _ => panic!(),
        }
    }

    parent.clear_children();
    post_all(&mut post, parent.send_children(env));
    for child in &children[1..] {
        assert!(post.take(child.path()).is_none());
    }
}

#[test]
fn new_broadcast_stands_below_its_parent() {
    let sv_id = QuipId::new();
    let sv = Broadcast::new(Parent::system(), QuipPathElement::Supervisor(sv_id));
    assert_eq!(sv.id(), &sv_id);
    assert_eq!(sv.path().iter().collect::<Vec<&QuipId>>(), vec![&sv_id]);
    assert!(sv.sender().target().same_as(sv.path()));
    assert!(sv.parent().is_system());

    let sv_ref = Supervisor::new(sv).as_ref();
    let ch_id = QuipId::new();
    let group = Broadcast::new(Parent::supervisor(sv_ref), QuipPathElement::Children(ch_id));
    assert_eq!(group.id(), &ch_id);
    assert_eq!(
        group.path().iter().collect::<Vec<&QuipId>>(),
        vec![&sv_id, &ch_id]
    );
    assert!(!group.parent().is_system());
    assert!(!group.parent().is_none());
}

#[test]
fn root_broadcast_is_at_the_empty_path() {
    let root = Broadcast::new_root(Parent::none());
    assert!(root.path().elem().is_none());
    assert_eq!(root.id(), &QuipId::nil());
    assert!(root.parent().is_none());
    assert!(root.sender().target().same_as(&QuipPath::root()));
}

#[test]
fn parent_accepts_what_may_stand_below_it() {
    let id = QuipId::new();
    assert!(Parent::system().accepts(&QuipPathElement::Supervisor(id)));
    assert!(!Parent::system().accepts(&QuipPathElement::Children(id)));
    assert!(!Parent::system().accepts(&QuipPathElement::Child(id)));
    assert!(Parent::none().accepts(&QuipPathElement::Supervisor(id)));

    let sv = Broadcast::new(Parent::system(), QuipPathElement::Supervisor(QuipId::new()));
    let sv_ref = Supervisor::new(sv).as_ref();
    let parent = Parent::supervisor(sv_ref);
    assert!(parent.accepts(&QuipPathElement::Supervisor(id)));
    assert!(parent.accepts(&QuipPathElement::Children(id)));
    assert!(!parent.accepts(&QuipPathElement::Child(id)));
}

#[test]
fn send_child_reaches_only_a_registered_child() {
    let mut parent = Broadcast::new_root(Parent::system());
    let child = Broadcast::new(Parent::system(), QuipPathElement::Supervisor(QuipId::new()));
    let stranger = QuipId::new();
    parent.register(&child);

    let d = parent
        .send_child(child.id(), parent.sign(QuipMessage::start()))
        .unwrap();
    assert_eq!(&d.to, child.sender());
    assert!(matches!(d.envelope.msg, QuipMessage::Start));
    assert!(d.envelope.sign.path.same_as(parent.path()));

    assert!(parent
        .send_child(&stranger, parent.sign(QuipMessage::start()))
        .is_none());
}

#[test]
fn only_broadcast_messages_fan_out() {
    let mut parent = Broadcast::new_root(Parent::system());
    for _ in 0..3 {
        let child = Broadcast::new(Parent::system(), QuipPathElement::Supervisor(QuipId::new()));
        parent.register(&child);
    }
    let payload = Payload { type_tag: 1, value: 42 };
    let copies = parent.send_children(parent.sign(QuipMessage::broadcast(payload)));
    assert_eq!(copies.len(), 3);
    for d in &copies {
        assert!(matches!(
            d.envelope.msg,
            QuipMessage::Message(Msg::Broadcast(p)) if p == payload
        ));
    }
    let none = parent.send_children(parent.sign(QuipMessage::tell(payload)));
    assert!(none.is_empty());
}

#[test]
fn each_child_gets_one_copy() {
    let mut parent = Broadcast::new_root(Parent::system());
    let mut senders = vec![];
    for _ in 0..5 {
        let child = Broadcast::new(Parent::system(), QuipPathElement::Supervisor(QuipId::new()));
        parent.register(&child);
        senders.push(child.sender().clone());
    }
    let deliveries = parent.send_children(parent.sign(QuipMessage::start()));
    assert_eq!(deliveries.len(), 5);
    for sender in &senders {
        assert_eq!(deliveries.iter().filter(|d| &d.to == sender).count(), 1);
    }
}

#[test]
fn stop_child_unregisters() {
    let mut parent = Broadcast::new_root(Parent::system());
    let child = Broadcast::new(Parent::system(), QuipPathElement::Supervisor(QuipId::new()));
    parent.register(&child);
    let d = parent.stop_child(child.id()).unwrap();
    assert!(matches!(d.envelope.msg, QuipMessage::Stop));
    assert_eq!(&d.to, child.sender());
    assert!(parent.stop_child(child.id()).is_none());
    assert!(parent.send_children(parent.sign(QuipMessage::start())).is_empty());

    parent.register(&child);
    let d = parent.kill_child(child.id()).unwrap();
    assert!(matches!(d.envelope.msg, QuipMessage::Kill));
    assert!(parent.kill_child(child.id()).is_none());
}

#[test]
fn stopped_tells_children_then_parent_and_forgets_children() {
    let sv = Broadcast::new(Parent::system(), QuipPathElement::Supervisor(QuipId::new()));
    let sv_ref: SupervisorRef = Supervisor::new(sv).as_ref();
    let group_id = QuipId::new();
    let mut group = Broadcast::new(
        Parent::supervisor(sv_ref.clone()),
        QuipPathElement::Children(group_id),
    );
    let mut members = vec![];
    for _ in 0..3 {
        let b = Broadcast::new(Parent::system(), QuipPathElement::Supervisor(QuipId::new()));
        group.register(&b);
        members.push(b);
    }
    let deliveries = group.stopped();
    assert_eq!(deliveries.len(), 4);
    for d in &deliveries[..3] {
        assert!(matches!(d.envelope.msg, QuipMessage::Stop));
        assert_eq!(members.iter().filter(|m| m.sender() == &d.to).count(), 1);
    }
    let last = &deliveries[3];
    assert_eq!(&last.to, sv_ref.sender());
    assert!(matches!(last.envelope.msg, QuipMessage::Stopped { id } if id == group_id));
    assert!(last.envelope.sign.path.same_as(group.path()));

    // Nothing reaches the children any more.
    assert!(group.send_children(group.sign(QuipMessage::start())).is_empty());
    assert!(group.stop_children().is_empty());
}

#[test]
fn faulted_kills_children_and_tells_parent() {
    let sv = Broadcast::new(Parent::system(), QuipPathElement::Supervisor(QuipId::new()));
    let sv_ref: SupervisorRef = Supervisor::new(sv).as_ref();
    let group_id = QuipId::new();
    let mut group = Broadcast::new(
        Parent::supervisor(sv_ref.clone()),
        QuipPathElement::Children(group_id),
    );
    let b = Broadcast::new(Parent::system(), QuipPathElement::Supervisor(QuipId::new()));
    group.register(&b);
    let deliveries = group.faulted();
    assert_eq!(deliveries.len(), 2);
    assert!(matches!(deliveries[0].envelope.msg, QuipMessage::Kill));
    assert_eq!(&deliveries[0].to, b.sender());
    assert!(matches!(deliveries[1].envelope.msg, QuipMessage::Faulted { id } if id == group_id));
    assert_eq!(&deliveries[1].to, sv_ref.sender());
}

#[test]
fn root_without_parent_gets_the_envelope_back() {
    let mut root = Broadcast::new_root(Parent::none());
    let env = root.sign(QuipMessage::stopped(QuipId::nil()));
    match root.send_parent(env) {
        Err(back) => assert!(matches!(back.msg, QuipMessage::Stopped { .. })),
        Ok(_) => panic!(),
    }
    // Its end tells only the children.
    let child = Broadcast::new(Parent::system(), QuipPathElement::Supervisor(QuipId::new()));
    root.register(&child);
    let deliveries = root.stopped();
    assert_eq!(deliveries.len(), 1);
    assert!(matches!(deliveries[0].envelope.msg, QuipMessage::Stop));
}

#[test]
fn parent_system_is_the_root_mailbox() {
    let sv = Broadcast::new(Parent::system(), QuipPathElement::Supervisor(QuipId::new()));
    let d = sv.send_parent(sv.sign(QuipMessage::start())).unwrap();
    assert!(d.to.target().same_as(&QuipPath::root()));
    assert!(quip::broadcast::system_sender()
        .target()
        .same_as(&QuipPath::root()));
}

#[test]
fn send_self_goes_to_the_own_mailbox() {
    let sv = Broadcast::new(Parent::system(), QuipPathElement::Supervisor(QuipId::new()));
    let d = sv.send_self(sv.sign(QuipMessage::start()));
    assert_eq!(&d.to, sv.sender());
}

#[test]
fn parent_conversions() {
    let sv = Broadcast::new(Parent::system(), QuipPathElement::Supervisor(QuipId::new()));
    let sv_ref: SupervisorRef = Supervisor::new(sv).as_ref();
    assert_eq!(
        Parent::supervisor(sv_ref.clone()).into_supervisor(),
        Some(sv_ref.clone())
    );
    assert!(Parent::supervisor(sv_ref).into_children().is_none());
    assert!(Parent::system().into_supervisor().is_none());
    assert!(Parent::none().into_children().is_none());
}
