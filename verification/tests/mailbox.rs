use quip::broadcast::{Broadcast, Delivery, Parent, Sender};
use quip::child_ref::ChildRef;
use quip::children_ref::ChildrenRef;
use quip::envelope::{Envelope, RefAddr};
use quip::id::QuipId;
use quip::mailbox::{Polled, PostOffice, Receiver};
use quip::message::{Msg, Payload, QuipMessage};
use quip::path::{QuipPath, QuipPathElement};
use std::sync::Arc;

fn sender_at(elements: Vec<QuipPathElement>) -> Sender {
    let mut path = QuipPath::root();
    for el in elements {
        path = path.append(el).unwrap();
    }
    Sender::new(Arc::new(path))
}

fn told(to: &Sender, value: u64) -> Delivery {
    Delivery {
        to: to.clone(),
        envelope: Envelope::from_dead_letters(QuipMessage::tell(Payload { type_tag: 0, value })),
    }
}

fn value_of(env: Envelope) -> u64 {
    env.into_msg().unwrap().value
}

#[test]
fn receiver_hands_out_in_the_order_of_arrival() {
    let sender = sender_at(vec![QuipPathElement::Supervisor(QuipId::new())]);
    let mut receiver = Receiver::new(&sender);
    assert!(matches!(receiver.next(), Polled::Pending));
    for value in [3, 1, 2] {
        receiver.deliver(told(&sender, value)).unwrap();
    }
    assert_eq!(receiver.len(), 3);
    let mut seen = vec![];
    while let Polled::Ready(env) = receiver.next() {
        seen.push(value_of(env));
    }
    assert_eq!(seen, vec![3, 1, 2]);
    assert!(matches!(receiver.next(), Polled::Pending));
}

#[test]
fn receiver_refuses_what_is_not_meant_for_it() {
    let sender = sender_at(vec![QuipPathElement::Supervisor(QuipId::new())]);
    let other = sender_at(vec![QuipPathElement::Supervisor(QuipId::new())]);
    let mut receiver = Receiver::new(&sender);
    assert!(receiver.takes(&told(&sender, 1)));
    assert!(!receiver.takes(&told(&other, 1)));
    let back = receiver.deliver(told(&other, 7)).unwrap_err();
    assert_eq!(back.to, other);
    assert_eq!(value_of(back.envelope), 7);
    assert_eq!(receiver.len(), 0);
}

#[test]
fn closed_receiver_drains_and_then_reports_closed() {
    let sender = sender_at(vec![QuipPathElement::Supervisor(QuipId::new())]);
    let mut receiver = Receiver::new(&sender);
    receiver.deliver(told(&sender, 1)).unwrap();
    receiver.close();
    assert!(receiver.deliver(told(&sender, 2)).is_err());
    assert!(matches!(receiver.next(), Polled::Ready(_)));
    assert!(matches!(receiver.next(), Polled::Closed));
}

#[test]
fn a_successful_send_arrives_once_and_nowhere_else() {
    let a = sender_at(vec![QuipPathElement::Supervisor(QuipId::new())]);
    let b = sender_at(vec![QuipPathElement::Supervisor(QuipId::new())]);
    let mut post = PostOffice::new();
    post.open(&a);
    post.open(&b);
    post.send(told(&a, 9)).unwrap();
    assert_eq!(post.waiting(a.target()), Some(1));
    assert_eq!(post.waiting(b.target()), Some(0));
    assert_eq!(value_of(post.take(a.target()).unwrap()), 9);
    assert!(post.take(a.target()).is_none());
    assert!(post.take(b.target()).is_none());
}

#[test]
fn messages_of_one_sender_keep_their_order() {
    let receiver = sender_at(vec![QuipPathElement::Supervisor(QuipId::new())]);
    let bystander = sender_at(vec![QuipPathElement::Supervisor(QuipId::new())]);
    let mut post = PostOffice::new();
    post.open(&bystander);
    post.open(&receiver);
    for value in 0..10 {
        post.send(told(&receiver, value)).unwrap();
        if value % 3 == 0 {
            post.send(told(&bystander, 100 + value)).unwrap();
        }
    }
    let mut got = vec![];
    while let Some(env) = post.take(receiver.target()) {
        got.push(value_of(env));
    }
    assert_eq!(got, (0..10).collect::<Vec<u64>>());
}

#[test]
fn undeliverable_envelopes_end_in_dead_letters_once() {
    let dead_letters = RefAddr::dead_letters();
    let known = sender_at(vec![QuipPathElement::Supervisor(QuipId::new())]);
    let unknown = sender_at(vec![QuipPathElement::Supervisor(QuipId::new())]);
    let mut post = PostOffice::new();
    post.open(&known);
    post.open(dead_letters.sender());

    post.send(told(&unknown, 5)).unwrap();
    assert_eq!(post.waiting(known.target()), Some(0));
    assert_eq!(post.waiting(dead_letters.path()), Some(1));
    assert_eq!(value_of(post.take(dead_letters.path()).unwrap()), 5);
    assert!(post.take(dead_letters.path()).is_none());

    // A closed mailbox is like none.
    post.close(known.target());
    post.send(told(&known, 6)).unwrap();
    assert_eq!(value_of(post.take(dead_letters.path()).unwrap()), 6);
    assert_eq!(post.waiting(known.target()), None);
}

#[test]
fn without_dead_letters_the_envelope_comes_back() {
    let unknown = sender_at(vec![QuipPathElement::Supervisor(QuipId::new())]);
    let mut post = PostOffice::new();
    let back = post.send(told(&unknown, 5)).unwrap_err();
    assert_eq!(value_of(back), 5);
}

#[test]
fn dead_letters_address_is_the_group_below_the_root_supervisor() {
    let addr = RefAddr::dead_letters();
    let nil = QuipId::nil();
    assert_eq!(addr.path().iter().collect::<Vec<&QuipId>>(), vec![&nil, &nil]);
    assert!(addr.path().elem().as_ref().unwrap().is_children());
    assert!(addr.sender().target().same_as(addr.path()));
    assert!(!addr.is_sender_identified());
}

#[test]
fn children_ref_redirects_failed_sends_to_dead_letters() {
    assert!(ChildrenRef::after_send(Ok(())).is_none());
    let env = Envelope::from_dead_letters(QuipMessage::broadcast(Payload { type_tag: 0, value: 3 }));
    let next = ChildrenRef::after_send(Err(env)).unwrap();
    assert!(next.to.target().same_as(RefAddr::dead_letters().path()));
    assert!(matches!(
        next.envelope.msg,
        QuipMessage::Message(Msg::Broadcast(Payload { value: 3, .. }))
    ));
}

#[test]
fn tell_makes_exactly_one_delivery_to_the_child() {
    let group = Broadcast::new(
        Parent::supervisor(quip::quip::Quip::root_supervisor()),
        QuipPathElement::Children(QuipId::new()),
    );
    let id = QuipId::new();
    let bcast = Broadcast::new(
        Parent::children(ChildrenRef::new(
            *group.id(),
            group.sender().clone(),
            group.path().clone(),
            vec![],
            vec![],
            vec![],
        )),
        QuipPathElement::Child(id),
    );
    let child = ChildRef::new(id, bcast.sender().clone(), "c".to_string(), bcast.path().clone());
    let mut post = PostOffice::new();
    post.open(child.sender());
    post.open(group.sender());
    post.send(child.tell_anonymously(Payload { type_tag: 0, value: 11 }))
        .unwrap();
    assert_eq!(post.waiting(child.path()), Some(1));
    assert_eq!(post.waiting(group.path()), Some(0));
    assert_eq!(value_of(post.take(child.path()).unwrap()), 11);
}
