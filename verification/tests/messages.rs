use quip::broadcast::{Broadcast, Parent};
use quip::child_ref::ChildRef;
use quip::children_ref::ChildrenRef;
use quip::envelope::{Envelope, RefAddr, SignedMessage};
use quip::id::QuipId;
use quip::message::{
    Answer, CallbackType, Deployment, Msg, Payload, QuipMessage, Reply, StateHandle,
};
use quip::path::QuipPathElement;
use quip::quip::Quip;
use quip::supervisor::{SupervisionStrategy, Supervisor};

fn a_child() -> ChildRef {
    let group = Broadcast::new(
        Parent::supervisor(Quip::root_supervisor()),
        QuipPathElement::Children(QuipId::new()),
    );
    let id = QuipId::new();
    let bcast = Broadcast::new(
        Parent::children(ChildrenRef::new(
            *group.id(),
            group.sender().clone(),
            group.path().clone(),
            vec![],
            vec![],
            vec![],
        )),
        QuipPathElement::Child(id),
    );
    ChildRef::new(
        id,
        bcast.sender().clone(),
        "responder".to_string(),
        bcast.path().clone(),
    )
}

const HELLO: Payload = Payload { type_tag: 1, value: 0 };
const GOODBYE: Payload = Payload { type_tag: 1, value: 1 };

#[test]
fn ask_and_answer_round_trip() {
    // The child receives "Hello" and answers "Goodbye"; the one who asked
    // sees "Goodbye", signed with a path that ends in a child.
    let responder = a_child();
    let (delivery, answer) = responder.ask_anonymously(HELLO);
    assert_eq!(&delivery.to, responder.sender());

    let sender = match delivery.envelope.msg {
        QuipMessage::Message(Msg::Ask { msg, sender }) => {
            assert_eq!(msg, HELLO);
            sender
        }
        _ => panic!(),
    };
    let reply = sender.reply(GOODBYE);
    let (msg, sign) = answer.accept(reply).unwrap().unwrap().extract();
    assert_eq!(msg, Msg::Tell(GOODBYE));
    let elem = sign.path().elem().as_ref().expect("elem is not present");
    assert!(elem.is_child());
    assert_eq!(sign, responder.addr());
}

#[test]
fn an_answer_reaches_only_its_own_question() {
    let responder = a_child();
    let (first, first_answer) = QuipMessage::ask(HELLO, responder.addr());
    let (_second, second_answer) = QuipMessage::ask(HELLO, responder.addr());
    assert_ne!(first_answer, second_answer);
    let sender = match first {
        QuipMessage::Message(Msg::Ask { sender, .. }) => sender,
        _ => panic!(),
    };
    let reply = sender.reply(GOODBYE);
    let reply: Reply = second_answer.accept(reply).unwrap_err();
    let signed: SignedMessage = first_answer.accept(reply).unwrap().unwrap();
    assert_eq!(signed.msg, Msg::Tell(GOODBYE));
    assert_eq!(signed.signature(), &responder.addr());
}

#[test]
fn an_abandoned_question_resolves_to_an_error() {
    let responder = a_child();
    let (delivery, answer) = responder.try_ask_anonymously(HELLO);
    let sender = match delivery.envelope.msg {
        QuipMessage::Message(Msg::Ask { sender, .. }) => sender,
        _ => panic!(),
    };
    assert_eq!(answer.accept(sender.abandon()), Ok(Err(())));
}

#[test]
fn context_signs_what_the_child_sends() {
    let me = a_child();
    let other = a_child();
    let ctx = quip::context::QuipContext::new(me.clone());
    assert_eq!(ctx.current(), &me);
    assert_eq!(ctx.signature(), me.addr());

    let told = ctx.tell(&other.addr(), HELLO);
    assert_eq!(&told.to, other.sender());
    assert_eq!(told.envelope.sign, me.addr());
    assert!(matches!(told.envelope.msg, QuipMessage::Message(Msg::Tell(p)) if p == HELLO));

    // The answer to a question is signed by the one who was asked.
    let (asked, answer) = ctx.ask(&other.addr(), HELLO);
    assert_eq!(&asked.to, other.sender());
    assert_eq!(asked.envelope.sign, me.addr());
    let sender = match asked.envelope.msg {
        QuipMessage::Message(Msg::Ask { sender, .. }) => sender,
        _ => panic!(),
    };
    let (msg, sign) = answer.accept(sender.reply(GOODBYE)).unwrap().unwrap().extract();
    assert_eq!(msg, Msg::Tell(GOODBYE));
    assert_eq!(sign, other.addr());
    assert!(sign.path().elem().as_ref().unwrap().is_child());

    // The one who asked can write back to that signature.
    let again = ctx.tell(&sign, HELLO);
    assert_eq!(&again.to, other.sender());
}

#[test]
fn try_variants_make_the_same_deliveries() {
    let child = a_child();
    let tried = child.try_tell_anonymously(HELLO);
    let told = child.tell_anonymously(HELLO);
    assert_eq!(tried.to, told.to);
    assert!(matches!(tried.envelope.msg, QuipMessage::Message(Msg::Tell(p)) if p == HELLO));
    let sent = child.try_send(Envelope::from_dead_letters(QuipMessage::start()));
    assert_eq!(&sent.to, child.sender());
    assert!(matches!(sent.envelope.msg, QuipMessage::Start));
}

#[test]
fn answers_compare_by_slot() {
    let id = QuipId::new();
    assert_eq!(Answer { slot: id }, Answer { slot: id });
}

#[test]
fn only_broadcasts_and_runtime_messages_can_be_copied() {
    let p = Payload { type_tag: 0, value: 1 };
    assert_eq!(Msg::broadcast(p).try_clone(), Some(Msg::Broadcast(p)));
    assert_eq!(Msg::tell(p).try_clone(), None);
    let (ask, _) = Msg::ask(p, RefAddr::dead_letters());
    assert!(ask.try_clone().is_none());
    assert!(ask.is_ask());
    assert!(!ask.is_broadcast());
    assert!(Msg::broadcast(p).is_broadcast());
    assert_eq!(ask.into_payload(), p);
    assert_eq!(Msg::tell(p).into_payload(), p);

    let id = QuipId::new();
    let state = StateHandle(id);
    let cloneable = vec![
        QuipMessage::start(),
        QuipMessage::stop(),
        QuipMessage::kill(),
        QuipMessage::prune(id),
        QuipMessage::SuperviseWith(SupervisionStrategy::OneForAll),
        QuipMessage::ApplyCallback { callback_type: CallbackType::AfterStop },
        QuipMessage::InstantiatedChild { parent_id: id, child_id: id, state },
        QuipMessage::broadcast(p),
        QuipMessage::RestartRequired { id, parent_id: id },
        QuipMessage::RestartSubtree,
        QuipMessage::RestoreChild { id, state },
        QuipMessage::FinishedChild { id, parent_id: id },
        QuipMessage::DropChild { id },
        QuipMessage::SetState { state },
        QuipMessage::stopped(id),
        QuipMessage::faulted(id),
        QuipMessage::Heartbeat,
    ];
    for msg in cloneable {
        let copy = msg.try_clone().unwrap();
        assert_eq!(format!("{:?}", copy), format!("{:?}", msg));
    }
    assert!(QuipMessage::tell(p).try_clone().is_none());
    let bcast = Broadcast::new(Parent::system(), QuipPathElement::Supervisor(QuipId::new()));
    let deploy = QuipMessage::deploy_supervisor(Supervisor::new(bcast));
    assert!(matches!(deploy, QuipMessage::Deploy(Deployment::Supervisor(_))));
    assert!(deploy.try_clone().is_none());
}

#[test]
fn only_user_messages_come_out_of_an_envelope() {
    let p = Payload { type_tag: 2, value: 5 };
    assert_eq!(Envelope::from_dead_letters(QuipMessage::tell(p)).into_msg(), Some(p));
    assert_eq!(Envelope::from_dead_letters(QuipMessage::broadcast(p)).into_msg(), Some(p));
    assert_eq!(Envelope::from_dead_letters(QuipMessage::start()).into_msg(), None);
    assert_eq!(QuipMessage::stop().into_msg(), None);
}

#[test]
fn envelope_copies_keep_message_and_signature() {
    let child = a_child();
    let p = Payload { type_tag: 2, value: 5 };
    let env = Envelope::new_with_sign(QuipMessage::broadcast(p), child.addr());
    let copy = env.try_clone().unwrap();
    assert_eq!(copy.sign, env.sign);
    assert_eq!(copy.into_msg(), Some(p));
    assert!(Envelope::new_with_sign(QuipMessage::tell(p), child.addr())
        .try_clone()
        .is_none());
    let built = Envelope::new(QuipMessage::start(), child.path().clone(), child.sender().clone());
    assert_eq!(built.sign, child.addr());
}

#[test]
fn anonymous_envelopes_are_signed_by_the_dead_letters_group() {
    let env = Envelope::from_dead_letters(QuipMessage::start());
    assert!(env.sign.path.same_as(RefAddr::dead_letters().path()));
    assert!(!env.sign.is_sender_identified());
    // A child of the dead-letters group is what `is_sender_identified` looks for.
    let group = RefAddr::dead_letters();
    let id = QuipId::new();
    let child = Broadcast::new(
        Parent::children(ChildrenRef::new(
            QuipId::nil(),
            group.sender().clone(),
            group.path().clone(),
            vec![],
            vec![],
            vec![],
        )),
        QuipPathElement::Child(id),
    );
    let sign = RefAddr::new(child.path().clone(), child.sender().clone());
    assert!(sign.is_sender_identified());
    assert!(!a_child().addr().is_sender_identified());
}

#[test]
fn child_ref_requests() {
    let child = a_child();
    assert!(child.is_public());
    assert_eq!(child.name(), "responder");
    let internal = ChildRef::new_internal(
        *child.id(),
        child.sender().clone(),
        "hb".to_string(),
        child.path().clone(),
    );
    assert!(!internal.is_public());
    assert_eq!(internal, child);

    let stop = child.stop();
    assert_eq!(&stop.to, child.sender());
    assert!(matches!(stop.envelope.msg, QuipMessage::Stop));
    let kill = child.kill();
    assert!(matches!(kill.envelope.msg, QuipMessage::Kill));
    let tell = child.tell_anonymously(HELLO);
    assert!(matches!(tell.envelope.msg, QuipMessage::Message(Msg::Tell(p)) if p == HELLO));
    assert!(tell.envelope.sign.path.same_as(RefAddr::dead_letters().path()));
    let copy = child.clone();
    assert_eq!(copy.id(), child.id());
    assert_eq!(copy.addr(), child.addr());
}
