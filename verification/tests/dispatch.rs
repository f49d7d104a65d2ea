use quip::broadcast::{Broadcast, Parent};
use quip::child_ref::ChildRef;
use quip::children_ref::ChildrenRef;
use quip::dispatcher::{BroadcastTarget, GlobalDispatcher};
use quip::distributor::Distributor;
use quip::errors::SendError;
use quip::handler::MessageHandler;
use quip::id::QuipId;
use quip::message::{Msg, Payload, QuipMessage};
use quip::path::QuipPathElement;
use quip::quip::Quip;

const I32: u64 = 1;
const STR: u64 = 2;

fn text(table: &mut Vec<&'static str>, s: &'static str) -> Payload {
    table.push(s);
    Payload { type_tag: STR, value: (table.len() - 1) as u64 }
}

fn number(n: i32) -> Payload {
    Payload { type_tag: I32, value: n as u64 }
}

fn a_child(name: &str) -> ChildRef {
    let group = Broadcast::new(
        Parent::supervisor(Quip::root_supervisor()),
        QuipPathElement::Children(QuipId::new()),
    );
    let id = QuipId::new();
    let bcast = Broadcast::new(
        Parent::children(ChildrenRef::new(
            *group.id(),
            group.sender().clone(),
            group.path().clone(),
            vec![],
            vec![],
            vec![],
        )),
        QuipPathElement::Child(id),
    );
    ChildRef::new(id, bcast.sender().clone(), name.to_string(), bcast.path().clone())
}

#[test]
fn hello_world() {
    // Children answer for the distributor `say_hi`; the request "hi!" is
    // answered with "hello, world!".
    let mut texts: Vec<&'static str> = vec![];
    let hi = text(&mut texts, "hi!");
    let hello = text(&mut texts, "hello, world!");

    let mut table = GlobalDispatcher::new();
    let child = a_child("greeter");
    table.register("say_hi", child.clone());

    let say_hi = Distributor::named("say_hi");
    let (delivery, answer) = say_hi.ask_one(&mut table, hi).unwrap();
    assert_eq!(&delivery.to, child.sender());

    // The child's side.
    let received = match delivery.envelope.msg {
        QuipMessage::Message(msg) => quip::envelope::SignedMessage::new(msg, delivery.envelope.sign),
        _ => panic!(),
    };
    let reply = MessageHandler::new(received)
        .on_question(STR, |question: Payload, sender| {
            if texts[question.value as usize] == "hi!" {
                Some(sender.reply(hello))
            } else {
                panic!("Expected string `hi!`")
            }
        })
        .on_fallback(|_, _| None)
        .unwrap();

    // The side of the one who asked.
    let (msg, _) = answer.accept(reply).unwrap().unwrap().extract();
    assert_eq!(texts[msg.into_payload().value as usize], "hello, world!");
}

#[test]
fn multi_type_handler() {
    // 42 is answered with 101, "marco" with "polo"; for "foo", which is
    // told and not asked, the fallback is invoked.
    let mut texts: Vec<&'static str> = vec![];
    let marco = text(&mut texts, "marco");
    let polo = text(&mut texts, "polo");
    let foo = text(&mut texts, "foo");
    let child = a_child("multi");

    let handle = |received: quip::envelope::SignedMessage| {
        MessageHandler::new(received)
            .on_question(I32, |n: Payload, sender| {
                if n.value == 42 {
                    Ok(sender.reply(number(101)))
                } else {
                    panic!("Expected number `42`")
                }
            })
            .on_question(STR, |s: Payload, sender| {
                if texts[s.value as usize] == "marco" {
                    Ok(sender.reply(polo))
                } else {
                    panic!("Expected string `marco`")
                }
            })
            .on_fallback(|msg, _| Err(msg))
    };

    let mut replies = vec![];
    for question in [number(42), marco] {
        let (delivery, answer) = child.ask_anonymously(question);
        let received = match delivery.envelope.msg {
            QuipMessage::Message(msg) => {
                quip::envelope::SignedMessage::new(msg, delivery.envelope.sign)
            }
            _ => panic!(),
        };
        let reply = handle(received).unwrap();
        replies.push(answer.accept(reply).unwrap().unwrap().extract().0.into_payload());
    }
    assert_eq!(replies[0], number(101));
    assert_eq!(replies[0].type_tag, I32);
    assert_eq!(replies[1], polo);
    assert_eq!(texts[replies[1].value as usize], "polo");

    let told = child.tell_anonymously(foo);
    let received = match told.envelope.msg {
        QuipMessage::Message(msg) => quip::envelope::SignedMessage::new(msg, told.envelope.sign),
        _ => panic!(),
    };
    let fallen = handle(received).unwrap_err();
    assert_eq!(fallen, Msg::Tell(foo));
    assert_eq!(texts[fallen.into_payload().value as usize], "foo");
}

#[test]
fn pipeline_broadcast() {
    // The input is put before the three workers of `Processing`; each
    // worker counts the letters of the first text it gets and puts its
    // counts before `Response`, which adds up three of them.
    let inputs = ["A B C", "A C C", "B C C"];
    let mut table = GlobalDispatcher::new();
    let workers = vec![a_child("process"), a_child("process"), a_child("process")];
    for w in &workers {
        table.register("Processing", w.clone());
    }
    let responder = a_child("response");
    table.register("Response", responder.clone());
    let input = quip::context::QuipContext::new(a_child("input"));

    let mut post = quip::mailbox::PostOffice::new();
    for w in &workers {
        post.open(w.sender());
    }
    post.open(responder.sender());

    for (i, _) in inputs.iter().enumerate() {
        let target = BroadcastTarget::Group("Processing".to_string());
        let deliveries =
            input.broadcast_message(&table, &target, Payload { type_tag: STR, value: i as u64 });
        assert_eq!(deliveries.len(), 3);
        for d in deliveries {
            assert_eq!(d.envelope.sign, input.signature());
            post.send(d).unwrap();
        }
    }
    // Every worker has got every text, in the order in which they were sent.
    for w in &workers {
        assert_eq!(post.waiting(w.path()), Some(3));
    }

    let mut counts: Vec<Vec<(&str, u32)>> = vec![];
    for w in &workers {
        let first = post.take(w.path()).unwrap().into_msg().unwrap();
        let data = inputs[first.value as usize];
        assert_eq!(data, "A B C");
        let mut counter: Vec<(&str, u32)> = vec![];
        for letter in data.split(' ') {
            match counter.iter_mut().find(|(l, _)| *l == letter) {
                Some((_, n)) => *n += 1,
                None => counter.push((letter, 1)),
            }
        }
        counts.push(counter);
        let ctx = quip::context::QuipContext::new(w.clone());
        let target = BroadcastTarget::Group("Response".to_string());
        let out = ctx.broadcast_message(
            &table,
            &target,
            Payload { type_tag: 99, value: (counts.len() - 1) as u64 },
        );
        assert_eq!(out.len(), 1);
        for d in out {
            post.send(d).unwrap();
        }
    }

    let mut total: Vec<(&str, u32)> = vec![];
    let mut received = 0;
    while received != 3 {
        let map = post.take(responder.path()).unwrap().into_msg().unwrap();
        assert_eq!(map.type_tag, 99);
        for (letter, n) in &counts[map.value as usize] {
            match total.iter_mut().find(|(l, _)| l == letter) {
                Some((_, sum)) => *sum += n,
                None => total.push((letter, *n)),
            }
        }
        received += 1;
    }
    total.sort();
    assert_eq!(total, vec![("A", 3), ("B", 3), ("C", 3)]);
    assert!(post.take(responder.path()).is_none());
}

#[test]
fn handler_falls_back_when_no_branch_fits() {
    let child = a_child("fallback");
    let told = child.tell_anonymously(Payload { type_tag: 77, value: 5 });
    let received = match told.envelope.msg {
        QuipMessage::Message(msg) => quip::envelope::SignedMessage::new(msg, told.envelope.sign),
        _ => panic!(),
    };
    let which = MessageHandler::new(received)
        .on_tell(I32, |_, _| "tell i32")
        .on_question(77, |_, _| "question 77")
        .on_broadcast(77, |_, _| "broadcast 77")
        .on_fallback(|msg, _| {
            assert_eq!(msg, Msg::Tell(Payload { type_tag: 77, value: 5 }));
            "fallback"
        });
    assert_eq!(which, "fallback");

    let told = child.tell_anonymously(Payload { type_tag: 77, value: 5 });
    let received = match told.envelope.msg {
        QuipMessage::Message(msg) => quip::envelope::SignedMessage::new(msg, told.envelope.sign),
        _ => panic!(),
    };
    let which = MessageHandler::new(received)
        .on_tell(77, |p, _| if p.value == 5 { "first" } else { "?" })
        .on_tell(77, |_, _| "second")
        .on_fallback(|_, _| "fallback");
    assert_eq!(which, "first");

    let received = quip::envelope::SignedMessage::new(
        Msg::broadcast(Payload { type_tag: 3, value: 1 }),
        child.addr(),
    );
    let which = MessageHandler::new(received)
        .on_tell(3, |_, _| "tell")
        .on_broadcast(3, |_, sign| if sign == child.addr() { "broadcast" } else { "?" })
        .on_fallback(|_, _| "fallback");
    assert_eq!(which, "broadcast");
}

#[test]
fn the_turn_goes_round_the_members() {
    let mut table = GlobalDispatcher::new();
    let members = vec![a_child("a"), a_child("b"), a_child("c")];
    for m in &members {
        table.register("workers", m.clone());
    }
    table.register("others", a_child("x"));
    let workers = Distributor::named("workers");
    let mut seen = vec![];
    for _ in 0..7 {
        let d = workers.tell_one(&mut table, Payload { type_tag: 0, value: 0 }).unwrap();
        seen.push(members.iter().position(|m| m.sender() == &d.to).unwrap());
    }
    assert_eq!(seen, vec![0, 1, 2, 0, 1, 2, 0]);
    assert_eq!(table.next("workers").unwrap(), members[1]);
}

#[test]
fn nobody_there_is_not_found() {
    let mut table = GlobalDispatcher::new();
    let p = Payload { type_tag: 0, value: 0 };
    let nobody = Distributor::named("nobody");
    assert_eq!(nobody.tell_one(&mut table, p).unwrap_err(), SendError::NotFound);
    assert_eq!(nobody.ask_one(&mut table, p).unwrap_err(), SendError::NotFound);
    assert_eq!(nobody.tell_everyone(&table, p).unwrap_err(), SendError::NotFound);
    assert_eq!(table.next("nobody").unwrap_err(), SendError::NotFound);
    // A group that lost its members is like none.
    let child = a_child("a");
    table.register("nobody", child.clone());
    table.remove("nobody", child.id());
    assert_eq!(nobody.tell_one(&mut table, p).unwrap_err(), SendError::NotFound);
}

#[test]
fn removing_a_member_restarts_the_turn() {
    let mut table = GlobalDispatcher::new();
    let members = vec![a_child("a"), a_child("b"), a_child("c")];
    for m in &members {
        table.register("g", m.clone());
    }
    assert_eq!(table.next("g").unwrap(), members[0]);
    assert_eq!(table.next("g").unwrap(), members[1]);
    table.remove("g", members[0].id());
    assert_eq!(table.next("g").unwrap(), members[1]);
    assert_eq!(table.next("g").unwrap(), members[2]);
    assert_eq!(table.next("g").unwrap(), members[1]);
    table.remove("missing", members[1].id());
    assert_eq!(table.next("g").unwrap(), members[2]);
}

#[test]
fn broadcast_reaches_a_group_or_all() {
    let mut table = GlobalDispatcher::new();
    let a = vec![a_child("a1"), a_child("a2")];
    let b = vec![a_child("b1")];
    for m in &a {
        table.register("a", m.clone());
    }
    for m in &b {
        table.register("b", m.clone());
    }
    let p = Payload { type_tag: 0, value: 4 };
    let to_a = table.broadcast(&BroadcastTarget::Group("a".to_string()), p);
    assert_eq!(to_a.len(), 2);
    assert_eq!(&to_a[0].to, a[0].sender());
    assert_eq!(&to_a[1].to, a[1].sender());
    for d in &to_a {
        assert!(matches!(d.envelope.msg, QuipMessage::Message(Msg::Tell(q)) if q == p));
    }
    let to_all = table.broadcast(&BroadcastTarget::All, p);
    assert_eq!(to_all.len(), 3);
    assert_eq!(&to_all[2].to, b[0].sender());
    assert!(table
        .broadcast(&BroadcastTarget::Group("c".to_string()), p)
        .is_empty());
    let everyone = Distributor::named("a").tell_everyone(&table, p).unwrap();
    assert_eq!(everyone.len(), 2);
}

#[test]
fn send_errors_name_the_failure() {
    assert_eq!(SendError::of(true, false), SendError::FullMailbox);
    assert_eq!(SendError::of(true, true), SendError::FullMailbox);
    assert_eq!(SendError::of(false, true), SendError::Disconnected);
    assert_eq!(SendError::of(false, false), SendError::Other);
}

#[test]
fn send_errors_say_what_went_wrong() {
    assert_eq!(SendError::FullMailbox.to_string(), "The mailbox is full");
    assert_eq!(SendError::Disconnected.to_string(), "The mailbox is disconnected");
    assert_eq!(SendError::NotFound.to_string(), "No recipient was found");
    assert_eq!(SendError::Other.to_string(), "The message could not be sent");
}
