//! What an envelope carries: the messages of the runtime itself and the
//! messages of users.

use crate::children::Children;
use crate::envelope::{RefAddr, SignedMessage};
use crate::id::QuipId;
use crate::supervisor::{SupervisionStrategy, Supervisor};
use vstd::prelude::*;

verus! {

/// A user's message, as far as the runtime looks at it: a tag for its type
/// and a handle by which its owner finds the value again.
#[derive(Clone, Copy, Debug, PartialEq, Eq, Hash, Structural)]
pub struct Payload {
    pub type_tag: u64,
    pub value: u64,
}

/// A handle to the state a child carries across restarts: the identifier
/// of the first child that had the state.
#[derive(Clone, Copy, Debug, PartialEq, Eq, Hash, Structural)]
pub struct StateHandle(pub QuipId);

/// The lifecycle hooks of a supervised element.
#[derive(Clone, Copy, Debug, PartialEq, Eq, Hash, Structural)]
pub enum CallbackType {
    BeforeStart,
    BeforeRestart,
    AfterRestart,
    AfterStop,
}

/// The receiving end of a question: the handle on which its answer
/// arrives.
#[derive(Clone, Copy, Debug, PartialEq, Eq, Structural)]
pub struct Answer {
    pub slot: QuipId,
}

/// The answering end of a question: where the answer goes, and the
/// signature it will carry.
#[derive(Debug, PartialEq, Eq)]
pub struct AnswerSender {
    pub slot: QuipId,
    pub sign: RefAddr,
}

/// An answer on its way to the handle that waits for it, or the news
/// that none will come.
#[derive(Debug, PartialEq, Eq)]
pub struct Reply {
    pub slot: QuipId,
    /// The answer; `None` where the one who was asked let go of the
    /// question without answering.
    pub message: Option<SignedMessage>,
}

/// A user's message with the way it was sent.
#[derive(Debug, PartialEq, Eq)]
pub enum Msg {
    /// Sent to every member of a group; may be copied.
    Broadcast(Payload),
    /// Sent to one receiver.
    Tell(Payload),
    /// Sent to one receiver, who is to answer.
    Ask { msg: Payload, sender: AnswerSender },
}

/// Something to be deployed under a supervisor.
#[derive(Debug)]
pub enum Deployment {
    Supervisor(Supervisor),
    Children(Children),
}

/// What an envelope carries.
#[derive(Debug)]
pub enum QuipMessage {
    Start,
    Stop,
    Kill,
    Deploy(Deployment),
    Prune { id: QuipId },
    SuperviseWith(SupervisionStrategy),
    ApplyCallback { callback_type: CallbackType },
    InstantiatedChild { parent_id: QuipId, child_id: QuipId, state: StateHandle },
    Message(Msg),
    RestartRequired { id: QuipId, parent_id: QuipId },
    RestartSubtree,
    RestoreChild { id: QuipId, state: StateHandle },
    FinishedChild { id: QuipId, parent_id: QuipId },
    DropChild { id: QuipId },
    SetState { state: StateHandle },
    Stopped { id: QuipId },
    Faulted { id: QuipId },
    Heartbeat,
}

impl Answer {
    /// Takes a reply. One that was made for another handle comes back.
    /// One that was made for this handle resolves it: to the signed
    /// message it carries, or to an error where it carries none.
    pub fn accept(&self, reply: Reply) -> (res: Result<Result<SignedMessage, ()>, Reply>)
        ensures
            res == match accepted(*self, reply) {
                Some(resolved) => Ok::<Result<SignedMessage, ()>, Reply>(resolved),
                None => Err::<Result<SignedMessage, ()>, Reply>(reply),
            },
    {
        if reply.slot.0 == self.slot.0 {
            match reply.message {
                Some(message) => Ok(Ok(message)),
                None => Ok(Err(())),
            }
        } else {
            Err(reply)
        }
    }
}

impl AnswerSender {
    /// The reply that answers the question with `msg`: a message told by
    /// the one the question was put to.
    pub fn reply(self, msg: Payload) -> (reply: Reply)
        ensures
            reply == replied(self, msg),
    {
        Reply { slot: self.slot, message: Some(SignedMessage::new(Msg::tell(msg), self.sign)) }
    }

    /// The reply that tells the one who asked that no answer will come:
    /// what is left when the one who was asked lets go of the question.
    pub fn abandon(self) -> (reply: Reply)
        ensures
            reply == (Reply { slot: self.slot, message: None }),
    {
        Reply { slot: self.slot, message: None }
    }
}

/// An answer given to a question arrives at the handle that the question
/// was made with, carries what was answered, and is signed as the question
/// said. Where the question is let go of without an answer, the handle
/// resolves to an error.
pub proof fn lemma_answer_round_trip(sender: AnswerSender, answer: Answer, msg: Payload)
    requires
        sender.slot == answer.slot,
    ensures
        accepted(answer, replied(sender, msg)) == Some(
            Ok::<SignedMessage, ()>(SignedMessage { msg: Msg::Tell(msg), sign: sender.sign }),
        ),
        accepted(answer, Reply { slot: sender.slot, message: None }) == Some(
            Err::<SignedMessage, ()>(()),
        ),
{
}

/// What [`AnswerSender::reply`] returns.
pub open spec fn replied(sender: AnswerSender, msg: Payload) -> Reply {
    Reply {
        slot: sender.slot,
        message: Some(SignedMessage { msg: Msg::Tell(msg), sign: sender.sign }),
    }
}

/// What a handle resolves to on a reply; `None` where the reply was made
/// for another handle.
pub open spec fn accepted(answer: Answer, reply: Reply) -> Option<Result<SignedMessage, ()>> {
    if reply.slot == answer.slot {
        Some(
            match reply.message {
                Some(message) => Ok(message),
                None => Err(()),
            },
        )
    } else {
        None
    }
}

impl Msg {
    /// A message for every member of a group.
    pub fn broadcast(msg: Payload) -> (m: Msg)
        ensures
            m == Msg::Broadcast(msg),
    {
        Msg::Broadcast(msg)
    }

    /// A message for one receiver.
    pub fn tell(msg: Payload) -> (m: Msg)
        ensures
            m == Msg::Tell(msg),
    {
        Msg::Tell(msg)
    }

    /// A question for one receiver, and the handle on which the answer
    /// will arrive. The answer will be signed with `sign`.
    pub fn ask(msg: Payload, sign: RefAddr) -> (res: (Msg, Answer))
        ensures
            res.0 == (Msg::Ask { msg, sender: AnswerSender { slot: res.1.slot, sign } }),
    {
        let slot = QuipId::new();
        (Msg::Ask { msg, sender: AnswerSender { slot, sign } }, Answer { slot })
    }

    /// The user's message.
    pub open spec fn payload(&self) -> Payload {
        match *self {
            Msg::Broadcast(msg) => msg,
            Msg::Tell(msg) => msg,
            Msg::Ask { msg, .. } => msg,
        }
    }

    /// Whether the message was sent to every member of a group.
    pub fn is_broadcast(&self) -> (b: bool)
        ensures
            b == (*self is Broadcast),
    {
        matches!(self, Msg::Broadcast(_))
    }

    /// Whether the message is a question.
    pub fn is_ask(&self) -> (b: bool)
        ensures
            b == (*self is Ask),
    {
        matches!(self, Msg::Ask { .. })
    }

    /// A copy of the message, where it may be copied: only a message for
    /// every member of a group may.
    pub fn try_clone(&self) -> (copy: Option<Msg>)
        ensures
            copy == if *self is Broadcast {
                Some(*self)
            } else {
                None
            },
    {
        match self {
            Msg::Broadcast(msg) => Some(Msg::Broadcast(*msg)),
            _ => None,
        }
    }

    /// The user's message, taken out.
    pub fn into_payload(self) -> (msg: Payload)
        ensures
            msg == self.payload(),
    {
        match self {
            Msg::Broadcast(msg) => msg,
            Msg::Tell(msg) => msg,
            Msg::Ask { msg, .. } => msg,
        }
    }
}

impl QuipMessage {
    /// What [`QuipMessage::tell`] returns.
    pub open spec fn tell_spec(msg: Payload) -> QuipMessage {
        QuipMessage::Message(Msg::Tell(msg))
    }

    /// What [`QuipMessage::broadcast`] returns.
    pub open spec fn broadcast_spec(msg: Payload) -> QuipMessage {
        QuipMessage::Message(Msg::Broadcast(msg))
    }

    /// Whether this is the question `msg`, to be answered on `answer` with
    /// the signature `sign`.
    pub open spec fn is_question(&self, msg: Payload, sign: RefAddr, answer: Answer) -> bool {
        *self == QuipMessage::Message(
            Msg::Ask { msg, sender: AnswerSender { slot: answer.slot, sign } },
        )
    }

    /// Whether the message may be copied. A deployment may not, and of the
    /// messages of users only one for every member of a group may.
    pub open spec fn cloneable(&self) -> bool {
        match *self {
            QuipMessage::Deploy(_) => false,
            QuipMessage::Message(msg) => msg is Broadcast,
            _ => true,
        }
    }

    /// The request to start.
    pub fn start() -> (m: QuipMessage)
        ensures
            m == QuipMessage::Start,
    {
        QuipMessage::Start
    }

    /// The request to stop.
    pub fn stop() -> (m: QuipMessage)
        ensures
            m == QuipMessage::Stop,
    {
        QuipMessage::Stop
    }

    /// The kill.
    pub fn kill() -> (m: QuipMessage)
        ensures
            m == QuipMessage::Kill,
    {
        QuipMessage::Kill
    }

    /// The supervisor, to be deployed.
    pub fn deploy_supervisor(supervisor: Supervisor) -> (m: QuipMessage)
        ensures
            m == QuipMessage::Deploy(Deployment::Supervisor(supervisor)),
    {
        QuipMessage::Deploy(Deployment::Supervisor(supervisor))
    }

    /// The children group, to be deployed.
    pub fn deploy_children(children: Children) -> (m: QuipMessage)
        ensures
            m == QuipMessage::Deploy(Deployment::Children(children)),
    {
        QuipMessage::Deploy(Deployment::Children(children))
    }

    /// The request to prune the element with the identifier.
    pub fn prune(id: QuipId) -> (m: QuipMessage)
        ensures
            m == (QuipMessage::Prune { id }),
    {
        QuipMessage::Prune { id }
    }

    /// The news that the element with the identifier stopped.
    pub fn stopped(id: QuipId) -> (m: QuipMessage)
        ensures
            m == (QuipMessage::Stopped { id }),
    {
        QuipMessage::Stopped { id }
    }

    /// The news that the element with the identifier faulted.
    pub fn faulted(id: QuipId) -> (m: QuipMessage)
        ensures
            m == (QuipMessage::Faulted { id }),
    {
        QuipMessage::Faulted { id }
    }

    /// A user's message for every member of a group.
    pub fn broadcast(msg: Payload) -> (m: QuipMessage)
        ensures
            m == QuipMessage::broadcast_spec(msg),
    {
        QuipMessage::Message(Msg::broadcast(msg))
    }

    /// A user's message for one receiver.
    pub fn tell(msg: Payload) -> (m: QuipMessage)
        ensures
            m == QuipMessage::tell_spec(msg),
    {
        QuipMessage::Message(Msg::tell(msg))
    }

    /// A user's question for one receiver, and the handle on which the
    /// answer will arrive. The answer will be signed with `sign`.
    pub fn ask(msg: Payload, sign: RefAddr) -> (res: (QuipMessage, Answer))
        ensures
            res.0.is_question(msg, sign, res.1),
    {
        let (msg, answer) = Msg::ask(msg, sign);
        (QuipMessage::Message(msg), answer)
    }

    /// A copy of the message, where it may be copied.
    pub fn try_clone(&self) -> (copy: Option<QuipMessage>)
        ensures
            copy == if self.cloneable() {
                Some(*self)
            } else {
                None
            },
    {
        match self {
            QuipMessage::Start => Some(QuipMessage::Start),
            QuipMessage::Stop => Some(QuipMessage::Stop),
            QuipMessage::Kill => Some(QuipMessage::Kill),
            QuipMessage::Deploy(_) => None,
            QuipMessage::Prune { id } => Some(QuipMessage::Prune { id: *id }),
            QuipMessage::SuperviseWith(strategy) => Some(QuipMessage::SuperviseWith(*strategy)),
            QuipMessage::ApplyCallback { callback_type } => Some(
                QuipMessage::ApplyCallback { callback_type: *callback_type },
            ),
            QuipMessage::InstantiatedChild { parent_id, child_id, state } => Some(
                QuipMessage::InstantiatedChild {
                    parent_id: *parent_id,
                    child_id: *child_id,
                    state: *state,
                },
            ),
            QuipMessage::Message(msg) => match msg.try_clone() {
                Some(msg) => Some(QuipMessage::Message(msg)),
                None => None,
            },
            QuipMessage::RestartRequired { id, parent_id } => Some(
                QuipMessage::RestartRequired { id: *id, parent_id: *parent_id },
            ),
            QuipMessage::RestartSubtree => Some(QuipMessage::RestartSubtree),
            QuipMessage::RestoreChild { id, state } => Some(
                QuipMessage::RestoreChild { id: *id, state: *state },
            ),
            QuipMessage::FinishedChild { id, parent_id } => Some(
                QuipMessage::FinishedChild { id: *id, parent_id: *parent_id },
            ),
            QuipMessage::DropChild { id } => Some(QuipMessage::DropChild { id: *id }),
            QuipMessage::SetState { state } => Some(QuipMessage::SetState { state: *state }),
            QuipMessage::Stopped { id } => Some(QuipMessage::Stopped { id: *id }),
            QuipMessage::Faulted { id } => Some(QuipMessage::Faulted { id: *id }),
            QuipMessage::Heartbeat => Some(QuipMessage::Heartbeat),
        }
    }

    /// The user's message, if the envelope carried one.
    pub fn into_msg(self) -> (msg: Option<Payload>)
        ensures
            msg == match self {
                QuipMessage::Message(m) => Some(m.payload()),
                _ => None,
            },
    {
        match self {
            QuipMessage::Message(m) => Some(m.into_payload()),
            _ => None,
        }
    }
}

} // verus!
