//! The entry points of the runtime.
//!
//! Each says what is to be put into which mailbox. The mailbox of the
//! system is the one at the empty path; the root supervisor and the
//! dead-letters group are found under the reserved identifier. What comes
//! from outside the system is signed by the dead-letters group.

use crate::broadcast::{system_sender, Broadcast, Delivery, Parent, Sender};
use crate::children::{launches, Children};
use crate::children_ref::ChildrenRef;
use crate::config::Config;
use crate::envelope::Envelope;
use crate::id::{nil_id, QuipId};
use crate::message::{Payload, QuipMessage};
use crate::path::{QuipPath, QuipPathElement};
use crate::supervisor::{RestartPolicy, SupervisionStrategy, Supervisor, SupervisorRef};
use crate::system::{boots, Boot, GlobalSystem, System};
use std::sync::Arc;
use vstd::prelude::*;

verus! {

/// The entry points of the runtime.
#[derive(Debug)]
pub struct Quip {
    _priv: (),
}

/// Whether `d` puts `msg` into the mailbox of the system, signed by the
/// dead-letters group.
pub open spec fn asks_system(d: Delivery, msg: QuipMessage) -> bool {
    &&& d.to.target@ == Seq::<QuipPathElement>::empty()
    &&& d.envelope.msg == msg
    &&& d.envelope.sign.is_dead_letters_group()
}

/// Whether `fresh` is a supervisor as [`Quip::supervisor`] makes it before
/// it is configured: directly below the system, under an identifier that
/// is not the reserved one, with nothing registered, restarting only what
/// terminated, every time.
pub open spec fn is_new_supervisor(fresh: Supervisor) -> bool {
    &&& fresh.ident() != nil_id()
    &&& fresh.mail().address()@ == seq![QuipPathElement::Supervisor(fresh.ident())]
    &&& fresh.mail().mailbox().target == fresh.mail().address()
    &&& fresh.mail().owner() == Parent::System
    &&& fresh.mail().children() == Map::<QuipId, Sender>::empty()
    &&& fresh.strategy_spec() == SupervisionStrategy::OneForOne
    &&& fresh.policy_spec() == RestartPolicy::Always
    &&& fresh.back_off_spec() == crate::restart::ActorRestartStrategy::Immediate
    &&& fresh.window_spec() is None
    &&& fresh@ == crate::supervisor::nothing_supervised()
}

impl Quip {
    /// Makes the system with the default configuration.
    pub fn init() -> (res: (bool, Boot))
        ensures
            !res.0,
            boots(res.1),
    {
        let config = Config::default();
        Quip::init_with(config)
    }

    /// Makes the system. The first part of the result says whether the
    /// messages of panics are to be suppressed from now on: they are
    /// where the configuration hides them.
    pub fn init_with(config: Config) -> (res: (bool, Boot))
        ensures
            res.0 == (config.setting() == crate::config::Backtraces::Hide),
            boots(res.1),
    {
        let silence = config.backtraces().is_hide();
        (silence, System::init())
    }

    /// A reference to the root supervisor.
    pub fn root_supervisor() -> (root: SupervisorRef)
        ensures
            root.wf(),
            root.id == nil_id(),
            root.path@ == seq![QuipPathElement::Supervisor(nil_id())],
            root.sender.target == root.path,
    {
        let path = match QuipPath::root().append(QuipPathElement::Supervisor(QuipId::nil())) {
            Ok(path) => path,
            Err(e) => e.into_path(),
        };
        let path = Arc::new(path);
        SupervisorRef::new(QuipId::nil(), Sender::new(crate::path::share(&path)), path)
    }

    /// Makes a supervisor directly below the system, lets `init`
    /// configure it, and hands it to the system. The result is a
    /// reference to the supervisor and the delivery that hands it over.
    pub fn supervisor<S: FnOnce(Supervisor) -> Supervisor>(init: S) -> (res: (
        SupervisorRef,
        Delivery,
    ))
        requires
            forall|fresh: Supervisor| is_new_supervisor(fresh) ==> init.requires((fresh,)),
        ensures
            res.1.to.target@ == Seq::<QuipPathElement>::empty(),
            res.1.envelope.sign.path@ == Seq::<QuipPathElement>::empty(),
            res.1.envelope.sign.sender.target@ == Seq::<QuipPathElement>::empty(),
            res.1.envelope.msg is Deploy,
            res.1.envelope.msg->Deploy_0 is Supervisor,
            ({
                let made = res.1.envelope.msg->Deploy_0->Supervisor_0;
                &&& res.0.id == made.ident()
                &&& res.0.sender == made.mail().mailbox()
                &&& res.0.path == made.mail().address()
                &&& exists|fresh: Supervisor|
                    is_new_supervisor(fresh) && #[trigger] init.ensures((fresh,), made)
            }),
    {
        let parent = Parent::system();
        let bcast = Broadcast::new(parent, QuipPathElement::Supervisor(QuipId::new()));
        let fresh = Supervisor::new(bcast);
        let ghost fresh_spec = fresh;
        assert(fresh.mail().address()@.last() == QuipPathElement::Supervisor(fresh.ident()));
        assert(is_new_supervisor(fresh));
        assert(init.requires((fresh,)));
        let supervisor = init(fresh);
        let supervisor_ref = supervisor.as_ref();
        let msg = QuipMessage::deploy_supervisor(supervisor);
        let sender = system_sender();
        let path = Arc::new(QuipPath::root());
        let envelope = Envelope::new(msg, path, sender);
        let d = Delivery { to: system_sender(), envelope };
        assert(is_new_supervisor(fresh_spec) && init.ensures((fresh_spec,), supervisor));
        (supervisor_ref, d)
    }

    /// Makes a children group below the root supervisor, lets `init`
    /// configure it, launches its children, and hands it to the root
    /// supervisor. The result is a reference to the group, the mailboxes
    /// of its children, and the delivery that hands the group over.
    pub fn children<C: FnOnce(Children) -> Children>(init: C) -> (res: (
        ChildrenRef,
        Vec<Broadcast>,
        Delivery,
    ))
        requires
            forall|fresh: Children| fresh.wf() ==> init.requires((fresh,)),
            forall|fresh: Children, configured: Children|
                fresh.wf() && init.ensures((fresh,), configured) ==> configured.wf(),
        ensures
            res.2.envelope.msg is Deploy,
            res.2.envelope.msg->Deploy_0 is Children,
            ({
                let group = res.2.envelope.msg->Deploy_0->Children_0;
                &&& res.2.to.target@ == seq![QuipPathElement::Supervisor(nil_id())]
                &&& res.2.envelope.sign.path@ == seq![QuipPathElement::Supervisor(nil_id())]
                &&& res.2.envelope.sign.sender == res.2.to
                &&& group.refers(res.0)
                &&& exists|root: SupervisorRef, id: QuipId, fresh: Children, configured: Children|
                    root.path@ == seq![QuipPathElement::Supervisor(nil_id())] && id != nil_id()
                        && #[trigger] root.begets(id, fresh) && #[trigger] init.ensures(
                        (fresh,),
                        configured,
                    ) && launches(configured, group, res.1@)
            }),
    {
        let root = Quip::root_supervisor();
        let res = root.children(init);
        proof {
            let group = res.2.envelope.msg->Deploy_0->Children_0;
            let (id, fresh, configured) = choose|
                id: QuipId,
                fresh: Children,
                configured: Children,
            |
                id != nil_id() && #[trigger] root.begets(id, fresh) && #[trigger] init.ensures(
                    (fresh,),
                    configured,
                ) && launches(configured, group, res.1@);
            assert(root.path@ == seq![QuipPathElement::Supervisor(nil_id())] && id != nil_id()
                && root.begets(id, fresh) && init.ensures((fresh,), configured) && launches(
                configured,
                group,
                res.1@,
            ));
        }
        res
    }

    /// Makes a children group of one child below the root supervisor.
    pub fn spawn() -> (res: (ChildrenRef, Vec<Broadcast>, Delivery))
        ensures
            res.2.envelope.msg is Deploy,
            res.2.envelope.msg->Deploy_0 is Children,
            ({
                let group = res.2.envelope.msg->Deploy_0->Children_0;
                &&& res.2.to.target@ == seq![QuipPathElement::Supervisor(nil_id())]
                &&& res.2.envelope.sign.sender == res.2.to
                &&& group.refers(res.0)
                &&& group.redundancy == 1
                &&& res.0.children@.len() == 1
                &&& res.1@.len() == 1
            }),
    {
        let one = |children: Children| -> (same: Children)
            requires
                true,
            ensures
                same == (Children { redundancy: 1, ..children }),
            { children.with_redundancy(1) };
        let res = Quip::children(one);
        proof {
            let group = res.2.envelope.msg->Deploy_0->Children_0;
            let (root, id, fresh, configured) = choose|
                root: SupervisorRef,
                id: QuipId,
                fresh: Children,
                configured: Children,
            |
                root.path@ == seq![QuipPathElement::Supervisor(nil_id())] && id != nil_id()
                    && #[trigger] root.begets(id, fresh) && #[trigger] one.ensures(
                    (fresh,),
                    configured,
                ) && launches(configured, group, res.1@);
        }
        res
    }

    /// The delivery that puts `msg` before the whole system: into the
    /// mailbox of the system, to be copied to every supervisor.
    pub fn broadcast(msg: Payload) -> (d: Delivery)
        ensures
            asks_system(d, QuipMessage::broadcast_spec(msg)),
    {
        let msg = QuipMessage::broadcast(msg);
        let envelope = Envelope::from_dead_letters(msg);
        Delivery { to: system_sender(), envelope }
    }

    /// The delivery that starts the system.
    pub fn start() -> (d: Delivery)
        ensures
            asks_system(d, QuipMessage::Start),
    {
        let msg = QuipMessage::start();
        let envelope = Envelope::from_dead_letters(msg);
        Delivery { to: system_sender(), envelope }
    }

    /// The delivery that asks the system to stop.
    pub fn stop() -> (d: Delivery)
        ensures
            asks_system(d, QuipMessage::Stop),
    {
        let msg = QuipMessage::stop();
        let envelope = Envelope::from_dead_letters(msg);
        Delivery { to: system_sender(), envelope }
    }

    /// Kills the system: the delivery that tells the system so. It is
    /// noted at once that the system runs no more; the caller cancels the
    /// run of the system.
    pub fn kill(global: &mut GlobalSystem) -> (d: Delivery)
        ensures
            asks_system(d, QuipMessage::Kill),
            *final(global) == (GlobalSystem { running: false, ..*old(global) }),
    {
        let msg = QuipMessage::kill();
        let envelope = Envelope::from_dead_letters(msg);
        global.notify_stopped();
        Delivery { to: system_sender(), envelope }
    }

    /// Whether one who wants to block until the system has stopped has to
    /// go on waiting.
    pub fn block_until_stopped(global: &GlobalSystem) -> (waits: bool)
        ensures
            waits == global.running,
    {
        global.wait_until_stopped()
    }
}

} // verus!
