//! The receiving halves of mailboxes, and the way a delivery finds the
//! mailbox it is meant for.
//!
//! A mailbox keeps what is put into it in the order in which it was put,
//! and hands it out in that order, each envelope once. A delivery whose
//! mailbox cannot be found goes to the mailbox of the dead-letters group.

use crate::broadcast::{Delivery, Sender};
use crate::envelope::{dead_letters_chain, Envelope};
use crate::path::{share, QuipPath, QuipPathElement};
use std::sync::Arc;
use vstd::prelude::*;

verus! {

/// What a look into a mailbox finds.
#[derive(Debug)]
pub enum Polled {
    /// The oldest envelope, taken out.
    Ready(Envelope),
    /// Nothing, for now.
    Pending,
    /// Nothing, and nothing will come: the mailbox is closed and empty.
    Closed,
}

/// The receiving half of a mailbox.
#[derive(Debug)]
pub struct Receiver {
    address: Arc<QuipPath>,
    queue: Vec<Envelope>,
    open: bool,
}

/// What a receiving half holds.
pub struct Inbox {
    /// The chain of the path of the mailbox's owner.
    pub address: Seq<QuipPathElement>,
    /// The envelopes that were put in and not yet taken out, oldest
    /// first.
    pub queue: Seq<Envelope>,
    /// Whether more can be put in.
    pub open: bool,
}

impl View for Receiver {
    type V = Inbox;

    closed spec fn view(&self) -> Inbox {
        Inbox { address: self.address@, queue: self.queue@, open: self.open }
    }
}

impl Receiver {
    /// The receiving half that goes with the sending half: open and
    /// empty.
    pub fn new(sender: &Sender) -> (receiver: Self)
        ensures
            receiver@ == (Inbox { address: sender.target@, queue: Seq::empty(), open: true }),
    {
        Receiver { address: share(&sender.target), queue: Vec::new(), open: true }
    }

    /// Whether the delivery is meant for this mailbox and can be put in.
    pub fn takes(&self, d: &Delivery) -> (b: bool)
        ensures
            b == (self@.open && d.to.target@ == self@.address),
    {
        self.open && d.to.target.same_as(&self.address)
    }

    /// Puts the envelope of the delivery in, behind what is there, if the
    /// delivery is meant for this mailbox and the mailbox is open. If
    /// not, the delivery comes back.
    pub fn deliver(&mut self, d: Delivery) -> (res: Result<(), Delivery>)
        ensures
            res is Ok <==> old(self)@.open && d.to.target@ == old(self)@.address,
            res is Ok ==> final(self)@ == (Inbox {
                queue: old(self)@.queue.push(d.envelope),
                ..old(self)@
            }),
            res is Err ==> res->Err_0 == d && final(self)@ == old(self)@,
    {
        if self.takes(&d) {
            self.queue.push(d.envelope);
            Ok(())
        } else {
            Err(d)
        }
    }

    /// Takes the oldest envelope out, if there is one.
    pub fn next(&mut self) -> (polled: Polled)
        ensures
            old(self)@.queue.len() > 0 ==> polled == Polled::Ready(old(self)@.queue[0])
                && final(self)@ == (Inbox {
                queue: old(self)@.queue.drop_first(),
                ..old(self)@
            }),
            old(self)@.queue.len() == 0 ==> final(self)@ == old(self)@ && polled == if old(
                self,
            )@.open {
                Polled::Pending
            } else {
                Polled::Closed
            },
    {
        if self.queue.len() > 0 {
            let env = self.queue.remove(0);
            assert(self.queue@ =~= old(self)@.queue.drop_first());
            Polled::Ready(env)
        } else if self.open {
            Polled::Pending
        } else {
            Polled::Closed
        }
    }

    /// Closes the mailbox: nothing more can be put in. What is in it can
    /// still be taken out.
    pub fn close(&mut self)
        ensures
            final(self)@ == (Inbox { open: false, ..old(self)@ }),
    {
        self.open = false;
    }

    /// How many envelopes wait in the mailbox.
    pub fn len(&self) -> (n: usize)
        ensures
            n == self@.queue.len(),
    {
        self.queue.len()
    }
}

/// What was put into a mailbox first is handed out first: two envelopes
/// put in one after the other come out in that order, behind what was
/// there before, each once.
pub proof fn lemma_first_in_first_out(inbox: Inbox, first: Envelope, second: Envelope)
    ensures
        ({
            let queue = inbox.queue.push(first).push(second);
            &&& queue.len() == inbox.queue.len() + 2
            &&& queue.subrange(0, inbox.queue.len() as int) == inbox.queue
            &&& queue[inbox.queue.len() as int] == first
            &&& queue[inbox.queue.len() as int + 1] == second
        }),
{
    let queue = inbox.queue.push(first).push(second);
    assert(queue.subrange(0, inbox.queue.len() as int) =~= inbox.queue);
}

/// The place of the first open mailbox with the address; the number of
/// mailboxes where there is none.
pub open spec fn slot_of(boxes: Seq<Inbox>, address: Seq<QuipPathElement>) -> int
    decreases boxes.len(),
{
    if boxes.len() == 0 {
        0
    } else if boxes[0].open && boxes[0].address == address {
        0
    } else {
        1 + slot_of(boxes.drop_first(), address)
    }
}

/// The place of the mailbox a delivery to `address` ends in: that of the
/// mailbox with the address where there is one that is open, else that of
/// the dead-letters group; the number of mailboxes where that is missing
/// too.
pub open spec fn destination(boxes: Seq<Inbox>, address: Seq<QuipPathElement>) -> int {
    if slot_of(boxes, address) < boxes.len() {
        slot_of(boxes, address)
    } else {
        slot_of(boxes, dead_letters_chain())
    }
}

proof fn lemma_slot_of(boxes: Seq<Inbox>, address: Seq<QuipPathElement>, at: int)
    requires
        0 <= at <= boxes.len(),
        forall|j: int| 0 <= j < at ==> !(boxes[j].open && boxes[j].address == address),
        at < boxes.len() ==> boxes[at].open && boxes[at].address == address,
    ensures
        slot_of(boxes, address) == at,
    decreases boxes.len(),
{
    if boxes.len() > 0 && at > 0 {
        let rest = boxes.drop_first();
        assert forall|j: int| 0 <= j < at - 1 implies !(rest[j].open && rest[j].address
            == address) by {
            assert(rest[j] == boxes[j + 1]);
        }
        lemma_slot_of(rest, address, at - 1);
    }
}

/// The mailboxes of a system.
#[derive(Debug)]
pub struct PostOffice {
    boxes: Vec<Receiver>,
}

impl View for PostOffice {
    type V = Seq<Inbox>;

    closed spec fn view(&self) -> Seq<Inbox> {
        Seq::new(self.boxes@.len(), |i: int| self.boxes@[i]@)
    }
}

impl PostOffice {
    /// A post office without mailboxes.
    pub fn new() -> (post: Self)
        ensures
            post@ == Seq::<Inbox>::empty(),
    {
        let post = PostOffice { boxes: Vec::new() };
        assert(post@ =~= Seq::<Inbox>::empty());
        post
    }

    /// Adds the mailbox that goes with the sending half, open and empty.
    pub fn open(&mut self, sender: &Sender)
        ensures
            final(self)@ == old(self)@.push(
                Inbox { address: sender.target@, queue: Seq::empty(), open: true },
            ),
    {
        self.boxes.push(Receiver::new(sender));
        assert(self@ =~= old(self)@.push(
            Inbox { address: sender.target@, queue: Seq::empty(), open: true },
        ));
    }

    fn find(&self, address: &QuipPath) -> (at: usize)
        ensures
            at == slot_of(self@, address@),
            at <= self@.len(),
    {
        let mut at: usize = 0;
        while at < self.boxes.len()
            invariant
                at <= self.boxes.len(),
                forall|j: int| 0 <= j < at ==> !(self@[j].open && self@[j].address == address@),
            decreases self.boxes.len() - at,
        {
            if self.boxes[at].open && self.boxes[at].address.same_as(address) {
                proof {
                    lemma_slot_of(self@, address@, at as int);
                }
                return at;
            }
            at += 1;
        }
        proof {
            lemma_slot_of(self@, address@, at as int);
        }
        at
    }

    /// Puts the envelope of the delivery into the open mailbox it is
    /// meant for. Where there is none it goes to the mailbox of the
    /// dead-letters group. Either way it is put into one mailbox, once,
    /// behind what is there, and no other mailbox changes. Where the
    /// dead-letters group has no open mailbox either, the envelope comes
    /// back and nothing changes.
    pub fn send(&mut self, d: Delivery) -> (res: Result<(), Envelope>)
        ensures
            res is Ok <==> destination(old(self)@, d.to.target@) < old(self)@.len(),
            final(self)@ == posted(old(self)@, d.to.target@, d.envelope),
            res is Err ==> res->Err_0 == d.envelope && final(self)@ == old(self)@,
    {
        let mut at = self.find(&d.to.target);
        if at >= self.boxes.len() {
            let dead_letters = crate::envelope::RefAddr::dead_letters();
            at = self.find(&dead_letters.path);
        }
        if at >= self.boxes.len() {
            return Err(d.envelope);
        }
        let ghost before = self@;
        let mut receiver = self.boxes.remove(at);
        receiver.queue.push(d.envelope);
        self.boxes.insert(at, receiver);
        assert(self@ =~= before.update(
            at as int,
            Inbox { queue: before[at as int].queue.push(d.envelope), ..before[at as int] },
        ));
        Ok(())
    }

    /// Takes the oldest envelope out of the open mailbox with the
    /// address, if there is such a mailbox and it is not empty.
    pub fn take(&mut self, address: &QuipPath) -> (taken: Option<Envelope>)
        ensures
            ({
                let at = slot_of(old(self)@, address@);
                if at < old(self)@.len() && old(self)@[at].queue.len() > 0 {
                    &&& taken == Some(old(self)@[at].queue[0])
                    &&& final(self)@ == old(self)@.update(
                        at,
                        Inbox { queue: old(self)@[at].queue.drop_first(), ..old(self)@[at] },
                    )
                } else {
                    taken is None && final(self)@ == old(self)@
                }
            }),
    {
        let at = self.find(address);
        if at >= self.boxes.len() {
            return None;
        }
        if self.boxes[at].queue.len() == 0 {
            return None;
        }
        let ghost before = self@;
        let mut receiver = self.boxes.remove(at);
        let env = receiver.queue.remove(0);
        self.boxes.insert(at, receiver);
        assert(self@ =~= before.update(
            at as int,
            Inbox { queue: before[at as int].queue.drop_first(), ..before[at as int] },
        ));
        Some(env)
    }

    /// Closes the open mailbox with the address, if there is one.
    pub fn close(&mut self, address: &QuipPath)
        ensures
            ({
                let at = slot_of(old(self)@, address@);
                if at < old(self)@.len() {
                    final(self)@ == old(self)@.update(at, Inbox { open: false, ..old(self)@[at] })
                } else {
                    final(self)@ == old(self)@
                }
            }),
    {
        let at = self.find(address);
        if at >= self.boxes.len() {
            return ;
        }
        let ghost before = self@;
        let mut receiver = self.boxes.remove(at);
        receiver.open = false;
        self.boxes.insert(at, receiver);
        assert(self@ =~= before.update(at as int, Inbox { open: false, ..before[at as int] }));
    }

    /// How many envelopes wait in the open mailbox with the address;
    /// `None` where there is no such mailbox.
    pub fn waiting(&self, address: &QuipPath) -> (n: Option<usize>)
        ensures
            ({
                let at = slot_of(self@, address@);
                n == if at < self@.len() {
                    Some(self@[at].queue.len() as usize)
                } else {
                    None
                }
            }),
    {
        let at = self.find(address);
        if at >= self.boxes.len() {
            None
        } else {
            Some(self.boxes[at].queue.len())
        }
    }
}

/// The mailboxes after an envelope was sent to `address`; as they were
/// where the envelope came back.
pub open spec fn posted(boxes: Seq<Inbox>, address: Seq<QuipPathElement>, env: Envelope) -> Seq<
    Inbox,
> {
    let at = destination(boxes, address);
    if 0 <= at < boxes.len() {
        boxes.update(at, Inbox { queue: boxes[at].queue.push(env), ..boxes[at] })
    } else {
        boxes
    }
}

/// Where a mailbox is found does not depend on what waits in the
/// mailboxes.
pub proof fn lemma_slot_after_post(
    boxes: Seq<Inbox>,
    address: Seq<QuipPathElement>,
    env: Envelope,
    other: Seq<QuipPathElement>,
)
    ensures
        slot_of(posted(boxes, address, env), other) == slot_of(boxes, other),
        destination(posted(boxes, address, env), other) == destination(boxes, other),
{
    let after = posted(boxes, address, env);
    lemma_same_addresses(boxes, after, other);
    lemma_same_addresses(boxes, after, dead_letters_chain());
}

proof fn lemma_same_addresses(a: Seq<Inbox>, b: Seq<Inbox>, address: Seq<QuipPathElement>)
    requires
        a.len() == b.len(),
        forall|i: int|
            0 <= i < a.len() ==> (#[trigger] a[i]).address == b[i].address && a[i].open == b[i].open,
    ensures
        slot_of(a, address) == slot_of(b, address),
    decreases a.len(),
{
    if a.len() > 0 {
        assert(a[0].address == b[0].address && a[0].open == b[0].open);
        if !(a[0].open && a[0].address == address) {
            assert forall|i: int| 0 <= i < a.drop_first().len() implies (
            #[trigger] a.drop_first()[i]).address == b.drop_first()[i].address
                && a.drop_first()[i].open == b.drop_first()[i].open by {
                assert(a[i + 1].address == b[i + 1].address && a[i + 1].open == b[i + 1].open);
            }
            lemma_same_addresses(a.drop_first(), b.drop_first(), address);
        }
    }
}

/// Two envelopes sent to the same address, one after the other, end up
/// in the same mailbox, the first before the second, behind what waited
/// there; and no other mailbox changes.
pub proof fn lemma_order_is_kept(
    boxes: Seq<Inbox>,
    address: Seq<QuipPathElement>,
    first: Envelope,
    second: Envelope,
)
    requires
        0 <= destination(boxes, address) < boxes.len(),
    ensures
        ({
            let at = destination(boxes, address);
            let after = posted(posted(boxes, address, first), address, second);
            &&& after.len() == boxes.len()
            &&& after[at].queue == boxes[at].queue.push(first).push(second)
            &&& forall|i: int| 0 <= i < boxes.len() && i != at ==> after[i] == boxes[i]
        }),
{
    lemma_slot_after_post(boxes, address, first, address);
}

/// An envelope sent to a mailbox that exists and is open ends up in that
/// mailbox and in no other.
pub proof fn lemma_delivered_once(boxes: Seq<Inbox>, address: Seq<QuipPathElement>)
    requires
        slot_of(boxes, address) < boxes.len(),
    ensures
        destination(boxes, address) == slot_of(boxes, address),
        0 <= destination(boxes, address) < boxes.len(),
        boxes[destination(boxes, address)].address == address,
        boxes[destination(boxes, address)].open,
{
    lemma_slot_found(boxes, address);
}

/// An envelope sent where no open mailbox is ends up in the mailbox of
/// the dead-letters group, if that is open.
pub proof fn lemma_dead_letters_catch(boxes: Seq<Inbox>, address: Seq<QuipPathElement>)
    requires
        slot_of(boxes, address) >= boxes.len(),
        slot_of(boxes, dead_letters_chain()) < boxes.len(),
    ensures
        0 <= destination(boxes, address) < boxes.len(),
        boxes[destination(boxes, address)].address == dead_letters_chain(),
        boxes[destination(boxes, address)].open,
{
    lemma_slot_found(boxes, dead_letters_chain());
}

/// Where [`slot_of`] finds a mailbox, it is an open one with the
/// address, and the first such.
pub proof fn lemma_slot_found(boxes: Seq<Inbox>, address: Seq<QuipPathElement>)
    ensures
        0 <= slot_of(boxes, address) <= boxes.len(),
        slot_of(boxes, address) < boxes.len() ==> boxes[slot_of(boxes, address)].open
            && boxes[slot_of(boxes, address)].address == address,
        forall|j: int|
            0 <= j < slot_of(boxes, address) ==> !((#[trigger] boxes[j]).open && boxes[j].address
                == address),
    decreases boxes.len(),
{
    if boxes.len() > 0 && !(boxes[0].open && boxes[0].address == address) {
        let rest = boxes.drop_first();
        lemma_slot_found(rest, address);
        assert forall|j: int| 0 <= j < slot_of(boxes, address) implies !((#[trigger] boxes[j]).open
            && boxes[j].address == address) by {
            if j > 0 {
                assert(boxes[j] == rest[j - 1]);
            }
        }
        if slot_of(boxes, address) < boxes.len() {
            assert(boxes[slot_of(boxes, address)] == rest[slot_of(rest, address)]);
        }
    }
}

} // verus!
