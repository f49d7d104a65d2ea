//! Run queues: where the processes wait that are ready to run.
//!
//! Every worker has a queue of its own with a fixed capacity. Its owner
//! takes from the front; a worker with nothing to do steals from the back
//! of another's queue. What does not fit into the queue of a worker goes
//! to a queue that all workers share.

use vstd::prelude::*;

verus! {

/// The queue of one worker.
#[derive(Debug)]
pub struct RunQueue<T> {
    items: Vec<T>,
    capacity: usize,
}

impl<T> View for RunQueue<T> {
    type V = Seq<T>;

    /// What waits in the queue, the next to run first.
    closed spec fn view(&self) -> Seq<T> {
        self.items@
    }
}

/// Whether `n` is a power of two.
pub open spec fn is_power_of_two(n: int) -> bool
    decreases n,
{
    if n <= 0 {
        false
    } else if n == 1 {
        true
    } else {
        n % 2 == 0 && is_power_of_two(n / 2)
    }
}

/// How many a thief takes from a queue of `len`: half of them, rounded
/// up, but no more than `room`.
pub open spec fn batch(len: nat, room: nat) -> nat {
    let half = (len + 1) / 2;
    if half <= room {
        half
    } else {
        room
    }
}

impl<T> RunQueue<T> {
    /// The capacity of the queue.
    pub closed spec fn limit(&self) -> usize {
        self.capacity
    }

    /// Whether the queue holds no more than its capacity, which is a
    /// power of two.
    pub open spec fn wf(&self) -> bool {
        self@.len() <= self.limit() && is_power_of_two(self.limit() as int)
    }

    /// An empty queue with the capacity, which is a power of two.
    pub fn with_capacity(capacity: usize) -> (queue: Self)
        requires
            is_power_of_two(capacity as int),
        ensures
            queue.wf(),
            queue@ == Seq::<T>::empty(),
            queue.limit() == capacity,
    {
        RunQueue { items: Vec::new(), capacity }
    }

    /// How many wait in the queue.
    pub fn len(&self) -> (n: usize)
        ensures
            n == self@.len(),
    {
        self.items.len()
    }

    /// The capacity of the queue.
    pub fn capacity(&self) -> (n: usize)
        ensures
            n == self.limit(),
    {
        self.capacity
    }

    /// Whether nothing waits in the queue.
    pub fn is_empty(&self) -> (b: bool)
        ensures
            b == (self@.len() == 0),
    {
        self.items.len() == 0
    }

    /// Puts `item` at the back of the queue. A full queue hands it back.
    pub fn push(&mut self, item: T) -> (res: Result<(), T>)
        requires
            old(self).wf(),
        ensures
            final(self).wf(),
            final(self).limit() == old(self).limit(),
            old(self)@.len() < old(self).limit() ==> final(self)@ == old(self)@.push(item)
                && res is Ok,
            old(self)@.len() >= old(self).limit() ==> final(self)@ == old(self)@ && res == Err::<
                (),
                T,
            >(item),
    {
        if self.items.len() < self.capacity {
            self.items.push(item);
            Ok(())
        } else {
            Err(item)
        }
    }

    /// Takes the item at the front of the queue, if there is one.
    pub fn pop(&mut self) -> (item: Option<T>)
        requires
            old(self).wf(),
        ensures
            final(self).wf(),
            final(self).limit() == old(self).limit(),
            old(self)@.len() > 0 ==> item == Some(old(self)@[0]) && final(self)@ == old(
                self,
            )@.drop_first(),
            old(self)@.len() == 0 ==> item is None && final(self)@ == old(self)@,
    {
        if self.items.len() > 0 {
            let item = self.items.remove(0);
            assert(self.items@ =~= old(self)@.drop_first());
            Some(item)
        } else {
            None
        }
    }

    /// Steals from the back of `victim`: half of what waits there,
    /// rounded up, but no more than fits into this queue. What is stolen
    /// keeps its order and goes behind what waits here. Nothing is lost
    /// and nothing is doubled.
    pub fn steal(&mut self, victim: &mut Self) -> (count: usize)
        requires
            old(self).wf(),
            old(victim).wf(),
        ensures
            final(self).wf(),
            final(victim).wf(),
            final(self).limit() == old(self).limit(),
            final(victim).limit() == old(victim).limit(),
            count == batch(old(victim)@.len(), (old(self).limit() - old(self)@.len()) as nat),
            final(victim)@ == old(victim)@.subrange(0, old(victim)@.len() - count),
            final(self)@ == old(self)@ + old(victim)@.subrange(
                old(victim)@.len() - count,
                old(victim)@.len() as int,
            ),
            final(victim)@ + final(self)@.subrange(
                old(self)@.len() as int,
                final(self)@.len() as int,
            ) == old(victim)@,
    {
        let room = self.capacity - self.items.len();
        let half = victim.items.len() - victim.items.len() / 2;
        let count = if half <= room {
            half
        } else {
            room
        };
        let from = victim.items.len() - count;
        let mut i: usize = 0;
        while i < count
            invariant
                i <= count,
                from + count == old(victim)@.len(),
                count <= old(self).limit() - old(self)@.len(),
                self.capacity == old(self).capacity,
                victim.capacity == old(victim).capacity,
                victim@ == old(victim)@.subrange(0, from as int) + old(victim)@.subrange(
                    from + i,
                    old(victim)@.len() as int,
                ),
                self@ == old(self)@ + old(victim)@.subrange(from as int, from + i),
            decreases count - i,
        {
            let item = victim.items.remove(from);
            self.items.push(item);
            i += 1;
            assert(victim@ =~= old(victim)@.subrange(0, from as int) + old(victim)@.subrange(
                from + i,
                old(victim)@.len() as int,
            ));
            assert(self@ =~= old(self)@ + old(victim)@.subrange(from as int, from + i));
        }
        assert(victim@ =~= old(victim)@.subrange(0, from as int));
        assert(victim@ + self@.subrange(old(self)@.len() as int, self@.len() as int) =~= old(
            victim,
        )@);
        count
    }
}

proof fn lemma_double_is_power(n: int)
    requires
        is_power_of_two(n),
    ensures
        is_power_of_two(2 * n),
{
}

/// The capacity for a queue that is to hold at least `wanted`: the
/// smallest power of two that is at least `wanted`. `None` where `wanted`
/// is more than half of what a `usize` holds, so that doubling cannot
/// reach it.
pub fn round_up(wanted: usize) -> (capacity: Option<usize>)
    ensures
        capacity is None ==> wanted > usize::MAX / 2,
        wanted <= usize::MAX / 2 ==> capacity is Some,
        capacity is Some ==> is_power_of_two(capacity->0 as int) && capacity->0 >= wanted && (
        capacity->0 / 2 < wanted || capacity->0 == 1),
{
    let mut capacity: usize = 1;
    while capacity < wanted
        invariant
            is_power_of_two(capacity as int),
            capacity / 2 < wanted || capacity == 1,
        decreases usize::MAX - capacity,
    {
        if capacity > usize::MAX / 2 {
            return None;
        }
        proof {
            lemma_double_is_power(capacity as int);
        }
        capacity = capacity * 2;
    }
    Some(capacity)
}

/// What a worker does next.
#[derive(Debug)]
pub enum Next<T> {
    /// Run the process.
    Run(T),
    /// Park: there is nothing to do.
    Park,
}

/// The queues of a pool of workers: one for each worker, one that all
/// share, and the list of the workers that are parked.
#[derive(Debug)]
pub struct Pool<T> {
    global: Vec<T>,
    locals: Vec<RunQueue<T>>,
    sleepers: Vec<usize>,
}

/// What the queues of a pool hold.
pub struct Queues<T> {
    /// What waits in the shared queue, oldest first.
    pub global: Seq<T>,
    /// What waits in the queue of each worker.
    pub locals: Seq<Seq<T>>,
    /// The workers that are parked, in the order in which they parked.
    pub sleepers: Seq<usize>,
}

impl<T> View for Pool<T> {
    type V = Queues<T>;

    closed spec fn view(&self) -> Queues<T> {
        Queues {
            global: self.global@,
            locals: Seq::new(self.locals@.len(), |i: int| self.locals@[i]@),
            sleepers: self.sleepers@,
        }
    }
}

impl<T> Pool<T> {
    /// The capacity of the queue of the worker.
    pub closed spec fn limit_of(&self, worker: int) -> usize {
        self.locals@[worker].limit()
    }

    /// Whether every queue of a worker holds no more than its capacity,
    /// and every parked worker is one of the pool.
    pub closed spec fn wf(&self) -> bool {
        &&& forall|i: int| 0 <= i < self.locals@.len() ==> (#[trigger] self.locals@[i]).wf()
        &&& forall|i: int|
            0 <= i < self.sleepers@.len() ==> (#[trigger] self.sleepers@[i]) < self.locals@.len()
    }

    /// A pool of `workers` workers, each with an empty queue of the
    /// capacity, which is a power of two. Nothing waits and nobody is
    /// parked.
    pub fn new(workers: usize, capacity: usize) -> (pool: Self)
        requires
            is_power_of_two(capacity as int),
        ensures
            pool.wf(),
            pool@.global == Seq::<T>::empty(),
            pool@.sleepers == Seq::<usize>::empty(),
            pool@.locals.len() == workers,
            forall|i: int|
                0 <= i < workers ==> (#[trigger] pool@.locals[i]).len() == 0 && pool.limit_of(i)
                    == capacity,
    {
        let mut locals: Vec<RunQueue<T>> = Vec::new();
        let mut i: usize = 0;
        while i < workers
            invariant
                i <= workers,
                is_power_of_two(capacity as int),
                locals@.len() == i,
                forall|j: int|
                    0 <= j < i ==> (#[trigger] locals@[j]).wf() && locals@[j]@.len() == 0
                        && locals@[j].limit() == capacity,
            decreases workers - i,
        {
            locals.push(RunQueue::with_capacity(capacity));
            i += 1;
        }
        Pool { global: Vec::new(), locals, sleepers: Vec::new() }
    }

    /// How many workers the pool has.
    pub fn workers(&self) -> (n: usize)
        ensures
            n == self@.locals.len(),
    {
        self.locals.len()
    }

    /// How many processes wait in the queue of the worker.
    pub fn load(&self, worker: usize) -> (n: usize)
        requires
            worker < self@.locals.len(),
        ensures
            n == self@.locals[worker as int].len(),
    {
        self.locals[worker].len()
    }

    /// How many processes wait in the shared queue.
    pub fn overflow(&self) -> (n: usize)
        ensures
            n == self@.global.len(),
    {
        self.global.len()
    }

    /// Puts a process that is ready to run into the queue of the worker,
    /// or, where that is full, into the shared queue. One parked worker,
    /// the one that has been parked longest, is woken: the result names
    /// it.
    pub fn schedule(&mut self, worker: usize, item: T) -> (woken: Option<usize>)
        requires
            old(self).wf(),
            worker < old(self)@.locals.len(),
        ensures
            final(self).wf(),
            final(self)@.locals.len() == old(self)@.locals.len(),
            forall|i: int|
                0 <= i < old(self)@.locals.len() ==> final(self).limit_of(i) == old(self).limit_of(
                    i,
                ),
            if old(self)@.locals[worker as int].len() < old(self).limit_of(worker as int) {
                &&& final(self)@.locals == old(self)@.locals.update(
                    worker as int,
                    old(self)@.locals[worker as int].push(item),
                )
                &&& final(self)@.global == old(self)@.global
            } else {
                &&& final(self)@.locals == old(self)@.locals
                &&& final(self)@.global == old(self)@.global.push(item)
            },
            if old(self)@.sleepers.len() > 0 {
                woken == Some(old(self)@.sleepers[0]) && final(self)@.sleepers == old(
                    self,
                )@.sleepers.drop_first()
            } else {
                woken is None && final(self)@.sleepers == old(self)@.sleepers
            },
    {
        let ghost before = *self;
        let mut queue = self.locals.remove(worker);
        match queue.push(item) {
            Ok(()) => {},
            Err(item) => {
                self.global.push(item);
            },
        }
        self.locals.insert(worker, queue);
        proof {
            assert forall|i: int| 0 <= i < self.locals@.len() implies (
            #[trigger] self.locals@[i]).wf() && self.limit_of(i) == before.limit_of(i) by {
                if i != worker {
                    assert(self.locals@[i] == before.locals@[i]);
                }
            }
            if before@.locals[worker as int].len() < before.limit_of(worker as int) {
                assert(self@.locals =~= before@.locals.update(
                    worker as int,
                    before@.locals[worker as int].push(item),
                ));
            } else {
                assert(self@.locals =~= before@.locals);
            }
        }
        if self.sleepers.len() > 0 {
            let woken = self.sleepers.remove(0);
            assert(self.sleepers@ =~= before@.sleepers.drop_first());
            Some(woken)
        } else {
            None
        }
    }

    fn swap_out(&mut self, worker: usize, queue: RunQueue<T>) -> (was: RunQueue<T>)
        requires
            old(self).wf(),
            queue.wf(),
            worker < old(self)@.locals.len(),
        ensures
            final(self).wf(),
            was.wf(),
            was == old(self).locals@[worker as int],
            final(self).locals@ == old(self).locals@.update(worker as int, queue),
            final(self)@.locals == old(self)@.locals.update(worker as int, queue@),
            final(self).global == old(self).global,
            final(self).sleepers == old(self).sleepers,
    {
        let was = self.locals.remove(worker);
        self.locals.insert(worker, queue);
        assert(self.locals@ =~= old(self).locals@.update(worker as int, queue));
        assert(self@.locals =~= old(self)@.locals.update(worker as int, queue@));
        assert forall|i: int| 0 <= i < self.locals@.len() implies (#[trigger] self.locals@[i]).wf(
        ) by {
            if i != worker {
                assert(self.locals@[i] == old(self).locals@[i]);
            }
        }
        was
    }

    /// What the worker does next. It runs what is at the front of its own
    /// queue. With nothing there it fills its queue from the shared one,
    /// oldest first, as far as there is room. With nothing there either
    /// it steals from the worker `victim`. With nothing to steal it
    /// parks.
    pub fn next(&mut self, worker: usize, victim: usize) -> (next: Next<T>)
        requires
            old(self).wf(),
            worker < old(self)@.locals.len(),
            victim < old(self)@.locals.len(),
        ensures
            final(self).wf(),
            final(self)@.locals.len() == old(self)@.locals.len(),
            forall|i: int|
                0 <= i < old(self)@.locals.len() ==> final(self).limit_of(i) == old(self).limit_of(
                    i,
                ),
            takes_next(
                old(self)@,
                old(self).limit_of(worker as int) as nat,
                worker as int,
                victim as int,
                final(self)@,
                next,
            ),
    {
        let ghost before = *self;
        let mut queue = self.swap_out(worker, RunQueue::with_capacity(1));
        let ghost limit = queue.limit();
        let ghost own = queue@;
        if queue.len() == 0 {
            if self.global.len() > 0 {
                let ghost held = self.locals@;
                let mut moved: usize = 0;
                while queue.len() < queue.capacity() && self.global.len() > 0
                    invariant
                        queue.wf(),
                        queue.limit() == limit,
                        self.locals@ == held,
                        self.sleepers == before.sleepers,
                        moved <= before.global@.len(),
                        moved <= limit,
                        queue@ == before.global@.subrange(0, moved as int),
                        self.global@ == before.global@.subrange(
                            moved as int,
                            before.global@.len() as int,
                        ),
                    decreases self.global@.len(),
                {
                    let item = self.global.remove(0);
                    match queue.push(item) {
                        Ok(()) => {},
                        Err(_) => {},
                    }
                    moved += 1;
                    assert(queue@ =~= before.global@.subrange(0, moved as int));
                    assert(self.global@ =~= before.global@.subrange(
                        moved as int,
                        before.global@.len() as int,
                    ));
                }
                assert(moved == refill(before.global@.len(), limit as nat));
            } else if victim != worker {
                let mut theirs = self.swap_out(victim, RunQueue::with_capacity(1));
                let _ = queue.steal(&mut theirs);
                let _ = self.swap_out(victim, theirs);
                assert(queue@ =~= before@.locals[victim as int].subrange(
                    before@.locals[victim as int].len() - batch(
                        before@.locals[victim as int].len(),
                        limit as nat,
                    ),
                    before@.locals[victim as int].len() as int,
                ));
            }
        } else {
            assert(self.global@ =~= self.global@.subrange(0, self.global@.len() as int));
        }
        let ghost filled = queue@;
        let next = match queue.pop() {
            Some(item) => Next::Run(item),
            None => {
                self.sleepers.push(worker);
                Next::Park
            },
        };
        let ghost mid = *self;
        let _ = self.swap_out(worker, queue);
        proof {
            assert forall|i: int| 0 <= i < before@.locals.len() implies self.limit_of(i)
                == before.limit_of(i) by {
                if i != worker && i != victim {
                    assert(self.locals@[i] == before.locals@[i]);
                }
            }
            assert forall|i: int|
                0 <= i < before@.locals.len() && i != worker && i != victim implies self@.locals[i]
                == before@.locals[i] by {
                assert(self.locals@[i] == before.locals@[i]);
            }
            if own.len() == 0 && before.global@.len() > 0 {
            } else {
                assert(before.global@.subrange(0, before.global@.len() as int) =~= before.global@);
                if own.len() == 0 {
                    assert(before.global@.subrange(0, 0) =~= before.global@);
                }
            }
        }
        next
    }
}

/// What `step` does to the queues when the worker `worker` asks what to
/// do next, with `victim` as the worker to steal from; `limit` is the
/// capacity of the worker's queue.
pub open spec fn takes_next<T>(
    pre: Queues<T>,
    limit: nat,
    worker: int,
    victim: int,
    post: Queues<T>,
    next: Next<T>,
) -> bool {
    let own = pre.locals[worker];
    // What is in the worker's queue before it takes from the front.
    let filled = if own.len() > 0 {
        own
    } else if pre.global.len() > 0 {
        pre.global.subrange(0, refill(pre.global.len(), limit) as int)
    } else if victim != worker {
        let theirs = pre.locals[victim];
        theirs.subrange(theirs.len() - batch(theirs.len(), limit), theirs.len() as int)
    } else {
        own
    };
    &&& post.locals.len() == pre.locals.len()
    &&& forall|i: int|
        0 <= i < pre.locals.len() && i != worker && i != victim ==> post.locals[i] == pre.locals[i]
    &&& post.global == if own.len() == 0 {
        pre.global.subrange(refill(pre.global.len(), limit) as int, pre.global.len() as int)
    } else {
        pre.global
    }
    &&& victim != worker ==> post.locals[victim] == if own.len() == 0 && pre.global.len() == 0 {
        let theirs = pre.locals[victim];
        theirs.subrange(0, theirs.len() - batch(theirs.len(), limit))
    } else {
        pre.locals[victim]
    }
    &&& if filled.len() > 0 {
        &&& next == Next::Run(filled[0])
        &&& post.locals[worker] == filled.drop_first()
        &&& post.sleepers == pre.sleepers
    } else {
        &&& next is Park
        &&& post.locals[worker] == filled
        &&& post.sleepers == pre.sleepers.push(worker as usize)
    }
}

/// How many processes a worker with an empty queue of the capacity
/// `limit` takes over from a shared queue of `len`.
pub open spec fn refill(len: nat, limit: nat) -> nat {
    if len <= limit {
        len
    } else {
        limit
    }
}

} // verus!
