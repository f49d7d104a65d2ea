//! Balancing load: which worker gets the next process, and how many
//! threads the pool for blocking work keeps.

use vstd::prelude::*;

verus! {

/// Whether `at` is the place of the least of `loads`, the first where
/// several are least.
pub open spec fn is_least_busy(loads: Seq<usize>, at: int) -> bool {
    &&& 0 <= at < loads.len()
    &&& forall|i: int| 0 <= i < loads.len() ==> loads[at] <= #[trigger] loads[i]
    &&& forall|i: int| 0 <= i < at ==> loads[at] < #[trigger] loads[i]
}

/// The worker with the fewest processes in its queue; the first of them
/// where several have as few. `None` where there is no worker.
pub fn get_least_busy_worker(loads: &Vec<usize>) -> (worker: Option<usize>)
    ensures
        loads@.len() == 0 ==> worker is None,
        loads@.len() > 0 ==> worker is Some && is_least_busy(loads@, worker->0 as int),
{
    if loads.len() == 0 {
        return None;
    }
    let mut best: usize = 0;
    let mut i: usize = 1;
    while i < loads.len()
        invariant
            1 <= i <= loads.len(),
            best < i,
            forall|j: int| 0 <= j < i ==> loads@[best as int] <= #[trigger] loads@[j],
            forall|j: int| 0 <= j < best ==> loads@[best as int] < #[trigger] loads@[j],
        decreases loads.len() - i,
    {
        if loads[i] < loads[best] {
            best = i;
        }
        i += 1;
    }
    Some(best)
}

/// The bounds of the pool for blocking work and what one of its threads
/// is taken to handle.
#[derive(Clone, Copy, Debug, PartialEq, Eq, Structural)]
pub struct BlockingPool {
    /// The least number of threads.
    pub min: usize,
    /// The greatest number of threads.
    pub max: usize,
    /// How many submissions within one window one thread is taken to
    /// handle; at least one.
    pub per_thread: usize,
    /// How long a thread may be idle before it exits, in milliseconds.
    pub idle_timeout: u64,
}

/// The number of threads that `submitted` submissions within one window
/// call for: one for every `per_thread` of them, began or full, but
/// neither fewer than `min` nor more than `max`.
pub open spec fn threads_wanted(pool: BlockingPool, submitted: nat) -> nat {
    let needed = (submitted + pool.per_thread - 1) / (pool.per_thread as int);
    if needed < pool.min {
        pool.min as nat
    } else if needed > pool.max {
        pool.max as nat
    } else {
        needed as nat
    }
}

impl BlockingPool {
    /// Whether the bounds are in order and a thread handles at least one
    /// submission.
    pub open spec fn wf(&self) -> bool {
        self.min <= self.max && self.per_thread >= 1
    }

    /// How many threads are to be spawned when `threads` run and
    /// `submitted` submissions came within the window: as many as are
    /// missing to those that are called for.
    pub fn to_spawn(&self, threads: usize, submitted: usize) -> (n: usize)
        requires
            self.wf(),
        ensures
            n == if threads_wanted(*self, submitted as nat) > threads {
                threads_wanted(*self, submitted as nat) - threads
            } else {
                0
            },
            threads <= self.max ==> threads + n <= self.max,
    {
        let full = submitted / self.per_thread;
        let needed = if submitted % self.per_thread == 0 {
            full
        } else {
            assert(full < submitted) by (nonlinear_arith)
                requires
                    self.per_thread >= 1,
                    full == submitted / self.per_thread,
                    submitted % self.per_thread != 0,
            ;
            full + 1
        };
        assert(needed == (submitted + self.per_thread - 1) / (self.per_thread as int)) by (
            nonlinear_arith)
            requires
                self.per_thread >= 1,
                full == submitted / self.per_thread,
                needed == if submitted % self.per_thread == 0 {
                    full as int
                } else {
                    full + 1
                },
        ;
        let wanted = if needed < self.min {
            self.min
        } else if needed > self.max {
            self.max
        } else {
            needed
        };
        if wanted > threads {
            wanted - threads
        } else {
            0
        }
    }

    /// Whether a thread that has been idle for `idle_for` milliseconds
    /// exits: it does when it has been idle for the timeout and more
    /// threads run than the least number.
    pub fn should_exit(&self, threads: usize, idle_for: u64) -> (b: bool)
        ensures
            b == (idle_for >= self.idle_timeout && threads > self.min),
    {
        idle_for >= self.idle_timeout && threads > self.min
    }
}

} // verus!
