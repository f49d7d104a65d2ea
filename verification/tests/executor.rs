use quip::lightproc::{LightProc, PollOutcome, ProcHook, ProcState, Resolution};
use quip::load_balancer::{get_least_busy_worker, BlockingPool};
use quip::run_queue::{round_up, Next, Pool, RunQueue};

#[test]
fn queue_is_first_in_first_out_and_bounded() {
    let mut queue = RunQueue::with_capacity(4);
    assert!(queue.is_empty());
    assert_eq!(queue.capacity(), 4);
    for pid in 0..4 {
        assert_eq!(queue.push(pid), Ok(()));
    }
    assert_eq!(queue.push(4), Err(4));
    assert_eq!(queue.len(), 4);
    assert_eq!(queue.pop(), Some(0));
    assert_eq!(queue.pop(), Some(1));
    assert_eq!(queue.push(5), Ok(()));
    assert_eq!(queue.pop(), Some(2));
    assert_eq!(queue.pop(), Some(3));
    assert_eq!(queue.pop(), Some(5));
    assert_eq!(queue.pop(), None);
}

#[test]
fn a_thief_takes_half_from_the_back() {
    let mut victim = RunQueue::with_capacity(8);
    for pid in 0..7 {
        victim.push(pid).unwrap();
    }
    let mut thief = RunQueue::with_capacity(8);
    thief.push(100).unwrap();
    assert_eq!(thief.steal(&mut victim), 4);
    assert_eq!(victim.len(), 3);
    let mut left = vec![];
    while let Some(pid) = victim.pop() {
        left.push(pid);
    }
    assert_eq!(left, vec![0, 1, 2]);
    let mut got = vec![];
    while let Some(pid) = thief.pop() {
        got.push(pid);
    }
    assert_eq!(got, vec![100, 3, 4, 5, 6]);
}

#[test]
fn a_thief_takes_no_more_than_it_has_room_for() {
    let mut victim = RunQueue::with_capacity(8);
    for pid in 0..8 {
        victim.push(pid).unwrap();
    }
    let mut thief = RunQueue::with_capacity(2);
    thief.push(100).unwrap();
    assert_eq!(thief.steal(&mut victim), 1);
    assert_eq!(victim.len(), 7);
    assert_eq!(thief.len(), 2);
    assert_eq!(thief.steal(&mut victim), 0);
    let mut empty: RunQueue<u32> = RunQueue::with_capacity(1);
    let mut thief: RunQueue<u32> = RunQueue::with_capacity(4);
    assert_eq!(thief.steal(&mut empty), 0);
    let mut one = RunQueue::with_capacity(1);
    one.push(7).unwrap();
    assert_eq!(thief.steal(&mut one), 1);
    assert_eq!(thief.pop(), Some(7));
}

#[test]
fn capacities_are_powers_of_two() {
    assert_eq!(round_up(0), Some(1));
    assert_eq!(round_up(1), Some(1));
    assert_eq!(round_up(2), Some(2));
    assert_eq!(round_up(3), Some(4));
    assert_eq!(round_up(1000), Some(1024));
    assert_eq!(round_up(1024), Some(1024));
    assert_eq!(round_up(usize::MAX / 2 + 1), Some(usize::MAX / 2 + 1));
    assert_eq!(round_up(usize::MAX), None);
}

#[test]
fn overflow_goes_to_the_shared_queue() {
    let mut pool: Pool<u32> = Pool::new(2, 2);
    assert_eq!(pool.workers(), 2);
    for pid in 0..5 {
        assert_eq!(pool.schedule(0, pid), None);
    }
    assert_eq!(pool.load(0), 2);
    assert_eq!(pool.load(1), 0);
    assert_eq!(pool.overflow(), 3);

    // Worker 0 runs its own first, then refills from the shared queue.
    let mut ran = vec![];
    for _ in 0..5 {
        match pool.next(0, 1) {
            Next::Run(pid) => ran.push(pid),
            Next::Park => panic!(),
        }
    }
    assert_eq!(ran, vec![0, 1, 2, 3, 4]);
    assert!(matches!(pool.next(0, 1), Next::Park));
}

#[test]
fn an_idle_worker_steals_and_then_parks() {
    let mut pool: Pool<u32> = Pool::new(3, 8);
    for pid in 0..6 {
        pool.schedule(0, pid);
    }
    // Worker 1 steals the later half of worker 0's queue.
    assert!(matches!(pool.next(1, 0), Next::Run(3)));
    assert_eq!(pool.load(0), 3);
    assert_eq!(pool.load(1), 2);
    // Worker 2 finds nothing at worker 2 itself and parks.
    assert!(matches!(pool.next(2, 2), Next::Park));
    // A worker that parked is woken by the next process that is scheduled.
    assert_eq!(pool.schedule(0, 6), Some(2));
    assert_eq!(pool.schedule(0, 7), None);
    // Nothing is lost and nothing is doubled.
    let mut all = vec![3];
    for (worker, victim) in [(0, 1), (1, 0), (2, 0)] {
        while let Next::Run(pid) = pool.next(worker, victim) {
            all.push(pid);
        }
    }
    all.sort();
    assert_eq!(all, (0..8).collect::<Vec<u32>>());
}

#[test]
fn workers_are_woken_in_the_order_in_which_they_parked() {
    let mut pool: Pool<u32> = Pool::new(3, 2);
    assert!(matches!(pool.next(2, 0), Next::Park));
    assert!(matches!(pool.next(1, 0), Next::Park));
    assert_eq!(pool.schedule(0, 1), Some(2));
    assert_eq!(pool.schedule(0, 2), Some(1));
    assert_eq!(pool.schedule(0, 3), None);
}

#[test]
fn least_busy_worker_is_the_first_with_the_least_load() {
    assert_eq!(get_least_busy_worker(&vec![]), None);
    assert_eq!(get_least_busy_worker(&vec![5]), Some(0));
    assert_eq!(get_least_busy_worker(&vec![3, 1, 2]), Some(1));
    assert_eq!(get_least_busy_worker(&vec![2, 1, 1, 0, 0]), Some(3));
    assert_eq!(get_least_busy_worker(&vec![4, 4, 4]), Some(0));
}

#[test]
fn blocking_pool_grows_with_the_submissions_within_its_bounds() {
    let pool = BlockingPool { min: 2, max: 8, per_thread: 10, idle_timeout: 1_000 };
    assert_eq!(pool.to_spawn(0, 0), 2);
    assert_eq!(pool.to_spawn(2, 0), 0);
    assert_eq!(pool.to_spawn(2, 20), 0);
    assert_eq!(pool.to_spawn(2, 21), 1);
    assert_eq!(pool.to_spawn(2, 45), 3);
    assert_eq!(pool.to_spawn(2, 1_000_000), 6);
    assert_eq!(pool.to_spawn(8, usize::MAX), 0);
    assert_eq!(pool.to_spawn(3, 10), 0);
    let one = BlockingPool { min: 0, max: usize::MAX, per_thread: 1, idle_timeout: 0 };
    assert_eq!(one.to_spawn(0, usize::MAX), usize::MAX);
}

#[test]
fn idle_threads_exit_down_to_the_minimum() {
    let pool = BlockingPool { min: 2, max: 8, per_thread: 10, idle_timeout: 1_000 };
    assert!(!pool.should_exit(5, 999));
    assert!(pool.should_exit(5, 1_000));
    assert!(pool.should_exit(3, 5_000));
    assert!(!pool.should_exit(2, 5_000));
}

#[test]
fn process_completes() {
    let mut p = LightProc::build(12);
    assert_eq!(p.pid(), 12);
    assert_eq!(p.handle(), Resolution::Unresolved);
    // Not in a queue yet: nothing is polled.
    assert_eq!(p.run(), (false, None));
    assert!(p.schedule());
    assert_eq!(p.run(), (true, Some(ProcHook::BeforeStart)));
    assert_eq!(p.polled(PollOutcome::Pending), None);
    assert_eq!(p.state, ProcState::Parked);
    assert_eq!(p.run(), (false, None));
    assert!(p.schedule());
    assert!(!p.schedule());
    // The second run does not call `before_start` again.
    assert_eq!(p.run(), (true, None));
    assert_eq!(p.polled(PollOutcome::Ready), Some(ProcHook::AfterComplete));
    assert_eq!(p.handle(), Resolution::Value);
    assert_eq!(p.polled(PollOutcome::Panicked), None);
    assert!(!p.schedule());
    p.cancel();
    assert_eq!(p.handle(), Resolution::Value);
}

#[test]
fn a_panic_resolves_the_handle_to_nothing() {
    let mut p = LightProc::build(1);
    p.schedule();
    assert_eq!(p.run(), (true, Some(ProcHook::BeforeStart)));
    assert_eq!(p.polled(PollOutcome::Panicked), Some(ProcHook::AfterPanic));
    assert_eq!(p.state, ProcState::Panicked);
    assert_eq!(p.handle(), Resolution::Cancelled);
    assert_eq!(p.polled(PollOutcome::Panicked), None);
    assert_eq!(p.run(), (false, None));
}

#[test]
fn a_cancelled_process_does_not_run() {
    let mut p = LightProc::build(1);
    p.schedule();
    p.cancel();
    assert_eq!(p.state, ProcState::Cancelled);
    assert_eq!(p.run(), (false, None));
    assert_eq!(p.polled(PollOutcome::Ready), None);
    assert_eq!(p.handle(), Resolution::Cancelled);

    let mut p = LightProc::build(2);
    p.schedule();
    p.run();
    p.cancel();
    assert_eq!(p.polled(PollOutcome::Ready), None);
    assert_eq!(p.handle(), Resolution::Cancelled);
}
