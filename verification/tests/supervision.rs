use quip::id::QuipId;
use quip::restart::{ActorRestartStrategy, RestartTracker};
use quip::supervisor::{RestartPolicy, SupervisionStrategy};

fn ids(values: &[u128]) -> Vec<QuipId> {
    values.iter().map(|v| QuipId::from_u128(*v)).collect()
}

#[test]
fn one_for_one_restarts_only_the_failed() {
    let order = ids(&[1, 2, 3, 4]);
    assert_eq!(
        SupervisionStrategy::OneForOne.to_restart(&order, &QuipId::from_u128(2)),
        ids(&[2])
    );
}

#[test]
fn one_for_all_restarts_everyone_in_order() {
    let order = ids(&[1, 2, 3, 4]);
    assert_eq!(
        SupervisionStrategy::OneForAll.to_restart(&order, &QuipId::from_u128(3)),
        ids(&[1, 2, 3, 4])
    );
}

#[test]
fn rest_for_one_restarts_the_failed_and_the_later_ones() {
    let order = ids(&[1, 2, 3, 4]);
    assert_eq!(
        SupervisionStrategy::RestForOne.to_restart(&order, &QuipId::from_u128(2)),
        ids(&[2, 3, 4])
    );
    assert_eq!(
        SupervisionStrategy::RestForOne.to_restart(&order, &QuipId::from_u128(4)),
        ids(&[4])
    );
    assert_eq!(
        SupervisionStrategy::RestForOne.to_restart(&order, &QuipId::from_u128(1)),
        ids(&[1, 2, 3, 4])
    );
}

#[test]
fn a_stranger_restarts_nobody() {
    let order = ids(&[1, 2, 3]);
    for strategy in [
        SupervisionStrategy::OneForOne,
        SupervisionStrategy::OneForAll,
        SupervisionStrategy::RestForOne,
    ] {
        assert!(strategy.to_restart(&order, &QuipId::from_u128(9)).is_empty());
        assert!(strategy.to_restart(&vec![], &QuipId::from_u128(9)).is_empty());
    }
}

#[test]
fn policies_say_whether_to_restart() {
    assert!(RestartPolicy::Always.may_restart(0));
    assert!(RestartPolicy::Always.may_restart(usize::MAX));
    assert!(!RestartPolicy::Never.may_restart(0));
    assert!(RestartPolicy::Tries(3).may_restart(2));
    assert!(!RestartPolicy::Tries(3).may_restart(3));
    assert!(!RestartPolicy::Tries(0).may_restart(0));
}

#[test]
fn tries_grants_at_most_max_restarts() {
    for max in 0..6usize {
        let mut tracker = RestartTracker::new(RestartPolicy::Tries(max), None, 0);
        let mut granted = 0;
        for now in 0..20u64 {
            if tracker.try_restart(now) {
                granted += 1;
            }
            assert!(tracker.restarts() <= max);
        }
        assert_eq!(granted, max);
        assert_eq!(tracker.restarts(), max);
    }
}

#[test]
fn tries_counts_within_the_window() {
    let mut tracker = RestartTracker::new(RestartPolicy::Tries(2), Some(100), 1_000);
    assert!(tracker.try_restart(1_000));
    assert!(tracker.try_restart(1_050));
    assert!(!tracker.try_restart(1_099));
    assert_eq!(tracker.restarts(), 2);
    assert_eq!(tracker.counted_at(1_099), 2);
    assert_eq!(tracker.counted_at(1_100), 0);
    // The window is over: a new one opens.
    assert!(tracker.try_restart(1_100));
    assert_eq!(tracker.restarts(), 1);
    assert!(tracker.try_restart(1_199));
    assert!(!tracker.try_restart(1_199));
    // Time that runs backwards opens no window.
    assert!(!tracker.try_restart(5));
}

#[test]
fn always_and_never() {
    let mut always = RestartTracker::new(RestartPolicy::Always, Some(10), 0);
    let mut never = RestartTracker::new(RestartPolicy::Never, None, 0);
    for now in 0..100 {
        assert!(always.try_restart(now));
        assert!(!never.try_restart(now));
    }
    assert_eq!(always.restarts(), 0);
    assert_eq!(never.restarts(), 0);
}

#[test]
fn immediate_restarts_do_not_wait() {
    assert_eq!(ActorRestartStrategy::Immediate.calculate(0), None);
    assert_eq!(ActorRestartStrategy::Immediate.calculate(1_000), None);
}

#[test]
fn linear_back_off() {
    let linear = ActorRestartStrategy::LinearBackOff { timeout: 250 };
    assert_eq!(linear.calculate(0), Some(250));
    assert_eq!(linear.calculate(1), Some(500));
    assert_eq!(linear.calculate(9), Some(2_500));
    let huge = ActorRestartStrategy::LinearBackOff { timeout: u64::MAX / 2 };
    assert_eq!(huge.calculate(0), Some(u64::MAX / 2));
    assert_eq!(huge.calculate(1), Some(u64::MAX - 1));
    assert_eq!(huge.calculate(2), Some(u64::MAX));
    assert_eq!(
        ActorRestartStrategy::LinearBackOff { timeout: 0 }.calculate(usize::MAX),
        Some(0)
    );
}

#[test]
fn exponential_back_off() {
    let exp = ActorRestartStrategy::ExponentialBackOff { timeout: 100, multiplier: 3 };
    assert_eq!(exp.calculate(0), Some(100));
    assert_eq!(exp.calculate(1), Some(300));
    assert_eq!(exp.calculate(2), Some(900));
    assert_eq!(exp.calculate(5), Some(24_300));
    assert_eq!(exp.calculate(1_000), Some(u64::MAX));
    assert_eq!(exp.calculate(usize::MAX), Some(u64::MAX));

    let flat = ActorRestartStrategy::ExponentialBackOff { timeout: 100, multiplier: 1 };
    assert_eq!(flat.calculate(usize::MAX), Some(100));
    let zero = ActorRestartStrategy::ExponentialBackOff { timeout: 100, multiplier: 0 };
    assert_eq!(zero.calculate(0), Some(100));
    assert_eq!(zero.calculate(1), Some(0));
    let none = ActorRestartStrategy::ExponentialBackOff { timeout: 0, multiplier: 7 };
    assert_eq!(none.calculate(usize::MAX), Some(0));
    let two = ActorRestartStrategy::ExponentialBackOff { timeout: 1, multiplier: 2 };
    assert_eq!(two.calculate(63), Some(1 << 63));
    assert_eq!(two.calculate(64), Some(u64::MAX));
}
