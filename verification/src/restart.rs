//! The rules of supervision: which elements a supervisor restarts when
//! one terminates, how often it restarts an element, and how long it
//! waits before it does.

use crate::id::QuipId;
use crate::supervisor::{RestartPolicy, SupervisionStrategy};
use vstd::prelude::*;

verus! {

/// The place of the first `id` in `order`; the length of `order` where
/// there is none.
pub open spec fn place_of(order: Seq<QuipId>, id: QuipId) -> int
    decreases order.len(),
{
    if order.len() == 0 {
        0
    } else if order[0] == id {
        0
    } else {
        1 + place_of(order.drop_first(), id)
    }
}

/// The place of the first `id` is the first place that holds `id`.
pub proof fn lemma_place_of(order: Seq<QuipId>, id: QuipId, at: int)
    requires
        0 <= at <= order.len(),
        forall|j: int| 0 <= j < at ==> order[j] != id,
        at < order.len() ==> order[at] == id,
    ensures
        place_of(order, id) == at,
    decreases order.len(),
{
    if order.len() > 0 && at > 0 {
        let rest = order.drop_first();
        assert forall|j: int| 0 <= j < at - 1 implies rest[j] != id by {
            assert(rest[j] == order[j + 1]);
        }
        lemma_place_of(rest, id, at - 1);
    }
}

/// The elements a supervisor stops and restarts when `failed`
/// terminates, in the order in which they are restarted. `order` lists the
/// supervised elements in the order of their registration. Where `failed`
/// is not among them there is nothing to restart.
pub open spec fn affected(strategy: SupervisionStrategy, order: Seq<QuipId>, failed: QuipId) -> Seq<
    QuipId,
> {
    let at = place_of(order, failed);
    if at >= order.len() {
        Seq::empty()
    } else {
        match strategy {
            SupervisionStrategy::OneForOne => seq![failed],
            SupervisionStrategy::OneForAll => order,
            SupervisionStrategy::RestForOne => order.subrange(at, order.len() as int),
        }
    }
}

impl SupervisionStrategy {
    /// The elements to stop and restart when `failed` terminates: only
    /// `failed`, or every element, or `failed` and those registered after
    /// it.
    pub fn to_restart(&self, order: &Vec<QuipId>, failed: &QuipId) -> (ids: Vec<QuipId>)
        ensures
            ids@ == affected(*self, order@, *failed),
    {
        let mut at: usize = 0;
        while at < order.len() && order[at].0 != failed.0
            invariant
                at <= order.len(),
                forall|j: int| 0 <= j < at ==> order@[j] != *failed,
            decreases order.len() - at,
        {
            at += 1;
        }
        proof {
            lemma_place_of(order@, *failed, at as int);
        }
        let mut ids: Vec<QuipId> = Vec::new();
        if at >= order.len() {
            return ids;
        }
        match self {
            SupervisionStrategy::OneForOne => {
                ids.push(*failed);
                assert(ids@ =~= seq![*failed]);
            },
            SupervisionStrategy::OneForAll => {
                let mut i: usize = 0;
                while i < order.len()
                    invariant
                        i <= order.len(),
                        ids@ == order@.subrange(0, i as int),
                    decreases order.len() - i,
                {
                    ids.push(order[i]);
                    i += 1;
                    assert(ids@ =~= order@.subrange(0, i as int));
                }
                assert(order@.subrange(0, order@.len() as int) == order@);
            },
            SupervisionStrategy::RestForOne => {
                let mut i: usize = at;
                assert(ids@ =~= order@.subrange(at as int, at as int));
                while i < order.len()
                    invariant
                        at <= i <= order.len(),
                        ids@ == order@.subrange(at as int, i as int),
                    decreases order.len() - i,
                {
                    ids.push(order[i]);
                    i += 1;
                    assert(ids@ =~= order@.subrange(at as int, i as int));
                }
            },
        }
        ids
    }
}

impl RestartPolicy {
    /// Whether an element that was restarted `restarts` times already is
    /// restarted once more.
    pub open spec fn allows(self, restarts: nat) -> bool {
        match self {
            RestartPolicy::Always => true,
            RestartPolicy::Never => false,
            RestartPolicy::Tries(max) => restarts < max,
        }
    }

    /// Whether an element that was restarted `restarts` times already is
    /// restarted once more.
    pub fn may_restart(&self, restarts: usize) -> (b: bool)
        ensures
            b == self.allows(restarts as nat),
    {
        match self {
            RestartPolicy::Always => true,
            RestartPolicy::Never => false,
            RestartPolicy::Tries(max) => restarts < *max,
        }
    }
}

/// What a supervisor remembers of the restarts of one element.
pub struct Restarts {
    /// The policy.
    pub policy: RestartPolicy,
    /// The length of the window in which restarts are counted; `None`:
    /// they are counted for ever.
    pub window: Option<u64>,
    /// When the window was opened.
    pub opened: u64,
    /// The restarts granted in the window, as far as the policy counts
    /// them.
    pub restarts: nat,
}

/// Whether at `now` the window of `s` is over, so that a new one opens.
pub open spec fn window_over(s: Restarts, now: u64) -> bool {
    s.window is Some && now >= s.opened && now - s.opened >= s.window->0
}

/// What is remembered at `now` before the request is looked at: where the
/// window is over, a new one opens at `now` with nothing counted.
pub open spec fn at_time(s: Restarts, now: u64) -> Restarts {
    if window_over(s, now) {
        Restarts { opened: now, restarts: 0, ..s }
    } else {
        s
    }
}

/// Whether a restart asked for at `now` is granted.
pub open spec fn grants(s: Restarts, now: u64) -> bool {
    s.policy.allows(at_time(s, now).restarts)
}

/// What is remembered after a restart was asked for at `now`. Only a
/// policy with a limit counts.
pub open spec fn after_request(s: Restarts, now: u64) -> Restarts {
    let t = at_time(s, now);
    if s.policy is Tries && grants(s, now) {
        Restarts { restarts: t.restarts + 1, ..t }
    } else {
        t
    }
}

/// How many of the restarts asked for at `times`, one after the other,
/// are granted.
pub open spec fn granted(s: Restarts, times: Seq<u64>) -> nat
    decreases times.len(),
{
    if times.len() == 0 {
        0
    } else {
        (if grants(s, times[0]) {
            1nat
        } else {
            0nat
        }) + granted(after_request(s, times[0]), times.drop_first())
    }
}

/// With a limit of `max`, the restarts granted within one window,
/// together with those already counted in it, are at most `max`.
pub proof fn lemma_restarts_bounded(s: Restarts, times: Seq<u64>, max: usize)
    requires
        s.policy == RestartPolicy::Tries(max),
        s.restarts <= max,
        forall|i: int| 0 <= i < times.len() ==> !window_over(s, #[trigger] times[i]),
    ensures
        s.restarts + granted(s, times) <= max,
    decreases times.len(),
{
    if times.len() > 0 {
        let next = after_request(s, times[0]);
        assert(!window_over(s, times[0]));
        assert forall|i: int| 0 <= i < times.drop_first().len() implies !window_over(
            next,
            #[trigger] times.drop_first()[i],
        ) by {
            assert(times.drop_first()[i] == times[i + 1]);
            assert(!window_over(s, times[i + 1]));
        }
        lemma_restarts_bounded(next, times.drop_first(), max);
    }
}

/// Under the policy that never restarts, nothing is ever granted.
pub proof fn lemma_never_restarts(s: Restarts, times: Seq<u64>)
    requires
        s.policy == RestartPolicy::Never,
    ensures
        granted(s, times) == 0,
    decreases times.len(),
{
    if times.len() > 0 {
        lemma_never_restarts(after_request(s, times[0]), times.drop_first());
    }
}

/// Under the policy that always restarts, everything is granted.
pub proof fn lemma_always_restarts(s: Restarts, times: Seq<u64>)
    requires
        s.policy == RestartPolicy::Always,
    ensures
        granted(s, times) == times.len(),
    decreases times.len(),
{
    if times.len() > 0 {
        lemma_always_restarts(after_request(s, times[0]), times.drop_first());
    }
}

/// The count of the restarts of one element, as a supervisor keeps it.
#[derive(Clone, Copy, Debug)]
pub struct RestartTracker {
    policy: RestartPolicy,
    window: Option<u64>,
    opened: u64,
    restarts: usize,
}

impl View for RestartTracker {
    type V = Restarts;

    closed spec fn view(&self) -> Restarts {
        Restarts {
            policy: self.policy,
            window: self.window,
            opened: self.opened,
            restarts: self.restarts as nat,
        }
    }
}

impl RestartTracker {
    #[verifier::type_invariant]
    spec fn inv(&self) -> bool {
        match self.policy {
            RestartPolicy::Tries(max) => self.restarts <= max,
            _ => self.restarts == 0,
        }
    }

    /// A tracker for an element that was not yet restarted. The window,
    /// if there is one, opens at `now`.
    pub fn new(policy: RestartPolicy, window: Option<u64>, now: u64) -> (tracker: Self)
        ensures
            tracker@ == (Restarts { policy, window, opened: now, restarts: 0 }),
    {
        RestartTracker { policy, window, opened: now, restarts: 0 }
    }

    /// How many restarts were granted in the window. Under a policy with
    /// a limit they are never more than the limit.
    pub fn restarts(&self) -> (n: usize)
        ensures
            n == self@.restarts,
            self@.policy is Tries ==> n <= self@.policy->Tries_0,
    {
        proof {
            use_type_invariant(self);
        }
        self.restarts
    }

    /// How many restarts count at the time `now`, before any that is
    /// asked for then: none where the window is over.
    pub fn counted_at(&self, now: u64) -> (n: usize)
        ensures
            n == at_time(self@, now).restarts,
    {
        let over = match self.window {
            Some(w) => now >= self.opened && now - self.opened >= w,
            None => false,
        };
        if over {
            0
        } else {
            self.restarts
        }
    }

    /// Asks for one more restart at the time `now`; says whether it is
    /// granted.
    pub fn try_restart(&mut self, now: u64) -> (granted: bool)
        ensures
            granted == grants(old(self)@, now),
            final(self)@ == after_request(old(self)@, now),
    {
        proof {
            use_type_invariant(&*self);
        }
        let over = match self.window {
            Some(w) => now >= self.opened && now - self.opened >= w,
            None => false,
        };
        let (opened, counted) = if over {
            (now, 0)
        } else {
            (self.opened, self.restarts)
        };
        let granted = self.policy.may_restart(counted);
        let counted = match self.policy {
            RestartPolicy::Tries(_) => if granted {
                counted + 1
            } else {
                counted
            },
            _ => counted,
        };
        *self = RestartTracker {
            policy: self.policy,
            window: self.window,
            opened,
            restarts: counted,
        };
        granted
    }
}

/// How long a supervisor waits before it restarts an element.
#[derive(Clone, Copy, Debug, PartialEq, Eq, Structural)]
pub enum ActorRestartStrategy {
    /// Not at all.
    Immediate,
    /// Longer by `timeout` milliseconds with every restart.
    LinearBackOff { timeout: u64 },
    /// `multiplier` times as long with every restart, `timeout`
    /// milliseconds at first.
    ExponentialBackOff { timeout: u64, multiplier: u64 },
}

/// `base` multiplied `n` times by `multiplier`.
pub open spec fn scaled(base: nat, multiplier: nat, n: nat) -> nat
    decreases n,
{
    if n == 0 {
        base
    } else {
        scaled(base, multiplier, (n - 1) as nat) * multiplier
    }
}

/// `x`, but no more than the largest `u64`.
pub open spec fn capped(x: nat) -> u64 {
    if x > u64::MAX {
        u64::MAX
    } else {
        x as u64
    }
}

/// The wait in milliseconds before an element is restarted that was
/// restarted `restarts` times already; no more than the largest `u64`.
pub open spec fn back_off(strategy: ActorRestartStrategy, restarts: nat) -> Option<u64> {
    match strategy {
        ActorRestartStrategy::Immediate => None,
        ActorRestartStrategy::LinearBackOff { timeout } => Some(
            capped((timeout * (restarts + 1)) as nat),
        ),
        ActorRestartStrategy::ExponentialBackOff { timeout, multiplier } => Some(
            capped(scaled(timeout as nat, multiplier as nat, restarts)),
        ),
    }
}

proof fn lemma_scaled_grows(base: nat, multiplier: nat, i: nat, n: nat)
    requires
        multiplier >= 1,
        i <= n,
    ensures
        scaled(base, multiplier, i) <= scaled(base, multiplier, n),
    decreases n,
{
    if i < n {
        lemma_scaled_grows(base, multiplier, i, (n - 1) as nat);
        let before = scaled(base, multiplier, (n - 1) as nat);
        assert(before * multiplier >= before) by (nonlinear_arith)
            requires
                multiplier >= 1,
        ;
    }
}

proof fn lemma_scaled_trivial(base: nat, multiplier: nat, n: nat)
    ensures
        base == 0 ==> scaled(base, multiplier, n) == 0,
        multiplier == 0 && n > 0 ==> scaled(base, multiplier, n) == 0,
        multiplier == 1 ==> scaled(base, multiplier, n) == base,
    decreases n,
{
    if n > 0 {
        lemma_scaled_trivial(base, multiplier, (n - 1) as nat);
        let before = scaled(base, multiplier, (n - 1) as nat);
        assert(before == 0 ==> before * multiplier == 0) by (nonlinear_arith);
        assert(multiplier == 0 ==> before * multiplier == 0) by (nonlinear_arith);
        assert(multiplier == 1 ==> before * multiplier == before) by (nonlinear_arith);
    }
}

impl ActorRestartStrategy {
    /// The wait in milliseconds before an element is restarted that was
    /// restarted `restarts_count` times already; `None` where it is
    /// restarted at once.
    pub fn calculate(&self, restarts_count: usize) -> (wait: Option<u64>)
        ensures
            wait == back_off(*self, restarts_count as nat),
    {
        match self {
            ActorRestartStrategy::Immediate => None,
            ActorRestartStrategy::LinearBackOff { timeout } => {
                let timeout: u64 = *timeout;
                let factor: u128 = restarts_count as u128 + 1;
                assert(timeout as u128 * factor <= u128::MAX) by (nonlinear_arith)
                    requires
                        timeout <= u64::MAX,
                        factor <= u64::MAX + 1,
                ;
                let exact: u128 = timeout as u128 * factor;
                if exact > u64::MAX as u128 {
                    Some(u64::MAX)
                } else {
                    Some(exact as u64)
                }
            },
            ActorRestartStrategy::ExponentialBackOff { timeout, multiplier } => {
                let timeout: u64 = *timeout;
                let multiplier: u64 = *multiplier;
                proof {
                    lemma_scaled_trivial(timeout as nat, multiplier as nat, restarts_count as nat);
                }
                if restarts_count == 0 || multiplier == 1 {
                    return Some(timeout);
                }
                if timeout == 0 || multiplier == 0 {
                    return Some(0);
                }
                let mut wait: u64 = timeout;
                let mut i: usize = 0;
                while i < restarts_count
                    invariant
                        i <= restarts_count,
                        multiplier >= 2,
                        *self == (ActorRestartStrategy::ExponentialBackOff { timeout, multiplier }),
                        wait == scaled(timeout as nat, multiplier as nat, i as nat),
                    decreases restarts_count - i,
                {
                    let ghost next = scaled(timeout as nat, multiplier as nat, (i + 1) as nat);
                    assert(next == wait * multiplier);
                    if wait > u64::MAX / multiplier {
                        proof {
                            assert(wait * multiplier > u64::MAX) by (nonlinear_arith)
                                requires
                                    wait > u64::MAX / multiplier,
                                    multiplier >= 2,
                            ;
                            lemma_scaled_grows(
                                timeout as nat,
                                multiplier as nat,
                                (i + 1) as nat,
                                restarts_count as nat,
                            );
                        }
                        return Some(u64::MAX);
                    }
                    assert(wait * multiplier <= u64::MAX) by (nonlinear_arith)
                        requires
                            wait <= u64::MAX / multiplier,
                            multiplier >= 2,
                    ;
                    wait = wait * multiplier;
                    i += 1;
                }
                Some(wait)
            },
        }
    }
}

} // verus!
