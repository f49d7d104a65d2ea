//! Lightweight processes: one unit of cooperatively scheduled work, with
//! the hooks that are called around it.
//!
//! Whoever drives a process asks it what to do before it polls the body,
//! and tells it how the poll ended.

use vstd::prelude::*;

verus! {

/// Where a process stands in its life.
#[derive(Clone, Copy, Debug, PartialEq, Eq, Structural)]
pub enum ProcState {
    /// Made, not yet put into a queue.
    Constructed,
    /// In a queue, ready to run.
    Scheduled,
    /// Its body is being polled.
    Running,
    /// It waits to be woken.
    Parked,
    /// Its body returned.
    Completed,
    /// Its body panicked.
    Panicked,
    /// It was cancelled.
    Cancelled,
}

/// The hooks of a process.
#[derive(Clone, Copy, Debug, PartialEq, Eq, Structural)]
pub enum ProcHook {
    BeforeStart,
    AfterComplete,
    AfterPanic,
}

/// How a poll of the body ended.
#[derive(Clone, Copy, Debug, PartialEq, Eq, Structural)]
pub enum PollOutcome {
    /// The body waits for something.
    Pending,
    /// The body returned.
    Ready,
    /// The body panicked.
    Panicked,
}

/// What the handle of a process resolves to.
#[derive(Clone, Copy, Debug, PartialEq, Eq, Structural)]
pub enum Resolution {
    /// Nothing yet.
    Unresolved,
    /// The value the body returned.
    Value,
    /// Nothing: the process panicked or was cancelled.
    Cancelled,
}

/// A process, as far as its life is concerned.
#[derive(Clone, Copy, Debug, PartialEq, Eq, Structural)]
pub struct LightProc {
    pub pid: usize,
    pub state: ProcState,
    /// Whether the body was polled already.
    pub polled: bool,
}

/// Whether the process is at its end.
pub open spec fn is_done(state: ProcState) -> bool {
    state is Completed || state is Panicked || state is Cancelled
}

/// The state after a poll that ended with `outcome`.
pub open spec fn after_poll(outcome: PollOutcome) -> ProcState {
    match outcome {
        PollOutcome::Pending => ProcState::Parked,
        PollOutcome::Ready => ProcState::Completed,
        PollOutcome::Panicked => ProcState::Panicked,
    }
}

/// The hook that is called after a poll that ended with `outcome`.
pub open spec fn hook_after(outcome: PollOutcome) -> Option<ProcHook> {
    match outcome {
        PollOutcome::Pending => None,
        PollOutcome::Ready => Some(ProcHook::AfterComplete),
        PollOutcome::Panicked => Some(ProcHook::AfterPanic),
    }
}

/// What the handle resolves to once the process is in the state.
pub open spec fn resolution(state: ProcState) -> Resolution {
    match state {
        ProcState::Completed => Resolution::Value,
        ProcState::Panicked => Resolution::Cancelled,
        ProcState::Cancelled => Resolution::Cancelled,
        _ => Resolution::Unresolved,
    }
}

/// One thing that happens to a process.
#[derive(Clone, Copy)]
pub enum ProcStep {
    /// It is put into a queue.
    Schedule,
    /// It is taken out of the queue to be run.
    Run,
    /// The poll of its body ends.
    Polled(PollOutcome),
    /// It is cancelled.
    Cancel,
}

/// The process after a step. A step that does not fit the state of the
/// process does nothing.
pub open spec fn proc_after(p: LightProc, step: ProcStep) -> LightProc {
    match step {
        ProcStep::Schedule => if p.state is Constructed || p.state is Parked {
            LightProc { state: ProcState::Scheduled, ..p }
        } else {
            p
        },
        ProcStep::Run => if p.state is Scheduled {
            LightProc { state: ProcState::Running, polled: true, ..p }
        } else {
            p
        },
        ProcStep::Polled(outcome) => if p.state is Running {
            LightProc { state: after_poll(outcome), ..p }
        } else {
            p
        },
        ProcStep::Cancel => if is_done(p.state) {
            p
        } else {
            LightProc { state: ProcState::Cancelled, ..p }
        },
    }
}

/// The hook that a step calls, if any: `before_start` when the process is
/// run for the first time, `after_complete` or `after_panic` when its
/// body returns or panicks.
pub open spec fn hook_of_step(p: LightProc, step: ProcStep) -> Option<ProcHook> {
    match step {
        ProcStep::Run => if p.state is Scheduled && !p.polled {
            Some(ProcHook::BeforeStart)
        } else {
            None
        },
        ProcStep::Polled(outcome) => if p.state is Running {
            hook_after(outcome)
        } else {
            None
        },
        _ => None,
    }
}

/// How often `hook` is called during the steps.
pub open spec fn hook_calls(p: LightProc, steps: Seq<ProcStep>, hook: ProcHook) -> nat
    decreases steps.len(),
{
    if steps.len() == 0 {
        0
    } else {
        (if hook_of_step(p, steps[0]) == Some(hook) {
            1nat
        } else {
            0nat
        }) + hook_calls(proc_after(p, steps[0]), steps.drop_first(), hook)
    }
}

/// The process after the steps.
pub open spec fn proc_after_all(p: LightProc, steps: Seq<ProcStep>) -> LightProc
    decreases steps.len(),
{
    if steps.len() == 0 {
        p
    } else {
        proc_after_all(proc_after(p, steps[0]), steps.drop_first())
    }
}

/// Whether the process is one that can be: its body was polled if it is
/// or was running.
pub open spec fn consistent(p: LightProc) -> bool {
    (p.state is Running || p.state is Parked || p.state is Completed || p.state is Panicked)
        ==> p.polled
}

/// Whatever happens to a process: `before_start` is called at most once,
/// and not at all if the body was polled before; of `after_complete` and
/// `after_panic` at most one is called, at most once, and none once the
/// process is at its end.
pub proof fn lemma_hooks_once(p: LightProc, steps: Seq<ProcStep>)
    requires
        consistent(p),
    ensures
        consistent(proc_after_all(p, steps)),
        hook_calls(p, steps, ProcHook::BeforeStart) <= 1,
        p.polled ==> hook_calls(p, steps, ProcHook::BeforeStart) == 0,
        hook_calls(p, steps, ProcHook::AfterComplete) + hook_calls(p, steps, ProcHook::AfterPanic)
            <= 1,
        is_done(p.state) ==> hook_calls(p, steps, ProcHook::AfterComplete) + hook_calls(
            p,
            steps,
            ProcHook::AfterPanic,
        ) == 0,
        is_done(p.state) ==> proc_after_all(p, steps) == p,
    decreases steps.len(),
{
    if steps.len() > 0 {
        lemma_hooks_once(proc_after(p, steps[0]), steps.drop_first());
    }
}

/// A process whose body returns or panicks has called `before_start`
/// once before, if it began its life unpolled: the hooks after the body
/// never come without the hook before it.
pub proof fn lemma_before_start_comes_first(p: LightProc, steps: Seq<ProcStep>)
    requires
        p.state is Constructed || p.state is Scheduled,
        !p.polled,
    ensures
        hook_calls(p, steps, ProcHook::AfterComplete) + hook_calls(p, steps, ProcHook::AfterPanic)
            <= hook_calls(p, steps, ProcHook::BeforeStart),
        (proc_after_all(p, steps).state is Completed || proc_after_all(p, steps).state is Panicked)
            ==> hook_calls(p, steps, ProcHook::BeforeStart) == 1 && hook_calls(
            p,
            steps,
            ProcHook::AfterComplete,
        ) + hook_calls(p, steps, ProcHook::AfterPanic) == 1,
    decreases steps.len(),
{
    if steps.len() > 0 {
        let next = proc_after(p, steps[0]);
        if next.state is Constructed || next.state is Scheduled {
            lemma_before_start_comes_first(next, steps.drop_first());
        } else if next.state is Running {
            lemma_after_start(next, steps.drop_first());
        } else {
            lemma_hooks_once(next, steps.drop_first());
        }
    }
}

proof fn lemma_after_start(p: LightProc, steps: Seq<ProcStep>)
    requires
        p.polled,
        !is_done(p.state) || p.state is Cancelled,
    ensures
        hook_calls(p, steps, ProcHook::BeforeStart) == 0,
        hook_calls(p, steps, ProcHook::AfterComplete) + hook_calls(p, steps, ProcHook::AfterPanic)
            <= 1,
        (proc_after_all(p, steps).state is Completed || proc_after_all(p, steps).state is Panicked)
            ==> hook_calls(p, steps, ProcHook::AfterComplete) + hook_calls(
            p,
            steps,
            ProcHook::AfterPanic,
        ) == 1,
    decreases steps.len(),
{
    if steps.len() > 0 {
        let next = proc_after(p, steps[0]);
        if is_done(next.state) && !(next.state is Cancelled) {
            lemma_hooks_once(next, steps.drop_first());
        } else {
            lemma_after_start(next, steps.drop_first());
        }
    } else {
    }
}

impl LightProc {
    /// A process with the identifier, not yet in a queue.
    pub fn build(pid: usize) -> (p: Self)
        ensures
            p == (LightProc { pid, state: ProcState::Constructed, polled: false }),
    {
        LightProc { pid, state: ProcState::Constructed, polled: false }
    }

    /// The identifier of the process.
    pub fn pid(&self) -> (pid: usize)
        ensures
            pid == self.pid,
    {
        self.pid
    }

    /// Puts the process into a queue: a process that was just made, or
    /// one that was parked and is woken. Says whether it did.
    pub fn schedule(&mut self) -> (queued: bool)
        ensures
            *final(self) == proc_after(*old(self), ProcStep::Schedule),
            queued == (old(self).state is Constructed || old(self).state is Parked),
    {
        match self.state {
            ProcState::Constructed | ProcState::Parked => {
                self.state = ProcState::Scheduled;
                true
            },
            _ => false,
        }
    }

    /// Takes the process out of the queue to run it. The first part of
    /// the result says whether the body is to be polled: it is not where
    /// the process was cancelled, or is not in a queue. The second names
    /// the hook to call before the poll: `before_start`, the first time.
    pub fn run(&mut self) -> (res: (bool, Option<ProcHook>))
        ensures
            *final(self) == proc_after(*old(self), ProcStep::Run),
            res.0 == (old(self).state is Scheduled),
            res.1 == hook_of_step(*old(self), ProcStep::Run),
    {
        match self.state {
            ProcState::Scheduled => {
                let hook = if self.polled {
                    None
                } else {
                    Some(ProcHook::BeforeStart)
                };
                self.state = ProcState::Running;
                self.polled = true;
                (true, hook)
            },
            _ => (false, None),
        }
    }

    /// Takes the end of a poll of the body. The result names the hook to
    /// call: `after_complete` where the body returned, `after_panic`
    /// where it panicked.
    pub fn polled(&mut self, outcome: PollOutcome) -> (hook: Option<ProcHook>)
        ensures
            *final(self) == proc_after(*old(self), ProcStep::Polled(outcome)),
            hook == hook_of_step(*old(self), ProcStep::Polled(outcome)),
    {
        match self.state {
            ProcState::Running => {
                let (state, hook) = match outcome {
                    PollOutcome::Pending => (ProcState::Parked, None),
                    PollOutcome::Ready => (ProcState::Completed, Some(ProcHook::AfterComplete)),
                    PollOutcome::Panicked => (ProcState::Panicked, Some(ProcHook::AfterPanic)),
                };
                self.state = state;
                hook
            },
            _ => None,
        }
    }

    /// Cancels the process, unless it is at its end.
    pub fn cancel(&mut self)
        ensures
            *final(self) == proc_after(*old(self), ProcStep::Cancel),
    {
        match self.state {
            ProcState::Completed | ProcState::Panicked | ProcState::Cancelled => {},
            _ => {
                self.state = ProcState::Cancelled;
            },
        }
    }

    /// What the handle of the process resolves to: the value where the
    /// body returned, nothing where it panicked or the process was
    /// cancelled.
    pub fn handle(&self) -> (r: Resolution)
        ensures
            r == resolution(self.state),
    {
        match self.state {
            ProcState::Completed => Resolution::Value,
            ProcState::Panicked => Resolution::Cancelled,
            ProcState::Cancelled => Resolution::Cancelled,
            _ => Resolution::Unresolved,
        }
    }
}

} // verus!
