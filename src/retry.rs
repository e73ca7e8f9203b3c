use vstd::prelude::*;
use crate::error::{Error, is_transient_spec};

verus! {

/// How many times a failing operation is tried again before giving up.
#[derive(Debug, Clone, Copy, PartialEq, Eq, Structural)]
pub struct RetryPolicy {
    pub max_retries: u32,
}

/// Per-task retry bookkeeping: the number of retries already scheduled.
#[derive(Debug, Clone, Copy, PartialEq, Eq, Structural)]
pub struct RetryState {
    pub retries: u32,
}

/// What one attempt of an operation gave.
#[derive(Debug, Clone, PartialEq, Eq)]
pub enum Outcome<T> {
    Succeeded(T),
    Failed(Error),
}

/// What the executor does after an attempt.
#[derive(Debug, Clone, PartialEq, Eq)]
pub enum RetryAction<T> {
    /// Hand the value to the caller.
    Deliver(T),
    /// Surface the error to the caller.
    Fail(Error),
    /// Back off, then make attempt number `attempt` (the first retry is 1).
    Wait { attempt: u32 },
}

impl RetryState {
    pub fn new() -> (r: RetryState)
        ensures
            r.retries == 0,
    {
        RetryState { retries: 0 }
    }
}

/// The decision after an attempt that gave `outcome`, when `retries` retries
/// were scheduled before it.
pub open spec fn decide_spec<T>(max_retries: nat, retries: nat, outcome: Outcome<T>) -> RetryAction<T> {
    match outcome {
        Outcome::Succeeded(v) => RetryAction::Deliver(v),
        Outcome::Failed(e) => if is_transient_spec(e) && retries < max_retries {
            RetryAction::Wait { attempt: (retries + 1) as u32 }
        } else {
            RetryAction::Fail(e)
        },
    }
}

/// Decides what follows an attempt: deliver a success, fail on a permanent
/// error or on a transient one once the retry budget is spent, or wait and
/// try again.
pub fn decide<T>(policy: &RetryPolicy, state: &mut RetryState, outcome: Outcome<T>) -> (r: RetryAction<T>)
    ensures
        r == decide_spec(policy.max_retries as nat, old(state).retries as nat, outcome),
        r is Wait ==> final(state).retries == old(state).retries + 1,
        !(r is Wait) ==> final(state).retries == old(state).retries,
{
    match outcome {
        Outcome::Succeeded(v) => RetryAction::Deliver(v),
        Outcome::Failed(e) => {
            if e.is_transient() && state.retries < policy.max_retries {
                state.retries = state.retries + 1;
                RetryAction::Wait { attempt: state.retries }
            } else {
                RetryAction::Fail(e)
            }
        },
    }
}

/// The final action of a task whose attempts give `outcomes` in turn, starting
/// with `retries` retries scheduled; `None` if the outcomes run out while the
/// executor still waits.
pub open spec fn run_spec<T>(max_retries: nat, retries: nat, outcomes: Seq<Outcome<T>>) -> Option<RetryAction<T>>
    decreases outcomes.len(),
{
    if outcomes.len() == 0 {
        None
    } else {
        match decide_spec(max_retries, retries, outcomes[0]) {
            RetryAction::Wait { attempt } => run_spec(max_retries, retries + 1, outcomes.drop_first()),
            a => Some(a),
        }
    }
}

/// `n` transient failures followed by one success.
pub open spec fn transient_then_success<T>(e: Error, n: nat, v: T) -> Seq<Outcome<T>> {
    Seq::new(n, |i: int| Outcome::Failed(e)).push(Outcome::Succeeded(v))
}

/// An operation that fails transiently `n` times, with `n` within the retry
/// budget, and then succeeds, delivers its value.
pub proof fn lemma_transient_failures_then_success<T>(policy: RetryPolicy, e: Error, n: nat, v: T)
    requires
        is_transient_spec(e),
        n <= policy.max_retries,
    ensures
        run_spec(policy.max_retries as nat, 0, transient_then_success(e, n, v)) == Some(RetryAction::Deliver(v)),
{
    assert(transient_then_success(e, n, v).subrange(0, n as int + 1) =~= transient_then_success(e, n, v));
    lemma_run_from(policy.max_retries as nat, e, n, v, 0);
}

proof fn lemma_run_from<T>(max: nat, e: Error, n: nat, v: T, k: nat)
    requires
        is_transient_spec(e),
        k <= n,
        n <= max,
        max <= u32::MAX,
    ensures
        run_spec(max, k, transient_then_success(e, n, v).subrange(k as int, n as int + 1)) == Some(RetryAction::Deliver(v)),
    decreases n - k,
{
    let s = transient_then_success(e, n, v).subrange(k as int, n as int + 1);
    if k < n {
        assert(s[0] == Outcome::<T>::Failed(e));
        assert(s.drop_first() =~= transient_then_success(e, n, v).subrange(k as int + 1, n as int + 1));
        lemma_run_from(max, e, n, v, k + 1);
    } else {
        assert(s[0] == Outcome::Succeeded(v));
    }
}

/// A permanent error fails the task on the first attempt, with no wait.
pub proof fn lemma_permanent_fails_at_once<T>(policy: RetryPolicy, e: Error, rest: Seq<Outcome<T>>)
    requires
        !is_transient_spec(e),
    ensures
        decide_spec(policy.max_retries as nat, 0, Outcome::<T>::Failed(e)) == RetryAction::<T>::Fail(e),
        run_spec(policy.max_retries as nat, 0, seq![Outcome::<T>::Failed(e)] + rest) == Some(RetryAction::<T>::Fail(e)),
{
    assert((seq![Outcome::<T>::Failed(e)] + rest)[0] == Outcome::<T>::Failed(e));
}

/// Retries are capped: once the budget is spent, a transient failure fails
/// the task.
pub proof fn lemma_budget_exhausted<T>(policy: RetryPolicy, e: Error)
    ensures
        decide_spec(policy.max_retries as nat, policy.max_retries as nat, Outcome::<T>::Failed(e)) == RetryAction::<T>::Fail(e),
{
}

} // verus!
