//! Request pacing: an exponentially growing delay, capped at a maximum.
use vstd::prelude::*;

verus! {

/// The first delay, in milliseconds.
pub const BASE_DELAY_MS: u64 = 500;

/// Exponential delay between successive requests: each delay is one and a
/// half times the one before, until it reaches the cap, where it stays.
pub struct Backoff {
    current_ms: u64,
    max_ms: u64,
}

/// What a [`Backoff`] holds: the delay it hands out next, and the cap.
pub struct BackoffView {
    pub current: nat,
    pub max: nat,
}

/// The state reached after one delay has been handed out.
pub open spec fn backoff_step(v: BackoffView) -> BackoffView {
    let grown = v.current + v.current / 2;
    BackoffView { current: if grown <= v.max { grown } else { v.max }, max: v.max }
}

/// The state after `k` delays have been handed out.
pub open spec fn backoff_after(v: BackoffView, k: nat) -> BackoffView
    decreases k,
{
    if k == 0 { v } else { backoff_step(backoff_after(v, (k - 1) as nat)) }
}

/// The `k`-th delay (counted from zero) handed out from state `v`.
pub open spec fn nth_delay(v: BackoffView, k: nat) -> nat {
    backoff_after(v, k).current
}

/// The initial state for a cap of `max_ms` milliseconds.
pub open spec fn backoff_start(max_ms: nat) -> BackoffView {
    BackoffView {
        current: if BASE_DELAY_MS <= max_ms { BASE_DELAY_MS as nat } else { max_ms },
        max: max_ms,
    }
}

/// The cap, in milliseconds, for a maximum interval of `secs` seconds
/// (saturating at the largest `u64`).
pub open spec fn cap_of_secs(secs: nat) -> nat {
    if secs * 1000 <= u64::MAX { secs * 1000 } else { u64::MAX as nat }
}

impl Backoff {
    pub closed spec fn view(&self) -> BackoffView {
        BackoffView { current: self.current_ms as nat, max: self.max_ms as nat }
    }

    /// The delay never exceeds the cap.
    pub closed spec fn wf(&self) -> bool {
        self.current_ms <= self.max_ms
    }

    /// A policy whose delays never exceed `max_interval` seconds.
    pub fn new(max_interval: u64) -> (r: Backoff)
        ensures
            r.wf(),
            r.view() == backoff_start(cap_of_secs(max_interval as nat)),
    {
        let max_ms: u64 = match max_interval.checked_mul(1000) {
            Some(m) => m,
            None => u64::MAX,
        };
        let current_ms: u64 = if BASE_DELAY_MS <= max_ms { BASE_DELAY_MS } else { max_ms };
        Backoff { current_ms, max_ms }
    }

    /// Hands out the next delay, in milliseconds, and advances the policy.
    pub fn next_delay(&mut self) -> (r: u64)
        requires
            old(self).wf(),
        ensures
            final(self).wf(),
            r as nat == old(self).view().current,
            final(self).view() == backoff_step(old(self).view()),
    {
        let r = self.current_ms;
        let half = r / 2;
        if half <= self.max_ms - r {
            self.current_ms = r + half;
        } else {
            self.current_ms = self.max_ms;
        }
        r
    }

    /// The cap, in milliseconds.
    pub fn max_delay(&self) -> (r: u64)
        ensures
            r as nat == self.view().max,
    {
        self.max_ms
    }
}

proof fn lemma_step_bounded(v: BackoffView)
    requires
        v.current <= v.max,
    ensures
        v.current <= backoff_step(v).current <= v.max,
        backoff_step(v).max == v.max,
{
}

proof fn lemma_after_bounded(v: BackoffView, k: nat)
    requires
        v.current <= v.max,
    ensures
        backoff_after(v, k).current <= v.max,
        backoff_after(v, k).max == v.max,
    decreases k,
{
    if k > 0 {
        lemma_after_bounded(v, (k - 1) as nat);
        lemma_step_bounded(backoff_after(v, (k - 1) as nat));
    }
}

/// For a maximum interval of `max_interval` seconds, successive delays never
/// decrease and never exceed the cap; the first delay is the base delay
/// whenever the cap allows it, and the cap itself otherwise.
pub proof fn lemma_delays_grow_to_cap(max_interval: nat, k: nat)
    ensures
        nth_delay(backoff_start(cap_of_secs(max_interval)), k)
            <= nth_delay(backoff_start(cap_of_secs(max_interval)), k + 1),
        nth_delay(backoff_start(cap_of_secs(max_interval)), k) <= cap_of_secs(max_interval),
        BASE_DELAY_MS <= cap_of_secs(max_interval) ==> nth_delay(
            backoff_start(cap_of_secs(max_interval)),
            0,
        ) == BASE_DELAY_MS,
{
    let v = backoff_start(cap_of_secs(max_interval));
    lemma_after_bounded(v, k);
    lemma_step_bounded(backoff_after(v, k));
    assert(backoff_after(v, k + 1) == backoff_step(backoff_after(v, k)));
}

} // verus!
