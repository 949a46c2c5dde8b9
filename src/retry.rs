use vstd::prelude::*;
use crate::probe::ProbeOutcome;

verus! {

/// Seconds of backoff per retry already made: the n-th retry waits
/// `BASE_DELAY_SECS * n`.
pub const BASE_DELAY_SECS: u64 = 15;

/// Attempts per candidate, the first one included (three retries).
pub const MAX_ATTEMPTS: u32 = 4;

/// What the caller does next for one candidate.
#[derive(Clone, Debug, PartialEq, Eq)]
pub enum RetryAction {
    /// Issue one request and report its outcome.
    Attempt,
    /// Wait this many seconds, then ask again.
    Sleep(u64),
    /// The candidate is settled with this outcome.
    Finish(ProbeOutcome),
}

#[derive(Clone, Copy, Debug, PartialEq, Eq, Structural)]
pub enum RetryPhase {
    /// An attempt may be issued (at the start, or after a backoff sleep).
    Ready,
    /// An attempt is out; its outcome is awaited.
    Probing,
    /// The candidate is settled.
    Finished,
}

/// The transition out of `Ready`: an attempt, unless the stop flag is set.
pub open spec fn proceed_model(attempts: nat, cancelled: bool) -> (RetryAction, RetryPhase, nat) {
    if cancelled {
        (RetryAction::Finish(ProbeOutcome::Cancelled), RetryPhase::Finished, attempts)
    } else {
        (RetryAction::Attempt, RetryPhase::Probing, attempts + 1)
    }
}

/// The transition out of `Probing` on an attempt's outcome: only rate
/// limiting is retried, after a linear backoff, while attempts remain.
pub open spec fn outcome_model(attempts: nat, o: ProbeOutcome, cancelled: bool) -> (RetryAction, RetryPhase, nat) {
    if o is RateLimited {
        if attempts >= MAX_ATTEMPTS {
            (RetryAction::Finish(ProbeOutcome::RateLimited), RetryPhase::Finished, attempts)
        } else if cancelled {
            (RetryAction::Finish(ProbeOutcome::Cancelled), RetryPhase::Finished, attempts)
        } else {
            (RetryAction::Sleep((BASE_DELAY_SECS * attempts) as u64), RetryPhase::Ready, attempts)
        }
    } else {
        (RetryAction::Finish(o), RetryPhase::Finished, attempts)
    }
}

/// The retry and backoff decisions for one candidate.
pub struct RetryController {
    attempts: u32,
    phase: RetryPhase,
}

impl RetryController {
    /// Attempts issued so far.
    pub closed spec fn attempts(&self) -> nat {
        self.attempts as nat
    }

    pub closed spec fn phase(&self) -> RetryPhase {
        self.phase
    }

    pub open spec fn wf(&self) -> bool {
        &&& self.attempts() <= MAX_ATTEMPTS
        &&& self.phase() == RetryPhase::Ready ==> self.attempts() < MAX_ATTEMPTS
        &&& self.phase() == RetryPhase::Probing ==> self.attempts() >= 1
    }

    pub fn new() -> (r: RetryController)
        ensures
            r.wf(),
            r.attempts() == 0,
            r.phase() == RetryPhase::Ready,
    {
        RetryController { attempts: 0, phase: RetryPhase::Ready }
    }

    pub fn attempts_made(&self) -> (r: u32)
        ensures
            r == self.attempts(),
    {
        self.attempts
    }

    pub fn current_phase(&self) -> (r: RetryPhase)
        ensures
            r == self.phase(),
    {
        self.phase
    }

    /// Called before each attempt; `cancelled` is the stop flag now.
    pub fn proceed(&mut self, cancelled: bool) -> (r: RetryAction)
        requires
            old(self).wf(),
            old(self).phase() == RetryPhase::Ready,
        ensures
            final(self).wf(),
            (r, final(self).phase(), final(self).attempts()) == proceed_model(old(self).attempts(), cancelled),
    {
        if cancelled {
            self.phase = RetryPhase::Finished;
            RetryAction::Finish(ProbeOutcome::Cancelled)
        } else {
            self.attempts = self.attempts + 1;
            self.phase = RetryPhase::Probing;
            RetryAction::Attempt
        }
    }

    /// Called with the outcome of the attempt just made; `cancelled` is the
    /// stop flag now, read before any backoff sleep.
    pub fn on_outcome(&mut self, o: ProbeOutcome, cancelled: bool) -> (r: RetryAction)
        requires
            old(self).wf(),
            old(self).phase() == RetryPhase::Probing,
        ensures
            final(self).wf(),
            (r, final(self).phase(), final(self).attempts()) == outcome_model(old(self).attempts(), o, cancelled),
    {
        match o {
            ProbeOutcome::RateLimited => {
                if self.attempts >= MAX_ATTEMPTS {
                    self.phase = RetryPhase::Finished;
                    RetryAction::Finish(ProbeOutcome::RateLimited)
                } else if cancelled {
                    self.phase = RetryPhase::Finished;
                    RetryAction::Finish(ProbeOutcome::Cancelled)
                } else {
                    self.phase = RetryPhase::Ready;
                    RetryAction::Sleep(BASE_DELAY_SECS * self.attempts as u64)
                }
            },
            _ => {
                self.phase = RetryPhase::Finished;
                RetryAction::Finish(o)
            },
        }
    }
}

/// The actions of a controller that starts with `attempts` attempts made,
/// is never cancelled, and sees only rate limiting, for up to `fuel`
/// rounds of one attempt each.
pub open spec fn rate_limited_trace(attempts: nat, fuel: nat) -> Seq<RetryAction>
    decreases fuel,
{
    if fuel == 0 {
        seq![]
    } else {
        let (a1, _p1, n1) = proceed_model(attempts, false);
        let (a2, p2, n2) = outcome_model(n1, ProbeOutcome::RateLimited, false);
        if p2 == RetryPhase::Ready {
            seq![a1, a2] + rate_limited_trace(n2, (fuel - 1) as nat)
        } else {
            seq![a1, a2]
        }
    }
}

/// The whole life of a candidate whose every attempt is rate limited.
pub open spec fn exhausted_trace() -> Seq<RetryAction> {
    seq![
        RetryAction::Attempt,
        RetryAction::Sleep(BASE_DELAY_SECS),
        RetryAction::Attempt,
        RetryAction::Sleep((BASE_DELAY_SECS * 2) as u64),
        RetryAction::Attempt,
        RetryAction::Sleep((BASE_DELAY_SECS * 3) as u64),
        RetryAction::Attempt,
        RetryAction::Finish(ProbeOutcome::RateLimited),
    ]
}

/// When every attempt is rate limited, a fresh controller issues at most
/// four attempts, sleeps `BASE_DELAY_SECS * n` before the retry that follows
/// attempt `n`, and then settles on `RateLimited`, however long it is driven.
pub proof fn lemma_rate_limited_budget(fuel: nat)
    ensures
        fuel >= MAX_ATTEMPTS ==> rate_limited_trace(0, fuel) == exhausted_trace(),
        fuel < MAX_ATTEMPTS ==> rate_limited_trace(0, fuel) == exhausted_trace().subrange(0, 2 * fuel as int),
{
    reveal_with_fuel(rate_limited_trace, 5);
    let e = exhausted_trace();
    if fuel == 0 {
        assert(rate_limited_trace(0, fuel) =~= e.subrange(0, 0));
    } else if fuel == 1 {
        assert(rate_limited_trace(0, fuel) =~= e.subrange(0, 2));
    } else if fuel == 2 {
        assert(rate_limited_trace(0, fuel) =~= e.subrange(0, 4));
    } else if fuel == 3 {
        assert(rate_limited_trace(0, fuel) =~= e.subrange(0, 6));
    } else {
        assert(rate_limited_trace(0, fuel) =~= e);
    }
}

} // verus!
