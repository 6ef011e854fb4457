//! The restart policy of the self-healing ExifTool connection: a failed
//! command restarts ExifTool and is tried again after a pause that doubles
//! each time, up to five attempts in all.
use vstd::prelude::*;

verus! {

/// The most attempts made for one command.
pub const MAX_ATTEMPTS: u32 = 5;

/// The pause after the first failure, in milliseconds.
pub const FIRST_DELAY_MS: u64 = 100;

/// The longest pause, in milliseconds.
pub const MAX_DELAY_MS: u64 = 5000;

/// Two to the power `k`.
pub open spec fn pow2(k: nat) -> nat
    decreases k,
{
    if k == 0 {
        1
    } else {
        2 * pow2((k - 1) as nat)
    }
}

/// The pause taken after the failure of attempt `k` (counted from zero).
pub open spec fn delay_after(k: nat) -> nat {
    if FIRST_DELAY_MS * pow2(k) < MAX_DELAY_MS {
        (FIRST_DELAY_MS * pow2(k)) as nat
    } else {
        MAX_DELAY_MS as nat
    }
}

/// What to do with the result of an attempt.
pub enum RetryStep {
    /// Hand this result to the caller.
    Finish(Result<String, String>),
    /// Restart ExifTool, wait this many milliseconds, and try again.
    RestartAfter(u64),
}

/// Where the policy stands for one command.
pub struct RetryPolicy {
    attempt: u32,
    delay_ms: u64,
}

impl RetryPolicy {
    /// The number of attempts that have failed so far.
    pub closed spec fn attempt(&self) -> nat {
        self.attempt as nat
    }

    /// The pause that the next failure would bring.
    pub closed spec fn delay(&self) -> nat {
        self.delay_ms as nat
    }

    /// The policy's invariant: fewer than five attempts have failed, and the
    /// next pause is the one that belongs to the current attempt.
    pub closed spec fn wf(&self) -> bool {
        &&& self.attempt < MAX_ATTEMPTS
        &&& self.delay_ms == delay_after(self.attempt as nat)
    }

    /// What the invariant says in the terms of `attempt` and `delay`: fewer
    /// than five attempts have failed, and the pause that the next failure
    /// brings is the one after the current attempt.
    pub proof fn lemma_wf(&self)
        ensures
            self.wf() ==> self.delay() == delay_after(self.attempt()) && self.attempt()
                < MAX_ATTEMPTS,
    {
    }

    /// The policy before the first attempt.
    pub fn new() -> (r: Self)
        ensures
            r.wf(),
            r.attempt() == 0,
            r.delay() == FIRST_DELAY_MS,
    {
        assert(pow2(0) == 1);
        RetryPolicy { attempt: 0, delay_ms: FIRST_DELAY_MS }
    }

    /// Decides what follows the result of an attempt: success is final; a
    /// failure restarts and retries after the current pause, except after
    /// the fifth attempt, whose error is final.
    pub fn on_result(&mut self, result: Result<String, String>) -> (step: RetryStep)
        requires
            old(self).wf(),
        ensures
            match result {
                Ok(out) => step == RetryStep::Finish(Ok(out)) && *final(self) == *old(self),
                Err(e) => if old(self).attempt() + 1 < MAX_ATTEMPTS {
                    &&& step == RetryStep::RestartAfter(old(self).delay() as u64)
                    &&& final(self).wf()
                    &&& final(self).attempt() == old(self).attempt() + 1
                    &&& final(self).delay() == delay_after(old(self).attempt() + 1)
                } else {
                    step == RetryStep::Finish(Err(e)) && *final(self) == *old(self)
                },
            },
    {
        match result {
            Ok(out) => RetryStep::Finish(Ok(out)),
            Err(e) => {
                if self.attempt + 1 < MAX_ATTEMPTS {
                    let pause = self.delay_ms;
                    proof {
                        lemma_delay_doubles(self.attempt as nat);
                    }
                    self.attempt = self.attempt + 1;
                    self.delay_ms = if pause * 2 < MAX_DELAY_MS {
                        pause * 2
                    } else {
                        MAX_DELAY_MS
                    };
                    RetryStep::RestartAfter(pause)
                } else {
                    RetryStep::Finish(Err(e))
                }
            },
        }
    }
}

/// Each pause is twice the previous one, up to the longest pause.
pub proof fn lemma_delay_doubles(k: nat)
    ensures
        delay_after(k + 1) == if delay_after(k) * 2 < MAX_DELAY_MS {
            delay_after(k) * 2
        } else {
            MAX_DELAY_MS as nat
        },
        delay_after(k) <= MAX_DELAY_MS,
{
    assert(pow2(k + 1) == 2 * pow2(k));
}

/// The pauses between the attempts of one command are 100, 200, 400 and
/// 800 ms: the pause after attempt `k` is 100·2^k ms, and every pause stays
/// within five seconds.
pub proof fn lemma_retry_pauses(k: nat)
    requires
        k + 1 < MAX_ATTEMPTS,
    ensures
        delay_after(k) == FIRST_DELAY_MS * pow2(k),
        delay_after(k) <= MAX_DELAY_MS,
{
    assert(pow2(0) == 1);
    assert(pow2(1) == 2);
    assert(pow2(2) == 4);
    assert(pow2(3) == 8);
}

} // verus!
