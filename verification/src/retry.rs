//! Trying a failed image pull again: a bounded number of attempts, with a
//! pause between them that doubles up to a ceiling.

use vstd::prelude::*;

verus! {

/// Two to the power of `n`.
pub open spec fn pow2(n: nat) -> nat
    decreases n,
{
    if n == 0 {
        1
    } else {
        2 * pow2((n - 1) as nat)
    }
}

/// How often a pull is attempted, and how long the engine pauses between
/// attempts, in milliseconds.
#[derive(Clone, Copy, Debug, PartialEq, Eq, Structural)]
pub struct RetryPolicy {
    pub max_attempts: u32,
    pub base_delay_ms: u64,
    pub max_delay_ms: u64,
}

impl RetryPolicy {
    /// The pause after the failure with number `failures`, counted from one:
    /// the base pause, doubled with every failure before, but no longer than
    /// the ceiling.
    pub open spec fn pause(self, failures: nat) -> nat {
        let doubled = self.base_delay_ms * pow2((failures - 1) as nat);
        if doubled > self.max_delay_ms {
            self.max_delay_ms as nat
        } else {
            doubled as nat
        }
    }

    /// What follows `failures` failed attempts: another attempt after a
    /// pause, or nothing where the attempts are used up. Before the first
    /// attempt there is no pause.
    pub open spec fn next(self, failures: nat) -> Option<nat> {
        if failures >= self.max_attempts {
            None
        } else if failures == 0 {
            Some(0)
        } else {
            Some(self.pause(failures))
        }
    }

    /// The sum of all pauses up to the one after failure `failures`.
    pub open spec fn waited(self, failures: nat) -> nat
        decreases failures,
    {
        if failures == 0 {
            0
        } else {
            self.waited((failures - 1) as nat) + self.pause(failures)
        }
    }

    /// A policy that attempts a pull once and never again.
    pub fn once() -> (p: Self)
        ensures
            p == (RetryPolicy { max_attempts: 1, base_delay_ms: 0, max_delay_ms: 0 }),
    {
        RetryPolicy { max_attempts: 1, base_delay_ms: 0, max_delay_ms: 0 }
    }

    /// Decides what follows `failures` failed attempts: `Some` with the
    /// pause before the next attempt, or `None` where the pull is to be given
    /// up.
    pub fn delay_after(&self, failures: u32) -> (r: Option<u64>)
        ensures
            match r {
                Some(d) => self.next(failures as nat) == Some(d as nat),
                None => self.next(failures as nat) is None,
            },
    {
        if failures >= self.max_attempts {
            return None;
        }
        if failures == 0 {
            return Some(0);
        }
        let mut delay: u64 = if self.base_delay_ms > self.max_delay_ms {
            self.max_delay_ms
        } else {
            self.base_delay_ms
        };
        let mut i: u32 = 1;
        assert(self.base_delay_ms * pow2(0) == self.base_delay_ms) by (nonlinear_arith)
            requires
                pow2(0) == 1,
        ;
        while i < failures && delay > 0 && delay < self.max_delay_ms
            invariant
                1 <= i <= failures,
                delay as nat == self.pause(i as nat),
            decreases failures - i,
        {
            proof {
                let b = self.base_delay_ms as nat;
                let p = pow2((i - 1) as nat);
                assert(pow2(i as nat) == 2 * p);
                assert(b * (2 * p) == 2 * (b * p)) by (nonlinear_arith);
            }
            delay = if delay > self.max_delay_ms / 2 {
                self.max_delay_ms
            } else {
                let twice = delay * 2;
                if twice > self.max_delay_ms {
                    self.max_delay_ms
                } else {
                    twice
                }
            };
            i = i + 1;
        }
        proof {
            if i < failures {
                lemma_pause_settles(*self, i as nat, failures as nat);
            }
        }
        Some(delay)
    }
}

/// Two to any power is at least one and grows with the power.
pub proof fn lemma_pow2_grows(a: nat, b: nat)
    requires
        a <= b,
    ensures
        1 <= pow2(a) <= pow2(b),
    decreases b,
{
    if a < b {
        lemma_pow2_grows(a, (b - 1) as nat);
    } else if a > 0 {
        lemma_pow2_grows((a - 1) as nat, (a - 1) as nat);
    }
}

/// Pauses never shrink from one failure to the next.
pub proof fn lemma_pause_grows(p: RetryPolicy, a: nat, b: nat)
    requires
        1 <= a <= b,
    ensures
        p.pause(a) <= p.pause(b),
{
    lemma_pow2_grows((a - 1) as nat, (b - 1) as nat);
    let base = p.base_delay_ms as nat;
    let x = pow2((a - 1) as nat);
    let y = pow2((b - 1) as nat);
    assert(base * x <= base * y) by (nonlinear_arith)
        requires
            x <= y,
    ;
}

/// Once the pause is nothing or has reached the ceiling, it stays there.
pub proof fn lemma_pause_settles(p: RetryPolicy, a: nat, b: nat)
    requires
        1 <= a <= b,
        p.pause(a) == 0 || p.pause(a) == p.max_delay_ms,
    ensures
        p.pause(b) == p.pause(a),
{
    lemma_pause_grows(p, a, b);
    lemma_pow2_grows((a - 1) as nat, (a - 1) as nat);
    lemma_pow2_grows((b - 1) as nat, (b - 1) as nat);
    let base = p.base_delay_ms as nat;
    let x = pow2((a - 1) as nat);
    let y = pow2((b - 1) as nat);
    if p.pause(a) == 0 && p.max_delay_ms != 0 {
        assert(base == 0) by (nonlinear_arith)
            requires
                base * x == 0,
                x >= 1,
        ;
        assert(base * y == 0) by (nonlinear_arith)
            requires
                base == 0,
        ;
    }
}

/// Retries are bounded: no pause is longer than the ceiling, after the last
/// allowed attempt the pull is given up, and all pauses together are no
/// longer than the ceiling times the number of failures.
pub proof fn lemma_retries_bounded(p: RetryPolicy, failures: nat)
    ensures
        p.next(failures) matches Some(d) ==> d <= p.max_delay_ms && failures < p.max_attempts,
        failures >= p.max_attempts ==> p.next(failures) is None,
        p.waited(failures) <= failures * p.max_delay_ms,
    decreases failures,
{
    if failures > 0 {
        lemma_retries_bounded(p, (failures - 1) as nat);
        let m = p.max_delay_ms as nat;
        assert((failures - 1) * m + m == failures * m) by (nonlinear_arith);
    }
}

} // verus!
