//! Bounded-backoff retry helper.
//!
//! A flaky asynchronous probe is retried until it succeeds; between attempts
//! the caller sleeps for a delay that follows a Fibonacci sequence starting
//! at 100 ms and capped at 1,000,000 ms. The sleeping loop itself lives in
//! the embedding program; this module owns the delay schedule.

use vstd::prelude::*;

verus! {

/// Largest delay, in milliseconds, that the schedule ever yields.
pub const DELAY_CAP_MS: u64 = 1_000_000;

/// The pair (previous delay, next delay) after `i` completed attempts,
/// starting from (0, 100) and advancing Fibonacci-style with the sum capped
/// at `DELAY_CAP_MS`.
pub open spec fn delay_pair(i: nat) -> (int, int)
    decreases i,
{
    if i == 0 {
        (0, 100)
    } else {
        let (a, b) = delay_pair((i - 1) as nat);
        (b, if a + b > DELAY_CAP_MS { DELAY_CAP_MS as int } else { a + b })
    }
}

/// Delay slept after the `i`-th failed attempt.
pub open spec fn delay_at(i: nat) -> int {
    delay_pair(i).1
}

/// Every pair of the schedule is ordered and stays within the cap.
pub proof fn lemma_delay_pair_wf(i: nat)
    ensures
        0 <= delay_pair(i).0 <= delay_pair(i).1 <= DELAY_CAP_MS,
        100 <= delay_pair(i).1,
    decreases i,
{
    if i > 0 {
        lemma_delay_pair_wf((i - 1) as nat);
    }
}

/// Backoff schedule bound: the delay sequence never decreases and never
/// exceeds `DELAY_CAP_MS`, at every step.
pub proof fn lemma_backoff_bound(i: nat)
    ensures
        delay_at(i) <= delay_at(i + 1),
        100 <= delay_at(i) <= DELAY_CAP_MS,
{
    lemma_delay_pair_wf(i);
    lemma_delay_pair_wf((i + 1) as nat);
    assert(delay_pair((i + 1) as nat).0 == delay_pair(i).1);
}

/// Retry delay schedule: the state the retry loop carries between attempts.
pub struct Backoff {
    pub prev: u64,
    pub next: u64,
    pub steps: Ghost<nat>,
}

impl Backoff {
    /// The fields track the mathematical schedule at the recorded step.
    pub open spec fn wf(self) -> bool {
        (self.prev as int, self.next as int) == delay_pair(self.steps@)
    }

    /// Number of delays already handed out.
    pub open spec fn steps(self) -> nat {
        self.steps@
    }

    /// A fresh schedule: no attempt has failed yet.
    pub fn new() -> (s: Self)
        ensures
            s.wf(),
            s.steps() == 0,
    {
        Backoff { prev: 0, next: 100, steps: Ghost(0) }
    }

    /// Hands out the delay to sleep after the current failed attempt and
    /// advances the schedule.
    pub fn advance(&mut self) -> (d: u64)
        requires
            old(self).wf(),
        ensures
            final(self).wf(),
            final(self).steps() == old(self).steps() + 1,
            d == delay_at(old(self).steps()),
            d <= DELAY_CAP_MS,
    {
        proof {
            lemma_delay_pair_wf(self.steps@);
        }
        let d = self.next;
        let sum = if self.prev > DELAY_CAP_MS - self.next {
            DELAY_CAP_MS
        } else {
            self.prev + self.next
        };
        self.prev = d;
        self.next = sum;
        proof {
            self.steps@ = self.steps@ + 1;
        }
        d
    }
}

} // verus!
