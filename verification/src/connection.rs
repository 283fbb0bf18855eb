//! Acquiring a connection to the desk: a bounded number of attempts, with a
//! pause before each further attempt that grows with the number of the
//! attempt. The caller makes the attempts and sleeps; what to do after each
//! attempt is decided here.

use vstd::prelude::*;

verus! {

/// Milliseconds of pause for each attempt counted so far.
pub const BACKOFF_STEP_MS: u64 = 100;

/// The largest number of attempts whose pauses fit into 64 bits.
pub const MAX_ATTEMPTS_LIMIT: u64 = 184467440737095516;

/// The pause, in milliseconds, before the attempt of the given number.
pub open spec fn backoff_ms(attempt: nat) -> nat {
    BACKOFF_STEP_MS as nat * attempt
}

/// Whether the attempt of the given number is the last one allowed.
pub open spec fn is_last_attempt(max_attempts: nat, attempt: nat) -> bool {
    attempt >= max_attempts
}

/// What follows the failure of the attempt of the given number: the number
/// of the attempt under way afterwards, and the pause before it. After the
/// last allowed attempt there is no pause and no further attempt.
pub open spec fn after_failure(max_attempts: nat, attempt: nat) -> (nat, Option<nat>) {
    if is_last_attempt(max_attempts, attempt) {
        (attempt, None)
    } else {
        (attempt + 1, Some(backoff_ms(attempt + 1)))
    }
}

/// The number of the attempt that is under way once `failures` attempts have
/// failed, counted from one.
pub open spec fn attempt_after(max_attempts: nat, failures: nat) -> nat
    decreases failures,
{
    if failures == 0 {
        1
    } else {
        after_failure(max_attempts, attempt_after(max_attempts, (failures - 1) as nat)).0
    }
}

/// The pauses asked for, in order, once `failures` attempts have failed.
pub open spec fn pauses_after(max_attempts: nat, failures: nat) -> Seq<nat>
    decreases failures,
{
    if failures == 0 {
        Seq::empty()
    } else {
        let before = pauses_after(max_attempts, (failures - 1) as nat);
        match after_failure(max_attempts, attempt_after(max_attempts, (failures - 1) as nat)).1 {
            Some(pause) => before.push(pause),
            None => before,
        }
    }
}

/// The number of retries made once `failures` attempts have failed: one for
/// each failure, but never more than the allowed attempts less one.
pub open spec fn retries_after(max_attempts: nat, failures: nat) -> nat {
    if failures < max_attempts {
        failures
    } else if max_attempts == 0 {
        0
    } else {
        (max_attempts - 1) as nat
    }
}

/// Why no connection was acquired.
#[derive(Debug, PartialEq, Eq)]
pub enum ConnectionError<E> {
    /// Every allowed attempt failed. Holds the error of the last attempt.
    Exhausted(E),
}

/// What to do after an attempt to connect.
#[derive(Debug, PartialEq, Eq)]
pub enum AcquireStep<H, E> {
    /// The acquisition is over: with the handle, or for good without one.
    Done(Result<H, ConnectionError<E>>),
    /// Sleep for this many milliseconds, then try again.
    RetryAfter(u64),
}

/// The retry policy of one acquisition, and how far it has come.
#[derive(Debug)]
pub struct ConnectionAcquirer {
    max_attempts: u64,
    attempt: u64,
}

impl ConnectionAcquirer {
    /// The largest number of attempts to make.
    pub closed spec fn max_attempts(&self) -> nat {
        self.max_attempts as nat
    }

    /// The number of the attempt under way, counted from one.
    pub closed spec fn attempt(&self) -> nat {
        self.attempt as nat
    }

    /// What holds of every acquirer: the attempts are counted from one and
    /// never pass the largest number allowed, and every pause fits into 64
    /// bits.
    #[verifier::type_invariant]
    pub closed spec fn wf(&self) -> bool {
        &&& self.attempt >= 1
        &&& self.attempt <= self.max_attempts || self.attempt == 1
        &&& self.max_attempts <= MAX_ATTEMPTS_LIMIT
    }

    /// An acquirer before its first attempt.
    pub fn new(max_attempts: u64) -> (acquirer: ConnectionAcquirer)
        requires
            max_attempts <= MAX_ATTEMPTS_LIMIT,
        ensures
            acquirer.wf(),
            acquirer.max_attempts() == max_attempts,
            acquirer.attempt() == 1,
    {
        ConnectionAcquirer { max_attempts, attempt: 1 }
    }

    /// An acquirer before its first attempt, or nothing where the pauses of
    /// that many attempts do not fit into 64 bits.
    pub fn checked_new(max_attempts: u64) -> (acquirer: Option<ConnectionAcquirer>)
        ensures
            max_attempts <= MAX_ATTEMPTS_LIMIT <==> acquirer is Some,
            acquirer matches Some(a) ==> a.wf() && a.max_attempts() == max_attempts && a.attempt()
                == 1,
    {
        if max_attempts <= MAX_ATTEMPTS_LIMIT {
            Some(ConnectionAcquirer::new(max_attempts))
        } else {
            None
        }
    }

    /// The number of the attempt under way, counted from one.
    pub fn attempt_number(&self) -> (attempt: u64)
        ensures
            attempt == self.attempt(),
            attempt >= 1,
            attempt <= self.max_attempts() || attempt == 1,
    {
        proof {
            use_type_invariant(self);
        }
        self.attempt
    }

    /// Takes the outcome of the attempt under way and says what to do next.
    /// A handle ends the acquisition at once. A failure of the last allowed
    /// attempt ends it with that failure. Any other failure is dropped: the
    /// next attempt is counted, and the pause before it is returned.
    pub fn next<H, E>(&mut self, outcome: Result<H, E>) -> (step: AcquireStep<H, E>)
        ensures
            final(self).wf(),
            final(self).max_attempts() == old(self).max_attempts(),
            match outcome {
                Ok(handle) => {
                    &&& step == AcquireStep::<H, E>::Done(Ok(handle))
                    &&& final(self).attempt() == old(self).attempt()
                },
                Err(error) => {
                    let (attempt, pause) = after_failure(
                        old(self).max_attempts(),
                        old(self).attempt(),
                    );
                    &&& final(self).attempt() == attempt
                    &&& match pause {
                        Some(millis) => millis <= u64::MAX && step == AcquireStep::<
                            H,
                            E,
                        >::RetryAfter(millis as u64),
                        None => step == AcquireStep::<H, E>::Done(
                            Err(ConnectionError::Exhausted(error)),
                        ),
                    }
                },
            },
    {
        proof {
            use_type_invariant(&*self);
        }
        match outcome {
            Ok(handle) => AcquireStep::Done(Ok(handle)),
            Err(error) => {
                if self.attempt >= self.max_attempts {
                    AcquireStep::Done(Err(ConnectionError::Exhausted(error)))
                } else {
                    let attempt: u64 = self.attempt + 1;
                    assert(BACKOFF_STEP_MS * attempt <= u64::MAX) by {
                        assert(attempt <= MAX_ATTEMPTS_LIMIT);
                    }
                    self.attempt = attempt;
                    AcquireStep::RetryAfter(BACKOFF_STEP_MS * attempt)
                }
            },
        }
    }
}

/// Once `failures` attempts have failed, the attempt under way is the next
/// one, unless the allowed attempts are used up: then it stays the last.
pub proof fn lemma_attempt_after(max_attempts: nat, failures: nat)
    ensures
        attempt_after(max_attempts, failures) == (if failures < max_attempts {
            failures + 1
        } else if max_attempts == 0 {
            1
        } else {
            max_attempts
        }),
    decreases failures,
{
    if failures > 0 {
        lemma_attempt_after(max_attempts, (failures - 1) as nat);
    }
}

/// While attempts are left, the failure of attempt `k` is followed by a
/// pause of `100 * (k + 1)` milliseconds and by attempt `k + 1`: the pauses
/// grow by the same step from one retry to the next, starting at 200.
pub proof fn law_linear_backoff(max_attempts: nat, k: nat)
    requires
        1 <= k < max_attempts,
    ensures
        attempt_after(max_attempts, (k - 1) as nat) == k,
        after_failure(max_attempts, k) == (k + 1, Some((100 * (k + 1)) as nat)),
        k >= 2 ==> backoff_ms(k + 1) - backoff_ms(k) == 100,
{
    lemma_attempt_after(max_attempts, (k - 1) as nat);
    lemma_attempt_after(max_attempts, k);
}

/// However many attempts fail, the attempt under way never passes the
/// largest number allowed, and once that many have failed the acquisition is
/// at its last attempt.
pub proof fn law_attempts_bounded(max_attempts: nat, failures: nat)
    requires
        max_attempts >= 1,
    ensures
        1 <= attempt_after(max_attempts, failures) <= max_attempts,
        failures + 1 >= max_attempts ==> after_failure(
            max_attempts,
            attempt_after(max_attempts, failures),
        ) == (max_attempts, None::<nat>),
{
    lemma_attempt_after(max_attempts, failures);
}

/// The pauses of an acquisition are 200, 300, 400 milliseconds and so on,
/// one for each retry. With a single allowed attempt there is none.
pub proof fn law_pauses(max_attempts: nat, failures: nat)
    ensures
        pauses_after(max_attempts, failures) == Seq::new(
            retries_after(max_attempts, failures),
            |i: int| (100 * (i + 2)) as nat,
        ),
        max_attempts <= 1 ==> pauses_after(max_attempts, failures) == Seq::<nat>::empty(),
    decreases failures,
{
    let expected = Seq::new(
        retries_after(max_attempts, failures),
        |i: int| (100 * (i + 2)) as nat,
    );
    if failures > 0 {
        law_pauses(max_attempts, (failures - 1) as nat);
        lemma_attempt_after(max_attempts, (failures - 1) as nat);
    }
    assert(pauses_after(max_attempts, failures) =~= expected);
    if max_attempts <= 1 {
        assert(expected =~= Seq::<nat>::empty());
    }
}

} // verus!
