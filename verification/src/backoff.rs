//! Retrying an operation that may fail: a bounded number of attempts, with a
//! wait between them that doubles each time and is shortened at random.
//!
//! The decisions are made here; the waiting is the caller's, who may block
//! or suspend as it sees fit.

use retry::delay::{jitter, Exponential};
use std::time::Duration;
use vstd::prelude::*;

verus! {

/// How often an operation is attempted before it is given up.
pub const MAX_ATTEMPTS: usize = 5;

/// The first delay of the schedule before jitter and scaling, in
/// milliseconds; each later one is this many times the one before.
pub const BASE_MILLIS: u64 = 2;

/// The factor by which every jittered delay is stretched.
pub const SCALE: u64 = 100;

/// Nanoseconds in a millisecond.
pub const NANOS_PER_MILLI: u64 = 1_000_000;

/// `base` to the power of `exponent`.
pub open spec fn power(base: int, exponent: nat) -> int
    decreases exponent,
{
    if exponent == 0 {
        1
    } else {
        base * power(base, (exponent - 1) as nat)
    }
}

/// The longest that the wait after the `i`-th failed attempt, counted from
/// zero, can be, in nanoseconds.
pub open spec fn delay_cap(i: nat) -> int {
    SCALE * power(BASE_MILLIS as int, i + 1) * NANOS_PER_MILLI
}

/// `retry::delay::Exponential::from_millis(base)`, its first `count` delays
/// in milliseconds: `base`, then each time `base` times the last. The crate
/// multiplies in floating point, which is exact as long as the delays stay
/// below two to the power of 53.
#[verifier::external_body]
fn exponential_millis(base: u64, count: usize) -> (delays: Vec<u64>)
    requires
        power(base as int, count as nat) < 0x20_0000_0000_0000,
    ensures
        delays@.len() == count,
        forall|i: int| 0 <= i < count ==> #[trigger] delays@[i] == power(base as int, (i + 1) as nat),
{
    Exponential::from_millis(base).take(count).map(|d| d.as_millis() as u64).collect()
}

/// `retry::delay::jitter` on a delay of `millis` milliseconds, in
/// nanoseconds: the delay times a random factor below one, rounded up, so
/// never more than the delay itself.
#[verifier::external_body]
fn jittered_nanos(millis: u64) -> (nanos: u64)
    requires
        millis * NANOS_PER_MILLI <= u64::MAX,
    ensures
        nanos <= millis * NANOS_PER_MILLI,
{
    jitter(Duration::from_millis(millis)).as_nanos() as u64
}

/// A jittered delay stretched by `SCALE`, where the result still fits.
pub fn stretch(nanos: u64) -> (stretched: Option<u64>)
    ensures
        stretched == if nanos * SCALE <= u64::MAX {
            Some((nanos * SCALE) as u64)
        } else {
            None::<u64>
        },
{
    nanos.checked_mul(SCALE)
}

/// The first powers of the base delay.
proof fn lemma_base_powers()
    ensures
        power(BASE_MILLIS as int, 1) == 2,
        power(BASE_MILLIS as int, 2) == 4,
        power(BASE_MILLIS as int, 3) == 8,
        power(BASE_MILLIS as int, 4) == 16,
        power(BASE_MILLIS as int, 5) == 32,
{
    reveal_with_fuel(power, 6);
}

/// The waits of one run of attempts, in nanoseconds: one for each attempt,
/// each drawn at random below its cap, the caps doubling from 200
/// milliseconds on.
pub fn random_durations() -> (delays: Vec<u64>)
    ensures
        delays@.len() == MAX_ATTEMPTS,
        forall|i: int| 0 <= i < MAX_ATTEMPTS ==> #[trigger] delays@[i] <= delay_cap(i as nat),
        forall|i: int| 0 <= i < MAX_ATTEMPTS ==> #[trigger] delays@[i] % SCALE == 0,
{
    proof {
        lemma_base_powers();
    }
    let bases = exponential_millis(BASE_MILLIS, MAX_ATTEMPTS);
    let mut delays: Vec<u64> = Vec::new();
    let mut i: usize = 0;
    while i < bases.len()
        invariant
            i <= bases.len() == MAX_ATTEMPTS,
            forall|j: int|
                0 <= j < MAX_ATTEMPTS ==> #[trigger] bases@[j] == power(
                    BASE_MILLIS as int,
                    (j + 1) as nat,
                ),
            delays@.len() == i,
            forall|j: int| 0 <= j < i ==> #[trigger] delays@[j] <= delay_cap(j as nat),
            forall|j: int| 0 <= j < i ==> #[trigger] delays@[j] % SCALE == 0,
        decreases bases.len() - i,
    {
        proof {
            lemma_base_powers();
            assert(bases@[i as int] == power(BASE_MILLIS as int, (i + 1) as nat));
            assert(bases@[i as int] <= 32);
        }
        let base: u64 = bases[i];
        let nanos: u64 = jittered_nanos(base);
        assert(nanos * SCALE <= base * NANOS_PER_MILLI * SCALE) by (nonlinear_arith)
            requires
                nanos <= base * NANOS_PER_MILLI,
        ;
        assert(base * NANOS_PER_MILLI * SCALE == SCALE * base * NANOS_PER_MILLI) by (nonlinear_arith);
        assert((nanos * SCALE) % (SCALE as int) == 0) by (nonlinear_arith);
        match stretch(nanos) {
            Some(delay) => delays.push(delay),
            None => {},
        }
        i = i + 1;
    }
    delays
}

/// What to do after a failed attempt.
#[derive(Clone, Copy, Debug, PartialEq, Eq, Structural)]
pub enum Step {
    /// Wait this many nanoseconds, then attempt again.
    Wait(u64),
    /// Attempt no more.
    GiveUp,
}

/// The step after the `failures`-th failed attempt of a run whose waits are
/// `delays`: the next wait while attempts and waits are left.
pub open spec fn step_after(delays: Seq<u64>, failures: nat) -> Step {
    if 0 < failures < MAX_ATTEMPTS && failures <= delays.len() {
        Step::Wait(delays[failures - 1])
    } else {
        Step::GiveUp
    }
}

/// One run of attempts: the waits it was given and the failures so far.
pub struct Backoff {
    delays: Vec<u64>,
    failures: usize,
}

impl Backoff {
    /// The waits of this run.
    pub closed spec fn delays(&self) -> Seq<u64> {
        self.delays@
    }

    /// The failed attempts so far, counted up to `MAX_ATTEMPTS`.
    pub closed spec fn failures(&self) -> nat {
        self.failures as nat
    }

    /// A run with waits drawn by `random_durations`.
    pub fn new() -> (run: Backoff)
        ensures
            run.failures() == 0,
            run.delays().len() == MAX_ATTEMPTS,
            forall|i: int|
                0 <= i < MAX_ATTEMPTS ==> #[trigger] run.delays()[i] <= delay_cap(i as nat),
    {
        Backoff { delays: random_durations(), failures: 0 }
    }

    /// A run with the given waits.
    pub fn with_delays(delays: Vec<u64>) -> (run: Backoff)
        ensures
            run.failures() == 0,
            run.delays() == delays@,
    {
        Backoff { delays, failures: 0 }
    }

    /// How many attempts have failed, counted up to `MAX_ATTEMPTS`.
    pub fn tries(&self) -> (n: usize)
        ensures
            n == self.failures(),
    {
        self.failures
    }

    /// Notes a failed attempt and says what follows it.
    pub fn failed(&mut self) -> (step: Step)
        ensures
            final(self).delays() == old(self).delays(),
            final(self).failures() == if old(self).failures() < MAX_ATTEMPTS {
                old(self).failures() + 1
            } else {
                old(self).failures()
            },
            step == step_after(old(self).delays(), old(self).failures() + 1),
    {
        if self.failures < MAX_ATTEMPTS {
            self.failures = self.failures + 1;
            if self.failures < MAX_ATTEMPTS && self.failures <= self.delays.len() {
                return Step::Wait(self.delays[self.failures - 1]);
            }
        }
        Step::GiveUp
    }
}

/// An operation failed at every attempt.
pub struct RetryError<E> {
    /// The error of the last attempt.
    pub error: E,
    /// How many attempts were made.
    pub tries: usize,
}

/// Attempts `closure` until it succeeds, `MAX_ATTEMPTS` times at most, and
/// has `sleep` wait between the attempts. The first success is handed back;
/// where every attempt failed, the error of the last one.
pub fn exponential_retry<T, E, C: Fn() -> Result<T, E>, S: Fn(u64)>(closure: C, sleep: S) -> (res:
    Result<T, RetryError<E>>)
    requires
        closure.requires(()),
        forall|nanos: u64| sleep.requires((nanos,)),
    ensures
        res matches Ok(value) ==> closure.ensures((), Ok(value)),
        res matches Err(e) ==> closure.ensures((), Err(e.error)) && e.tries == MAX_ATTEMPTS,
{
    let mut run = Backoff::new();
    loop
        invariant
            run.failures() < MAX_ATTEMPTS,
            run.delays().len() == MAX_ATTEMPTS,
            closure.requires(()),
            forall|nanos: u64| sleep.requires((nanos,)),
        decreases MAX_ATTEMPTS - run.failures(),
    {
        match closure() {
            Ok(value) => {
                return Ok(value);
            },
            Err(error) => match run.failed() {
                Step::Wait(nanos) => {
                    sleep(nanos);
                },
                Step::GiveUp => {
                    return Err(RetryError { error, tries: run.tries() });
                },
            },
        }
    }
}

/// However the waits fall, no run has more than `MAX_ATTEMPTS` attempts:
/// after that many failures the step is to give up, and it stays so.
pub proof fn lemma_attempts_bounded(delays: Seq<u64>, failures: nat)
    requires
        failures >= MAX_ATTEMPTS,
    ensures
        step_after(delays, failures) == Step::GiveUp,
{
}

/// With a wait for every attempt, each failure short of the last is
/// followed by its wait.
pub proof fn lemma_waits_between_attempts(delays: Seq<u64>, failures: nat)
    requires
        delays.len() >= MAX_ATTEMPTS,
        0 < failures < MAX_ATTEMPTS,
    ensures
        step_after(delays, failures) == Step::Wait(delays[failures - 1]),
{
}

} // verus!
