//! Repetition of an operation that failed.
use vstd::prelude::*;
use crate::random::random_between;
use crate::types::Decimal;

verus! {

/// How often an operation is tried and how long to wait in between.
pub struct RetryConfig {
    pub max_attempts: u32,
    pub initial_delay_ms: u64,
    pub max_delay_ms: u64,
    /// The factor by which the delay grows.
    pub multiplier: Decimal,
}

impl Default for RetryConfig {
    fn default() -> (r: RetryConfig)
        ensures
            r.max_attempts == 3,
            r.initial_delay_ms == 500,
            r.max_delay_ms == 5000,
            r.multiplier@ == "2.0"@,
    {
        RetryConfig {
            max_attempts: 3,
            initial_delay_ms: 500,
            max_delay_ms: 5000,
            multiplier: "2.0".to_owned(),
        }
    }
}

/// What to do after a failure.
#[derive(Debug, Clone, Copy, PartialEq, Eq, Structural)]
pub enum AfterFailure {
    /// Return the error.
    GiveUp,
    /// Wait, then try again.
    WaitMs(u64),
}

/// How many failures there were, and the delay behind the next one.
#[derive(Debug, Clone, Copy, PartialEq, Eq, Structural)]
pub struct RetryState {
    pub attempt: u32,
    pub delay_ms: u64,
}

impl RetryState {
    /// The state before the first try.
    pub fn start(config: &RetryConfig) -> (r: RetryState)
        ensures
            r.attempt == 0,
            r.delay_ms == config.initial_delay_ms,
    {
        RetryState { attempt: 0, delay_ms: config.initial_delay_ms }
    }

    /// Whether another try is allowed after one more failure.
    pub fn has_tries_left(&self, config: &RetryConfig) -> (r: bool)
        ensures
            r == (self.attempt + 1 < config.max_attempts),
    {
        (self.attempt as u64) + 1 < config.max_attempts as u64
    }

    /// Draws by how much the next delay falls short.
    pub fn draw(&self) -> (r: u64)
        ensures
            r <= most_jitter(self.delay_ms),
    {
        random_between(0, self.delay_ms / 2)
    }

    /// Takes note of a failure. `retryable` says of the error, together with
    /// the number of failures, whether another try makes sense; `grown_ms` is
    /// the delay times the multiplier, and `drawn` is by how much the wait falls
    /// short of the delay.
    pub fn after_failure(self, config: &RetryConfig, retryable: bool, grown_ms: u64, drawn: u64) -> (r:
        (RetryState, AfterFailure))
        requires
            self.attempt < u32::MAX,
            drawn <= most_jitter(self.delay_ms),
        ensures
            r == failed(self, *config, retryable, grown_ms, drawn),
            r.1 matches AfterFailure::WaitMs(ms) ==> self.delay_ms - most_jitter(self.delay_ms) <= ms
                <= self.delay_ms,
    {
        let attempt: u32 = self.attempt + 1;
        if attempt >= config.max_attempts || !retryable {
            return (RetryState { attempt, delay_ms: self.delay_ms }, AfterFailure::GiveUp);
        }
        let next: u64 = if grown_ms <= config.max_delay_ms {
            grown_ms
        } else {
            config.max_delay_ms
        };
        (RetryState { attempt, delay_ms: next }, AfterFailure::WaitMs(self.delay_ms - drawn))
    }
}

/// By how much a wait falls short of its delay at most: by half of it.
pub open spec fn most_jitter(delay_ms: u64) -> u64 {
    delay_ms / 2
}

/// The state behind a failure and what to do: another try, unless there were enough or
/// none makes sense. The wait before it falls short of the delay by what was drawn. The
/// next delay is the grown one, up to the longest.
pub open spec fn failed(
    st: RetryState,
    config: RetryConfig,
    retryable: bool,
    grown_ms: u64,
    drawn: u64,
) -> (RetryState, AfterFailure) {
    let attempt = (st.attempt + 1) as u32;
    if attempt >= config.max_attempts || !retryable {
        (RetryState { attempt, delay_ms: st.delay_ms }, AfterFailure::GiveUp)
    } else {
        let next = if grown_ms <= config.max_delay_ms {
            grown_ms
        } else {
            config.max_delay_ms
        };
        (
            RetryState { attempt, delay_ms: next },
            AfterFailure::WaitMs((st.delay_ms - drawn) as u64),
        )
    }
}

/// The state behind so many failures for which another try made sense. Of each failure,
/// the grown delay and what was drawn.
pub open spec fn failed_often(config: RetryConfig, failures: Seq<(u64, u64)>) -> (
    RetryState,
    AfterFailure,
)
    decreases failures.len(),
{
    let start = RetryState { attempt: 0, delay_ms: config.initial_delay_ms };
    if failures.len() == 0 {
        (start, AfterFailure::WaitMs(0))
    } else {
        failed(
            failed_often(config, failures.drop_last()).0,
            config,
            true,
            failures.last().0,
            failures.last().1,
        )
    }
}

/// Whether what was drawn at each failure could be drawn there.
pub open spec fn drawn_right(config: RetryConfig, failures: Seq<(u64, u64)>) -> bool
    decreases failures.len(),
{
    failures.len() > 0 ==> {
        &&& drawn_right(config, failures.drop_last())
        &&& failures.last().1 <= most_jitter(failed_often(config, failures.drop_last()).0.delay_ms)
    }
}

/// There are never more tries than are allowed, and no wait but the first is longer
/// than the longest delay.
pub proof fn law_tries_are_bounded(config: RetryConfig, failures: Seq<(u64, u64)>)
    requires
        0 < failures.len() <= u32::MAX,
        drawn_right(config, failures),
    ensures
        failed_often(config, failures).0.attempt == failures.len(),
        failed_often(config, failures).1 is GiveUp <==> failures.len() >= config.max_attempts,
        failures.len() > 1 ==> (failed_often(config, failures).1 matches AfterFailure::WaitMs(ms)
            ==> ms <= config.max_delay_ms),
    decreases failures.len(),
{
    if failures.len() > 1 {
        law_tries_are_bounded(config, failures.drop_last());
    }
    reveal_with_fuel(failed_often, 2);
}

/// Two draws for one delay make two waits, each between half of the delay and all of it,
/// and the delay that follows does not depend on what was drawn.
pub proof fn law_waits_vary(
    st: RetryState,
    config: RetryConfig,
    grown_ms: u64,
    drawn: u64,
    other: u64,
)
    requires
        st.attempt + 1 < config.max_attempts,
        drawn <= most_jitter(st.delay_ms),
        other <= most_jitter(st.delay_ms),
        drawn != other,
    ensures
        ({
            let a = failed(st, config, true, grown_ms, drawn);
            let b = failed(st, config, true, grown_ms, other);
            &&& a.1 is WaitMs && b.1 is WaitMs
            &&& a.1 != b.1
            &&& a.0 == b.0
            &&& st.delay_ms <= 2 * a.1->WaitMs_0 && a.1->WaitMs_0 <= st.delay_ms
        }),
{
}

/// While tries are left and another makes sense there is another: after no more than the delay
/// and no less than half of it, and the next delay is the grown one as far as it is not too
/// long. Where none makes sense, or none is left, there is none, and every failure counts.
pub proof fn law_tries_go_on_while_they_make_sense(
    st: RetryState,
    config: RetryConfig,
    retryable: bool,
    grown_ms: u64,
    drawn: u64,
)
    requires
        st.attempt < u32::MAX,
        drawn <= st.delay_ms / 2,
    ensures
        ({
            let (next, action) = failed(st, config, retryable, grown_ms, drawn);
            &&& next.attempt == st.attempt + 1
            &&& action is GiveUp <==> !retryable || st.attempt + 1 >= config.max_attempts
            &&& action is WaitMs ==> {
                &&& action->WaitMs_0 + drawn == st.delay_ms
                &&& next.delay_ms <= config.max_delay_ms
                &&& grown_ms <= config.max_delay_ms ==> next.delay_ms == grown_ms
                &&& grown_ms >= config.max_delay_ms ==> next.delay_ms == config.max_delay_ms
            }
        }),
{
}

/// A wait falls short of its delay by half of it at most, and can fall short by that much.
pub proof fn law_wait_is_half_of_the_delay_at_least(delay_ms: u64)
    ensures
        2 * most_jitter(delay_ms) <= delay_ms,
        delay_ms <= 2 * most_jitter(delay_ms) + 1,
{
}

} // verus!
