//! The queue of the coding judge: the admission and scheduling settings of
//! the workers, and the claim that a worker holds on a submission.
use vstd::prelude::*;

use crate::Uuid;

verus! {

/// A worker's claim on a submission, fenced by its generation.
#[derive(Clone, Copy, Debug)]
pub struct Claim {
    pub submission: Uuid,
    pub user: Uuid,
    pub owner: Uuid,
    pub generation: i64,
}

/// The settings of coding execution.
#[derive(Clone, Copy, Debug)]
pub struct CodingExecution {
    pub embedded_worker: bool,
    pub max_pending: u32,
    pub max_pending_per_user: u32,
    pub lease_seconds: u32,
    pub poll_milliseconds: u32,
    pub retry_seconds: u32,
    pub max_execution_seconds: u32,
}

impl CodingExecution {
    /// The settings where the configuration names none.
    pub open spec fn defaults() -> CodingExecution {
        CodingExecution {
            embedded_worker: true,
            max_pending: 1024,
            max_pending_per_user: 4,
            lease_seconds: 30,
            poll_milliseconds: 500,
            retry_seconds: 10,
            max_execution_seconds: 600,
        }
    }
}

impl Default for CodingExecution {
    fn default() -> (config: Self)
        ensures
            config == CodingExecution::defaults(),
    {
        CodingExecution {
            embedded_worker: true,
            max_pending: 1024,
            max_pending_per_user: 4,
            lease_seconds: 30,
            poll_milliseconds: 500,
            retry_seconds: 10,
            max_execution_seconds: 600,
        }
    }
}

/// Why the settings of coding execution are refused.
#[derive(PartialEq, Eq, Structural, Clone, Copy, Debug)]
pub enum CodingConfigError {
    Concurrency,
    PendingLimits,
    LeaseSeconds,
    PollMilliseconds,
    Timeouts,
}

/// The first reason, in the order of the checks, why the settings are
/// refused.
pub open spec fn config_error(config: CodingExecution, concurrency: usize) -> Option<CodingConfigError> {
    if !(concurrency > 0 && concurrency <= 1024) {
        Some(CodingConfigError::Concurrency)
    } else if !(config.max_pending > 0 && config.max_pending_per_user > 0) {
        Some(CodingConfigError::PendingLimits)
    } else if !(6 <= config.lease_seconds <= 3600) {
        Some(CodingConfigError::LeaseSeconds)
    } else if !(10 <= config.poll_milliseconds <= 60000) {
        Some(CodingConfigError::PollMilliseconds)
    } else if !(config.retry_seconds > 0 && config.max_execution_seconds > 0) {
        Some(CodingConfigError::Timeouts)
    } else {
        None
    }
}

/// Check the settings of coding execution and the number of execution slots
/// of a worker.
pub fn validate(config: &CodingExecution, concurrency: usize) -> (res: Result<(), CodingConfigError>)
    ensures
        match config_error(*config, concurrency) {
            Some(e) => res == Err::<(), CodingConfigError>(e),
            None => res is Ok,
        },
{
    if !(concurrency > 0 && concurrency <= 1024) {
        return Err(CodingConfigError::Concurrency);
    }
    if !(config.max_pending > 0 && config.max_pending_per_user > 0) {
        return Err(CodingConfigError::PendingLimits);
    }
    if !(6 <= config.lease_seconds && config.lease_seconds <= 3600) {
        return Err(CodingConfigError::LeaseSeconds);
    }
    if !(10 <= config.poll_milliseconds && config.poll_milliseconds <= 60000) {
        return Err(CodingConfigError::PollMilliseconds);
    }
    if !(config.retry_seconds > 0 && config.max_execution_seconds > 0) {
        return Err(CodingConfigError::Timeouts);
    }
    Ok(())
}

impl CodingConfigError {
    /// The message that explains the refusal.
    pub fn message(&self) -> (m: String)
        ensures
            m@ == match *self {
                CodingConfigError::Concurrency => "coding max_concurrency must be 1..=1024"@,
                CodingConfigError::PendingLimits => "coding pending limits must be positive"@,
                CodingConfigError::LeaseSeconds => "coding lease_seconds must be 6..=3600"@,
                CodingConfigError::PollMilliseconds => "coding poll_milliseconds must be 10..=60000"@,
                CodingConfigError::Timeouts => "coding retry and execution timeouts must be positive"@,
            },
    {
        match self {
            CodingConfigError::Concurrency => String::from_str("coding max_concurrency must be 1..=1024"),
            CodingConfigError::PendingLimits => String::from_str("coding pending limits must be positive"),
            CodingConfigError::LeaseSeconds => String::from_str("coding lease_seconds must be 6..=3600"),
            CodingConfigError::PollMilliseconds => String::from_str("coding poll_milliseconds must be 10..=60000"),
            CodingConfigError::Timeouts => String::from_str("coding retry and execution timeouts must be positive"),
        }
    }
}

/// The interval of the heartbeat of a claim, a third of the lease, in
/// seconds; a valid lease renews at least every two seconds and before it
/// runs out.
pub fn heartbeat_seconds(lease_seconds: u32) -> (s: u32)
    ensures
        s == lease_seconds / 3,
        6 <= lease_seconds ==> 2 <= s && s < lease_seconds,
{
    lease_seconds / 3
}

/// The default settings are accepted for every number of execution slots
/// from 1 to 1024, and their heartbeat renews a lease every ten seconds.
pub proof fn lemma_defaults_are_valid(concurrency: usize)
    requires
        1 <= concurrency <= 1024,
    ensures
        config_error(CodingExecution::defaults(), concurrency) is None,
        CodingExecution::defaults().lease_seconds / 3 == 10,
{
}

} // verus!
