//! Authoring coding challenges: the limits a challenge may set, and the
//! values an update leaves in place.
use vstd::prelude::*;

use crate::schemas::coding_challenges::ExecutorConfig;

verus! {

/// Why the limits of a coding challenge are refused; each carries the
/// executor's maximum.
#[derive(PartialEq, Eq, Structural, Clone, Copy, Debug)]
pub enum LimitError {
    TimeLimitExceeded(u64),
    MemoryLimitExceeded(u64),
}

/// Check the time limit (milliseconds) and the memory limit (megabytes) of a
/// challenge against the maxima of the executor, the time limit first.
pub fn check_limits(time_limit: u64, memory_limit: u64, config: &ExecutorConfig) -> (res: Result<(), LimitError>)
    ensures
        res == if time_limit > config.time_limit {
            Err::<(), LimitError>(LimitError::TimeLimitExceeded(config.time_limit))
        } else if memory_limit > config.memory_limit {
            Err::<(), LimitError>(LimitError::MemoryLimitExceeded(config.memory_limit))
        } else {
            Ok::<(), LimitError>(())
        },
{
    if time_limit > config.time_limit {
        return Err(LimitError::TimeLimitExceeded(config.time_limit));
    }
    if memory_limit > config.memory_limit {
        return Err(LimitError::MemoryLimitExceeded(config.memory_limit));
    }
    Ok(())
}

/// The value after an update: the new value where the update sets one,
/// otherwise the current value.
pub fn patched<T>(update: Option<T>, current: T) -> (value: T)
    ensures
        value == match update {
            Some(v) => v,
            None => current,
        },
{
    match update {
        Some(v) => v,
        None => current,
    }
}

} // verus!
