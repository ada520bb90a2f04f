//! Reports of subtasks by users: which reasons a user may give, and how a
//! repeated report request is answered.
use vstd::prelude::*;

use crate::schemas::subtasks::ReportReason;
use crate::Uuid;

verus! {

/// Whether a user may report a subtask for this reason: dislikes are filed
/// by the ratings alone.
pub fn reason_allowed(reason: ReportReason) -> (allowed: bool)
    ensures
        allowed == (reason != ReportReason::Dislike),
{
    match reason {
        ReportReason::Dislike => false,
        _ => true,
    }
}

/// How a report request is answered, given the request stored under its key.
#[derive(PartialEq, Eq, Structural, Clone, Copy, Debug)]
pub enum ReportReplay {
    /// No request is stored under the key: the report is filed.
    Fresh,
    /// The same user sent the same request before: the stored receipt is
    /// the answer.
    Replay,
    /// Another user, or another request, holds the key.
    Conflict,
}

/// How a report request is answered, from the user who stored a request
/// under its key and whether the stored request equals this one (`None`:
/// nothing stored).
pub open spec fn replay_answer(stored: Option<(Uuid, bool)>, user: Uuid) -> ReportReplay {
    match stored {
        None => ReportReplay::Fresh,
        Some((actor, same)) => if actor == user && same {
            ReportReplay::Replay
        } else {
            ReportReplay::Conflict
        },
    }
}

/// See [`replay_answer`].
pub fn report_replay(stored: Option<(Uuid, bool)>, user: Uuid) -> (answer: ReportReplay)
    ensures
        answer == replay_answer(stored, user),
{
    match stored {
        None => ReportReplay::Fresh,
        Some((actor, same)) => {
            if actor == user && same {
                ReportReplay::Replay
            } else {
                ReportReplay::Conflict
            }
        },
    }
}

/// A report request that a user repeats is answered with the stored
/// receipt, and nobody else can take over its key.
pub proof fn lemma_replay_is_stable(user: Uuid, other: Uuid)
    requires
        user != other,
    ensures
        replay_answer(Some((user, true)), user) == ReportReplay::Replay,
        replay_answer(Some((user, true)), other) == ReportReplay::Conflict,
        forall|same: bool| replay_answer(Some((user, same)), other) == ReportReplay::Conflict,
{
}

} // verus!
