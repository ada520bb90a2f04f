//! Submissions of coding challenges: who may submit, how long a user waits
//! between submissions, and what recording the judgment of a submission
//! changes.
use vstd::prelude::*;

use crate::schemas::coding_challenges::Verdict;
use crate::services::subtasks::{owned, solved, UserSubtask};
use crate::Uuid;

verus! {

/// A stored submission of a coding challenge. Timestamps are microseconds
/// since the Unix epoch.
pub struct SubmissionModel {
    pub id: Uuid,
    pub subtask_id: Uuid,
    pub creator: Uuid,
    pub creation_timestamp: i64,
    pub environment: String,
    pub code: String,
    /// Whether a failed judgment costs the submitter hearts.
    pub charge_on_failure: bool,
}

/// How the judge finished a submission.
#[derive(PartialEq, Eq, Structural, Clone, Copy, Debug)]
pub enum JudgeOutcome {
    /// The solution passed every test.
    Passed,
    /// The solution failed a test with this verdict.
    Failed(Verdict),
    /// The check itself failed: no examples, an unknown environment, or an
    /// evaluator that crashed or gave invalid output.
    CheckFailed,
}

/// The new progress of the submitter.
#[derive(PartialEq, Eq, Structural, Clone, Copy, Debug)]
pub struct ProgressUpdate {
    /// The time the subtask was solved, where it is solved now; otherwise the
    /// stored time stays.
    pub solved_timestamp: Option<i64>,
    pub last_attempt_timestamp: i64,
    pub attempts: i32,
}

/// What recording a judgment changes.
#[derive(PartialEq, Eq, Structural, Clone, Copy, Debug)]
pub struct JudgmentPlan {
    /// The progress to store, if it changes.
    pub progress: Option<ProgressUpdate>,
    /// Whether the rewards of the subtask go to the submitter.
    pub send_rewards: bool,
    /// Whether the submission is recorded as a heart debit.
    pub debit_hearts: bool,
    /// The verdict stored as the result of the submission.
    pub verdict: Verdict,
}

/// Why a judgment cannot be recorded.
#[derive(PartialEq, Eq, Structural, Clone, Copy, Debug)]
pub enum JudgmentError {
    /// The check of the submission failed.
    CheckFailed,
}

/// The number of attempts of a user so far.
pub open spec fn attempts_of(progress: Option<UserSubtask>) -> int {
    match progress {
        Some(p) => p.attempts as int,
        None => 0,
    }
}

/// The time of the last attempt that a judgment stores: the later of the
/// stored last attempt (the submission's own time where there is none) and
/// the time of the submission.
pub open spec fn judged_last_attempt(progress: Option<UserSubtask>, created: i64) -> i64 {
    let last = match progress {
        Some(p) => match p.last_attempt_timestamp {
            Some(t) => t,
            None => created,
        },
        None => created,
    };
    if last >= created {
        last
    } else {
        created
    }
}

/// Whether recording the judgment counts one more attempt.
pub open spec fn counts_attempt(already_judged: bool, progress: Option<UserSubtask>, outcome: JudgeOutcome) -> bool {
    !already_judged && match outcome {
        JudgeOutcome::Passed => !solved(progress),
        JudgeOutcome::Failed(_) => true,
        JudgeOutcome::CheckFailed => false,
    }
}

/// What recording the judgment of a submission changes. A submission with a
/// stored result is left alone. A pass stores the verdict `Accepted` and, the
/// first time the subtask is solved, marks it solved at the time of the
/// submission, counts the attempt and sends the rewards unless the submitter
/// created the subtask. A failure counts the attempt, stores its verdict, and
/// is a heart debit where the submission is charged and the verdict is not
/// `Accepted`.
pub open spec fn judgment_plan(
    already_judged: bool,
    progress: Option<UserSubtask>,
    submission: SubmissionModel,
    subtask_creator: Uuid,
    outcome: JudgeOutcome,
) -> Result<Option<JudgmentPlan>, JudgmentError> {
    let last = judged_last_attempt(progress, submission.creation_timestamp);
    let attempts = (attempts_of(progress) + 1) as i32;
    if already_judged {
        Ok(None)
    } else {
        match outcome {
            JudgeOutcome::Passed => if solved(progress) {
                Ok(Some(JudgmentPlan { progress: None, send_rewards: false, debit_hearts: false, verdict: Verdict::Accepted }))
            } else {
                Ok(Some(JudgmentPlan {
                    progress: Some(ProgressUpdate {
                        solved_timestamp: Some(submission.creation_timestamp),
                        last_attempt_timestamp: last,
                        attempts,
                    }),
                    send_rewards: submission.creator != subtask_creator,
                    debit_hearts: false,
                    verdict: Verdict::Accepted,
                }))
            },
            JudgeOutcome::Failed(verdict) => Ok(Some(JudgmentPlan {
                progress: Some(ProgressUpdate { solved_timestamp: None, last_attempt_timestamp: last, attempts }),
                send_rewards: false,
                debit_hearts: submission.charge_on_failure && verdict != Verdict::Accepted,
                verdict,
            })),
            JudgeOutcome::CheckFailed => Err(JudgmentError::CheckFailed),
        }
    }
}

/// What recording the judgment of a submission changes (see
/// [`judgment_plan`]); `Ok(None)` where the submission has a result already.
pub fn record_judgment(
    already_judged: bool,
    progress: Option<&UserSubtask>,
    submission: &SubmissionModel,
    subtask_creator: Uuid,
    outcome: JudgeOutcome,
) -> (res: Result<Option<JudgmentPlan>, JudgmentError>)
    requires
        counts_attempt(already_judged, owned(progress), outcome) ==> attempts_of(owned(progress)) < i32::MAX,
    ensures
        res == judgment_plan(already_judged, owned(progress), *submission, subtask_creator, outcome),
        already_judged ==> res == Ok::<Option<JudgmentPlan>, JudgmentError>(None),
        res matches Ok(Some(plan)) ==> (plan.debit_hearts ==> outcome !is Passed && submission.charge_on_failure),
        res matches Ok(Some(plan)) ==> (plan.send_rewards ==> !solved(owned(progress)) && submission.creator != subtask_creator),
        res matches Ok(Some(plan)) ==> (plan.progress matches Some(u) ==> {
            &&& u.last_attempt_timestamp >= submission.creation_timestamp
            &&& (owned(progress) matches Some(p) ==> (p.last_attempt_timestamp matches Some(t) ==> u.last_attempt_timestamp >= t))
            &&& u.attempts == attempts_of(owned(progress)) + 1
        }),
{
    if already_judged {
        return Ok(None);
    }
    let created = submission.creation_timestamp;
    let stored_last = match progress {
        Some(p) => match p.last_attempt_timestamp {
            Some(t) => t,
            None => created,
        },
        None => created,
    };
    let last = if stored_last >= created {
        stored_last
    } else {
        created
    };
    let previous: i32 = match progress {
        Some(p) => p.attempts,
        None => 0,
    };
    let solved_previously = match progress {
        Some(p) => p.solved_timestamp.is_some(),
        None => false,
    };
    match outcome {
        JudgeOutcome::Passed => {
            if solved_previously {
                Ok(
                    Some(
                        JudgmentPlan {
                            progress: None,
                            send_rewards: false,
                            debit_hearts: false,
                            verdict: Verdict::Accepted,
                        },
                    ),
                )
            } else {
                Ok(
                    Some(
                        JudgmentPlan {
                            progress: Some(
                                ProgressUpdate {
                                    solved_timestamp: Some(created),
                                    last_attempt_timestamp: last,
                                    attempts: previous + 1,
                                },
                            ),
                            send_rewards: submission.creator != subtask_creator,
                            debit_hearts: false,
                            verdict: Verdict::Accepted,
                        },
                    ),
                )
            }
        },
        JudgeOutcome::Failed(verdict) => {
            Ok(
                Some(
                    JudgmentPlan {
                        progress: Some(
                            ProgressUpdate {
                                solved_timestamp: None,
                                last_attempt_timestamp: last,
                                attempts: previous + 1,
                            },
                        ),
                        send_rewards: false,
                        debit_hearts: submission.charge_on_failure && verdict != Verdict::Accepted,
                        verdict,
                    },
                ),
            )
        },
        JudgeOutcome::CheckFailed => Err(JudgmentError::CheckFailed),
    }
}

/// Who is paid and who is charged by a judgment that is recorded for the
/// first time: the rewards go out exactly on a pass by a submitter who did
/// not create the subtask and had not solved it before; hearts are debited
/// exactly on a failure with a verdict other than `Accepted` of a submission
/// that is charged on failure; a pass is stored as `Accepted` and a failure
/// with its own verdict; only a failed check is refused.
pub proof fn lemma_judgment_pays_and_charges(
    progress: Option<UserSubtask>,
    submission: SubmissionModel,
    subtask_creator: Uuid,
    outcome: JudgeOutcome,
)
    ensures
        outcome != JudgeOutcome::CheckFailed ==> judgment_plan(false, progress, submission, subtask_creator, outcome) is Ok,
        outcome == JudgeOutcome::CheckFailed ==> judgment_plan(false, progress, submission, subtask_creator, outcome)
            == Err::<Option<JudgmentPlan>, JudgmentError>(JudgmentError::CheckFailed),
        judgment_plan(false, progress, submission, subtask_creator, outcome) matches Ok(r) ==> (r matches Some(plan)
            && (plan.send_rewards <==> (outcome == JudgeOutcome::Passed && !(progress matches Some(p)
            && p.solved_timestamp is Some) && submission.creator != subtask_creator))
            && (plan.debit_hearts <==> (outcome matches JudgeOutcome::Failed(v) && v != Verdict::Accepted
            && submission.charge_on_failure))
            && (outcome == JudgeOutcome::Passed ==> plan.verdict == Verdict::Accepted)
            && (outcome matches JudgeOutcome::Failed(v) ==> plan.verdict == v)),
        judgment_plan(false, progress, submission, subtask_creator, outcome) matches Ok(Some(plan)) ==> (
        plan.progress is Some <==> !(outcome == JudgeOutcome::Passed && (progress matches Some(p)
            && p.solved_timestamp is Some))),
        judgment_plan(false, progress, submission, subtask_creator, outcome) matches Ok(Some(plan)) ==> (
        plan.progress matches Some(u) ==> (u.solved_timestamp is Some <==> outcome == JudgeOutcome::Passed) && (
        outcome == JudgeOutcome::Passed ==> u.solved_timestamp == Some(submission.creation_timestamp))),
        (progress matches Some(p) ==> 0 <= p.attempts < i32::MAX) ==> (judgment_plan(
            false,
            progress,
            submission,
            subtask_creator,
            outcome,
        ) matches Ok(Some(plan)) ==> (plan.progress matches Some(u) ==> u.attempts == match progress {
            Some(p) => p.attempts + 1,
            None => 1,
        })),
{
}

/// Recording a judgment a second time changes nothing: once the result of a
/// submission is stored, recording it again is a no-op, whatever the judge
/// reported.
pub proof fn lemma_judgment_is_recorded_once(
    progress: Option<UserSubtask>,
    submission: SubmissionModel,
    subtask_creator: Uuid,
    outcome: JudgeOutcome,
)
    ensures
        judgment_plan(true, progress, submission, subtask_creator, outcome) == Ok::<Option<JudgmentPlan>, JudgmentError>(None),
{
}

/// The rewards of a subtask are sent at most once per user: after a passing
/// judgment has marked the subtask solved, a later pass sends nothing and
/// stores no progress.
pub proof fn lemma_rewards_once(
    progress: Option<UserSubtask>,
    first: SubmissionModel,
    second: SubmissionModel,
    subtask_creator: Uuid,
    update: ProgressUpdate,
)
    requires
        progress matches Some(p) ==> p.attempts < i32::MAX,
        judgment_plan(false, progress, first, subtask_creator, JudgeOutcome::Passed) matches Ok(Some(plan))
            && plan.progress == Some(update),
    ensures
        forall|after: UserSubtask|
            after.solved_timestamp == update.solved_timestamp ==> #[trigger] judgment_plan(
                false,
                Some(after),
                second,
                subtask_creator,
                JudgeOutcome::Passed,
            ) == Ok::<Option<JudgmentPlan>, JudgmentError>(
                Some(JudgmentPlan { progress: None, send_rewards: false, debit_hearts: false, verdict: Verdict::Accepted }),
            ),
{
}

/// The seconds a user still waits before the next submission, from the
/// configured timeout in seconds (taken as an `i64`) and the seconds since
/// the last attempt; `None` where no wait remains.
pub fn submission_wait(timeout: u64, elapsed_seconds: i64) -> (wait: Option<u64>)
    requires
        i64::MIN <= (timeout as i64) - elapsed_seconds <= i64::MAX,
    ensures
        wait == if (timeout as i64) - elapsed_seconds > 0 {
            Some(((timeout as i64) - elapsed_seconds) as u64)
        } else {
            None::<u64>
        },
{
    let left = timeout as i64 - elapsed_seconds;
    if left > 0 {
        Some(left as u64)
    } else {
        None
    }
}

} // verus!
