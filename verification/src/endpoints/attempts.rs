//! Attempts at quiz subtasks (multiple choice questions, matchings and
//! questions): reading an attempt back, the wait between attempts, and what
//! an attempt changes.
use vstd::prelude::*;

use crate::services::subtasks::{hidden_after_moderation, SubtaskModel, SubtaskType, User};
use crate::services::subtasks::quotient_toward_zero;
use crate::text::text_eq;

verus! {

/// The kinds of subtasks whose attempts can be read back, by their path
/// segment.
#[derive(PartialEq, Eq, Structural, Clone, Copy, Debug)]
pub enum AttemptFamily {
    MultipleChoice,
    Matchings,
    Questions,
}

/// The family named by a path segment, if any.
pub open spec fn family_of(kind: Seq<char>) -> Option<AttemptFamily> {
    if kind == "multiple_choice"@ {
        Some(AttemptFamily::MultipleChoice)
    } else if kind == "matchings"@ {
        Some(AttemptFamily::Matchings)
    } else if kind == "questions"@ {
        Some(AttemptFamily::Questions)
    } else {
        None
    }
}

/// The family named by a path segment, if any.
pub fn attempt_family(kind: &str) -> (family: Option<AttemptFamily>)
    ensures
        family == family_of(kind@),
{
    if text_eq(kind, "multiple_choice") {
        Some(AttemptFamily::MultipleChoice)
    } else if text_eq(kind, "matchings") {
        Some(AttemptFamily::Matchings)
    } else if text_eq(kind, "questions") {
        Some(AttemptFamily::Questions)
    } else {
        None
    }
}

/// Where the attempts of a family are stored: the table, the column that
/// names the subtask, and the type of the subtask.
pub open spec fn source_of(family: AttemptFamily) -> (Seq<char>, Seq<char>, SubtaskType) {
    match family {
        AttemptFamily::MultipleChoice => (
            "challenges_multiple_choice_attempts"@,
            "question_id"@,
            SubtaskType::MultipleChoiceQuestion,
        ),
        AttemptFamily::Matchings => ("challenges_matching_attempts"@, "matching_id"@, SubtaskType::Matching),
        AttemptFamily::Questions => ("challenges_question_attempts"@, "question_id"@, SubtaskType::Question),
    }
}

/// Where the attempts of a family are stored (see [`source_of`]).
pub fn attempt_source(family: AttemptFamily) -> (source: (&'static str, &'static str, SubtaskType))
    ensures
        (source.0@, source.1@, source.2) == source_of(family),
{
    match family {
        AttemptFamily::MultipleChoice => (
            "challenges_multiple_choice_attempts",
            "question_id",
            SubtaskType::MultipleChoiceQuestion,
        ),
        AttemptFamily::Matchings => ("challenges_matching_attempts", "matching_id", SubtaskType::Matching),
        AttemptFamily::Questions => ("challenges_question_attempts", "question_id", SubtaskType::Question),
    }
}

/// Whether a user may read an attempt at a subtask through a family's path:
/// the subtask is of that family's type and not hidden from the user.
pub fn attempt_visible(subtask: &SubtaskModel, family: AttemptFamily, user: &User) -> (visible: bool)
    ensures
        visible == (subtask.ty == source_of(family).2 && !(!user.admin && (subtask.moderation_removed || (
        user.id != subtask.creator && !subtask.enabled)))),
{
    let (_, _, ty) = attempt_source(family);
    ty == subtask.ty && !hidden_after_moderation(user, subtask)
}

/// Whether an attempt read back still has hearts pending: it had, and the
/// settlement tried on reading did not settle it.
pub fn still_pending(pending: bool, settled_now: bool) -> (still: bool)
    ensures
        still == (pending && !settled_now),
{
    pending && !settled_now
}

/// The whole seconds between two times in microseconds since the Unix
/// epoch, rounded toward zero (`TimeDelta::num_seconds`).
pub fn elapsed_seconds(now: i64, then: i64) -> (s: i64)
    requires
        i64::MIN <= now - then <= i64::MAX,
    ensures
        s == quotient_toward_zero(now - then, 1_000_000),
{
    let d = now - then;
    d / 1_000_000
}

/// The seconds a user still waits before the next attempt at a quiz
/// subtask: each previous attempt adds `timeout_incr` seconds, counted from
/// the last attempt. A user who solved the subtask, or has no attempt yet,
/// does not wait.
pub open spec fn quiz_wait_of(timeout_incr: u64, previous: nat, elapsed: int, solved_previously: bool) -> Option<u64> {
    let left = (timeout_incr as i64) * (previous as i64) - elapsed;
    if previous == 0 || solved_previously || left <= 0 {
        None
    } else {
        Some(left as u64)
    }
}

/// See [`quiz_wait_of`].
pub fn quiz_wait(timeout_incr: u64, previous: usize, elapsed: i64, solved_previously: bool) -> (wait: Option<u64>)
    requires
        previous > 0 ==> i64::MIN <= (timeout_incr as i64) * (previous as i64) <= i64::MAX,
        previous > 0 ==> i64::MIN <= (timeout_incr as i64) * (previous as i64) - elapsed <= i64::MAX,
    ensures
        wait == quiz_wait_of(timeout_incr, previous as nat, elapsed as int, solved_previously),
{
    if previous == 0 {
        return None;
    }
    let left = (timeout_incr as i64) * (previous as i64) - elapsed;
    if !solved_previously && left > 0 {
        Some(left as u64)
    } else {
        None
    }
}

/// What an attempt at a quiz subtask changes.
#[derive(PartialEq, Eq, Structural, Clone, Copy, Debug)]
pub struct QuizEffects {
    /// The subtask is marked solved now.
    pub mark_solved: bool,
    /// The subtask is marked unlocked now, where it was not unlocked before.
    pub mark_unlocked: bool,
    /// The rewards of the subtask go to the user.
    pub send_rewards: bool,
    /// The attempt is stored.
    pub record_attempt: bool,
}

/// What an attempt changes: nothing once the subtask is solved; otherwise the
/// attempt is stored, and a solving attempt marks the subtask solved (and
/// unlocked, where it was not), and sends the rewards unless the user
/// created the subtask.
pub open spec fn quiz_effects_of(solved_previously: bool, solved: bool, unlocked: bool, by_creator: bool) -> QuizEffects {
    if solved_previously {
        QuizEffects { mark_solved: false, mark_unlocked: false, send_rewards: false, record_attempt: false }
    } else {
        QuizEffects {
            mark_solved: solved,
            mark_unlocked: solved && !unlocked,
            send_rewards: solved && !by_creator,
            record_attempt: true,
        }
    }
}

/// See [`quiz_effects_of`].
pub fn quiz_effects(solved_previously: bool, solved: bool, unlocked: bool, user: &User, subtask: &SubtaskModel) -> (effects: QuizEffects)
    ensures
        effects == quiz_effects_of(solved_previously, solved, unlocked, user.id == subtask.creator),
{
    if solved_previously {
        QuizEffects { mark_solved: false, mark_unlocked: false, send_rewards: false, record_attempt: false }
    } else {
        QuizEffects {
            mark_solved: solved,
            mark_unlocked: solved && !unlocked,
            send_rewards: solved && user.id != subtask.creator,
            record_attempt: true,
        }
    }
}

/// A subtask is solved once: after an attempt that marks it solved, every
/// later attempt changes nothing, so its rewards are sent at most once and
/// only one solving attempt is stored.
pub proof fn lemma_solved_once(unlocked: bool, by_creator: bool, later_solved: bool, later_unlocked: bool)
    ensures
        quiz_effects_of(false, true, unlocked, by_creator).mark_solved,
        quiz_effects_of(true, later_solved, later_unlocked, by_creator) == (QuizEffects {
            mark_solved: false,
            mark_unlocked: false,
            send_rewards: false,
            record_attempt: false,
        }),
{
}

} // verus!
