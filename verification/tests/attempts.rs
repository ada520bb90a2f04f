use challenges::endpoints::attempts::{
    attempt_family, attempt_source, attempt_visible, elapsed_seconds, quiz_effects, quiz_wait,
    still_pending, AttemptFamily, QuizEffects,
};
use challenges::services::subtasks::{SubtaskModel, SubtaskType, User};

fn subtask(ty: SubtaskType, enabled: bool, removed: bool) -> SubtaskModel {
    SubtaskModel {
        id: 1,
        task_id: 2,
        ty,
        creator: 3,
        creation_timestamp: 0,
        xp: 10,
        coins: 5,
        fee: 0,
        enabled,
        retired: false,
        moderation_removed: removed,
    }
}

fn user(id: u128, admin: bool) -> User {
    User { id, email_verified: true, admin }
}

#[test]
fn path_segments_name_the_families() {
    assert_eq!(attempt_family("multiple_choice"), Some(AttemptFamily::MultipleChoice));
    assert_eq!(attempt_family("matchings"), Some(AttemptFamily::Matchings));
    assert_eq!(attempt_family("questions"), Some(AttemptFamily::Questions));
    assert_eq!(attempt_family("coding_challenges"), None);
    assert_eq!(attempt_family("Questions"), None);
    assert_eq!(
        attempt_source(AttemptFamily::Matchings),
        ("challenges_matching_attempts", "matching_id", SubtaskType::Matching)
    );
}

#[test]
fn attempts_are_read_only_through_the_right_family() {
    let s = subtask(SubtaskType::Question, true, false);
    assert!(attempt_visible(&s, AttemptFamily::Questions, &user(8, false)));
    assert!(!attempt_visible(&s, AttemptFamily::Matchings, &user(8, false)));
    let removed = subtask(SubtaskType::Question, true, true);
    assert!(!attempt_visible(&removed, AttemptFamily::Questions, &user(3, false)));
    assert!(attempt_visible(&removed, AttemptFamily::Questions, &user(8, true)));
    let disabled = subtask(SubtaskType::Question, false, false);
    assert!(attempt_visible(&disabled, AttemptFamily::Questions, &user(3, false)));
    assert!(!attempt_visible(&disabled, AttemptFamily::Questions, &user(8, false)));
    assert!(!still_pending(true, true));
    assert!(still_pending(true, false));
}

#[test]
fn elapsed_seconds_round_toward_zero() {
    assert_eq!(elapsed_seconds(2_500_000, 0), 2);
    assert_eq!(elapsed_seconds(0, 2_500_000), -2);
    assert_eq!(elapsed_seconds(999_999, 0), 0);
}

#[test]
fn each_attempt_adds_to_the_wait() {
    assert_eq!(quiz_wait(10, 3, 12, false), Some(18));
    assert_eq!(quiz_wait(10, 3, 30, false), None);
    assert_eq!(quiz_wait(10, 3, 12, true), None);
    assert_eq!(quiz_wait(10, 0, 0, false), None);
}

#[test]
fn a_solved_subtask_is_solved_once() {
    let s = subtask(SubtaskType::Matching, true, false);
    let first = quiz_effects(false, true, false, &user(8, false), &s);
    assert_eq!(first, QuizEffects { mark_solved: true, mark_unlocked: true, send_rewards: true, record_attempt: true });
    let later = quiz_effects(true, true, true, &user(8, false), &s);
    assert_eq!(later, QuizEffects { mark_solved: false, mark_unlocked: false, send_rewards: false, record_attempt: false });
    let by_creator = quiz_effects(false, true, true, &user(3, false), &s);
    assert!(!by_creator.send_rewards && by_creator.mark_solved && !by_creator.mark_unlocked);
    let wrong = quiz_effects(false, false, false, &user(8, false), &s);
    assert_eq!(wrong, QuizEffects { mark_solved: false, mark_unlocked: false, send_rewards: false, record_attempt: true });
}
