use challenges::endpoints::cloze::{cloze_changed, stored_definitions, ClozeBlankRow, CreateClozeBlank};
use challenges::endpoints::feedback::{auto_report_comment, auto_report_due};
use challenges::endpoints::reports::{reason_allowed, report_replay, ReportReplay};
use challenges::schemas::subtasks::{Rating, ReportReason};
use challenges::services::benefits::{delivery_state, xp_components};
use challenges::services::coding_execution::{validate, CodingExecution};
use challenges::services::hearts::{parse_state, state_text, HeartOperationState};
use challenges::services::subtasks::{
    can_create, check_creation, unlock_step, update_subtask, ActiveBan, CreateSubtaskError,
    SubtaskModel, SubtaskType, SubtaskUpdate, UnlockStep,
};

fn row(placeholder: i32, answer: &str, option: Option<u128>) -> ClozeBlankRow {
    ClozeBlankRow {
        id: placeholder as u128,
        placeholder,
        answer: answer.into(),
        synonyms: vec!["syn".into()],
        correct_option_id: option,
    }
}

#[test]
fn stored_blanks_give_back_their_definitions() {
    let defs = stored_definitions(&vec![row(1, "a", Some(20)), row(2, "b", Some(99)), row(3, "c", None)], &vec![10, 20, 30]);
    assert_eq!(defs.len(), 3);
    assert_eq!((defs[0].placeholder, defs[0].answer.as_str(), defs[0].option_index), (1, "a", Some(1)));
    assert_eq!(defs[0].synonyms, vec!["syn".to_string()]);
    assert_eq!(defs[1].option_index, None);
    assert_eq!(defs[2].option_index, None);
}

#[test]
fn an_update_without_changes_is_no_change() {
    let blank = CreateClozeBlank { placeholder: 1, answer: "a".into(), synonyms: vec![], option_index: None };
    let content = "{{blank_1}}".to_string();
    let options: Vec<String> = vec![];
    assert!(!cloze_changed(&content, false, &vec![blank.clone()], &options, &content, false, &vec![blank.clone()], &options));
    let other = CreateClozeBlank { answer: "b".into(), ..blank.clone() };
    assert!(cloze_changed(&content, false, &vec![other], &options, &content, false, &vec![blank.clone()], &options));
    assert!(cloze_changed(&content, true, &vec![blank.clone()], &options, &content, false, &vec![blank], &options));
}

#[test]
fn many_dislikes_file_one_report() {
    assert!(auto_report_due(Rating::Negative, 2, 10, false));
    assert!(!auto_report_due(Rating::Negative, 2, 10, true));
    assert!(!auto_report_due(Rating::Positive, 2, 10, false));
    assert!(!auto_report_due(Rating::Negative, 10, 10, false));
    assert_eq!(
        auto_report_comment(11, 2),
        "11 negative und 2 positive Bewertungen (mindestens 10 negative und mehr negative als positive Bewertungen)."
    );
}

#[test]
fn repeated_report_requests_replay() {
    assert!(!reason_allowed(ReportReason::Dislike));
    assert!(reason_allowed(ReportReason::Abuse));
    assert_eq!(report_replay(None, 1), ReportReplay::Fresh);
    assert_eq!(report_replay(Some((1, true)), 1), ReportReplay::Replay);
    assert_eq!(report_replay(Some((1, false)), 1), ReportReplay::Conflict);
    assert_eq!(report_replay(Some((2, true)), 1), ReportReplay::Conflict);
}

#[test]
fn earnings_split_xp_and_deliveries_are_classified() {
    assert_eq!(xp_components(10, 3), vec![3, 3, 3]);
    assert_eq!(xp_components(-7, 2), vec![-3, -3]);
    assert!(xp_components(0, 3).is_empty());
    assert_eq!(delivery_state(Some("applied")), ("applied", true));
    assert_eq!(delivery_state(Some("recipient_erased")), ("review", false));
    assert_eq!(delivery_state(Some("review")), ("review", false));
    assert_eq!(delivery_state(Some("queued")), ("uncertain", false));
    assert_eq!(delivery_state(None), ("uncertain", false));
}

#[test]
fn heart_states_read_back_as_stored() {
    for state in [
        HeartOperationState::Pending,
        HeartOperationState::Settled,
        HeartOperationState::Review,
        HeartOperationState::Other,
    ] {
        assert_eq!(parse_state(state_text(state)), state);
    }
    assert_eq!(parse_state("weird"), HeartOperationState::Other);
}

#[test]
fn the_default_execution_settings_are_valid() {
    let defaults = CodingExecution::default();
    assert!(defaults.embedded_worker);
    assert_eq!((defaults.max_pending, defaults.max_pending_per_user), (1024, 4));
    assert_eq!((defaults.lease_seconds, defaults.poll_milliseconds), (30, 500));
    assert_eq!((defaults.retry_seconds, defaults.max_execution_seconds), (10, 600));
    assert_eq!(validate(&defaults, 1), Ok(()));
    assert_eq!(validate(&defaults, 1024), Ok(()));
}

#[test]
fn creating_subtasks_needs_levels_limits_and_no_ban() {
    assert!(can_create(true, true, &[], 3));
    assert!(!can_create(true, false, &[], 3));
    assert!(can_create(false, false, &[Some(3), Some(5)], 3));
    assert!(!can_create(false, false, &[Some(3), None], 3));
    assert!(!can_create(false, false, &[Some(2)], 3));
    assert!(can_create(false, true, &[None], 3));
    assert_eq!(check_creation(false, true, false, None, None, 10, 5, ActiveBan::NotBanned), Err(CreateSubtaskError::Forbidden));
    assert_eq!(check_creation(true, true, false, Some(20), None, 10, 5, ActiveBan::Permanent), Err(CreateSubtaskError::XpLimitExceeded(10)));
    assert_eq!(check_creation(true, true, false, None, None, 10, 5, ActiveBan::Temporary(99)), Err(CreateSubtaskError::Banned(Some(99))));
    assert_eq!(check_creation(true, true, false, None, Some(1), 10, 5, ActiveBan::NotBanned), Ok((10, 1)));
}

#[test]
fn updates_and_unlocks() {
    let subtask = SubtaskModel {
        id: 1,
        task_id: 2,
        ty: SubtaskType::Question,
        creator: 3,
        creation_timestamp: 4,
        xp: 5,
        coins: 6,
        fee: 7,
        enabled: true,
        retired: false,
        moderation_removed: false,
    };
    let none = SubtaskUpdate { task_id: None, xp: None, coins: None, enabled: None, retired: None };
    let same = update_subtask(subtask, none);
    assert_eq!((same.task_id, same.xp, same.coins, same.enabled, same.retired), (2, 5, 6, true, false));
    let changed = update_subtask(subtask, SubtaskUpdate { task_id: Some(9), xp: Some(50), coins: None, enabled: Some(false), retired: None });
    assert_eq!((changed.task_id, changed.xp, changed.coins, changed.enabled, changed.fee), (9, 50, 6, false, 7));
    assert_eq!(unlock_step(0, false), UnlockStep::Open);
    assert_eq!(unlock_step(5, true), UnlockStep::Open);
    assert_eq!(unlock_step(5, false), UnlockStep::Charge(-5));
}
