use challenges::schemas::subtasks::ReportReason;
use challenges::services::moderation::{
    case_to_open, effective_subtask, provisional_rationale, reason_name, report_source,
    urgent_triage, CaseKind, ModerationState,
};
use challenges::services::subtasks::{SubtaskModel, SubtaskType};

#[test]
fn cases_need_a_known_source_and_object_evidence() {
    assert_eq!(case_to_open("subtask", "own_review", true), Some(CaseKind::Subtask));
    assert_eq!(case_to_open("report", "authority_order", true), Some(CaseKind::User));
    assert_eq!(case_to_open("create", "email_notice", true), Some(CaseKind::User));
    assert_eq!(case_to_open("subtask", "rumour", true), None);
    assert_eq!(case_to_open("subtask", "own_review", false), None);
    assert_eq!(case_to_open("task", "own_review", true), None);
}

#[test]
fn reports_become_cases() {
    assert_eq!(report_source(ReportReason::Dislike), "rating_threshold");
    assert_eq!(report_source(ReportReason::Wrong), "user_report");
    assert!(urgent_triage(ReportReason::Abuse));
    assert!(!urgent_triage(ReportReason::Dislike));
    assert_eq!(reason_name(ReportReason::UnrelatedSkill), "UnrelatedSkill");
}

#[test]
fn only_a_confirmed_basis_hides_provisionally() {
    assert_eq!(provisional_rationale(ReportReason::Dislike, 12, 3, false), None);
    assert_eq!(provisional_rationale(ReportReason::Abuse, 12, 3, true), None);
    assert_eq!(
        provisional_rationale(ReportReason::Dislike, 12, 3, true).as_deref(),
        Some("Die Aufgabe hat 12 negative und 3 positive Bewertungen. Damit ist die Grenze für eine automatische Qualitätsprüfung erreicht: mindestens 10 negative und mehr negative als positive Bewertungen.")
    );
    assert!(provisional_rationale(ReportReason::Wrong, 0, 0, true).unwrap().starts_with("Die Aufgabe oder ihre Lösung"));
}

#[test]
fn moderation_overrides_only_the_visibility() {
    let row = SubtaskModel {
        id: 1,
        task_id: 2,
        ty: SubtaskType::Cloze,
        creator: 3,
        creation_timestamp: 4,
        xp: 5,
        coins: 6,
        fee: 7,
        enabled: true,
        retired: false,
        moderation_removed: false,
    };
    let hidden = effective_subtask(row, Some(ModerationState { enabled: false, retired: true, removed: true }));
    assert!(!hidden.enabled && hidden.retired && hidden.moderation_removed);
    assert_eq!((hidden.id, hidden.xp, hidden.fee), (1, 5, 7));
    let same = effective_subtask(row, None);
    assert!(same.enabled && !same.retired && !same.moderation_removed);
}
