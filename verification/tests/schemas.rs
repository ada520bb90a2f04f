use challenges::schemas::coding_challenges::{
    check_result_from_stored, step_columns, step_of_columns, CodingChallengeModel,
    CodingChallengeSummary, ResourceUsage, RunSummary, StoredResult, Verdict,
};
use challenges::schemas::subtasks::{Report, ReportModel, ReportReason, Subtask};
use challenges::services::subtasks::{SubtaskModel, SubtaskType};

fn model() -> SubtaskModel {
    SubtaskModel {
        id: 1,
        task_id: 2,
        ty: SubtaskType::CodingChallenge,
        creator: 3,
        creation_timestamp: 1_700_000_000_000_000,
        xp: 50,
        coins: 5,
        fee: 2,
        enabled: true,
        retired: false,
        moderation_removed: false,
    }
}

#[test]
fn a_stored_step_reads_back() {
    let step = RunSummary { status: -9, stderr: "boom".into(), resource_usage: ResourceUsage { time: 1500, memory: 2048 } };
    let (status, stderr, time, memory) = step_columns(Some(step));
    let back = step_of_columns(status, stderr, time, memory).unwrap();
    assert_eq!((back.status, back.stderr.as_str()), (-9, "boom"));
    assert_eq!(back.resource_usage, ResourceUsage { time: 1500, memory: 2048 });
    assert!(step_of_columns(Some(0), None, Some(1), Some(1)).is_none());
    assert_eq!(step_columns(None), (None, None, None, None));
}

#[test]
fn a_stored_result_has_the_complete_steps() {
    let stored = StoredResult {
        submission_id: 7,
        verdict: Verdict::RuntimeError,
        reason: None,
        build_status: None,
        build_stderr: None,
        build_time: None,
        build_memory: None,
        run_status: Some(1),
        run_stderr: Some("trace".into()),
        run_time: Some(10),
        run_memory: Some(20),
    };
    let result = check_result_from_stored(stored);
    assert_eq!(result.verdict, Verdict::RuntimeError);
    assert!(result.compile.is_none());
    let run = result.run.unwrap();
    assert_eq!((run.status, run.stderr.as_str(), run.resource_usage.time), (1, "trace", 10));
}

#[test]
fn a_listing_hides_the_description_until_unlocked() {
    let cc = || CodingChallengeModel {
        subtask_id: 1,
        description: "solve it".into(),
        time_limit: 1000,
        memory_limit: 256,
        static_tests: 10,
        random_tests: 5,
        evaluator: "e".into(),
        solution_environment: "python".into(),
        solution_code: "print()".into(),
    };
    let locked = CodingChallengeSummary::from(cc(), model(), false, false, false);
    assert_eq!(locked.description, None);
    assert_eq!((locked.time_limit, locked.memory_limit, locked.static_tests, locked.random_tests), (1000, 256, 10, 5));
    let unlocked = CodingChallengeSummary::from(cc(), model(), true, true, false);
    assert_eq!(unlocked.description.as_deref(), Some("solve it"));
    assert_eq!((unlocked.xp, unlocked.coins, unlocked.fee), (50, 5, 2));
}

#[test]
fn subtasks_and_reports_show_their_state() {
    let s = Subtask::from(model(), true, false, true);
    assert_eq!((s.id, s.task_id, s.creator, s.xp, s.coins, s.fee), (1, 2, 3, 50, 5, 2));
    assert!(s.unlocked && !s.solved && s.rated && s.enabled);
    let report = Report::from(
        ReportModel {
            id: 9,
            subtask_id: 1,
            user_id: Some(4),
            timestamp: 5,
            reason: ReportReason::Wrong,
            comment: "typo".into(),
            completed_by: Some(6),
            completed_timestamp: Some(7),
        },
        2,
    );
    assert!(report.completed);
    assert_eq!((report.task_id, report.completed_by), (2, Some(6)));
}
