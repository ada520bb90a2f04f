use challenges::endpoints::submissions::{
    record_judgment, submission_wait, JudgeOutcome, JudgmentError, JudgmentPlan, ProgressUpdate,
    SubmissionModel,
};
use challenges::schemas::coding_challenges::Verdict;
use challenges::services::subtasks::UserSubtask;

const SUBMITTER: u128 = 7;
const CREATOR: u128 = 9;

fn submission(created: i64, charge: bool) -> SubmissionModel {
    SubmissionModel {
        id: 1,
        subtask_id: 2,
        creator: SUBMITTER,
        creation_timestamp: created,
        environment: "python".into(),
        code: "print(1)".into(),
        charge_on_failure: charge,
    }
}

fn progress(solved: Option<i64>, last: Option<i64>, attempts: i32) -> UserSubtask {
    UserSubtask {
        user_id: SUBMITTER,
        subtask_id: 2,
        unlocked_timestamp: None,
        solved_timestamp: solved,
        last_attempt_timestamp: last,
        attempts,
        rating_timestamp: None,
    }
}

#[test]
fn a_judged_submission_is_left_alone() {
    let p = progress(None, Some(5), 1);
    assert_eq!(
        record_judgment(true, Some(&p), &submission(10, true), CREATOR, JudgeOutcome::Failed(Verdict::WrongAnswer)),
        Ok(None)
    );
}

#[test]
fn a_first_pass_solves_counts_and_rewards() {
    let p = progress(None, Some(50), 2);
    assert_eq!(
        record_judgment(false, Some(&p), &submission(10, true), CREATOR, JudgeOutcome::Passed),
        Ok(Some(JudgmentPlan {
            progress: Some(ProgressUpdate { solved_timestamp: Some(10), last_attempt_timestamp: 50, attempts: 3 }),
            send_rewards: true,
            debit_hearts: false,
            verdict: Verdict::Accepted,
        }))
    );
}

#[test]
fn a_later_pass_changes_no_progress_and_sends_nothing() {
    let p = progress(Some(3), Some(3), 4);
    assert_eq!(
        record_judgment(false, Some(&p), &submission(10, true), CREATOR, JudgeOutcome::Passed),
        Ok(Some(JudgmentPlan { progress: None, send_rewards: false, debit_hearts: false, verdict: Verdict::Accepted }))
    );
}

#[test]
fn a_failure_counts_and_debits_only_a_charged_submission() {
    assert_eq!(
        record_judgment(false, None, &submission(10, true), CREATOR, JudgeOutcome::Failed(Verdict::TimeLimitExceeded)),
        Ok(Some(JudgmentPlan {
            progress: Some(ProgressUpdate { solved_timestamp: None, last_attempt_timestamp: 10, attempts: 1 }),
            send_rewards: false,
            debit_hearts: true,
            verdict: Verdict::TimeLimitExceeded,
        }))
    );
    let plan = record_judgment(false, None, &submission(10, false), CREATOR, JudgeOutcome::Failed(Verdict::WrongAnswer))
        .unwrap()
        .unwrap();
    assert!(!plan.debit_hearts);
}

#[test]
fn the_creator_earns_no_rewards_and_a_failed_check_is_an_error() {
    let mut own = submission(10, false);
    own.creator = CREATOR;
    let plan = record_judgment(false, None, &own, CREATOR, JudgeOutcome::Passed).unwrap().unwrap();
    assert!(!plan.send_rewards);
    assert_eq!(
        record_judgment(false, None, &submission(10, true), CREATOR, JudgeOutcome::CheckFailed),
        Err(JudgmentError::CheckFailed)
    );
}

#[test]
fn the_wait_is_what_is_left_of_the_timeout() {
    assert_eq!(submission_wait(30, 10), Some(20));
    assert_eq!(submission_wait(30, 30), None);
    assert_eq!(submission_wait(30, 45), None);
}
