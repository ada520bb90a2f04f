use challenges::client::{parse_error, CommonError, ResponseError};
use challenges::endpoints::coding_challenges::{check_limits, patched, LimitError};
use challenges::endpoints::internal::DeleteUser;
use challenges::schemas::coding_challenges::{tests_default, ExecutorConfig};
use challenges::services::coding_execution::{heartbeat_seconds, validate, CodingConfigError, CodingExecution};
use challenges::services::tasks::{specific_task, ChallengeModel, CourseTaskModel, Task};

fn execution() -> CodingExecution {
    CodingExecution {
        embedded_worker: true,
        max_pending: 10,
        max_pending_per_user: 2,
        lease_seconds: 30,
        poll_milliseconds: 500,
        retry_seconds: 5,
        max_execution_seconds: 60,
    }
}

#[test]
fn coding_settings_are_checked_in_order() {
    assert_eq!(validate(&execution(), 4), Ok(()));
    assert_eq!(validate(&execution(), 0), Err(CodingConfigError::Concurrency));
    let mut e = execution();
    e.lease_seconds = 5;
    e.poll_milliseconds = 5;
    assert_eq!(validate(&e, 4), Err(CodingConfigError::LeaseSeconds));
    assert_eq!(CodingConfigError::LeaseSeconds.message(), "coding lease_seconds must be 6..=3600");
    assert_eq!(heartbeat_seconds(30), 10);
    assert_eq!(tests_default(), 10);
}

#[test]
fn challenge_limits_stay_within_the_executor() {
    let config = ExecutorConfig { time_limit: 1000, memory_limit: 256 };
    assert_eq!(check_limits(1000, 256, &config), Ok(()));
    assert_eq!(check_limits(1001, 512, &config), Err(LimitError::TimeLimitExceeded(1000)));
    assert_eq!(check_limits(10, 512, &config), Err(LimitError::MemoryLimitExceeded(256)));
    assert_eq!(patched(Some(3), 1), 3);
    assert_eq!(patched(None, 1), 1);
}

#[test]
fn a_common_error_comes_first() {
    match parse_error::<u8, &str>(Some(CommonError::Forbidden), Some(1), "body") {
        ResponseError::CommonError(e) => assert_eq!(e, CommonError::Forbidden),
        _ => panic!("expected a common error"),
    }
    match parse_error::<u8, &str>(None, Some(1), "body") {
        ResponseError::EndpointError(e) => assert_eq!(e, 1),
        _ => panic!("expected an endpoint error"),
    }
    match parse_error::<u8, &str>(None, None, "body") {
        ResponseError::UnknownError(b) => assert_eq!(b, "body"),
        _ => panic!("expected an unknown error"),
    }
    assert_eq!(DeleteUser::NoContent.status(), 204);
}

#[test]
fn a_task_is_a_challenge_before_a_course_task() {
    let challenge = ChallengeModel {
        task_id: 1,
        category_id: 2,
        skill_ids: vec![],
        title: "t".into(),
        description: "d".into(),
    };
    let course_task = CourseTaskModel {
        task_id: 1,
        course_id: "c".into(),
        section_id: None,
        lecture_id: None,
    };
    assert!(matches!(specific_task(Some(challenge), None), Some(Task::Challenge(_))));
    assert!(matches!(specific_task(None, Some(course_task)), Some(Task::CourseTask(_))));
    assert!(specific_task(None, None).is_none());
}
