use challenges::services::subtasks::{
    can_rate, can_report, free_of_hearts, has_enough_hearts, heart_deduction, subtask_hearts,
    HeartCosts,
};
use challenges::services::subtasks::{
    active_ban, check_solution_access, hidden_from, reward_plan, stat_subtasks, subtask_rewards,
    ActiveBan, CreateSubtaskError, QuerySubtaskAdminError, QuerySubtasksFilter, RewardPlan,
    SubtaskModel, SubtaskStats, SubtaskType, User, UserSubtask,
};

fn subtask(id: u128, ty: SubtaskType, enabled: bool) -> SubtaskModel {
    SubtaskModel {
        id,
        task_id: 2,
        ty,
        creator: 3,
        creation_timestamp: 0,
        xp: 10,
        coins: 5,
        fee: 0,
        enabled,
        retired: false,
        moderation_removed: false,
    }
}

fn progress(solved: bool, attempted: bool) -> UserSubtask {
    UserSubtask {
        user_id: 8,
        subtask_id: 1,
        unlocked_timestamp: None,
        solved_timestamp: if solved { Some(1) } else { None },
        last_attempt_timestamp: if attempted { Some(1) } else { None },
        attempts: if attempted { 1 } else { 0 },
        rating_timestamp: None,
    }
}

fn no_filter() -> QuerySubtasksFilter {
    QuerySubtasksFilter {
        attempted: None,
        solved: None,
        rated: None,
        enabled: None,
        retired: None,
        creator: None,
        ty: None,
    }
}

#[test]
fn statistics_split_the_subtasks_by_progress() {
    let subtasks = [
        subtask(1, SubtaskType::Question, true),
        subtask(2, SubtaskType::Question, true),
        subtask(3, SubtaskType::Matching, true),
        subtask(4, SubtaskType::Question, true),
    ];
    let progress = [Some(progress(true, true)), Some(progress(false, true)), None, None];
    assert_eq!(
        stat_subtasks(&subtasks, &progress, &no_filter()),
        SubtaskStats { total: 4, solved: 1, attempted: 1, unattempted: 2 }
    );
    let mut only_questions = no_filter();
    only_questions.ty = Some(SubtaskType::Question);
    assert_eq!(
        stat_subtasks(&subtasks, &progress, &only_questions),
        SubtaskStats { total: 3, solved: 1, attempted: 1, unattempted: 1 }
    );
}

#[test]
fn disabled_subtasks_are_hidden_from_strangers() {
    let s = subtask(1, SubtaskType::Question, false);
    assert!(hidden_from(&User { id: 8, email_verified: true, admin: false }, &s));
    assert!(!hidden_from(&User { id: 3, email_verified: true, admin: false }, &s));
    assert!(!hidden_from(&User { id: 8, email_verified: true, admin: true }, &s));
    assert_eq!(
        check_solution_access(&User { id: 8, email_verified: true, admin: false }, &s),
        Err(QuerySubtaskAdminError::NoAccess)
    );
}

#[test]
fn rewards_are_limited_for_normal_users_in_courses() {
    assert_eq!(subtask_rewards(true, false, None, None, 10, 5), Ok((10, 5)));
    assert_eq!(subtask_rewards(true, false, Some(11), None, 10, 5), Err(CreateSubtaskError::XpLimitExceeded(10)));
    assert_eq!(subtask_rewards(true, false, Some(1), Some(6), 10, 5), Err(CreateSubtaskError::CoinLimitExceeded(5)));
    assert_eq!(subtask_rewards(true, true, Some(100), Some(100), 10, 5), Ok((100, 100)));
    assert_eq!(subtask_rewards(false, false, Some(100), None, 10, 5), Ok((100, 5)));
}

#[test]
fn the_latest_running_ban_counts() {
    assert_eq!(active_ban(false, &[Some(5), Some(20), Some(15)], 10), ActiveBan::Temporary(20));
    assert_eq!(active_ban(false, &[Some(5), None], 10), ActiveBan::Permanent);
    assert_eq!(active_ban(false, &[Some(5)], 10), ActiveBan::NotBanned);
    assert_eq!(active_ban(true, &[None], 10), ActiveBan::NotBanned);
}

#[test]
fn xp_is_split_over_the_skills() {
    assert_eq!(reward_plan(false, 10, 3, 3), RewardPlan { xp_per_skill: Some(3), coins: Some(3) });
    assert_eq!(reward_plan(false, -7, 0, 2), RewardPlan { xp_per_skill: Some(-3), coins: None });
    assert_eq!(reward_plan(false, 10, 3, 0), RewardPlan { xp_per_skill: None, coins: Some(3) });
    assert_eq!(reward_plan(true, 10, 3, 3), RewardPlan { xp_per_skill: None, coins: None });
}

#[test]
fn hearts_and_ratings_follow_progress() {
    let costs = HeartCosts { coding_challenges: 5, matchings: 1, multiple_choice_questions: 2, questions: 3, clozes: 4 };
    assert_eq!(subtask_hearts(&costs, SubtaskType::Question), 3);
    assert_eq!(subtask_hearts(&costs, SubtaskType::Cloze), 4);
    let s = subtask(1, SubtaskType::Question, true);
    let stranger = User { id: 8, email_verified: true, admin: false };
    let creator = User { id: 3, email_verified: true, admin: false };
    assert!(!free_of_hearts(&stranger, &s));
    assert!(free_of_hearts(&creator, &s));
    assert!(has_enough_hearts(false, false, 3, 3));
    assert!(!has_enough_hearts(false, false, 2, 3));
    assert!(has_enough_hearts(false, true, 0, 3));
    assert_eq!(heart_deduction(3), -3);
    let solved = progress(true, true);
    assert!(can_rate(Some(&solved), &stranger, &s));
    assert!(!can_rate(Some(&solved), &creator, &s));
    assert!(!can_rate(None, &stranger, &s));
    assert!(can_report(None, &stranger, &s));
    let mut rated = solved;
    rated.rating_timestamp = Some(2);
    assert!(!can_report(Some(&rated), &stranger, &s));
}

#[test]
fn only_unused_tasks_are_deleted() {
    assert_eq!(challenges::services::users::empty_tasks(&[1, 2, 3, 4], &[2, 4, 9]), vec![1, 3]);
    assert!(challenges::services::users::empty_tasks(&[], &[1]).is_empty());
}

#[test]
fn a_course_is_trained_by_the_skills_that_list_it() {
    let skill = |id: &str, courses: &[&str]| challenges::services::course_tasks::Skill {
        id: id.into(),
        courses: courses.iter().map(|c| c.to_string()).collect(),
    };
    let skills = vec![skill("a", &["rust", "go"]), skill("b", &["python"]), skill("c", &["rust"])];
    assert_eq!(challenges::services::course_tasks::skills_of_course(&skills, "rust"), vec!["a".to_string(), "c".to_string()]);
    assert!(challenges::services::course_tasks::skills_of_course(&skills, "java").is_empty());
}

#[test]
fn unknown_skills_are_named() {
    let ids: Vec<String> = vec!["rust".into(), "cobol".into(), "go".into(), "cobol".into()];
    let known: Vec<String> = vec!["go".into(), "rust".into()];
    assert_eq!(
        challenges::services::course_tasks::unknown_skills(&ids, &known),
        vec!["cobol".to_string(), "cobol".to_string()]
    );
}
