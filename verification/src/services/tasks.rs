//! Tasks: a task is a challenge of a category or a task of a course.
use vstd::prelude::*;

use crate::Uuid;

verus! {

/// A stored challenge.
pub struct ChallengeModel {
    pub task_id: Uuid,
    pub category_id: Uuid,
    pub skill_ids: Vec<String>,
    pub title: String,
    pub description: String,
}

/// A stored task of a course.
pub struct CourseTaskModel {
    pub task_id: Uuid,
    pub course_id: String,
    pub section_id: Option<String>,
    pub lecture_id: Option<String>,
}

/// What a task is.
pub enum Task {
    Challenge(ChallengeModel),
    CourseTask(CourseTaskModel),
}

/// What a task is, from the challenge and the course task stored for it: a
/// challenge where there is one, otherwise a course task where there is one.
pub fn specific_task(challenge: Option<ChallengeModel>, course_task: Option<CourseTaskModel>) -> (task: Option<Task>)
    ensures
        match task {
            Some(Task::Challenge(c)) => challenge == Some(c),
            Some(Task::CourseTask(t)) => challenge is None && course_task == Some(t),
            None => challenge is None && course_task is None,
        },
{
    match challenge {
        Some(c) => Some(Task::Challenge(c)),
        None => match course_task {
            Some(t) => Some(Task::CourseTask(t)),
            None => None,
        },
    }
}

} // verus!
