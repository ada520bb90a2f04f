pub mod attempts;
pub mod cloze;
pub mod coding_challenges;
pub mod feedback;
pub mod internal;
pub mod matchings;
pub mod multiple_choice;
pub mod question;
pub mod reports;
pub mod submissions;

use vstd::prelude::*;

verus! {

/// The groups of endpoints of the service.
#[derive(PartialEq, Eq, Structural, Clone, Copy, Debug)]
pub enum Tags {
    /// Global challenges (tasks)
    Challenges,
    /// Tasks that exist within a course (tasks)
    CourseTasks,
    /// Endpoints related to all subtasks
    Subtasks,
    /// Single/multiple choice questions (subtasks)
    MultipleChoice,
    /// Simple questions with typed answers (subtasks)
    Questions,
    /// One to one matchings (subtasks)
    Matchings,
    /// Coding challenges (subtasks)
    CodingChallenges,
}

} // verus!
