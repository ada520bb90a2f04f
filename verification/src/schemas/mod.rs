pub mod challenges;
pub mod coding_challenges;
pub mod course_tasks;
pub mod matchings;
pub mod multiple_choice;
pub mod question;
pub mod skill_tasks;
pub mod subtasks;
