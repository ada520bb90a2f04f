//! Tasks that belong to a skill.
use vstd::prelude::*;

verus! {

/// The request to create a skill task.
pub struct CreateSkillTaskRequest {
    /// The title of the task
    pub title: String,
    /// The description of the task
    pub description: String,
}

} // verus!
