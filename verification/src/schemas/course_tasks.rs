//! Tasks that exist within a course.
use vstd::prelude::*;

verus! {

/// The request to create a course task.
pub struct CreateCourseTaskRequest {
    /// The section of the course that holds the task
    pub section_id: String,
    /// The lecture of the course that holds the task
    pub lecture_id: String,
    /// The title of the task
    pub title: String,
    /// The description of the task
    pub description: String,
}

} // verus!
