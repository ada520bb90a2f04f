//! One to one matchings between a left and a right list.
use vstd::prelude::*;

use super::subtasks::CreateSubtaskRequest;

verus! {

/// The request to create a matching.
pub struct CreateMatchingRequest {
    /// The common subtask settings.
    pub subtask: CreateSubtaskRequest,
    /// The entries on the left.
    pub left: Vec<String>,
    /// The entries on the right.
    pub right: Vec<String>,
    /// For each entry on the left the index of its match on the right.
    /// E.g. left=[A, B, C], right=[X, Y, Z], solution=[2, 0, 1] -> AZ, BX, CY
    pub solution: Vec<u8>,
}

/// An attempt to solve a matching.
pub struct SolveMatchingRequest {
    /// For each entry on the left the index of its match on the right.
    pub answer: Vec<u8>,
}

/// The feedback on an attempt.
pub struct SolveMatchingFeedback {
    /// Whether the user has successfully solved the question.
    pub solved: bool,
    /// The number of correct matches.
    pub correct: usize,
}

} // verus!
