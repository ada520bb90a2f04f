//! Simple questions with typed answers.
use vstd::prelude::*;

verus! {

/// The request to create a question.
pub struct CreateQuestionRequest {
    /// The number of xp a user gets for completing this subtask.
    pub xp: u64,
    /// The number of morphcoins a user gets for completing this subtask.
    pub coins: u64,
    /// The number of morphcoins a user has to pay to access this subtask.
    pub fee: u64,
    /// The question text.
    pub question: String,
    /// The possible answers to the question.
    pub answers: Vec<String>,
    /// Whether the answer is case sensitive.
    pub case_sensitive: bool,
    /// Whether the answer can contain letters.
    pub ascii_letters: bool,
    /// Whether the answer can contain digits.
    pub digits: bool,
    /// Whether the answer can contain puncutation characters
    pub punctuation: bool,
}

/// An attempt to answer a question.
pub struct SolveQuestionRequest {
    pub answer: String,
}

/// The feedback on an attempt.
pub struct SolveQuestionFeedback {
    /// Whether the user has successfully solved the question.
    pub solved: bool,
}

} // verus!
