//! Categories and challenges (global tasks).
use vstd::prelude::*;

use crate::Uuid;

verus! {

/// A category of challenges.
pub struct Category {
    /// The unique identifier of the category
    pub id: Uuid,
    /// The title of the category
    pub title: String,
    /// The description of the category
    pub description: String,
}

/// The request to create a category.
pub struct CreateCategoryRequest {
    /// The title of the category
    pub title: String,
    /// The description of the category
    pub description: String,
}

/// The request to create a challenge.
pub struct CreateChallengeRequest {
    /// The title of the challenge
    pub title: String,
    /// The description of the challenge
    pub description: String,
}

} // verus!
