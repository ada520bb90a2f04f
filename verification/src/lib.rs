//! The logic of the challenges microservice: answer checking for every kind of
//! subtask, the validation of authored content, heart and reward decisions,
//! leaderboard ranks, the verdicts of the coding judge and their messages,
//! its queue settings, moderation of reported subtasks, and the sweep over
//! deleted users.
use vstd::prelude::*;

pub mod client;
pub mod endpoints;
pub mod ids;
pub mod schemas;
pub mod services;
pub mod sweep;
pub mod text;

verus! {

/// The identifier of a user, task, subtask, attempt or submission, as the 128
/// bit number of its UUID.
pub type Uuid = u128;

} // verus!
