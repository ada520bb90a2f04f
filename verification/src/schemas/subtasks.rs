//! Settings, feedback and reports shared by all kinds of subtasks.
use vstd::prelude::*;

use crate::services::subtasks::SubtaskModel;
use crate::Uuid;

verus! {

/// The request part that every kind of subtask shares on creation.
pub struct CreateSubtaskRequest {
    /// The number of xp a user gets for completing this subtask. Omit to use
    /// the configured default value.
    pub xp: Option<u64>,
    /// The number of morphcoins a user gets for completing this subtask. Omit
    /// to use the configured default value.
    pub coins: Option<u64>,
    /// The number of morphcoins a user has to pay to access this subtask.
    pub fee: u64,
}

/// A rating that a user gives a subtask after solving it.
#[derive(PartialEq, Eq, Structural, Clone, Copy, Debug)]
pub enum Rating {
    Positive,
    Neutral,
    Negative,
}

/// Why a subtask is reported.
#[derive(PartialEq, Eq, Structural, Clone, Copy, Debug)]
pub enum ReportReason {
    Wrong,
    Abuse,
    UnrelatedSkill,
    Dislike,
}

/// The request to rate a subtask.
pub struct PostFeedbackRequest {
    pub rating: Rating,
}

/// The request to report a subtask.
pub struct CreateReportRequest {
    pub task_id: Uuid,
    pub subtask_id: Uuid,
    pub reason: ReportReason,
    pub comment: String,
}

/// The request to resolve a report.
pub struct ResolveReportRequest {
    pub action: ResolveReportAction,
}

/// How a report is resolved.
#[derive(PartialEq, Eq, Structural, Clone, Copy, Debug)]
pub enum ResolveReportAction {
    Revise,
    BlockReporter,
    BlockCreator,
}

/// The limits that apply to subtasks created by normal users.
pub struct SubtasksUserConfig {
    /// The minimum level a normal user needs to have in each skill related to a
    /// task to be able to create subtasks in it.
    pub min_level: u32,
    /// The maximum `xp` value for subtasks created by normal users
    pub max_xp: u64,
    /// The maximum `coins` value for subtasks created by normal users
    pub max_coins: u64,
    /// The maximum `fee` value for subtasks created by normal users
    pub max_fee: u64,
}

/// A subtask as a user sees it. Timestamps are microseconds since the Unix
/// epoch.
pub struct Subtask {
    pub id: Uuid,
    pub task_id: Uuid,
    pub creator: Uuid,
    pub creation_timestamp: i64,
    pub xp: u64,
    pub coins: u64,
    pub fee: u64,
    /// Whether the user has unlocked this subtask.
    pub unlocked: bool,
    /// Whether the user has completed this subtask.
    pub solved: bool,
    /// Whether the user has rated this subtask.
    pub rated: bool,
    /// Whether the subtask is enabled and visible to normal users.
    pub enabled: bool,
}

impl Subtask {
    /// A stored subtask with the progress of the user on it.
    pub fn from(subtask: SubtaskModel, unlocked: bool, solved: bool, rated: bool) -> (s: Self)
        ensures
            s == (Subtask {
                id: subtask.id,
                task_id: subtask.task_id,
                creator: subtask.creator,
                creation_timestamp: subtask.creation_timestamp,
                xp: subtask.xp as u64,
                coins: subtask.coins as u64,
                fee: subtask.fee as u64,
                unlocked,
                solved,
                rated,
                enabled: subtask.enabled,
            }),
    {
        Subtask {
            id: subtask.id,
            task_id: subtask.task_id,
            creator: subtask.creator,
            creation_timestamp: subtask.creation_timestamp,
            xp: subtask.xp as u64,
            coins: subtask.coins as u64,
            fee: subtask.fee as u64,
            unlocked,
            solved,
            rated,
            enabled: subtask.enabled,
        }
    }
}

/// A stored report. Timestamps are microseconds since the Unix epoch.
pub struct ReportModel {
    pub id: Uuid,
    pub subtask_id: Uuid,
    pub user_id: Option<Uuid>,
    pub timestamp: i64,
    pub reason: ReportReason,
    pub comment: String,
    pub completed_by: Option<Uuid>,
    pub completed_timestamp: Option<i64>,
}

/// A report as administrators see it.
pub struct Report {
    pub id: Uuid,
    pub task_id: Uuid,
    pub subtask_id: Uuid,
    pub user_id: Option<Uuid>,
    pub timestamp: i64,
    pub reason: ReportReason,
    pub comment: String,
    pub completed: bool,
    pub completed_by: Option<Uuid>,
    pub completed_timestamp: Option<i64>,
}

impl Report {
    /// A stored report in a task: it is completed where someone completed it.
    pub fn from(report: ReportModel, task_id: Uuid) -> (r: Self)
        ensures
            r == (Report {
                id: report.id,
                task_id,
                subtask_id: report.subtask_id,
                user_id: report.user_id,
                timestamp: report.timestamp,
                reason: report.reason,
                comment: report.comment,
                completed: report.completed_by is Some,
                completed_by: report.completed_by,
                completed_timestamp: report.completed_timestamp,
            }),
    {
        Report {
            id: report.id,
            task_id,
            subtask_id: report.subtask_id,
            user_id: report.user_id,
            timestamp: report.timestamp,
            reason: report.reason,
            comment: report.comment,
            completed: report.completed_by.is_some(),
            completed_by: report.completed_by,
            completed_timestamp: report.completed_timestamp,
        }
    }
}

} // verus!
