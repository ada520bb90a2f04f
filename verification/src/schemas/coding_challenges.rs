//! Coding challenges: examples, submissions and the verdicts of the judge.
use vstd::prelude::*;

use crate::services::subtasks::SubtaskModel;
use crate::Uuid;

verus! {

/// The verdict of the judge on a solution.
#[derive(PartialEq, Eq, Structural, Clone, Copy, Debug)]
pub enum Verdict {
    Accepted,
    WrongAnswer,
    InvalidOutputFormat,
    TimeLimitExceeded,
    MemoryLimitExceeded,
    NoOutput,
    CompilationError,
    RuntimeError,
    PreCheckFailed,
}

/// An example of a coding challenge.
pub struct Example {
    /// The unique identifier of the example.
    pub id: String,
    /// The input the program receives via stdin.
    pub input: String,
    /// The output the program should produce on stdout.
    pub output: String,
    /// An optional explanation for the example.
    pub explanation: Option<String>,
}

/// The request to create a coding challenge.
pub struct CreateCodingChallengeRequest {
    /// The number of xp a user gets for completing this subtask.
    pub xp: u64,
    /// The number of morphcoins a user gets for completing this subtask.
    pub coins: u64,
    /// The number of morphcoins a user has to pay to access this subtask.
    pub fee: u64,
    /// The challenge description.
    pub description: String,
    /// The number of milliseconds the solution may run.
    pub time_limit: u64,
    /// The number of megabytes of memory the solution may use.
    pub memory_limit: u64,
    /// The number of static tests to run for submission evaluation.
    pub static_tests: u8,
    /// The number of random tests to run for submission evaluation.
    pub random_tests: u8,
    /// The program used to generate test cases and evaluate solutions
    pub evaluator: String,
    /// The environment to run the solution in.
    pub solution_environment: String,
    /// The solution code
    pub solution_code: String,
}

/// The number of static and of random tests when a request names none.
pub fn tests_default() -> (n: u8)
    ensures
        n == 10,
{
    10
}

/// The code of a submission.
pub struct SubmissionContent {
    /// The environment to run the solution in.
    pub environment: String,
    /// The solution code.
    pub code: String,
}

/// The evaluator of a coding challenge failed.
pub struct EvaluatorError {
    /// The exit code of the evaluator.
    pub code: i32,
    /// stderr output of the evaluator.
    pub stderr: String,
}

/// The limits of the executor.
pub struct ExecutorConfig {
    /// The maximum `time_limit` in milliseconds.
    pub time_limit: u64,
    /// The maximum `memory_limit` in megabytes.
    pub memory_limit: u64,
}

/// A human friendly explanation of a verdict, as translation keys with their
/// parameters.
pub struct VerdictMessage {
    pub title_key: String,
    pub body_key: Option<String>,
    /// The parameters of the body, ordered by name.
    pub body_params: Option<Vec<(String, String)>>,
    pub detail: Option<String>,
}

/// The resources a process used: time in milliseconds, memory in KiB.
#[derive(PartialEq, Eq, Structural, Clone, Copy, Debug)]
pub struct ResourceUsage {
    pub time: u64,
    pub memory: u64,
}

/// What a build or run step of a submission showed.
pub struct RunSummary {
    /// The exit code of the process.
    pub status: i32,
    /// The stderr output the process produced.
    pub stderr: String,
    /// The amount of resources the process used.
    pub resource_usage: ResourceUsage,
}

/// A finished build or run in the sandbox.
pub struct RunResult {
    /// The exit code of the process.
    pub status: i32,
    /// The stdout output the process produced.
    pub stdout: String,
    /// The stderr output the process produced.
    pub stderr: String,
    /// The amount of resources the process used.
    pub resource_usage: ResourceUsage,
}

/// The summary of a step that is shown and stored: all of it but its
/// output.
pub open spec fn summary_of(step: RunResult) -> RunSummary {
    RunSummary { status: step.status, stderr: step.stderr, resource_usage: step.resource_usage }
}

impl From<RunResult> for RunSummary {
    fn from(value: RunResult) -> (summary: Self) {
        RunSummary { status: value.status, stderr: value.stderr, resource_usage: value.resource_usage }
    }
}

impl vstd::std_specs::convert::FromSpecImpl<RunResult> for RunSummary {
    open spec fn obeys_from_spec() -> bool {
        true
    }

    open spec fn from_spec(v: RunResult) -> RunSummary {
        summary_of(v)
    }
}

/// The summaries of the steps of a result.
pub open spec fn summarized(result: CheckResult<RunResult>) -> CheckResult<RunSummary> {
    CheckResult {
        verdict: result.verdict,
        reason: result.reason,
        compile: match result.compile {
            Some(step) => Some(summary_of(step)),
            None => None,
        },
        run: match result.run {
            Some(step) => Some(summary_of(step)),
            None => None,
        },
    }
}

impl From<CheckResult<RunResult>> for CheckResult<RunSummary> {
    fn from(value: CheckResult<RunResult>) -> (result: Self) {
        CheckResult {
            verdict: value.verdict,
            reason: value.reason,
            compile: match value.compile {
                Some(step) => Some(RunSummary::from(step)),
                None => None,
            },
            run: match value.run {
                Some(step) => Some(RunSummary::from(step)),
                None => None,
            },
        }
    }
}

impl vstd::std_specs::convert::FromSpecImpl<CheckResult<RunResult>> for CheckResult<RunSummary> {
    open spec fn obeys_from_spec() -> bool {
        true
    }

    open spec fn from_spec(v: CheckResult<RunResult>) -> CheckResult<RunSummary> {
        summarized(v)
    }
}

/// The verdict on a solution with the reason and the steps it took.
pub struct CheckResult<T> {
    pub verdict: Verdict,
    pub reason: Option<String>,
    pub compile: Option<T>,
    pub run: Option<T>,
}

/// The stored result of a submission: one column per part of each step.
pub struct StoredResult {
    pub submission_id: Uuid,
    pub verdict: Verdict,
    pub reason: Option<String>,
    pub build_status: Option<i32>,
    pub build_stderr: Option<String>,
    pub build_time: Option<i64>,
    pub build_memory: Option<i64>,
    pub run_status: Option<i32>,
    pub run_stderr: Option<String>,
    pub run_time: Option<i64>,
    pub run_memory: Option<i64>,
}

/// The columns that store a step: all of them where there is a step, none
/// otherwise.
pub fn step_columns(step: Option<RunSummary>) -> (columns: (Option<i32>, Option<String>, Option<i64>, Option<i64>))
    ensures
        match step {
            Some(s) => columns.0 == Some(s.status) && columns.1 == Some(s.stderr) && columns.2 == Some(
                s.resource_usage.time as i64,
            ) && columns.3 == Some(s.resource_usage.memory as i64),
            None => columns.0 is None && columns.1 is None && columns.2 is None && columns.3 is None,
        },
{
    match step {
        Some(s) => (
            Some(s.status),
            Some(s.stderr),
            Some(s.resource_usage.time as i64),
            Some(s.resource_usage.memory as i64),
        ),
        None => (None, None, None, None),
    }
}

/// Whether stored columns hold exactly this step.
pub open spec fn columns_hold(step: RunSummary, status: Option<i32>, stderr: Option<String>, time: Option<i64>, memory: Option<i64>) -> bool {
    match (time, memory) {
        (Some(t), Some(m)) => status == Some(step.status) && stderr == Some(step.stderr) && step.resource_usage == (
        ResourceUsage { time: t as u64, memory: m as u64 }),
        _ => false,
    }
}

/// Whether a stored step lacks a column.
pub open spec fn columns_incomplete(status: Option<i32>, stderr: Option<String>, time: Option<i64>, memory: Option<i64>) -> bool {
    status is None || stderr is None || time is None || memory is None
}

/// The step that stored columns describe: a step only where every column
/// holds a value.
pub fn step_of_columns(status: Option<i32>, stderr: Option<String>, time: Option<i64>, memory: Option<i64>) -> (step: Option<RunSummary>)
    ensures
        match step {
            Some(s) => columns_hold(s, status, stderr, time, memory),
            None => columns_incomplete(status, stderr, time, memory),
        },
{
    match (status, stderr, time, memory) {
        (Some(status), Some(stderr), Some(time), Some(memory)) => Some(
            RunSummary { status, stderr, resource_usage: ResourceUsage { time: time as u64, memory: memory as u64 } },
        ),
        _ => None,
    }
}

/// The result of a submission as it was stored.
pub fn check_result_from_stored(stored: StoredResult) -> (result: CheckResult<RunSummary>)
    ensures
        result.verdict == stored.verdict,
        result.reason == stored.reason,
        match result.compile {
            Some(s) => columns_hold(s, stored.build_status, stored.build_stderr, stored.build_time, stored.build_memory),
            None => columns_incomplete(stored.build_status, stored.build_stderr, stored.build_time, stored.build_memory),
        },
        match result.run {
            Some(s) => columns_hold(s, stored.run_status, stored.run_stderr, stored.run_time, stored.run_memory),
            None => columns_incomplete(stored.run_status, stored.run_stderr, stored.run_time, stored.run_memory),
        },
{
    CheckResult {
        verdict: stored.verdict,
        reason: stored.reason,
        compile: step_of_columns(stored.build_status, stored.build_stderr, stored.build_time, stored.build_memory),
        run: step_of_columns(stored.run_status, stored.run_stderr, stored.run_time, stored.run_memory),
    }
}

/// A stored step reads back as it was stored, where its time and memory fit
/// the columns: the columns that [`step_columns`] writes for a step hold
/// exactly that step.
pub proof fn lemma_step_round_trip(step: RunSummary)
    requires
        step.resource_usage.time <= i64::MAX,
        step.resource_usage.memory <= i64::MAX,
    ensures
        columns_hold(
            step,
            Some(step.status),
            Some(step.stderr),
            Some(step.resource_usage.time as i64),
            Some(step.resource_usage.memory as i64),
        ),
{
    let t = step.resource_usage.time;
    let m = step.resource_usage.memory;
    assert(((t as i64) as u64) == t) by (bit_vector)
        requires
            t <= 0x7fff_ffff_ffff_ffffu64,
    ;
    assert(((m as i64) as u64) == m) by (bit_vector)
        requires
            m <= 0x7fff_ffff_ffff_ffffu64,
    ;
}

/// A stored coding challenge.
pub struct CodingChallengeModel {
    pub subtask_id: Uuid,
    pub description: String,
    pub time_limit: i32,
    pub memory_limit: i32,
    pub static_tests: i32,
    pub random_tests: i32,
    pub evaluator: String,
    pub solution_environment: String,
    pub solution_code: String,
}

/// A coding challenge as a listing shows it.
pub struct CodingChallengeSummary {
    pub id: Uuid,
    pub task_id: Uuid,
    pub creator: Uuid,
    /// Microseconds since the Unix epoch.
    pub creation_timestamp: i64,
    pub xp: u64,
    pub coins: u64,
    pub fee: u64,
    pub unlocked: bool,
    pub solved: bool,
    pub rated: bool,
    pub enabled: bool,
    /// The challenge description. Only available if the user has unlocked the
    /// subtask.
    pub description: Option<String>,
    pub time_limit: u16,
    pub memory_limit: u16,
    pub static_tests: u8,
    pub random_tests: u8,
}

impl CodingChallengeSummary {
    /// The summary of a stored challenge for a user: its description only
    /// where the user unlocked it.
    pub fn from(cc: CodingChallengeModel, subtask: SubtaskModel, unlocked: bool, solved: bool, rated: bool) -> (summary: Self)
        ensures
            summary.id == subtask.id && summary.task_id == subtask.task_id && summary.creator == subtask.creator,
            summary.creation_timestamp == subtask.creation_timestamp,
            summary.xp == subtask.xp as u64 && summary.coins == subtask.coins as u64 && summary.fee == subtask.fee as u64,
            summary.unlocked == unlocked && summary.solved == solved && summary.rated == rated,
            summary.enabled == subtask.enabled,
            summary.description == (if unlocked { Some(cc.description) } else { None::<String> }),
            summary.time_limit == cc.time_limit as u16 && summary.memory_limit == cc.memory_limit as u16,
            summary.static_tests == cc.static_tests as u8 && summary.random_tests == cc.random_tests as u8,
    {
        CodingChallengeSummary {
            id: subtask.id,
            task_id: subtask.task_id,
            creator: subtask.creator,
            creation_timestamp: subtask.creation_timestamp,
            xp: subtask.xp as u64,
            coins: subtask.coins as u64,
            fee: subtask.fee as u64,
            unlocked,
            solved,
            rated,
            enabled: subtask.enabled,
            description: if unlocked {
                Some(cc.description)
            } else {
                None
            },
            time_limit: cc.time_limit as u16,
            memory_limit: cc.memory_limit as u16,
            static_tests: cc.static_tests as u8,
            random_tests: cc.random_tests as u8,
        }
    }
}

} // verus!
