//! Rules shared by all kinds of subtasks: who sees a subtask, the progress of
//! a user on it, listing filters and statistics, hearts, rewards, bans and
//! the limits for subtasks created by normal users.
use vstd::prelude::*;

use crate::Uuid;

verus! {

/// The kind of a subtask.
#[derive(PartialEq, Eq, Structural, Clone, Copy, Debug)]
pub enum SubtaskType {
    CodingChallenge,
    Matching,
    MultipleChoiceQuestion,
    Question,
    Cloze,
}

/// An authenticated user.
#[derive(Clone, Copy, Debug)]
pub struct User {
    pub id: Uuid,
    pub email_verified: bool,
    pub admin: bool,
}

/// A stored subtask. Timestamps are microseconds since the Unix epoch.
#[derive(Clone, Copy, Debug)]
pub struct SubtaskModel {
    pub id: Uuid,
    pub task_id: Uuid,
    pub ty: SubtaskType,
    pub creator: Uuid,
    pub creation_timestamp: i64,
    pub xp: i64,
    pub coins: i64,
    pub fee: i64,
    pub enabled: bool,
    pub retired: bool,
    pub moderation_removed: bool,
}

/// The progress of a user on a subtask. Timestamps are microseconds since the
/// Unix epoch.
#[derive(Clone, Copy, Debug)]
pub struct UserSubtask {
    pub user_id: Uuid,
    pub subtask_id: Uuid,
    pub unlocked_timestamp: Option<i64>,
    pub solved_timestamp: Option<i64>,
    pub last_attempt_timestamp: Option<i64>,
    pub attempts: i32,
    pub rating_timestamp: Option<i64>,
}

/// Whether a subtask is hidden from a user who is no administrator, not its
/// creator, while it is disabled.
pub fn hidden_from(user: &User, subtask: &SubtaskModel) -> (hidden: bool)
    ensures
        hidden == (!user.admin && user.id != subtask.creator && !subtask.enabled),
{
    !user.admin && user.id != subtask.creator && !subtask.enabled
}

/// Whether a subtask is hidden from a user, taking moderation into account:
/// a removed subtask is hidden from everyone but administrators.
pub fn hidden_after_moderation(user: &User, subtask: &SubtaskModel) -> (hidden: bool)
    ensures
        hidden == (!user.admin && (subtask.moderation_removed || (user.id != subtask.creator && !subtask.enabled))),
{
    !user.admin && (subtask.moderation_removed || (user.id != subtask.creator && !subtask.enabled))
}

/// The progress behind an optional reference.
pub open spec fn owned(progress: Option<&UserSubtask>) -> Option<UserSubtask> {
    match progress {
        Some(p) => Some(*p),
        None => None,
    }
}

/// Whether the user has solved the subtask.
pub open spec fn solved(progress: Option<UserSubtask>) -> bool {
    progress matches Some(p) && p.solved_timestamp is Some
}

/// Whether the user has rated the subtask.
pub open spec fn rated(progress: Option<UserSubtask>) -> bool {
    progress matches Some(p) && p.rating_timestamp is Some
}

/// Whether the user has attempted the subtask.
pub open spec fn attempted(progress: Option<UserSubtask>) -> bool {
    progress matches Some(p) && p.last_attempt_timestamp is Some
}

/// Whether the user has solved the subtask.
pub fn is_solved(progress: Option<&UserSubtask>) -> (b: bool)
    ensures
        b == solved(owned(progress)),
{
    match progress {
        Some(p) => p.solved_timestamp.is_some(),
        None => false,
    }
}

/// Whether the user has rated the subtask.
pub fn is_rated(progress: Option<&UserSubtask>) -> (b: bool)
    ensures
        b == rated(owned(progress)),
{
    match progress {
        Some(p) => p.rating_timestamp.is_some(),
        None => false,
    }
}

/// The time of the last attempt of the user.
pub fn last_attempt(progress: Option<&UserSubtask>) -> (t: Option<i64>)
    ensures
        t == match progress {
            Some(p) => p.last_attempt_timestamp,
            None => None,
        },
{
    match progress {
        Some(p) => p.last_attempt_timestamp,
        None => None,
    }
}

/// Whether the user has attempted the subtask.
pub fn is_attempted(progress: Option<&UserSubtask>) -> (b: bool)
    ensures
        b == attempted(owned(progress)),
{
    last_attempt(progress).is_some()
}

/// The number of attempts of the user.
pub fn attempts(progress: Option<&UserSubtask>) -> (n: i32)
    ensures
        n == match progress {
            Some(p) => p.attempts,
            None => 0,
        },
{
    match progress {
        Some(p) => p.attempts,
        None => 0,
    }
}

/// Whether a user may rate a subtask: not its creator, solved and not rated
/// yet.
pub fn can_rate(progress: Option<&UserSubtask>, user: &User, subtask: &SubtaskModel) -> (b: bool)
    ensures
        b == (user.id != subtask.creator && solved(owned(progress)) && !rated(
            owned(progress),
        )),
{
    user.id != subtask.creator && is_solved(progress) && !is_rated(progress)
}

/// Whether a user may report a subtask: not its creator and not rated yet.
pub fn can_report(progress: Option<&UserSubtask>, user: &User, subtask: &SubtaskModel) -> (b: bool)
    ensures
        b == (user.id != subtask.creator && !rated(owned(progress))),
{
    user.id != subtask.creator && !is_rated(progress)
}

/// The filters of a listing of subtasks; `None` does not filter.
#[derive(Clone, Copy, Debug)]
pub struct QuerySubtasksFilter {
    pub attempted: Option<bool>,
    pub solved: Option<bool>,
    pub rated: Option<bool>,
    pub enabled: Option<bool>,
    pub retired: Option<bool>,
    pub creator: Option<Uuid>,
    pub ty: Option<SubtaskType>,
}

/// Whether a value passes an optional filter.
pub open spec fn passes(filter: Option<bool>, value: bool) -> bool {
    match filter {
        Some(f) => f == value,
        None => true,
    }
}

/// Whether a subtask passes the progress filters (and the type filter) of a
/// listing; the other filters are applied by the database query.
pub open spec fn passes_filter(subtask: SubtaskModel, filter: QuerySubtasksFilter, progress: Option<UserSubtask>) -> bool {
    &&& !(filter.ty matches Some(t) && t != subtask.ty)
    &&& passes(filter.attempted, attempted(progress))
    &&& passes(filter.solved, solved(progress))
    &&& passes(filter.rated, rated(progress))
}

/// Whether a subtask passes the progress filters (and the type filter) of a
/// listing.
pub fn subtasks_filter(subtask: &SubtaskModel, filter: &QuerySubtasksFilter, progress: Option<&UserSubtask>) -> (b: bool)
    ensures
        b == passes_filter(*subtask, *filter, owned(progress)),
{
    let attempted = is_attempted(progress);
    let solved = is_solved(progress);
    let rated = is_rated(progress);
    let type_ok = match filter.ty {
        Some(t) => t == subtask.ty,
        None => true,
    };
    type_ok && (match filter.attempted {
        Some(f) => f == attempted,
        None => true,
    }) && (match filter.solved {
        Some(f) => f == solved,
        None => true,
    }) && (match filter.rated {
        Some(f) => f == rated,
        None => true,
    })
}

/// What each progress filter of a listing selects, in terms of the stored
/// progress: a subtask passes `solved: Some(f)` only where having a solved
/// time is `f`, `attempted: Some(f)` only where having a last attempt time is
/// `f`, `rated: Some(f)` only where having a rating time is `f`, and a type
/// filter only where the type is that one; where the other filters are
/// unset, each of these conditions alone lets it pass.
pub proof fn lemma_filter_selects(subtask: SubtaskModel, filter: QuerySubtasksFilter, progress: Option<UserSubtask>)
    ensures
        passes_filter(subtask, filter, progress) && filter.solved == Some(true) ==> (progress matches Some(p)
            && p.solved_timestamp is Some),
        passes_filter(subtask, filter, progress) && filter.solved == Some(false) ==> !(progress matches Some(p)
            && p.solved_timestamp is Some),
        passes_filter(subtask, filter, progress) && filter.attempted == Some(true) ==> (progress matches Some(p)
            && p.last_attempt_timestamp is Some),
        passes_filter(subtask, filter, progress) && filter.attempted == Some(false) ==> !(progress matches Some(p)
            && p.last_attempt_timestamp is Some),
        passes_filter(subtask, filter, progress) && filter.rated == Some(true) ==> (progress matches Some(p)
            && p.rating_timestamp is Some),
        passes_filter(subtask, filter, progress) && filter.rated == Some(false) ==> !(progress matches Some(p)
            && p.rating_timestamp is Some),
        passes_filter(subtask, filter, progress) && filter.ty is Some ==> filter.ty == Some(subtask.ty),
        filter.ty is None && filter.attempted is None && filter.rated is None ==> (passes_filter(
            subtask,
            filter,
            progress,
        ) <==> match filter.solved {
            Some(f) => (progress matches Some(p) && p.solved_timestamp is Some) == f,
            None => true,
        }),
        filter.ty is None && filter.solved is None && filter.rated is None ==> (passes_filter(
            subtask,
            filter,
            progress,
        ) <==> match filter.attempted {
            Some(f) => (progress matches Some(p) && p.last_attempt_timestamp is Some) == f,
            None => true,
        }),
        filter.ty is None && filter.solved is None && filter.attempted is None ==> (passes_filter(
            subtask,
            filter,
            progress,
        ) <==> match filter.rated {
            Some(f) => (progress matches Some(p) && p.rating_timestamp is Some) == f,
            None => true,
        }),
{
}

/// Counts of the subtasks that pass a filter.
#[derive(Clone, Copy, Debug, PartialEq, Eq)]
pub struct SubtaskStats {
    pub total: u64,
    pub solved: u64,
    pub attempted: u64,
    pub unattempted: u64,
}

/// A group of subtasks by the progress of the user.
pub enum Bucket {
    All,
    Solved,
    AttemptedUnsolved,
    Unattempted,
}

/// Whether progress falls into a group.
pub open spec fn in_bucket(bucket: Bucket, p: Option<UserSubtask>) -> bool {
    match bucket {
        Bucket::All => true,
        Bucket::Solved => solved(p),
        Bucket::AttemptedUnsolved => !solved(p) && attempted(p),
        Bucket::Unattempted => !solved(p) && !attempted(p),
    }
}

/// The number of the first `n` subtasks that pass the filter and whose
/// progress falls into `bucket`.
pub open spec fn count_where(
    subtasks: Seq<SubtaskModel>,
    progress: Seq<Option<UserSubtask>>,
    filter: QuerySubtasksFilter,
    bucket: Bucket,
    n: nat,
) -> nat
    decreases n,
{
    if n == 0 {
        0
    } else {
        count_where(subtasks, progress, filter, bucket, (n - 1) as nat) + if passes_filter(
            subtasks[n - 1],
            filter,
            progress[n - 1],
        ) && in_bucket(bucket, progress[n - 1]) {
            1nat
        } else {
            0nat
        }
    }
}

/// Statistics over subtasks: how many pass the filter, how many of those the
/// user solved, attempted without solving, and did not attempt.
/// `progress[i]` is the progress of the user on `subtasks[i]`.
pub fn stat_subtasks(subtasks: &[SubtaskModel], progress: &[Option<UserSubtask>], filter: &QuerySubtasksFilter) -> (stats: SubtaskStats)
    requires
        progress@.len() == subtasks@.len(),
        subtasks@.len() <= u64::MAX,
    ensures
        stats.total == count_where(subtasks@, progress@, *filter, Bucket::All, subtasks@.len()),
        stats.solved == count_where(subtasks@, progress@, *filter, Bucket::Solved, subtasks@.len()),
        stats.attempted == count_where(
            subtasks@,
            progress@,
            *filter,
            Bucket::AttemptedUnsolved,
            subtasks@.len(),
        ),
        stats.unattempted == count_where(
            subtasks@,
            progress@,
            *filter,
            Bucket::Unattempted,
            subtasks@.len(),
        ),
        stats.total == stats.solved + stats.attempted + stats.unattempted,
{
    let mut total: u64 = 0;
    let mut solved_count: u64 = 0;
    let mut attempted_count: u64 = 0;
    let mut unattempted: u64 = 0;
    let mut i: usize = 0;
    while i < subtasks.len()
        invariant
            i <= subtasks@.len() <= u64::MAX,
            progress@.len() == subtasks@.len(),
            total <= i,
            total == solved_count + attempted_count + unattempted,
            total == count_where(subtasks@, progress@, *filter, Bucket::All, i as nat),
            solved_count == count_where(subtasks@, progress@, *filter, Bucket::Solved, i as nat),
            attempted_count == count_where(subtasks@, progress@, *filter, Bucket::AttemptedUnsolved, i as nat),
            unattempted == count_where(subtasks@, progress@, *filter, Bucket::Unattempted, i as nat),
        decreases subtasks.len() - i,
    {
        let p = progress[i].as_ref();
        let ghost pi = progress@[i as int];
        assert(owned(p) == pi);
        let pass = subtasks_filter(&subtasks[i], filter, p);
        assert(pass == passes_filter(subtasks@[i as int], *filter, pi));
        if pass {
            total = total + 1;
            if is_solved(p) {
                solved_count = solved_count + 1;
            } else if is_attempted(p) {
                attempted_count = attempted_count + 1;
            } else {
                unattempted = unattempted + 1;
            }
        }
        i = i + 1;
    }
    SubtaskStats { total, solved: solved_count, attempted: attempted_count, unattempted }
}

/// Why a subtask cannot be shown with its solution.
#[derive(PartialEq, Eq, Structural, Clone, Copy, Debug)]
pub enum QuerySubtaskAdminError {
    NotFound,
    NoAccess,
}

/// Whether a user may see the solution of a subtask: administrators and the
/// creator.
pub fn check_solution_access(user: &User, subtask: &SubtaskModel) -> (res: Result<(), QuerySubtaskAdminError>)
    ensures
        res is Ok <==> (user.admin || user.id == subtask.creator),
        res matches Err(e) ==> e == QuerySubtaskAdminError::NoAccess,
{
    if !(user.admin || user.id == subtask.creator) {
        return Err(QuerySubtaskAdminError::NoAccess);
    }
    Ok(())
}

/// Why a subtask cannot be updated.
#[derive(PartialEq, Eq, Structural, Clone, Copy, Debug)]
pub enum UpdateSubtaskError {
    SubtaskNotFound,
    TaskNotFound,
}

/// Why a subtask cannot be created.
#[derive(PartialEq, Eq, Structural, Clone, Copy, Debug)]
pub enum CreateSubtaskError {
    TaskNotFound,
    Forbidden,
    /// The user is banned from creating subtasks, until the given time
    /// (microseconds since the Unix epoch), or for good.
    Banned(Option<i64>),
    XpLimitExceeded(u64),
    CoinLimitExceeded(u64),
}

/// The xp and coins of a new subtask: the requested values, or the maxima
/// where none are requested. A normal user creating a subtask of a course
/// task must stay within the maxima.
pub open spec fn subtask_rewards_of(
    course_task: bool,
    admin: bool,
    xp: Option<u64>,
    coins: Option<u64>,
    max_xp: u64,
    max_coins: u64,
) -> Result<(u64, u64), CreateSubtaskError> {
    let x = match xp {
        Some(v) => v,
        None => max_xp,
    };
    let c = match coins {
        Some(v) => v,
        None => max_coins,
    };
    if course_task && !admin && x > max_xp {
        Err(CreateSubtaskError::XpLimitExceeded(max_xp))
    } else if course_task && !admin && c > max_coins {
        Err(CreateSubtaskError::CoinLimitExceeded(max_coins))
    } else {
        Ok((x, c))
    }
}

/// See [`subtask_rewards_of`].
pub fn subtask_rewards(
    course_task: bool,
    admin: bool,
    xp: Option<u64>,
    coins: Option<u64>,
    max_xp: u64,
    max_coins: u64,
) -> (res: Result<(u64, u64), CreateSubtaskError>)
    ensures
        res == subtask_rewards_of(course_task, admin, xp, coins, max_xp, max_coins),
{
    let x = match xp {
        Some(v) => v,
        None => max_xp,
    };
    let c = match coins {
        Some(v) => v,
        None => max_coins,
    };
    if course_task && !admin {
        if x > max_xp {
            return Err(CreateSubtaskError::XpLimitExceeded(max_xp));
        }
        if c > max_coins {
            return Err(CreateSubtaskError::CoinLimitExceeded(max_coins));
        }
    }
    Ok((x, c))
}

/// Whether a user is banned from an action.
#[derive(PartialEq, Eq, Structural, Clone, Copy, Debug)]
pub enum ActiveBan {
    NotBanned,
    /// Banned until the given time (microseconds since the Unix epoch).
    Temporary(i64),
    Permanent,
}

/// Whether a ban with this end (`None`: no end) is still running at `now`.
pub open spec fn running(end: Option<i64>, now: i64) -> bool {
    match end {
        None => true,
        Some(e) => e > now,
    }
}

/// The ban that is in force at `now`, given the ends of the bans of a user
/// (`None`: no end): none for an administrator; otherwise the latest end of
/// the running bans, a ban without end above all.
pub fn active_ban(admin: bool, ends: &[Option<i64>], now: i64) -> (ban: ActiveBan)
    ensures
        admin ==> ban == ActiveBan::NotBanned,
        !admin ==> (ban == ActiveBan::NotBanned <==> forall|i: int| 0 <= i < ends@.len() ==> !running(#[trigger] ends@[i], now)),
        !admin ==> (ban == ActiveBan::Permanent <==> exists|i: int| 0 <= i < ends@.len() && #[trigger] ends@[i] is None),
        !admin ==> (ban matches ActiveBan::Temporary(t) ==> (exists|i: int| 0 <= i < ends@.len() && #[trigger] ends@[i] == Some(t)) && t > now
            && forall|i: int| 0 <= i < ends@.len() ==> (#[trigger] ends@[i] matches Some(e) ==> e <= t) && ends@[i] is Some),
{
    if admin {
        return ActiveBan::NotBanned;
    }
    let mut latest: Option<i64> = None;
    let mut permanent = false;
    let mut i: usize = 0;
    while i < ends.len()
        invariant
            i <= ends@.len(),
            permanent <==> exists|j: int| 0 <= j < i && #[trigger] ends@[j] is None,
            latest is None ==> forall|j: int| 0 <= j < i ==> (#[trigger] ends@[j] matches Some(e) ==> e <= now),
            latest matches Some(t) ==> t > now && (exists|j: int| 0 <= j < i && #[trigger] ends@[j] == Some(t)) && forall|j: int| 0 <= j < i ==> (#[trigger] ends@[j] matches Some(e) ==> e <= t),
        decreases ends.len() - i,
    {
        match ends[i] {
            None => {
                permanent = true;
            },
            Some(e) => {
                if e > now {
                    match latest {
                        None => {
                            latest = Some(e);
                        },
                        Some(t) => {
                            if e > t {
                                latest = Some(e);
                            }
                        },
                    }
                }
            },
        }
        i = i + 1;
    }
    if permanent {
        ActiveBan::Permanent
    } else {
        match latest {
            Some(t) => ActiveBan::Temporary(t),
            None => ActiveBan::NotBanned,
        }
    }
}

/// The number of hearts that an attempt at a subtask of a kind costs, from
/// the configured costs per kind.
pub struct HeartCosts {
    pub coding_challenges: u32,
    pub matchings: u32,
    pub multiple_choice_questions: u32,
    pub questions: u32,
    pub clozes: u32,
}

/// The number of hearts that an attempt at a subtask of this kind costs.
pub fn subtask_hearts(costs: &HeartCosts, ty: SubtaskType) -> (n: u32)
    ensures
        n == match ty {
            SubtaskType::CodingChallenge => costs.coding_challenges,
            SubtaskType::Matching => costs.matchings,
            SubtaskType::MultipleChoiceQuestion => costs.multiple_choice_questions,
            SubtaskType::Question => costs.questions,
            SubtaskType::Cloze => costs.clozes,
        },
{
    match ty {
        SubtaskType::CodingChallenge => costs.coding_challenges,
        SubtaskType::Matching => costs.matchings,
        SubtaskType::MultipleChoiceQuestion => costs.multiple_choice_questions,
        SubtaskType::Question => costs.questions,
        SubtaskType::Cloze => costs.clozes,
    }
}

/// Whether attempts at a subtask cost the user no hearts without asking the
/// shop: retired subtasks, administrators and the creator.
pub fn free_of_hearts(user: &User, subtask: &SubtaskModel) -> (free: bool)
    ensures
        free == (subtask.retired || user.admin || user.id == subtask.creator),
{
    subtask.retired || user.admin || user.id == subtask.creator
}

/// Whether a user may attempt a subtask: free of hearts, a premium user, or
/// owning at least the hearts that the attempt costs.
pub fn has_enough_hearts(free: bool, premium: bool, hearts: u32, cost: u32) -> (ok: bool)
    ensures
        ok == (free || premium || hearts >= cost),
{
    free || premium || hearts >= cost
}

/// The change of the hearts of a user for an attempt that costs `cost`.
pub fn heart_deduction(cost: u32) -> (delta: i32)
    requires
        cost <= i32::MAX,
    ensures
        delta == -(cost as int),
{
    -(cost as i32)
}

/// What a solved subtask earns its solver.
#[derive(PartialEq, Eq, Structural, Clone, Copy, Debug)]
pub struct RewardPlan {
    /// The xp added to each skill of the parent task, if any.
    pub xp_per_skill: Option<i64>,
    /// The coins added, if any.
    pub coins: Option<i64>,
}

/// `a / b` rounded toward zero, as Rust divides integers.
pub open spec fn quotient_toward_zero(a: int, b: int) -> int {
    if a >= 0 {
        a / b
    } else {
        -((-a) / b)
    }
}

/// The rewards for solving a subtask: nothing for a retired subtask;
/// otherwise its xp split evenly over the skills of the parent task (rounded
/// toward zero) and its coins, each where it is not zero.
pub fn reward_plan(retired: bool, xp: i64, coins: i64, skills: usize) -> (plan: RewardPlan)
    requires
        skills <= i64::MAX,
    ensures
        retired ==> plan == (RewardPlan { xp_per_skill: None, coins: None }),
        !retired ==> plan.coins == (if coins != 0 { Some(coins) } else { None }),
        !retired ==> (plan.xp_per_skill is Some <==> xp != 0 && skills > 0),
        !retired && xp != 0 && skills > 0 ==> (plan.xp_per_skill matches Some(q) && q == quotient_toward_zero(xp as int, skills as int)),
{
    if retired {
        return RewardPlan { xp_per_skill: None, coins: None };
    }
    let per_skill = if xp != 0 && skills > 0 {
        let n = skills as i64;
        Some(xp / n)
    } else {
        None
    };
    RewardPlan { xp_per_skill: per_skill, coins: if coins != 0 { Some(coins) } else { None } }
}

/// Whether every skill of a course has a level of at least `min_level`;
/// `levels[i]` is the user's level in the i-th skill, where they have one.
pub open spec fn levels_met(levels: Seq<Option<u32>>, min_level: u32) -> bool {
    forall|i: int| 0 <= i < levels.len() ==> (#[trigger] levels[i] matches Some(l) && l >= min_level)
}

/// Whether a user may create subtasks in a task: only administrators in a
/// challenge; in a course task administrators and users whose level in each
/// skill of the course is at least `min_level`.
pub fn can_create(is_challenge: bool, admin: bool, levels: &[Option<u32>], min_level: u32) -> (allowed: bool)
    ensures
        allowed == if is_challenge {
            admin
        } else {
            admin || levels_met(levels@, min_level)
        },
{
    if is_challenge {
        return admin;
    }
    if admin {
        return true;
    }
    let mut i: usize = 0;
    while i < levels.len()
        invariant
            !is_challenge,
            !admin,
            i <= levels@.len(),
            forall|k: int| 0 <= k < i ==> (#[trigger] levels@[k] matches Some(l) && l >= min_level),
        decreases levels.len() - i,
    {
        match levels[i] {
            Some(l) => {
                if l < min_level {
                    assert(!(levels@[i as int] matches Some(l) && l >= min_level));
                    return false;
                }
            },
            None => {
                assert(!(levels@[i as int] matches Some(l) && l >= min_level));
                return false;
            },
        }
        i = i + 1;
    }
    true
}

/// The checks of creating a subtask, in order: the user may create subtasks
/// in the task, a normal user in a course task stays within the maxima of xp
/// and coins, and the user is not banned. Returns the xp and coins of the
/// new subtask.
pub fn check_creation(
    allowed: bool,
    course_task: bool,
    admin: bool,
    xp: Option<u64>,
    coins: Option<u64>,
    max_xp: u64,
    max_coins: u64,
    ban: ActiveBan,
) -> (res: Result<(u64, u64), CreateSubtaskError>)
    ensures
        !allowed ==> res == Err::<(u64, u64), CreateSubtaskError>(CreateSubtaskError::Forbidden),
        allowed ==> match subtask_rewards_of(course_task, admin, xp, coins, max_xp, max_coins) {
            Err(e) => res == Err::<(u64, u64), CreateSubtaskError>(e),
            Ok(r) => res == match ban {
                ActiveBan::NotBanned => Ok::<(u64, u64), CreateSubtaskError>(r),
                ActiveBan::Temporary(end) => Err(CreateSubtaskError::Banned(Some(end))),
                ActiveBan::Permanent => Err(CreateSubtaskError::Banned(None)),
            },
        },
{
    if !allowed {
        return Err(CreateSubtaskError::Forbidden);
    }
    let rewards = subtask_rewards(course_task, admin, xp, coins, max_xp, max_coins);
    match rewards {
        Err(e) => Err(e),
        Ok(r) => match ban {
            ActiveBan::NotBanned => Ok(r),
            ActiveBan::Temporary(end) => Err(CreateSubtaskError::Banned(Some(end))),
            ActiveBan::Permanent => Err(CreateSubtaskError::Banned(None)),
        },
    }
}

/// The changes of an update of a subtask; `None` leaves a value as it is.
#[derive(Clone, Copy, Debug)]
pub struct SubtaskUpdate {
    pub task_id: Option<Uuid>,
    pub xp: Option<u64>,
    pub coins: Option<u64>,
    pub enabled: Option<bool>,
    pub retired: Option<bool>,
}

/// A subtask after an update: its task, xp, coins, and whether it is enabled
/// and retired change where the update sets them; everything else stays.
pub open spec fn updated_subtask(subtask: SubtaskModel, update: SubtaskUpdate) -> SubtaskModel {
    SubtaskModel {
        task_id: match update.task_id {
            Some(t) => t,
            None => subtask.task_id,
        },
        xp: match update.xp {
            Some(x) => x as i64,
            None => subtask.xp,
        },
        coins: match update.coins {
            Some(c) => c as i64,
            None => subtask.coins,
        },
        enabled: match update.enabled {
            Some(e) => e,
            None => subtask.enabled,
        },
        retired: match update.retired {
            Some(r) => r,
            None => subtask.retired,
        },
        ..subtask
    }
}

/// See [`updated_subtask`].
pub fn update_subtask(subtask: SubtaskModel, update: SubtaskUpdate) -> (updated: SubtaskModel)
    ensures
        updated == updated_subtask(subtask, update),
{
    SubtaskModel {
        task_id: match update.task_id {
            Some(t) => t,
            None => subtask.task_id,
        },
        xp: match update.xp {
            Some(x) => x as i64,
            None => subtask.xp,
        },
        coins: match update.coins {
            Some(c) => c as i64,
            None => subtask.coins,
        },
        enabled: match update.enabled {
            Some(e) => e,
            None => subtask.enabled,
        },
        retired: match update.retired {
            Some(r) => r,
            None => subtask.retired,
        },
        ..subtask
    }
}

/// An update that sets nothing leaves a subtask as it is, and applying an
/// update twice gives what applying it once gives.
pub proof fn lemma_update_laws(subtask: SubtaskModel, update: SubtaskUpdate)
    ensures
        updated_subtask(
            subtask,
            SubtaskUpdate { task_id: None, xp: None, coins: None, enabled: None, retired: None },
        ) == subtask,
        updated_subtask(updated_subtask(subtask, update), update) == updated_subtask(subtask, update),
{
}

/// What unlocking a subtask takes.
#[derive(PartialEq, Eq, Structural, Clone, Copy, Debug)]
pub enum UnlockStep {
    /// Nothing: the subtask is free, or the user unlocked it already.
    Open,
    /// This change of the user's coins (the fee, taken away).
    Charge(i64),
}

/// What unlocking a subtask takes: a subtask without a positive fee, or one
/// that the user unlocked already, is open; otherwise the fee is charged.
pub open spec fn unlock_step_of(fee: i64, unlocked: bool) -> UnlockStep {
    if fee <= 0 || unlocked {
        UnlockStep::Open
    } else {
        UnlockStep::Charge((-fee) as i64)
    }
}

/// See [`unlock_step_of`].
pub fn unlock_step(fee: i64, unlocked: bool) -> (step: UnlockStep)
    ensures
        step == unlock_step_of(fee, unlocked),
{
    if fee <= 0 || unlocked {
        UnlockStep::Open
    } else {
        UnlockStep::Charge(-fee)
    }
}

/// A fee is charged once: after a subtask is unlocked, unlocking it again
/// takes nothing.
pub proof fn lemma_fee_charged_once(fee: i64)
    ensures
        unlock_step_of(fee, true) == UnlockStep::Open,
        fee > 0 ==> unlock_step_of(fee, false) == UnlockStep::Charge((-fee) as i64),
{
}

} // verus!
