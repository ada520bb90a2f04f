//! Leaderboards: the ranks of a page of rows ordered by score, which users
//! are listed, and who may see the rank of a user who is not.
use vstd::prelude::*;

use crate::services::subtasks::User;
use crate::Uuid;

verus! {

/// A user as the auth service describes them.
pub struct AuthUser {
    pub id: Uuid,
    pub name: String,
    pub display_name: String,
    pub avatar_url: Option<String>,
    pub admin: bool,
    /// The user asked not to be listed on the leaderboards.
    pub leaderboard_opt_out: bool,
}

/// The score and the rank of a row of a leaderboard.
#[derive(PartialEq, Eq, Structural, Clone, Copy, Debug)]
pub struct Rank {
    pub score: u64,
    pub rank: u64,
}

/// An entry of a leaderboard: the user, where the auth service knows them,
/// and their rank.
pub struct LeaderboardUser {
    pub user: Option<AuthUser>,
    pub rank: Rank,
}

/// The rank given to the rows so far and the score it was given for, after
/// the first `n` rows of a page: a row with a lower score than the current
/// one starts a new rank at its position on the whole leaderboard.
pub open spec fn rank_state(rows: Seq<(Uuid, i64)>, offset: u64, first_rank: u64, n: nat) -> (int, i64)
    decreases n,
{
    if n == 0 {
        (first_rank as int, if rows.len() > 0 { rows[0].1 } else { 0 })
    } else {
        let (rank, score) = rank_state(rows, offset, first_rank, (n - 1) as nat);
        if rows[n - 1].1 < score {
            (offset + n, rows[n - 1].1)
        } else {
            (rank, score)
        }
    }
}

/// Assign a rank to every row of a page of a leaderboard. `first_rank` is the
/// rank of the first row of the page, `offset` the index of that row on the
/// whole leaderboard. Rows with an equal score share a rank, and the next
/// lower score continues at its absolute position.
pub fn assign_ranks(rows: Vec<(Uuid, i64)>, offset: u64, first_rank: u64) -> (ranked: Vec<(Uuid, Rank)>)
    requires
        offset + rows@.len() <= u64::MAX,
    ensures
        ranked@.len() == rows@.len(),
        forall|i: int|
            0 <= i < rows@.len() ==> {
                &&& (#[trigger] ranked@[i]).0 == rows@[i].0
                &&& ranked@[i].1.score == rows@[i].1 as u64
                &&& ranked@[i].1.rank == rank_state(rows@, offset, first_rank, (i + 1) as nat).0
            },
{
    let mut rank_score: i64 = if rows.len() > 0 {
        rows[0].1
    } else {
        0
    };
    let mut rank: u64 = first_rank;
    let mut ranked: Vec<(Uuid, Rank)> = Vec::new();
    let mut i: usize = 0;
    while i < rows.len()
        invariant
            i <= rows@.len(),
            offset + rows@.len() <= u64::MAX,
            ranked@.len() == i,
            (rank as int, rank_score) == rank_state(rows@, offset, first_rank, i as nat),
            forall|j: int|
                0 <= j < i ==> {
                    &&& (#[trigger] ranked@[j]).0 == rows@[j].0
                    &&& ranked@[j].1.score == rows@[j].1 as u64
                    &&& ranked@[j].1.rank == rank_state(rows@, offset, first_rank, (j + 1) as nat).0
                },
        decreases rows.len() - i,
    {
        let (id, score) = rows[i];
        if score < rank_score {
            rank = offset + i as u64 + 1;
            rank_score = score;
        }
        ranked.push((id, Rank { score: score as u64, rank }));
        i = i + 1;
    }
    ranked
}

/// Whether a page is ordered by score, highest first.
pub open spec fn by_score(rows: Seq<(Uuid, i64)>) -> bool {
    forall|i: int, j: int| 0 <= i <= j < rows.len() ==> rows[i].1 >= rows[j].1
}

/// The index of the first row at or after `j` with the score `x`.
pub open spec fn first_with_score(rows: Seq<(Uuid, i64)>, x: i64, j: int) -> int
    decreases rows.len() - j,
{
    if j >= rows.len() || j < 0 {
        rows.len() as int
    } else if rows[j].1 == x {
        j
    } else {
        first_with_score(rows, x, j + 1)
    }
}

/// The rank a row deserves by its score: the rank of the first row where the
/// score is the first row's, otherwise one more than the number of rows of
/// the whole leaderboard before the first row with its score.
pub open spec fn rank_by_score(rows: Seq<(Uuid, i64)>, offset: u64, first_rank: u64, i: int) -> int {
    if rows[i].1 == rows[0].1 {
        first_rank as int
    } else {
        offset + first_with_score(rows, rows[i].1, 0) + 1
    }
}

proof fn lemma_first_with_score(rows: Seq<(Uuid, i64)>, x: i64, j: int, n: int)
    requires
        0 <= j <= n < rows.len(),
        forall|k: int| j <= k < n ==> rows[k].1 != x,
        rows[n].1 == x,
    ensures
        first_with_score(rows, x, j) == n,
    decreases n - j,
{
    if j < n {
        lemma_first_with_score(rows, x, j + 1, n);
    }
}

proof fn lemma_rank_state_by_score(rows: Seq<(Uuid, i64)>, offset: u64, first_rank: u64, n: nat)
    requires
        by_score(rows),
        1 <= n <= rows.len(),
    ensures
        rank_state(rows, offset, first_rank, n) == (rank_by_score(rows, offset, first_rank, n - 1), rows[n - 1].1),
    decreases n,
{
    if n == 1 {
        assert(rank_state(rows, offset, first_rank, 0) == (first_rank as int, rows[0].1));
    } else {
        lemma_rank_state_by_score(rows, offset, first_rank, (n - 1) as nat);
        let x = rows[n - 1].1;
        let previous = rows[n - 2].1;
        assert(previous >= x);
        if x < previous {
            assert(rows[0].1 >= previous);
            assert forall|k: int| 0 <= k < n - 1 implies rows[k].1 != x by {
                assert(rows[k].1 >= previous);
            }
            lemma_first_with_score(rows, x, 0, n - 1);
        }
    }
}

/// Ranks follow scores: on a page ordered by score, every row gets the rank
/// its score deserves (see [`rank_by_score`]), and rows with an equal score
/// share a rank.
pub proof fn lemma_ranks_follow_scores(rows: Seq<(Uuid, i64)>, offset: u64, first_rank: u64)
    requires
        by_score(rows),
    ensures
        forall|i: int|
            0 <= i < rows.len() ==> #[trigger] rank_state(rows, offset, first_rank, (i + 1) as nat).0
                == rank_by_score(rows, offset, first_rank, i),
        forall|i: int, j: int|
            0 <= i < rows.len() && 0 <= j < rows.len() && rows[i].1 == rows[j].1 ==> #[trigger] rank_state(
                rows,
                offset,
                first_rank,
                (i + 1) as nat,
            ).0 == #[trigger] rank_state(rows, offset, first_rank, (j + 1) as nat).0,
{
    assert forall|i: int| 0 <= i < rows.len() implies #[trigger] rank_state(rows, offset, first_rank, (i + 1) as nat).0
        == rank_by_score(rows, offset, first_rank, i) by {
        lemma_rank_state_by_score(rows, offset, first_rank, (i + 1) as nat);
    }
    assert forall|i: int, j: int|
        0 <= i < rows.len() && 0 <= j < rows.len() && rows[i].1 == rows[j].1 implies #[trigger] rank_state(
            rows,
            offset,
            first_rank,
            (i + 1) as nat,
        ).0 == #[trigger] rank_state(rows, offset, first_rank, (j + 1) as nat).0 by {
        lemma_rank_state_by_score(rows, offset, first_rank, (i + 1) as nat);
        lemma_rank_state_by_score(rows, offset, first_rank, (j + 1) as nat);
    }
}

/// Whether a user is listed on the leaderboards: a user the auth service
/// does not know is listed, since there is no preference to honour.
pub open spec fn listed(user: Option<AuthUser>) -> bool {
    !(user matches Some(u) && u.leaderboard_opt_out)
}

/// The user behind an optional reference.
pub open spec fn user_behind(user: Option<&AuthUser>) -> Option<AuthUser> {
    match user {
        Some(u) => Some(*u),
        None => None,
    }
}

/// Whether a user is listed on the leaderboards (see [`listed`]).
pub fn is_listed(user: Option<&AuthUser>) -> (b: bool)
    ensures
        b == listed(user_behind(user)),
{
    match user {
        Some(u) => !u.leaderboard_opt_out,
        None => true,
    }
}

/// Turn a row into an entry of a leaderboard: none where the user asked not
/// to be listed, otherwise the user with the rank unchanged.
pub fn leaderboard_entry(user: Option<AuthUser>, rank: Rank) -> (entry: Option<LeaderboardUser>)
    ensures
        match entry {
            Some(e) => listed(user) && e.user == user && e.rank == rank,
            None => !listed(user),
        },
{
    if is_listed(user.as_ref()) {
        Some(LeaderboardUser { user, rank })
    } else {
        None
    }
}

/// Whether `auth` may see the rank of `user_id` even where that user asked
/// not to be listed: everyone sees their own rank, administrators every
/// rank.
pub fn may_see_hidden_rank(auth: &User, user_id: Uuid) -> (b: bool)
    ensures
        b == (auth.id == user_id || auth.admin),
{
    auth.id == user_id || auth.admin
}

/// Whether the rank of `user_id` is shown to `auth`: always to the user
/// and to an admin, otherwise where the user looked up is listed (an unknown
/// user is). The user is looked up only where [`may_see_hidden_rank`] does
/// not already decide; then `looked_up` is what the lookup gave.
pub fn is_rank_visible(auth: &User, user_id: Uuid, looked_up: Option<&AuthUser>) -> (b: bool)
    ensures
        b == ((auth.id == user_id || auth.admin) || listed(user_behind(looked_up))),
{
    if may_see_hidden_rank(auth, user_id) {
        return true;
    }
    is_listed(looked_up)
}

/// The rank of a score: one more than the number of users with a higher
/// score (`None`: the count came back empty).
pub fn rank_after(higher: Option<i64>) -> (rank: u64)
    requires
        higher matches Some(n) ==> (n as u64) < u64::MAX,
    ensures
        rank == match higher {
            Some(n) => (n as u64) + 1,
            None => 1,
        },
{
    match higher {
        Some(n) => (n as u64) + 1,
        None => 1,
    }
}

/// The entries of a page: the ranked rows whose users are listed, in order,
/// each with its rank as assigned. `users[i]` is the user of `ranked[i]`, as
/// the auth service knows them.
pub open spec fn page_entries(ranked: Seq<(Uuid, Rank)>, users: Seq<Option<AuthUser>>) -> Seq<(Option<AuthUser>, Rank)>
    decreases ranked.len(),
{
    if ranked.len() == 0 {
        seq![]
    } else {
        let before = page_entries(ranked.drop_last(), users.take(ranked.len() - 1));
        let u = users[ranked.len() - 1];
        if listed(u) {
            before.push((u, ranked.last().1))
        } else {
            before
        }
    }
}

/// The entries of a list, as pairs.
pub open spec fn entry_pairs(entries: Seq<LeaderboardUser>) -> Seq<(Option<AuthUser>, Rank)> {
    entries.map_values(|e: LeaderboardUser| (e.user, e.rank))
}

/// The entries of a page of a leaderboard (see [`page_entries`]): dropping
/// a user who is not listed changes neither the ranks of the others nor
/// their order.
pub fn leaderboard_page(ranked: Vec<(Uuid, Rank)>, users: Vec<Option<AuthUser>>) -> (entries: Vec<LeaderboardUser>)
    requires
        users@.len() == ranked@.len(),
    ensures
        entry_pairs(entries@) == page_entries(ranked@, users@),
{
    let mut entries: Vec<LeaderboardUser> = Vec::new();
    let mut users = users;
    let ghost all_users = users@;
    let mut i: usize = 0;
    while i < ranked.len()
        invariant
            i <= ranked@.len() == all_users.len(),
            users@ == all_users.skip(i as int),
            entry_pairs(entries@) == page_entries(ranked@.take(i as int), all_users.take(i as int)),
        decreases ranked.len() - i,
    {
        let u = users.remove(0);
        assert(u == all_users[i as int]);
        assert(users@ =~= all_users.skip(i + 1));
        let rank = ranked[i].1;
        let ghost before = entries@;
        proof {
            let r = ranked@.take(i + 1);
            assert(r.drop_last() =~= ranked@.take(i as int));
            assert(all_users.take(i + 1).take(r.len() - 1) =~= all_users.take(i as int));
        }
        match leaderboard_entry(u, rank) {
            Some(e) => {
                entries.push(e);
                assert(entry_pairs(entries@) =~= entry_pairs(before).push((all_users[i as int], rank)));
            },
            None => {},
        }
        i = i + 1;
    }
    assert(ranked@.take(ranked@.len() as int) =~= ranked@);
    assert(all_users.take(all_users.len() as int) =~= all_users);
    entries
}

} // verus!
