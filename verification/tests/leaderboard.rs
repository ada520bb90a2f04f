use challenges::services::leaderboard::{
    assign_ranks, is_listed, leaderboard_entry, leaderboard_page, may_see_hidden_rank, rank_after,
    AuthUser, Rank, is_rank_visible,
};
use challenges::services::subtasks::User;

fn new_id() -> u128 {
    uuid::Uuid::new_v4().as_u128()
}

fn auth_user(id: u128, admin: bool) -> User {
    User {
        id,
        email_verified: true,
        admin,
    }
}

fn user(leaderboard_opt_out: bool) -> AuthUser {
    AuthUser {
        id: new_id(),
        name: "user".into(),
        display_name: "User".into(),
        avatar_url: None,
        admin: false,
        leaderboard_opt_out,
    }
}

fn rank(rank: u64) -> Rank {
    Rank { score: 42, rank }
}

#[test]
fn test_listed_user_is_an_entry() {
    let entry = leaderboard_entry(Some(user(false)), rank(3)).unwrap();
    assert!(entry.user.is_some());
    assert_eq!(entry.rank.rank, 3);
    assert_eq!(entry.rank.score, 42);
}

#[test]
fn test_hidden_user_is_no_entry() {
    assert!(leaderboard_entry(Some(user(true)), rank(3)).is_none());
}

#[test]
fn test_unknown_user_is_an_entry_without_a_user() {
    let entry = leaderboard_entry(None, rank(3)).unwrap();
    assert!(entry.user.is_none());
    assert_eq!(entry.rank.rank, 3);
}

#[test]
fn test_own_rank_is_visible() {
    let id = new_id();
    assert!(may_see_hidden_rank(&auth_user(id, false), id));
}

#[test]
fn test_admin_sees_every_rank() {
    assert!(may_see_hidden_rank(&auth_user(new_id(), true), new_id()));
}

#[test]
fn test_other_user_needs_the_user_to_be_listed() {
    assert!(!may_see_hidden_rank(&auth_user(new_id(), false), new_id()));
    assert!(is_listed(Some(&user(false))));
    assert!(!is_listed(Some(&user(true))));
    assert!(is_listed(None));
}

#[test]
fn test_assign_ranks_shares_a_rank_between_equal_scores() {
    let ids = [new_id(), new_id(), new_id(), new_id()];
    let rows = vec![(ids[0], 30), (ids[1], 20), (ids[2], 20), (ids[3], 10)];

    let ranked = assign_ranks(rows, 0, 1);

    assert_eq!(ranked.iter().map(|(_, r)| r.rank).collect::<Vec<_>>(), [1, 2, 2, 4]);
    assert_eq!(ranked.iter().map(|(_, r)| r.score).collect::<Vec<_>>(), [30, 20, 20, 10]);
}

#[test]
fn test_assign_ranks_continues_at_the_offset_of_the_page() {
    let rows = vec![(new_id(), 30), (new_id(), 20)];

    let ranked = assign_ranks(rows, 10, 7);

    assert_eq!(ranked.iter().map(|(_, r)| r.rank).collect::<Vec<_>>(), [7, 12]);
}

#[test]
fn test_assign_ranks_of_an_empty_page() {
    assert!(assign_ranks(Vec::new(), 0, 1).is_empty());
}

#[test]
fn test_hidden_user_does_not_move_the_other_entries_of_a_page() {
    let ids = [new_id(), new_id(), new_id()];
    let rows = vec![(ids[0], 30), (ids[1], 20), (ids[2], 10)];
    let users = [Some(user(false)), Some(user(true)), Some(user(false))];

    let entries = assign_ranks(rows, 0, 1)
        .into_iter()
        .zip(users)
        .filter_map(|((_, rank), user)| leaderboard_entry(user, rank))
        .collect::<Vec<_>>();

    // the middle user is gone, the ranks of the others are unchanged, so
    // the next page still starts behind the third row
    assert_eq!(entries.iter().map(|entry| entry.rank.rank).collect::<Vec<_>>(), [1, 3]);
}

#[test]
fn a_page_drops_hidden_users_and_keeps_the_ranks() {
    let rows = vec![(new_id(), 50), (new_id(), 50), (new_id(), 40), (new_id(), 10)];
    let ranked = assign_ranks(rows, 20, 19);
    assert_eq!(ranked.iter().map(|(_, r)| r.rank).collect::<Vec<_>>(), [19, 19, 23, 24]);
    let users = vec![Some(user(true)), None, Some(user(false)), Some(user(true))];
    let page = leaderboard_page(ranked, users);
    assert_eq!(page.iter().map(|e| e.rank.rank).collect::<Vec<_>>(), [19, 23]);
    assert!(page[0].user.is_none());
}

#[test]
fn a_rank_follows_the_number_of_higher_scores() {
    assert_eq!(rank_after(Some(0)), 1);
    assert_eq!(rank_after(Some(41)), 42);
    assert_eq!(rank_after(None), 1);
}

#[test]
fn a_hidden_rank_is_shown_only_to_the_user_and_admins() {
    let hidden = user(true);
    let other = auth_user(new_id(), false);
    assert!(!is_rank_visible(&other, hidden.id, Some(&hidden)));
    assert!(is_rank_visible(&auth_user(hidden.id, false), hidden.id, None));
    assert!(is_rank_visible(&auth_user(new_id(), true), hidden.id, None));
    let shown = user(false);
    assert!(is_rank_visible(&other, shown.id, Some(&shown)));
    assert!(is_rank_visible(&other, new_id(), None));
}
