use challenges::services::leaderboard::AuthUser;
use challenges::sweep::{decide, lookup_interval_nanos, Decision, Stats};

fn user() -> AuthUser {
    AuthUser {
        id: uuid::Uuid::new_v4().as_u128(),
        name: "user".into(),
        display_name: "User".into(),
        avatar_url: None,
        admin: false,
        leaderboard_opt_out: false,
    }
}

#[test]
fn test_decide_existing_user() {
    assert_eq!(decide::<&str>(Ok(Some(user()))), Decision::Keep);
}

#[test]
fn test_decide_deleted_user() {
    assert_eq!(decide::<&str>(Ok(None)), Decision::Delete);
}

#[test]
fn test_decide_auth_service_error() {
    assert_eq!(
        decide::<&str>(Err("unexpected response status code: 500")),
        Decision::Skip
    );
}

#[test]
fn lookups_are_spaced_by_the_rate_limit() {
    assert_eq!(lookup_interval_nanos(0), 0);
    assert_eq!(lookup_interval_nanos(1), 1_000_000_000);
    assert_eq!(lookup_interval_nanos(3), 333_333_333);
    let expected = std::time::Duration::from_secs(1).checked_div(7).unwrap_or_default();
    assert_eq!(lookup_interval_nanos(7) as u128, expected.as_nanos());
}

#[test]
fn the_counts_of_a_sweep_stay_consistent() {
    let mut stats = Stats::new();
    stats.record(Decision::Keep);
    stats.record(Decision::Delete);
    stats.record_deletion();
    stats.record(Decision::Skip);
    assert_eq!(stats, Stats { checked: 3, missing: 1, deleted: 1, errors: 1 });
}
