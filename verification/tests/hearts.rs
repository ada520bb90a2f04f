use challenges::services::hearts::{
    admission, delivered_state, hearts_pending, settle_step, Delivery, HeartOperationState,
    PendingHeartOperations, SettleStep,
};
use challenges::services::subtasks::{SubtaskModel, SubtaskType, User};

fn subtask(retired: bool) -> SubtaskModel {
    SubtaskModel {
        id: 1,
        task_id: 2,
        ty: SubtaskType::CodingChallenge,
        creator: 3,
        creation_timestamp: 0,
        xp: 10,
        coins: 0,
        fee: 0,
        enabled: true,
        retired,
        moderation_removed: false,
    }
}

fn user(id: u128, admin: bool) -> User {
    User { id, email_verified: true, admin }
}

#[test]
fn exempt_users_pass_without_hearts() {
    assert_eq!(admission(&subtask(true), &user(8, false), false, 0), Some(true));
    assert_eq!(admission(&subtask(false), &user(8, true), false, 0), Some(true));
    assert_eq!(admission(&subtask(false), &user(3, false), false, 0), Some(true));
    assert_eq!(admission(&subtask(false), &user(8, false), true, 0), Some(true));
}

#[test]
fn others_need_the_hearts_of_a_wrong_answer() {
    assert_eq!(admission(&subtask(false), &user(8, false), false, 2), Some(false));
    assert_eq!(admission(&subtask(false), &user(8, false), false, 1), None);
}

#[test]
fn only_pending_operations_are_delivered() {
    assert_eq!(settle_step(None), SettleStep::Done(true));
    assert_eq!(settle_step(Some(HeartOperationState::Pending)), SettleStep::Deliver);
    assert_eq!(settle_step(Some(HeartOperationState::Settled)), SettleStep::Done(true));
    assert_eq!(settle_step(Some(HeartOperationState::Review)), SettleStep::Done(false));
    assert_eq!(delivered_state(Delivery::Applied), (HeartOperationState::Settled, true));
    assert_eq!(delivered_state(Delivery::Conflict), (HeartOperationState::Review, false));
    assert_eq!(delivered_state(Delivery::Failed), (HeartOperationState::Pending, false));
}

#[test]
fn a_response_is_pending_while_an_operation_is_unsettled() {
    assert!(hearts_pending(true, &[true, false]));
    assert!(!hearts_pending(true, &[true, true]));
    assert!(!hearts_pending(false, &[false]));
    assert!(!hearts_pending(true, &[]));
    let mut pending = PendingHeartOperations::new();
    pending.add(5);
    pending.add(6);
    assert_eq!(pending.operations, vec![5, 6]);
}
