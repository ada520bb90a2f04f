//! Hearts: wrong answers cost hearts. The debit of an attempt is recorded as
//! an operation in the same transaction as the attempt, and settled with the
//! shop afterwards; a settled operation is never delivered again.
use vstd::prelude::*;

use crate::Uuid;
use super::subtasks::{SubtaskModel, User};
use crate::text::text_eq;

verus! {

/// The hearts that a wrong answer costs, in half hearts.
pub const WRONG_ANSWER_HALF_HEARTS: u32 = 2;

/// Whether a submission is accepted, and whether it is exempt from the fee:
/// `Some(true)` for a retired subtask, an administrator, the creator or a
/// premium user; `Some(false)` for a user with at least
/// [`WRONG_ANSWER_HALF_HEARTS`] hearts; `None` (refused) otherwise.
pub fn admission(subtask: &SubtaskModel, user: &User, premium: bool, hearts: u32) -> (res: Option<bool>)
    ensures
        res == if subtask.retired || user.admin || user.id == subtask.creator || premium {
            Some(true)
        } else if hearts >= 2 {
            Some(false)
        } else {
            None::<bool>
        },
{
    if subtask.retired || user.admin || user.id == subtask.creator || premium {
        return Some(true);
    }
    if hearts >= WRONG_ANSWER_HALF_HEARTS {
        Some(false)
    } else {
        None
    }
}

/// The heart operations recorded while a request is handled; they are
/// settled once the request has succeeded.
pub struct PendingHeartOperations {
    pub operations: Vec<Uuid>,
}

impl PendingHeartOperations {
    /// No operations yet.
    pub fn new() -> (p: Self)
        ensures
            p.operations@ == Seq::<Uuid>::empty(),
    {
        PendingHeartOperations { operations: Vec::new() }
    }

    /// Queue an operation for settlement.
    pub fn add(&mut self, operation: Uuid)
        ensures
            final(self).operations@ == old(self).operations@.push(operation),
    {
        self.operations.push(operation);
    }
}

/// The state of a recorded heart operation.
#[derive(PartialEq, Eq, Structural, Clone, Copy, Debug)]
pub enum HeartOperationState {
    /// Not delivered yet, or the delivery failed.
    Pending,
    /// The shop applied the debit.
    Settled,
    /// The shop reported a conflict; a human reviews the operation.
    Review,
    /// Any other stored state.
    Other,
}

/// The next step of settling an operation.
#[derive(PartialEq, Eq, Structural, Clone, Copy, Debug)]
pub enum SettleStep {
    /// Nothing to deliver; the operation counts as settled or not.
    Done(bool),
    /// Deliver the debit to the shop.
    Deliver,
}

/// What to do with an operation in its stored state (`None`: no such
/// operation, which counts as settled): only a pending operation is
/// delivered, and it counts as settled only where it is settled.
pub open spec fn settle_step_spec(stored: Option<HeartOperationState>) -> SettleStep {
    match stored {
        None => SettleStep::Done(true),
        Some(HeartOperationState::Pending) => SettleStep::Deliver,
        Some(s) => SettleStep::Done(s == HeartOperationState::Settled),
    }
}

/// See [`settle_step_spec`].
pub fn settle_step(stored: Option<HeartOperationState>) -> (step: SettleStep)
    ensures
        step == settle_step_spec(stored),
{
    match stored {
        None => SettleStep::Done(true),
        Some(HeartOperationState::Pending) => SettleStep::Deliver,
        Some(HeartOperationState::Settled) => SettleStep::Done(true),
        Some(_) => SettleStep::Done(false),
    }
}

/// The reply of the shop to a delivery.
#[derive(PartialEq, Eq, Structural, Clone, Copy, Debug)]
pub enum Delivery {
    /// The shop applied the debit.
    Applied,
    /// The shop reported the outcome `conflict`.
    Conflict,
    /// No reply, or an error.
    Failed,
}

/// The state an operation is stored in after a delivery, and whether it is
/// settled: a conflict goes to review, a failure stays pending.
pub open spec fn delivered_state_of(delivery: Delivery) -> (HeartOperationState, bool) {
    match delivery {
        Delivery::Applied => (HeartOperationState::Settled, true),
        Delivery::Conflict => (HeartOperationState::Review, false),
        Delivery::Failed => (HeartOperationState::Pending, false),
    }
}

/// See [`delivered_state_of`].
pub fn delivered_state(delivery: Delivery) -> (res: (HeartOperationState, bool))
    ensures
        res == delivered_state_of(delivery),
{
    match delivery {
        Delivery::Applied => (HeartOperationState::Settled, true),
        Delivery::Conflict => (HeartOperationState::Review, false),
        Delivery::Failed => (HeartOperationState::Pending, false),
    }
}

/// Whether the response to a request is marked `hearts_pending`: the request
/// succeeded, recorded operations, and one of them is not settled.
pub fn hearts_pending(success: bool, settled: &[bool]) -> (pending: bool)
    ensures
        pending == (success && settled@.len() > 0 && exists|i: int| 0 <= i < settled@.len() && !#[trigger] settled@[i]),
{
    if !success || settled.len() == 0 {
        return false;
    }
    let mut i: usize = 0;
    while i < settled.len()
        invariant
            success,
            settled@.len() > 0,
            i <= settled@.len(),
            forall|j: int| 0 <= j < i ==> #[trigger] settled@[j],
        decreases settled.len() - i,
    {
        if !settled[i] {
            assert(!settled@[i as int]);
            return true;
        }
        i = i + 1;
    }
    false
}

/// A debit reaches the shop at most once: after a delivery that the shop
/// applied, settling the operation again delivers nothing and reports it
/// settled; after a conflict it is never delivered again and stays
/// unsettled for review; only a failed delivery is tried again.
pub proof fn lemma_settled_is_final(delivery: Delivery)
    ensures
        delivery == Delivery::Applied ==> settle_step_spec(Some(delivered_state_of(delivery).0)) == SettleStep::Done(true),
        delivery == Delivery::Conflict ==> settle_step_spec(Some(delivered_state_of(delivery).0)) == SettleStep::Done(false),
        delivery == Delivery::Failed ==> settle_step_spec(Some(delivered_state_of(delivery).0)) == SettleStep::Deliver,
        delivered_state_of(delivery).1 <==> settle_step_spec(Some(delivered_state_of(delivery).0)) == SettleStep::Done(true),
{
}

/// The state of an operation as it is stored.
pub open spec fn state_name(state: HeartOperationState) -> Seq<char> {
    match state {
        HeartOperationState::Pending => "pending"@,
        HeartOperationState::Settled => "settled"@,
        HeartOperationState::Review => "review"@,
        HeartOperationState::Other => "other"@,
    }
}

/// The state of an operation as it is stored.
pub fn state_text(state: HeartOperationState) -> (text: &'static str)
    ensures
        text@ == state_name(state),
{
    match state {
        HeartOperationState::Pending => "pending",
        HeartOperationState::Settled => "settled",
        HeartOperationState::Review => "review",
        HeartOperationState::Other => "other",
    }
}

/// The state of an operation from its stored text: `pending`, `settled` and
/// `review` are themselves, anything else is another state.
pub open spec fn parsed_state(text: Seq<char>) -> HeartOperationState {
    if text == "pending"@ {
        HeartOperationState::Pending
    } else if text == "settled"@ {
        HeartOperationState::Settled
    } else if text == "review"@ {
        HeartOperationState::Review
    } else {
        HeartOperationState::Other
    }
}

/// See [`parsed_state`].
pub fn parse_state(text: &str) -> (state: HeartOperationState)
    ensures
        state == parsed_state(text@),
{
    if text_eq(text, "pending") {
        HeartOperationState::Pending
    } else if text_eq(text, "settled") {
        HeartOperationState::Settled
    } else if text_eq(text, "review") {
        HeartOperationState::Review
    } else {
        HeartOperationState::Other
    }
}

/// A stored state reads back as itself.
pub proof fn lemma_state_round_trip(state: HeartOperationState)
    ensures
        parsed_state(state_name(state)) == state,
{
    reveal_strlit("pending");
    reveal_strlit("settled");
    reveal_strlit("review");
    reveal_strlit("other");
    assert("pending"@[0] == 'p' && "settled"@[0] == 's' && "review"@[0] == 'r' && "other"@[0] == 'o');
}

} // verus!
