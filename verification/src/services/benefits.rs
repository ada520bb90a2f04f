//! The benefits that a first completion earns, and the delivery of their
//! components to the skills and shop services.
use vstd::prelude::*;

use crate::services::subtasks::quotient_toward_zero;
use crate::text::text_eq;

verus! {

/// The xp of the components of an earning: with xp, one component per skill
/// of the task, each with the xp split evenly (rounded toward zero); without
/// xp, none. Coins are never paid out as a component.
pub fn xp_components(xp: i64, skills: usize) -> (components: Vec<i64>)
    requires
        skills <= i64::MAX,
    ensures
        xp == 0 ==> components@.len() == 0,
        xp != 0 ==> components@.len() == skills,
        forall|i: int| 0 <= i < components@.len() ==> #[trigger] components@[i] == quotient_toward_zero(xp as int, skills as int),
{
    let mut components: Vec<i64> = Vec::new();
    if xp == 0 {
        return components;
    }
    let mut i: usize = 0;
    while i < skills
        invariant
            i <= skills <= i64::MAX,
            xp != 0,
            components@.len() == i,
            forall|k: int| 0 <= k < i ==> #[trigger] components@[k] == quotient_toward_zero(xp as int, skills as int),
        decreases skills - i,
    {
        let n = skills as i64;
        components.push(xp / n);
        i = i + 1;
    }
    components
}

/// The state a component is stored in after a delivery, and whether it
/// counts as delivered: the remote `state` of the reply (`None`: no reply)
/// `applied` is delivered, `recipient_erased` and `review` go to review, and
/// anything else, or no reply, stays uncertain and is tried again.
pub open spec fn delivery_state_of(reply_state: Option<Seq<char>>) -> (Seq<char>, bool) {
    match reply_state {
        Some(s) => if s == "applied"@ {
            ("applied"@, true)
        } else if s == "recipient_erased"@ || s == "review"@ {
            ("review"@, false)
        } else {
            ("uncertain"@, false)
        },
        None => ("uncertain"@, false),
    }
}

/// See [`delivery_state_of`].
pub fn delivery_state(reply_state: Option<&str>) -> (res: (&'static str, bool))
    ensures
        (res.0@, res.1) == delivery_state_of(match reply_state {
            Some(s) => Some(s@),
            None => None::<Seq<char>>,
        }),
{
    match reply_state {
        Some(s) => {
            if text_eq(s, "applied") {
                ("applied", true)
            } else if text_eq(s, "recipient_erased") || text_eq(s, "review") {
                ("review", false)
            } else {
                ("uncertain", false)
            }
        },
        None => ("uncertain", false),
    }
}

} // verus!
