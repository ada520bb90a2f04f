//! The sweep over users who no longer exist: every user the database refers
//! to is looked up in the auth service, and the data of the missing ones is
//! deleted; a failed lookup keeps the data for the next sweep.
use vstd::prelude::*;

use crate::services::leaderboard::AuthUser;

verus! {

/// What to do with the data of a user that the database refers to.
#[derive(PartialEq, Eq, Structural, Clone, Copy, Debug)]
pub enum Decision {
    /// The user still exists, so their data is kept.
    Keep,
    /// The user does not exist anymore, so their data is deleted.
    Delete,
    /// The user could not be looked up, so their data is kept for now.
    Skip,
}

/// The decision for the outcome of looking a user up.
pub fn decide<E>(user: Result<Option<AuthUser>, E>) -> (decision: Decision)
    ensures
        decision == match user {
            Ok(Some(_)) => Decision::Keep,
            Ok(None) => Decision::Delete,
            Err(_) => Decision::Skip,
        },
{
    match user {
        Ok(Some(_)) => Decision::Keep,
        Ok(None) => Decision::Delete,
        Err(_) => Decision::Skip,
    }
}

/// The nanoseconds between two lookups for a rate limit of lookups per
/// second: a second divided by the rate, rounded down, and no pause where
/// the rate is zero (`Duration::checked_div`, `unwrap_or_default`).
pub fn lookup_interval_nanos(rate_limit: u32) -> (nanos: u64)
    ensures
        nanos == if rate_limit == 0 {
            0int
        } else {
            1_000_000_000int / (rate_limit as int)
        },
{
    if rate_limit == 0 {
        0
    } else {
        1_000_000_000u64 / (rate_limit as u64)
    }
}

/// The counts of a sweep.
#[derive(PartialEq, Eq, Structural, Clone, Copy, Debug)]
pub struct Stats {
    pub checked: u64,
    pub missing: u64,
    pub deleted: u64,
    pub errors: u64,
}

impl Stats {
    /// The counts agree: every missing user and every error was a checked
    /// user, and only missing users are deleted.
    pub open spec fn consistent(&self) -> bool {
        &&& self.missing + self.errors <= self.checked
        &&& self.deleted <= self.missing
    }

    /// Nothing counted yet.
    pub fn new() -> (stats: Self)
        ensures
            stats == (Stats { checked: 0, missing: 0, deleted: 0, errors: 0 }),
            stats.consistent(),
    {
        Stats { checked: 0, missing: 0, deleted: 0, errors: 0 }
    }

    /// Count a checked user with the decision taken for them.
    pub fn record(&mut self, decision: Decision)
        requires
            old(self).checked < u64::MAX,
            decision == Decision::Delete ==> old(self).missing < u64::MAX,
            decision == Decision::Skip ==> old(self).errors < u64::MAX,
        ensures
            final(self).checked == old(self).checked + 1,
            final(self).missing == old(self).missing + if decision == Decision::Delete { 1int } else { 0 },
            final(self).errors == old(self).errors + if decision == Decision::Skip { 1int } else { 0 },
            final(self).deleted == old(self).deleted,
            old(self).consistent() ==> final(self).consistent(),
    {
        self.checked = self.checked + 1;
        match decision {
            Decision::Keep => {},
            Decision::Delete => {
                self.missing = self.missing + 1;
            },
            Decision::Skip => {
                self.errors = self.errors + 1;
            },
        }
    }

    /// Count the deletion of the data of a missing user.
    pub fn record_deletion(&mut self)
        requires
            old(self).deleted < old(self).missing,
        ensures
            *final(self) == (Stats { deleted: (old(self).deleted + 1) as u64, ..*old(self) }),
            old(self).consistent() ==> final(self).consistent(),
    {
        self.deleted = self.deleted + 1;
    }
}

} // verus!
