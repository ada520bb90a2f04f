//! The endpoints that other services call.
use vstd::prelude::*;

verus! {

/// The response to deleting the data of a user.
#[derive(PartialEq, Eq, Structural, Clone, Copy, Debug)]
pub enum DeleteUser {
    /// All data of the user has been deleted.
    NoContent,
}

impl DeleteUser {
    /// The status code of the response.
    pub fn status(&self) -> (code: u16)
        ensures
            code == 204,
    {
        204
    }
}

} // verus!
