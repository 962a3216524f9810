//! IDs and partial records for OAuth teams and applications.

use vstd::prelude::*;
use crate::id::ApplicationId;
use crate::user::UserFlags;

verus! {

/// ID of a stock-keeping unit; not a snowflake, so zero is allowed.
#[derive(Clone, Copy, Debug, PartialEq, Eq, Structural, Hash, PartialOrd, Ord)]
pub struct SkuId(pub u64);

impl Default for SkuId {
    fn default() -> (r: Self)
        ensures
            r.0 == 0,
    {
        SkuId(0)
    }
}

/// Unique ID of an OAuth team.
#[derive(Clone, Copy, Debug, PartialEq, Eq, Structural, Hash, PartialOrd, Ord)]
pub struct TeamId {
    value: u64,
}

impl View for TeamId {
    type V = u64;

    closed spec fn view(&self) -> u64 {
        self.value
    }
}

impl TeamId {
    /// Creates the ID if the given value is not zero.
    pub fn new(n: u64) -> (r: Option<Self>)
        ensures
            r is Some <==> n != 0,
            r matches Some(id) ==> id@ == n,
    {
        if n == 0 {
            None
        } else {
            Some(TeamId { value: n })
        }
    }

    /// Returns the inner primitive value.
    pub fn get(self) -> (r: u64)
        ensures
            r == self@,
    {
        self.value
    }
}

/// The application fields that the gateway's ready payload carries.
#[derive(Clone, Copy, Debug, PartialEq, Eq, Structural)]
pub struct PartialApplication {
    pub flags: UserFlags,
    pub id: ApplicationId,
}

} // verus!
