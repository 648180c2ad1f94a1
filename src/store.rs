use vstd::prelude::*;

use crate::time::Timestamp;

verus! {

/// One stored grant, as the permission store hands it back.
///
/// Type and relation fields hold the stored text; a relation text that names
/// no known relation grants nothing.
#[derive(Debug)]
pub struct PermissionRow {
    pub id: i32,
    pub tenant_id: i32,
    pub resource_type: String,
    pub resource_id: String,
    pub relation: String,
    pub subject_type: String,
    pub subject_id: String,
    pub granted_by: Option<i32>,
    pub expires_at: Option<Timestamp>,
    pub create_time: Timestamp,
}

impl PermissionRow {
    /// The grant has an expiry instant and it lies strictly before `now`.
    pub open spec fn expired_at(&self, now: Timestamp) -> bool {
        self.expires_at matches Some(e) && e.precedes(now)
    }

    /// Whether the grant has expired at `now`.
    pub fn is_expired_at(&self, now: &Timestamp) -> (r: bool)
        ensures
            r == self.expired_at(*now),
    {
        match &self.expires_at {
            Some(e) => e.is_before(now),
            None => false,
        }
    }
}

/// A failed store call, carrying the store's own message.
#[derive(Debug)]
pub struct StoreError {
    pub message: String,
}

} // verus!
