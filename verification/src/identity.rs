//! Entry point of the peer-review process that grants identity levels.
//!
//! The governance engine consumes identities and levels; the review process
//! itself belongs to the identity collaborator. This module holds its
//! request handler.

use crate::types::{Error, IdentityId, IdentityLevel};
use vstd::prelude::*;

verus! {

/// Logical time at which a review is requested to take place.
pub type Timestamp = u64;

/// The identity collaborator's entry points.
pub struct Module;

impl Module {
    /// Request a peer review toward the given identity level at the given
    /// time. The engine does not run the review itself: the request is
    /// acknowledged by handing the requester back as the review ticket, and
    /// never fails.
    pub fn do_request_peer_review(
        user: IdentityId,
        identity_level: IdentityLevel,
        at: Timestamp,
    ) -> (r: Result<IdentityId, Error>)
        ensures
            r == Ok::<IdentityId, Error>(user),
    {
        let _ = identity_level;
        let _ = at;
        Ok(user)
    }
}

} // verus!
