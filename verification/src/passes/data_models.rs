//! The claims of a pass, and the record of its verification.
use vstd::prelude::*;
use crate::object_id::ObjectId;

verus! {

/// The claims of a pass. Times are in seconds since the Unix epoch.
#[derive(Debug)]
pub struct Pass {
    /// The identifier of the order line that the pass is for.
    pub sub: String,
    pub exp: usize,
    pub iat: usize,
    pub nbf: usize,
    pub inventory_id: String,
    pub event_id: String,
    pub event_name: String,
}

/// The record that a pass was verified.
#[derive(Clone, Copy, Debug)]
pub struct PassVerification {
    pub inventory_id: ObjectId,
    /// Milliseconds since the Unix epoch.
    pub verification_time: i64,
}

} // verus!
