//! The requests and replies of the pass operations.
use vstd::prelude::*;
use crate::validation::{validation_result, ValidationError, ValidationErrors};

verus! {

/// A signed pass.
#[derive(Debug)]
pub struct JwtPass {
    pub jwt: String,
}

impl JwtPass {
    pub fn new(jwt: String) -> (r: Self)
        ensures
            r.jwt == jwt,
    {
        JwtPass { jwt }
    }

    /// The rules that the pass breaks: the token must not be empty.
    pub open spec fn violations(&self) -> Seq<ValidationError> {
        if self.jwt@.len() < 1 {
            seq![ValidationError::JwtEmpty]
        } else {
            seq![]
        }
    }

    pub fn validate(&self) -> (r: Result<(), ValidationErrors>)
        ensures
            r is Ok <==> self.violations().len() == 0,
            r matches Err(e) ==> e.errors@ == self.violations(),
    {
        let mut errors: Vec<ValidationError> = Vec::new();
        if self.jwt.as_str().is_empty() {
            errors.push(ValidationError::JwtEmpty);
        }
        assert(errors@ =~= self.violations());
        validation_result(errors)
    }
}

/// Whether a pass was accepted.
#[derive(Clone, Copy, Debug)]
pub struct VerificationResult {
    pub valid: bool,
}

impl VerificationResult {
    pub fn new(valid: bool) -> (r: Self)
        ensures
            r.valid == valid,
    {
        VerificationResult { valid }
    }
}

} // verus!
