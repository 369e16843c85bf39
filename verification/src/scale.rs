//! Validation rules of the continuous scales.
//!
//! The scales themselves map floating-point values; here stand their error
//! type and the order in which a logarithmic scale checks its parameters.

use vstd::prelude::*;

verus! {

/// Errors returned when constructing scales with invalid parameters.
#[derive(Debug, Clone, Copy, PartialEq, Eq, Structural)]
pub enum ScaleError {
    /// Logarithmic mapping requires strictly positive domain endpoints.
    NonPositiveDomain,
    /// Base must be finite, positive, and not 1.
    InvalidLogBase,
}

impl ScaleError {
    /// The message of the error.
    pub fn message(&self) -> (s: String)
        ensures
            self is NonPositiveDomain ==> s@ == "log scale domain must be strictly positive"@,
            self is InvalidLogBase ==> s@ == "log scale base must be finite, positive, and not 1"@,
    {
        match self {
            ScaleError::NonPositiveDomain => "log scale domain must be strictly positive".to_owned(),
            ScaleError::InvalidLogBase => "log scale base must be finite, positive, and not 1".to_owned(),
        }
    }
}

/// Outcome of the parameter checks of a logarithmic scale: the base is
/// checked first (finite, positive, not 1), then the domain (both endpoints
/// finite and strictly positive, and distinct).
pub fn check_log_scale(base_valid: bool, domain_valid: bool) -> (r: Result<(), ScaleError>)
    ensures
        !base_valid ==> r == Err::<(), ScaleError>(ScaleError::InvalidLogBase),
        base_valid && !domain_valid ==> r == Err::<(), ScaleError>(ScaleError::NonPositiveDomain),
        base_valid && domain_valid ==> r is Ok,
{
    if !base_valid {
        return Err(ScaleError::InvalidLogBase);
    }
    if !domain_valid {
        return Err(ScaleError::NonPositiveDomain);
    }
    Ok(())
}

} // verus!
