//! The error taxonomy of the service: business errors, which are reported to
//! the caller with a descriptive message and a negative code, and internal
//! store failures, which are reported only as an opaque correlation
//! identifier.

use vstd::prelude::*;

verus! {

/// Why a court operation was refused.
///
/// `DuplicateName`, `PendingOrders` and `NotFound` are business errors: the
/// request itself was invalid against the current state, and the caller is
/// told why. `Internal` stands for a failure of the backing store; it carries
/// only a freshly generated correlation identifier, never the underlying
/// error text.
#[derive(Debug)]
pub enum CourtError {
    /// A court with the same name already exists under the same administrator.
    DuplicateName,
    /// The court still has an order whose end time has not passed.
    PendingOrders,
    /// No court with the given identifier exists under this administrator.
    NotFound,
    /// The backing store failed; the payload is the correlation identifier.
    Internal(String),
}

impl CourtError {
    /// The numeric code of the response envelope. Success is reported as 0
    /// elsewhere; every error code is negative: -1 for a business error, -2
    /// for an internal failure.
    pub fn code(&self) -> (r: i32)
        ensures
            r == self.spec_code(),
    {
        match self {
            CourtError::Internal(_) => -2,
            _ => -1,
        }
    }

    /// What `code` returns for each variant.
    pub open spec fn spec_code(&self) -> i32 {
        match self {
            CourtError::Internal(_) => -2i32,
            _ => -1i32,
        }
    }

    /// The human-readable message of the response envelope. An internal
    /// failure exposes only its correlation identifier.
    pub fn message(&self) -> (r: String)
        ensures
            r@ == self.spec_message(),
    {
        match self {
            CourtError::DuplicateName => "duplicate court name".to_owned(),
            CourtError::PendingOrders => "court has pending orders".to_owned(),
            CourtError::NotFound => "court does not exist".to_owned(),
            CourtError::Internal(id) => id.clone(),
        }
    }

    /// What `message` returns for each variant.
    pub open spec fn spec_message(&self) -> Seq<char> {
        match self {
            CourtError::DuplicateName => "duplicate court name"@,
            CourtError::PendingOrders => "court has pending orders"@,
            CourtError::NotFound => "court does not exist"@,
            CourtError::Internal(id) => id@,
        }
    }

    /// Whether this is a business error (reported with a 400-class status)
    /// rather than an internal failure (500-class).
    pub fn is_business(&self) -> (r: bool)
        ensures
            r == !(self is Internal),
    {
        match self {
            CourtError::Internal(_) => false,
            _ => true,
        }
    }
}

/// Relies on `uuid::Uuid::new_v4` and the `Display` form of `uuid::Uuid`:
/// a freshly generated version-4 identifier, rendered in the hyphenated
/// format of 36 characters. The value is random, so nothing more is claimed
/// of it.
#[verifier::external_body]
fn fresh_correlation_id() -> (r: String)
    ensures
        r@.len() == 36,
{
    uuid::Uuid::new_v4().to_string()
}

/// Wraps a store failure: generates a fresh correlation identifier and
/// returns it as the only detail the caller will see. The caller is expected
/// to log the underlying error beside the identifier.
pub fn internal_error() -> (r: CourtError)
    ensures
        r matches CourtError::Internal(id) && id@.len() == 36,
{
    CourtError::Internal(fresh_correlation_id())
}

} // verus!
