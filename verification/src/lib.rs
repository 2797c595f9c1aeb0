//! Verified core of a sports-court administration service.
//!
//! The library keeps the set of courts owned by each administrator, and
//! carries out the four management operations — add, delete, list, update —
//! with their validation rules: names are unique per administrator, a court
//! with a pending order cannot be deleted, and deletion and update are scoped
//! to the owning administrator.

pub mod court;
pub mod error;
pub mod laws;
