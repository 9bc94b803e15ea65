//! Errors of the admin endpoints and of reading stored records.

use vstd::prelude::*;

verus! {

/// Why a request was rejected as malformed.
#[derive(Clone, Copy, Debug, PartialEq, Eq, Structural)]
pub enum BadRequestReason {
    /// A role other than `user` or `admin` was asked for.
    InvalidRole,
    /// A permission name outside the known permissions was asked for.
    InvalidPermission,
}

/// Why the server could not answer.
#[derive(Clone, Copy, Debug, PartialEq, Eq, Structural)]
pub enum ServerFault {
    /// No statistics snapshot exists yet.
    StatsUnavailable,
}

/// The ways an admin endpoint refuses a request.
#[derive(Clone, Copy, Debug, PartialEq, Eq, Structural)]
pub enum AdminError {
    Forbidden,
    NotFound,
    BadRequest(BadRequestReason),
    InternalServerError(ServerFault),
}

/// The message an error carries to the client, as written by the endpoints.
pub open spec fn error_message(error: AdminError) -> Option<Seq<char>> {
    match error {
        AdminError::BadRequest(BadRequestReason::InvalidRole) => Some(
            "role must be user or admin"@,
        ),
        AdminError::BadRequest(BadRequestReason::InvalidPermission) => Some("invalid permission"@),
        AdminError::InternalServerError(ServerFault::StatsUnavailable) => Some(
            "admin stats unavailable"@,
        ),
        _ => None,
    }
}

impl AdminError {
    /// The message text of a `BadRequest` or `InternalServerError`.
    pub fn message(&self) -> (text: Option<&'static str>)
        ensures
            text matches Some(t) ==> error_message(*self) == Some(t@),
            text is None <==> error_message(*self) is None,
    {
        match self {
            AdminError::BadRequest(BadRequestReason::InvalidRole) => Some(
                "role must be user or admin",
            ),
            AdminError::BadRequest(BadRequestReason::InvalidPermission) => Some(
                "invalid permission",
            ),
            AdminError::InternalServerError(ServerFault::StatsUnavailable) => Some(
                "admin stats unavailable",
            ),
            _ => None,
        }
    }
}

/// uuid's error for a text that is not a UUID.
#[verifier::external_type_specification]
#[verifier::external_body]
pub struct ExUuidError(uuid::Error);

/// A stored value that could not be read back.
#[derive(Debug)]
pub enum DecodeError {
    /// A stored identifier is not a UUID.
    InvalidUuid(uuid::Error),
    /// A stored date is not a `YYYY-MM-DD` date.
    InvalidDate(chrono::ParseError),
}

} // verus!
