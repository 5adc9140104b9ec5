//! The failures that operations of the scoring core report.

use vstd::prelude::*;
use vstd::string::*;
use crate::text::owned;

verus! {

/// A typed failure. Every operation reports failures as return values.
#[derive(Debug)]
pub enum AppError {
    DatabaseNotInitialized,
    CompetitorNotFound { id: String },
    ContestNotFound { id: String },
    ContestStateNotFound { contest_id: String },
    RegistrationNotFound { id: String },
    AttemptNotFound { id: String },
    InvalidAttempt { reason: String },
    ContestNotInProgress,
    ContestAlreadyExists { name: String },
    InvalidInput { field: String, reason: String },
    ValidationError(String),
    Internal(String),
}

impl AppError {
    /// The human-readable text of the failure.
    pub open spec fn text(self) -> Seq<char> {
        match self {
            AppError::DatabaseNotInitialized => "Database not initialized"@,
            AppError::CompetitorNotFound { id } => "Competitor not found: "@ + id@,
            AppError::ContestNotFound { id } => "Contest not found: "@ + id@,
            AppError::ContestStateNotFound { contest_id } => {
                "Contest state not found for contest: "@ + contest_id@
            },
            AppError::RegistrationNotFound { id } => "Registration not found: "@ + id@,
            AppError::AttemptNotFound { id } => "Attempt not found: "@ + id@,
            AppError::InvalidAttempt { reason } => "Invalid attempt: "@ + reason@,
            AppError::ContestNotInProgress => "Contest is not in progress"@,
            AppError::ContestAlreadyExists { name } => "Contest already exists: "@ + name@,
            AppError::InvalidInput { field, reason } => {
                "Invalid input: "@ + field@ + " - "@ + reason@
            },
            AppError::ValidationError(reason) => "Validation error: "@ + reason@,
            AppError::Internal(reason) => "Internal error: "@ + reason@,
        }
    }

    pub fn to_string(&self) -> (r: String)
        ensures
            r@ == self.text(),
    {
        match self {
            AppError::DatabaseNotInitialized => owned("Database not initialized"),
            AppError::CompetitorNotFound { id } => owned("Competitor not found: ").concat(
                id.as_str(),
            ),
            AppError::ContestNotFound { id } => owned("Contest not found: ").concat(id.as_str()),
            AppError::ContestStateNotFound { contest_id } => owned(
                "Contest state not found for contest: ",
            ).concat(contest_id.as_str()),
            AppError::RegistrationNotFound { id } => owned("Registration not found: ").concat(
                id.as_str(),
            ),
            AppError::AttemptNotFound { id } => owned("Attempt not found: ").concat(id.as_str()),
            AppError::InvalidAttempt { reason } => owned("Invalid attempt: ").concat(
                reason.as_str(),
            ),
            AppError::ContestNotInProgress => owned("Contest is not in progress"),
            AppError::ContestAlreadyExists { name } => owned("Contest already exists: ").concat(
                name.as_str(),
            ),
            AppError::InvalidInput { field, reason } => owned("Invalid input: ").concat(
                field.as_str(),
            ).concat(" - ").concat(reason.as_str()),
            AppError::ValidationError(reason) => owned("Validation error: ").concat(
                reason.as_str(),
            ),
            AppError::Internal(reason) => owned("Internal error: ").concat(reason.as_str()),
        }
    }
}

} // verus!
