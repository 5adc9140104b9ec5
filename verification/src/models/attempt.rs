//! Lift attempts: one record per (registration, lift, attempt number) slot.

use vstd::prelude::*;
use vstd::string::*;
use crate::text::{owned, str_eq};

verus! {

/// The three competition lifts.
#[derive(Clone, Copy, Debug, PartialEq, Eq, Structural)]
pub enum LiftType {
    Squat,
    Bench,
    Deadlift,
}

/// Outcome of an attempt.
#[derive(Clone, Copy, Debug, PartialEq, Eq, Structural)]
pub enum AttemptStatus {
    Pending,
    Successful,
    Failed,
    Skipped,
}

/// A stored name that matches no variant.
#[derive(Clone, Copy, Debug, PartialEq, Eq, Structural)]
pub enum ParseError {
    VariantNotFound,
}

impl LiftType {
    /// The stored name of the lift.
    pub open spec fn name(self) -> Seq<char> {
        match self {
            LiftType::Squat => "Squat"@,
            LiftType::Bench => "Bench"@,
            LiftType::Deadlift => "Deadlift"@,
        }
    }

    /// The lift that a stored name denotes, if any. Names are case sensitive.
    pub open spec fn parse(s: Seq<char>) -> Result<LiftType, ParseError> {
        if s == "Squat"@ {
            Ok(LiftType::Squat)
        } else if s == "Bench"@ {
            Ok(LiftType::Bench)
        } else if s == "Deadlift"@ {
            Ok(LiftType::Deadlift)
        } else {
            Err(ParseError::VariantNotFound)
        }
    }

    pub fn to_string(&self) -> (r: String)
        ensures
            r@ == self.name(),
    {
        match self {
            LiftType::Squat => owned("Squat"),
            LiftType::Bench => owned("Bench"),
            LiftType::Deadlift => owned("Deadlift"),
        }
    }

    pub fn from_str(s: &str) -> (r: Result<LiftType, ParseError>)
        ensures
            r == Self::parse(s@),
    {
        if str_eq(s, "Squat") {
            Ok(LiftType::Squat)
        } else if str_eq(s, "Bench") {
            Ok(LiftType::Bench)
        } else if str_eq(s, "Deadlift") {
            Ok(LiftType::Deadlift)
        } else {
            Err(ParseError::VariantNotFound)
        }
    }

    /// Every lift's stored name parses back to that lift.
    pub proof fn lemma_name_round_trip(self)
        ensures
            Self::parse(self.name()) == Ok::<LiftType, ParseError>(self),
    {
        reveal_strlit("Squat");
        reveal_strlit("Bench");
        reveal_strlit("Deadlift");
        assert("Squat"@[0] != "Bench"@[0]);
        assert("Squat"@[0] != "Deadlift"@[0]);
        assert("Bench"@[0] != "Deadlift"@[0]);
    }
}

impl AttemptStatus {
    /// The stored name of the status.
    pub open spec fn name(self) -> Seq<char> {
        match self {
            AttemptStatus::Pending => "Pending"@,
            AttemptStatus::Successful => "Successful"@,
            AttemptStatus::Failed => "Failed"@,
            AttemptStatus::Skipped => "Skipped"@,
        }
    }

    /// The status that a stored name denotes, if any. Names are case
    /// sensitive.
    pub open spec fn parse(s: Seq<char>) -> Result<AttemptStatus, ParseError> {
        if s == "Pending"@ {
            Ok(AttemptStatus::Pending)
        } else if s == "Successful"@ {
            Ok(AttemptStatus::Successful)
        } else if s == "Failed"@ {
            Ok(AttemptStatus::Failed)
        } else if s == "Skipped"@ {
            Ok(AttemptStatus::Skipped)
        } else {
            Err(ParseError::VariantNotFound)
        }
    }

    pub fn to_string(&self) -> (r: String)
        ensures
            r@ == self.name(),
    {
        match self {
            AttemptStatus::Pending => owned("Pending"),
            AttemptStatus::Successful => owned("Successful"),
            AttemptStatus::Failed => owned("Failed"),
            AttemptStatus::Skipped => owned("Skipped"),
        }
    }

    pub fn from_str(s: &str) -> (r: Result<AttemptStatus, ParseError>)
        ensures
            r == Self::parse(s@),
    {
        if str_eq(s, "Pending") {
            Ok(AttemptStatus::Pending)
        } else if str_eq(s, "Successful") {
            Ok(AttemptStatus::Successful)
        } else if str_eq(s, "Failed") {
            Ok(AttemptStatus::Failed)
        } else if str_eq(s, "Skipped") {
            Ok(AttemptStatus::Skipped)
        } else {
            Err(ParseError::VariantNotFound)
        }
    }

    /// Every status's stored name parses back to that status.
    pub proof fn lemma_name_round_trip(self)
        ensures
            Self::parse(self.name()) == Ok::<AttemptStatus, ParseError>(self),
    {
        reveal_strlit("Pending");
        reveal_strlit("Successful");
        reveal_strlit("Failed");
        reveal_strlit("Skipped");
        assert("Pending"@[0] != "Successful"@[0]);
        assert("Pending"@[0] != "Failed"@[0]);
        assert("Pending"@[0] != "Skipped"@[0]);
        assert("Successful"@[0] != "Failed"@[0]);
        assert("Successful"@[1] != "Skipped"@[1]);
        assert("Failed"@[0] != "Skipped"@[0]);
    }
}

/// One declared or judged lift. `weight` is in grams.
#[derive(Debug)]
pub struct Attempt {
    pub id: String,
    pub registration_id: String,
    pub lift_type: LiftType,
    pub attempt_number: i32,
    pub weight: u32,
    pub status: AttemptStatus,
}

impl Attempt {
    /// A copy that agrees with `self` in every field.
    pub fn duplicate(&self) -> (r: Attempt)
        ensures
            r == *self,
    {
        Attempt {
            id: self.id.clone(),
            registration_id: self.registration_id.clone(),
            lift_type: self.lift_type,
            attempt_number: self.attempt_number,
            weight: self.weight,
            status: self.status,
        }
    }
}

/// An attempt row as the store keeps it: lift and status as text.
#[derive(Debug)]
pub struct DbAttempt {
    pub id: String,
    pub registration_id: String,
    pub lift_type: String,
    pub attempt_number: i32,
    pub weight: u32,
    pub status: String,
}

/// A request to enter an attempt into the ledger; the weight is in grams.
/// An attempt entered without a status is pending.
#[derive(Debug)]
pub struct CreateAttemptRequest {
    pub registration_id: String,
    pub lift_type: LiftType,
    pub attempt_number: i32,
    pub weight: u32,
    pub status: Option<AttemptStatus>,
}

/// A declared weight (in grams) for one slot of a registration.
#[derive(Debug)]
pub struct AttemptUpsert {
    pub registration_id: String,
    pub lift_type: LiftType,
    pub attempt_number: i32,
    pub weight: u32,
}

/// A judging decision for one attempt.
#[derive(Debug)]
pub struct AttemptUpdateResult {
    pub attempt_id: String,
    pub status: AttemptStatus,
}

} // verus!
