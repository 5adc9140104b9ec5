//! The per-contest state singleton and the contest status state machine.

use vstd::prelude::*;
use vstd::string::*;
use crate::models::attempt::LiftType;
use crate::text::{owned, str_eq};

verus! {

/// Where a contest stands in its life cycle.
#[derive(Clone, Copy, Debug, PartialEq, Eq, Structural)]
pub enum ContestStatus {
    Setup,
    Registration,
    InProgress,
    Paused,
    Complete,
}

impl ContestStatus {
    /// The stored name of the status.
    pub open spec fn name(self) -> Seq<char> {
        match self {
            ContestStatus::Setup => "Setup"@,
            ContestStatus::Registration => "Registration"@,
            ContestStatus::InProgress => "InProgress"@,
            ContestStatus::Paused => "Paused"@,
            ContestStatus::Complete => "Complete"@,
        }
    }

    /// The status that a stored name denotes, if any.
    pub open spec fn parse(s: Seq<char>) -> Result<ContestStatus, ()> {
        if s == "Setup"@ {
            Ok(ContestStatus::Setup)
        } else if s == "Registration"@ {
            Ok(ContestStatus::Registration)
        } else if s == "InProgress"@ {
            Ok(ContestStatus::InProgress)
        } else if s == "Paused"@ {
            Ok(ContestStatus::Paused)
        } else if s == "Complete"@ {
            Ok(ContestStatus::Complete)
        } else {
            Err(())
        }
    }

    /// Whether the state machine allows moving from `self` to `next`.
    /// A status may always be re-applied to itself.
    pub open spec fn can_become(self, next: ContestStatus) -> bool {
        ||| self == next
        ||| (self == ContestStatus::Setup && next == ContestStatus::Registration)
        ||| (self == ContestStatus::Registration && next == ContestStatus::InProgress)
        ||| (self == ContestStatus::InProgress && next == ContestStatus::Paused)
        ||| (self == ContestStatus::InProgress && next == ContestStatus::Complete)
        ||| (self == ContestStatus::Paused && next == ContestStatus::InProgress)
    }

    /// A complete contest stays complete, and no contest returns to
    /// setup.
    pub proof fn lemma_no_way_back(self, next: ContestStatus)
        requires
            self.can_become(next),
        ensures
            self == ContestStatus::Complete ==> next == ContestStatus::Complete,
            next == ContestStatus::Setup ==> self == ContestStatus::Setup,
    {
    }

    pub fn to_string(&self) -> (r: String)
        ensures
            r@ == self.name(),
    {
        match self {
            ContestStatus::Setup => owned("Setup"),
            ContestStatus::Registration => owned("Registration"),
            ContestStatus::InProgress => owned("InProgress"),
            ContestStatus::Paused => owned("Paused"),
            ContestStatus::Complete => owned("Complete"),
        }
    }

    pub fn from_str(s: &str) -> (r: Result<ContestStatus, ()>)
        ensures
            r == Self::parse(s@),
    {
        if str_eq(s, "Setup") {
            Ok(ContestStatus::Setup)
        } else if str_eq(s, "Registration") {
            Ok(ContestStatus::Registration)
        } else if str_eq(s, "InProgress") {
            Ok(ContestStatus::InProgress)
        } else if str_eq(s, "Paused") {
            Ok(ContestStatus::Paused)
        } else if str_eq(s, "Complete") {
            Ok(ContestStatus::Complete)
        } else {
            Err(())
        }
    }

    /// Every status's stored name parses back to that status.
    pub proof fn lemma_name_round_trip(self)
        ensures
            Self::parse(self.name()) == Ok::<ContestStatus, ()>(self),
    {
        reveal_strlit("Setup");
        reveal_strlit("Registration");
        reveal_strlit("InProgress");
        reveal_strlit("Paused");
        reveal_strlit("Complete");
        assert("Setup"@[0] != "Registration"@[0]);
        assert("Setup"@[0] != "InProgress"@[0]);
        assert("Setup"@[0] != "Paused"@[0]);
        assert("Setup"@[0] != "Complete"@[0]);
        assert("Registration"@[0] != "InProgress"@[0]);
        assert("Registration"@[0] != "Paused"@[0]);
        assert("Registration"@[0] != "Complete"@[0]);
        assert("InProgress"@[0] != "Paused"@[0]);
        assert("InProgress"@[0] != "Complete"@[0]);
        assert("Paused"@[0] != "Complete"@[0]);
    }
}

/// The state singleton of one contest: which lift and round the platform
/// is on, and which attempt is on deck.
#[derive(Debug)]
pub struct ContestState {
    pub contest_id: String,
    pub status: ContestStatus,
    pub current_lift: Option<LiftType>,
    pub current_round: i32,
    pub current_attempt_id: Option<String>,
}

/// A contest state row as the store keeps it, status and lift as text.
#[derive(Debug)]
pub struct DbContestState {
    pub contest_id: String,
    pub status: String,
    pub current_lift: Option<String>,
    pub current_round: i32,
}

/// The lift that a stored, optional lift name denotes; an unknown name
/// counts as no lift.
pub open spec fn stored_lift(s: Option<String>) -> Option<LiftType> {
    match s {
        Some(name) => match LiftType::parse(name@) {
            Ok(l) => Some(l),
            Err(_) => None,
        },
        None => None,
    }
}

impl ContestState {
    /// Reads a stored row. An unknown status is refused; no attempt is
    /// on deck in a state read this way.
    pub fn try_from(db_state: DbContestState) -> (r: Result<ContestState, ()>)
        ensures
            r is Ok <==> ContestStatus::parse(db_state.status@) is Ok,
            r matches Ok(s) ==> {
                &&& s.contest_id == db_state.contest_id
                &&& Ok::<ContestStatus, ()>(s.status) == ContestStatus::parse(db_state.status@)
                &&& s.current_lift == stored_lift(db_state.current_lift)
                &&& s.current_round == db_state.current_round
                &&& s.current_attempt_id is None
            },
    {
        let status = match ContestStatus::from_str(db_state.status.as_str()) {
            Ok(s) => s,
            Err(_) => {
                return Err(());
            },
        };
        let current_lift = match &db_state.current_lift {
            Some(name) => match LiftType::from_str(name.as_str()) {
                Ok(l) => Some(l),
                Err(_) => None,
            },
            None => None,
        };
        Ok(
            ContestState {
                contest_id: db_state.contest_id,
                status,
                current_lift,
                current_round: db_state.current_round,
                current_attempt_id: None,
            },
        )
    }
}

} // verus!
