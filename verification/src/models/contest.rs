//! Contest records as the contest list keeps them.

use vstd::prelude::*;
use vstd::string::*;
use crate::coefficients::{parse_ymd, parsed_ymd};
use crate::models::attempt::ParseError;
use crate::text::{owned, str_eq};

verus! {

/// What a contest is held in.
#[derive(Clone, Copy, Debug, PartialEq, Eq, Structural)]
pub enum Discipline {
    Bench,
    Squat,
    Deadlift,
    Powerlifting,
}

/// The status a contest record carries in the contest list.
#[derive(Clone, Copy, Debug, PartialEq, Eq, Structural)]
pub enum ContestStatus {
    Setup,
    InProgress,
    Paused,
    Completed,
}

impl Discipline {
    pub open spec fn name(self) -> Seq<char> {
        match self {
            Discipline::Bench => "Bench"@,
            Discipline::Squat => "Squat"@,
            Discipline::Deadlift => "Deadlift"@,
            Discipline::Powerlifting => "Powerlifting"@,
        }
    }

    pub open spec fn parse(s: Seq<char>) -> Result<Discipline, ParseError> {
        if s == "Bench"@ {
            Ok(Discipline::Bench)
        } else if s == "Squat"@ {
            Ok(Discipline::Squat)
        } else if s == "Deadlift"@ {
            Ok(Discipline::Deadlift)
        } else if s == "Powerlifting"@ {
            Ok(Discipline::Powerlifting)
        } else {
            Err(ParseError::VariantNotFound)
        }
    }

    pub fn to_string(&self) -> (r: String)
        ensures
            r@ == self.name(),
    {
        match self {
            Discipline::Bench => owned("Bench"),
            Discipline::Squat => owned("Squat"),
            Discipline::Deadlift => owned("Deadlift"),
            Discipline::Powerlifting => owned("Powerlifting"),
        }
    }

    pub fn from_str(s: &str) -> (r: Result<Discipline, ParseError>)
        ensures
            r == Self::parse(s@),
    {
        if str_eq(s, "Bench") {
            Ok(Discipline::Bench)
        } else if str_eq(s, "Squat") {
            Ok(Discipline::Squat)
        } else if str_eq(s, "Deadlift") {
            Ok(Discipline::Deadlift)
        } else if str_eq(s, "Powerlifting") {
            Ok(Discipline::Powerlifting)
        } else {
            Err(ParseError::VariantNotFound)
        }
    }

    /// The discipline of a stored record; an unknown name counts as
    /// powerlifting.
    pub fn from_stored(s: &str) -> (r: Discipline)
        ensures
            r == (match Self::parse(s@) {
                Ok(d) => d,
                Err(_) => Discipline::Powerlifting,
            }),
    {
        match Self::from_str(s) {
            Ok(d) => d,
            Err(_) => Discipline::Powerlifting,
        }
    }
}

impl ContestStatus {
    pub open spec fn name(self) -> Seq<char> {
        match self {
            ContestStatus::Setup => "Setup"@,
            ContestStatus::InProgress => "InProgress"@,
            ContestStatus::Paused => "Paused"@,
            ContestStatus::Completed => "Completed"@,
        }
    }

    pub open spec fn parse(s: Seq<char>) -> Result<ContestStatus, ParseError> {
        if s == "Setup"@ {
            Ok(ContestStatus::Setup)
        } else if s == "InProgress"@ {
            Ok(ContestStatus::InProgress)
        } else if s == "Paused"@ {
            Ok(ContestStatus::Paused)
        } else if s == "Completed"@ {
            Ok(ContestStatus::Completed)
        } else {
            Err(ParseError::VariantNotFound)
        }
    }

    pub fn to_string(&self) -> (r: String)
        ensures
            r@ == self.name(),
    {
        match self {
            ContestStatus::Setup => owned("Setup"),
            ContestStatus::InProgress => owned("InProgress"),
            ContestStatus::Paused => owned("Paused"),
            ContestStatus::Completed => owned("Completed"),
        }
    }

    pub fn from_str(s: &str) -> (r: Result<ContestStatus, ParseError>)
        ensures
            r == Self::parse(s@),
    {
        if str_eq(s, "Setup") {
            Ok(ContestStatus::Setup)
        } else if str_eq(s, "InProgress") {
            Ok(ContestStatus::InProgress)
        } else if str_eq(s, "Paused") {
            Ok(ContestStatus::Paused)
        } else if str_eq(s, "Completed") {
            Ok(ContestStatus::Completed)
        } else {
            Err(ParseError::VariantNotFound)
        }
    }

    /// The status of a stored record; an unknown name counts as `Setup`.
    pub fn from_stored(s: &str) -> (r: ContestStatus)
        ensures
            r == (match Self::parse(s@) {
                Ok(d) => d,
                Err(_) => ContestStatus::Setup,
            }),
    {
        match Self::from_str(s) {
            Ok(d) => d,
            Err(_) => ContestStatus::Setup,
        }
    }
}

/// A contest row as the store keeps it, every column as text.
#[derive(Debug)]
pub struct DbContest {
    pub id: String,
    pub name: String,
    pub date: String,
    pub location: String,
    pub discipline: String,
    pub status: String,
    pub federation_rules: Option<String>,
    pub competition_type: Option<String>,
    pub organizer: Option<String>,
    pub notes: Option<String>,
    pub is_archived: bool,
    pub created_at: String,
    pub updated_at: String,
}

/// A contest of the contest list. `date` is year, month and day.
#[derive(Debug)]
pub struct Contest {
    pub id: String,
    pub name: String,
    pub date: (i32, u32, u32),
    pub location: String,
    pub discipline: Discipline,
    pub status: ContestStatus,
    pub federation_rules: Option<String>,
    pub competition_type: Option<String>,
    pub organizer: Option<String>,
    pub notes: Option<String>,
    pub is_archived: bool,
    pub created_at: String,
    pub updated_at: String,
}

impl Contest {
    /// Reads a stored contest row. What cannot be read is replaced: a
    /// date by 1 January 1900, a discipline by powerlifting, a status by
    /// `Setup`.
    pub fn from(db_contest: DbContest) -> (r: Contest)
        ensures
            r.id == db_contest.id,
            r.name == db_contest.name,
            r.date == (match parsed_ymd(db_contest.date@) {
                Some(d) => d,
                None => (1900i32, 1u32, 1u32),
            }),
            r.location == db_contest.location,
            r.discipline == (match Discipline::parse(db_contest.discipline@) {
                Ok(d) => d,
                Err(_) => Discipline::Powerlifting,
            }),
            r.status == (match ContestStatus::parse(db_contest.status@) {
                Ok(s) => s,
                Err(_) => ContestStatus::Setup,
            }),
            r.federation_rules == db_contest.federation_rules,
            r.competition_type == db_contest.competition_type,
            r.organizer == db_contest.organizer,
            r.notes == db_contest.notes,
            r.is_archived == db_contest.is_archived,
            r.created_at == db_contest.created_at,
            r.updated_at == db_contest.updated_at,
    {
        let date = match parse_ymd(db_contest.date.as_str()) {
            Some(d) => d,
            None => (1900, 1, 1),
        };
        let discipline = Discipline::from_stored(db_contest.discipline.as_str());
        let status = ContestStatus::from_stored(db_contest.status.as_str());
        Contest {
            id: db_contest.id,
            name: db_contest.name,
            date,
            location: db_contest.location,
            discipline,
            status,
            federation_rules: db_contest.federation_rules,
            competition_type: db_contest.competition_type,
            organizer: db_contest.organizer,
            notes: db_contest.notes,
            is_archived: db_contest.is_archived,
            created_at: db_contest.created_at,
            updated_at: db_contest.updated_at,
        }
    }
}

} // verus!
