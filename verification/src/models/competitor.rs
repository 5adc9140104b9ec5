//! Competitors as the competitor list keeps them.

use vstd::prelude::*;
use crate::text::clone_text;

verus! {

/// A competitor. `competition_order` is the competitor's place in the
/// list, counted from 1.
#[derive(Debug)]
pub struct Competitor {
    pub id: String,
    pub first_name: String,
    pub last_name: String,
    pub birth_date: String,
    pub gender: String,
    pub club: Option<String>,
    pub city: Option<String>,
    pub notes: Option<String>,
    pub competition_order: i64,
    pub photo_base64: Option<String>,
}

impl Competitor {
    /// A copy that agrees with `self` in every field.
    pub fn duplicate(&self) -> (r: Competitor)
        ensures
            r == *self,
    {
        Competitor {
            id: self.id.clone(),
            first_name: self.first_name.clone(),
            last_name: self.last_name.clone(),
            birth_date: self.birth_date.clone(),
            gender: self.gender.clone(),
            club: clone_text(&self.club),
            city: clone_text(&self.city),
            notes: clone_text(&self.notes),
            competition_order: self.competition_order,
            photo_base64: clone_text(&self.photo_base64),
        }
    }
}

/// What the registration desk enters for a new competitor.
#[derive(Debug)]
pub struct CompetitorCreate {
    pub first_name: String,
    pub last_name: String,
    pub birth_date: String,
    pub gender: String,
    pub photo_base64: Option<String>,
    pub photo_filename: Option<String>,
}

/// A request to add a competitor to the list.
#[derive(Debug)]
pub struct CreateCompetitorRequest {
    pub first_name: String,
    pub last_name: String,
    pub birth_date: String,
    pub gender: String,
    pub club: Option<String>,
    pub city: Option<String>,
    pub notes: Option<String>,
    pub photo_base64: Option<String>,
    pub photo_filename: Option<String>,
}

} // verus!
