//! What the audience display is told about the lifter on the platform.

use vstd::prelude::*;

verus! {

/// The lift and attempt to put on the display.
#[derive(Debug)]
pub struct SpecificLift {
    pub lift_type: String,
    pub attempt_number: i32,
}

#[derive(Debug)]
pub struct DisplayCompetitor {
    pub id: String,
    pub first_name: String,
    pub last_name: String,
    pub club: Option<String>,
    pub photo_base64: Option<String>,
}

/// Body weight is in grams.
#[derive(Debug)]
pub struct DisplayRegistration {
    pub bodyweight: u32,
    pub weight_class_id: String,
}

/// One cell of the attempt table; the weight is in grams.
#[derive(Debug)]
pub struct DisplayAttempt {
    pub number: i32,
    pub weight: Option<u32>,
    pub status: String,
}

/// The attempt table of one lifter, one row per lift.
#[derive(Debug)]
pub struct DisplayAttempts {
    pub squat: Vec<DisplayAttempt>,
    pub bench: Vec<DisplayAttempt>,
    pub deadlift: Vec<DisplayAttempt>,
}

#[derive(Debug)]
pub struct DisplayWeightClass {
    pub id: String,
    pub name: String,
}

#[derive(Debug)]
pub struct DisplayContest {
    pub name: String,
    pub weight_classes: Vec<DisplayWeightClass>,
}

} // verus!
