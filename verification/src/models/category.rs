//! The category tables a federation defines.

use vstd::prelude::*;

verus! {

/// A weight class of one gender; the limits are in grams and either may
/// be open.
#[derive(Debug)]
pub struct WeightClass {
    pub id: String,
    pub gender: String,
    pub name: String,
    pub weight_min: Option<u32>,
    pub weight_max: Option<u32>,
}

/// An age category; the limits are in whole years and either may be open.
#[derive(Debug)]
pub struct AgeCategory {
    pub id: String,
    pub name: String,
    pub min_age: Option<i64>,
    pub max_age: Option<i64>,
}

} // verus!
