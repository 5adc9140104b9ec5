//! Plate inventory and the result of a loading calculation.

use vstd::prelude::*;

verus! {

/// One kind of plate a contest has. `plate_weight` is in grams;
/// `quantity` is the number of plates that may go on each side of the bar.
#[derive(Debug)]
pub struct PlateSet {
    pub id: String,
    pub contest_id: String,
    pub plate_weight: u32,
    pub quantity: i32,
    pub color: String,
}

impl PlateSet {
    /// A copy that agrees with `self` in every field.
    pub fn duplicate(&self) -> (r: PlateSet)
        ensures
            r == *self,
    {
        PlateSet {
            id: self.id.clone(),
            contest_id: self.contest_id.clone(),
            plate_weight: self.plate_weight,
            quantity: self.quantity,
            color: self.color.clone(),
        }
    }
}

/// A request to add a kind of plate to a contest.
#[derive(Debug)]
pub struct CreatePlateSet {
    pub contest_id: String,
    pub plate_weight: u32,
    pub quantity: i32,
    pub color: String,
}

/// The bar weights configured for a contest, in grams; each may be unset.
#[derive(Clone, Copy, Debug, PartialEq, Eq, Structural)]
pub struct ContestBarWeights {
    pub mens_bar_weight: Option<u32>,
    pub bar_weight: Option<u32>,
    pub womens_bar_weight: Option<u32>,
}

/// A loading: `(plate weight, plates per side)` pairs from the heaviest
/// plate down, whether the target is met exactly, the weight that is
/// reached, the smallest step between loadable weights, and the request. All
/// weights are in grams.
#[derive(Debug)]
pub struct PlateCalculation {
    pub plates: Vec<(u32, usize)>,
    pub exact: bool,
    pub total: u32,
    pub increment: u64,
    pub target_weight: u32,
    pub bar_weight: u32,
}

} // verus!
