//! Competition scoring core for powerlifting meets: attempt tracking and
//! lifting order, age and weight categories, results with three parallel
//! rankings, and plate loading.
//!
//! All weights are whole grams and all adjustment factors are fixed-point
//! integers, so every rule in this crate is stated and proved over the
//! integers.

pub mod coefficients;
pub mod competitors;
pub mod display;
pub mod error;
pub mod logging;
pub mod models;
pub mod performance;
pub mod photo;
pub mod plates;
pub mod registrations;
pub mod results;
pub mod settings;
pub mod sorting;
pub mod system_health;
pub mod text;
pub mod tracker;
