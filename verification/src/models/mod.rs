//! The records the scoring core works on.

pub mod attempt;
pub mod category;
pub mod competitor;
pub mod contest;
pub mod contest_state;
pub mod plate_set;
pub mod registration;
