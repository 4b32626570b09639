//! Monthly on-call duty rosters: duty windows for each calendar day and a
//! fair assignment of those windows to attendants.

pub mod calendar;
pub mod window;
pub mod attendant;
pub mod resolver;
pub mod period;
pub mod roster;
pub mod invariants;
pub mod writer;
