//! What the calls of the library return and change, whatever they are made on: each statement takes
//! the arguments and the results of calls.

pub mod deadband;
pub mod escalation;
pub mod fleet;
pub mod handoff;
pub mod stripe;
pub mod tiers;
pub mod time;
