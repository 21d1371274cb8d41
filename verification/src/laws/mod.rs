//! What the operations of the library are for: statements about their results in terms of their
//! inputs, over all inputs, and about how several calls relate.

pub mod calls;
pub mod deadband;
pub mod escalation;
pub mod fleet;
pub mod handoff;
pub mod stripe;
pub mod tiers;
pub mod time;
