//! The models of a device, a volume and a deadband that the fleet builds on.

pub mod cocapn_core;
pub mod sd_core;
