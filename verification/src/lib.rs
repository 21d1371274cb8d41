//! A file fleet manager: every volume of a library belongs to a storage tier, and files move
//! between tiers before a volume runs full.
//!
//! - [`tiering`]: the tier of a volume or of a node.
//! - [`deadband`]: when a volume is too full or too slow.
//! - [`stripe`]: which volumes take over from one that fails.
//! - [`handoff`]: a migration between two volumes, step by step.
//! - [`escalation`]: what is done about a volume that is too full.
//! - [`fleet`]: the fleet manager, one controller per library.
//!
//! Beneath these stand [`internal`], the types of volumes, devices and signals; [`binary64`],
//! floating-point arithmetic on integers; [`time`], points in time; and [`walk`], the order in
//! which a hash map is visited. [`laws`] says what the operations are for, and how several of them
//! relate.

pub mod binary64;
pub mod deadband;
pub mod escalation;
pub mod fleet;
pub mod handoff;
pub mod internal;
pub mod laws;
pub mod stripe;
pub mod tiering;
pub mod time;
pub mod walk;

pub use binary64::Binary64;
pub use deadband::{StorageDeadband, StorageDeadbandState};
pub use escalation::EscalationAction;
pub use fleet::{FleetConfig, FleetEvent, FleetManager};
pub use handoff::StorageHandoff;
pub use stripe::{StorageStripe, StorageStripeEvent, TierProfile};
pub use tiering::{classify_node_tier, classify_volume_tier, CoCapnNodeRole, StorageTier};
