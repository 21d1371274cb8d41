//! Deadbands and device tiers.
//!
//! A deadband monitors a signal and fires when it leaves a normal range. For storage the signal
//! is free space: when it drops to a threshold, the deadband goes from `Normal` over
//! `Approaching` to `Exceeded`.

use crate::binary64::laws::{
    is_share, law_grown_is_not_smaller, law_rest_of_one, law_rounding_keeps_order,
    law_whole_numbers_are_exact,
};
use crate::binary64::{
    at_most, below, decimal, difference, one_units, product, signed, sum, Binary64,
};
use vstd::prelude::*;

verus! {

/// Direction of the deadband.
#[derive(Debug, Clone, Copy, PartialEq, Eq, Structural)]
pub enum DeadbandDirection {
    /// Only trip when the signal is below center - tolerance (one-sided).
    Below,
    /// Only trip when the signal is above center + tolerance (one-sided).
    Above,
    /// Trip when the signal is outside center +/- tolerance (two-sided).
    Either,
}

/// State of a deadband check.
#[derive(Debug, Clone, Copy, PartialEq, Eq, Structural)]
pub enum DeadbandState {
    /// Signal is within normal range.
    Normal,
    /// Signal is approaching the threshold (within warning zone).
    Approaching,
    /// Signal has exceeded the threshold.
    Exceeded,
}

impl DeadbandState {
    /// How far the signal is from normal: 0, 1 or 2.
    pub open spec fn severity(self) -> int {
        match self {
            DeadbandState::Normal => 0,
            DeadbandState::Approaching => 1,
            DeadbandState::Exceeded => 2,
        }
    }

    /// The name of the state.
    pub fn name(&self) -> (r: &'static str)
        ensures
            r@ == match *self {
                DeadbandState::Normal => "Normal"@,
                DeadbandState::Approaching => "Approaching"@,
                DeadbandState::Exceeded => "Exceeded"@,
            },
    {
        match self {
            DeadbandState::Normal => "Normal",
            DeadbandState::Approaching => "Approaching",
            DeadbandState::Exceeded => "Exceeded",
        }
    }
}

/// A deadband monitors a signal.
///
/// - `center`: the nominal value.
/// - `tolerance`: acceptable deviation from center.
/// - `direction`: which side(s) matter.
///
/// For the `Below` direction around 0 with a tolerance above one half, the signal is free space
/// (0 = full, 1 = empty) and `tolerance` is the utilization threshold (0.85 = 85% full): the
/// trigger point is `1 - tolerance`, and the warning zone reaches to one and a half times that.
#[derive(Debug, Clone, Copy)]
pub struct Deadband {
    center: Binary64,
    tolerance: Binary64,
    direction: DeadbandDirection,
}

/// The number without its sign.
pub open spec fn absolute(a: Binary64) -> Binary64 {
    signed(false, a.magnitude())
}

/// Whether a `Below` deadband watches free space against a utilization threshold.
pub open spec fn watches_free_space(center: Binary64, tolerance: Binary64) -> bool {
    below(absolute(center), decimal(1, 0x10_0000_0000_0000)) && below(decimal(1, 2), tolerance)
}

/// The free share at or under which a utilization threshold is exceeded.
pub open spec fn space_trip(threshold: Binary64) -> Binary64 {
    difference(decimal(1, 1), threshold)
}

/// The free share at or under which a utilization threshold is approached.
pub open spec fn space_warning(threshold: Binary64) -> Binary64 {
    product(space_trip(threshold), decimal(3, 2))
}

/// The state of a free share against a utilization threshold.
pub open spec fn space_state(threshold: Binary64, free: Binary64) -> DeadbandState {
    graded(at_most(free, space_trip(threshold)), at_most(free, space_warning(threshold)))
}

/// The signal at or under which a `Below` deadband is exceeded.
pub open spec fn lower_trip(center: Binary64, tolerance: Binary64) -> Binary64 {
    if watches_free_space(center, tolerance) {
        space_trip(tolerance)
    } else {
        difference(center, tolerance)
    }
}

/// The signal at or under which a `Below` deadband is approaching.
pub open spec fn lower_warning(center: Binary64, tolerance: Binary64) -> Binary64 {
    if watches_free_space(center, tolerance) {
        space_warning(tolerance)
    } else {
        difference(center, product(tolerance, decimal(1, 2)))
    }
}

/// Exceeded where the first condition holds, else approaching where the second does.
pub open spec fn graded(exceeded: bool, approaching: bool) -> DeadbandState {
    if exceeded {
        DeadbandState::Exceeded
    } else if approaching {
        DeadbandState::Approaching
    } else {
        DeadbandState::Normal
    }
}

/// The state of a deadband for a signal.
pub open spec fn deadband_state(
    center: Binary64,
    tolerance: Binary64,
    direction: DeadbandDirection,
    signal: Binary64,
) -> DeadbandState {
    let half = product(tolerance, decimal(1, 2));
    match direction {
        DeadbandDirection::Below => graded(
            at_most(signal, lower_trip(center, tolerance)),
            at_most(signal, lower_warning(center, tolerance)),
        ),
        DeadbandDirection::Above => graded(
            at_most(sum(center, tolerance), signal),
            at_most(sum(center, half), signal),
        ),
        DeadbandDirection::Either => graded(
            at_most(signal, difference(center, tolerance)) || at_most(
                sum(center, tolerance),
                signal,
            ),
            at_most(signal, difference(center, half)) || at_most(sum(center, half), signal),
        ),
    }
}

impl Deadband {
    pub closed spec fn center(self) -> Binary64 {
        self.center
    }

    pub closed spec fn tolerance(self) -> Binary64 {
        self.tolerance
    }

    pub closed spec fn direction(self) -> DeadbandDirection {
        self.direction
    }

    pub fn new(center: Binary64, tolerance: Binary64, direction: DeadbandDirection) -> (r: Deadband)
        ensures
            r.center() == center,
            r.tolerance() == tolerance,
            r.direction() == direction,
    {
        Deadband { center, tolerance, direction }
    }

    /// Check a signal value against the deadband.
    pub fn check(&self, signal: Binary64) -> (r: DeadbandState)
        ensures
            r == deadband_state(self.center(), self.tolerance(), self.direction(), signal),
    {
        let half_tol = self.tolerance.times(Binary64::ratio(1, 2));
        let upper = self.center.plus(self.tolerance);
        let lower = self.center.minus(self.tolerance);
        let upper_warn = self.center.plus(half_tol);
        let lower_warn = self.center.minus(half_tol);
        match self.direction {
            DeadbandDirection::Below => {
                let epsilon = Binary64::ratio(1, 0x10_0000_0000_0000);
                if self.center.abs().lt(epsilon) && Binary64::ratio(1, 2).lt(self.tolerance) {
                    check_free_space(self.tolerance, signal)
                } else {
                    if signal.le(lower) {
                        DeadbandState::Exceeded
                    } else if signal.le(lower_warn) {
                        DeadbandState::Approaching
                    } else {
                        DeadbandState::Normal
                    }
                }
            },
            DeadbandDirection::Above => {
                if upper.le(signal) {
                    DeadbandState::Exceeded
                } else if upper_warn.le(signal) {
                    DeadbandState::Approaching
                } else {
                    DeadbandState::Normal
                }
            },
            DeadbandDirection::Either => {
                if signal.le(lower) || upper.le(signal) {
                    DeadbandState::Exceeded
                } else if signal.le(lower_warn) || upper_warn.le(signal) {
                    DeadbandState::Approaching
                } else {
                    DeadbandState::Normal
                }
            },
        }
    }
}

/// Check a free share against a utilization threshold, both from 0 to 1: exceeded once no more than
/// `1 - threshold` is free, and approaching within one and a half times that.
pub fn check_free_space(threshold: Binary64, free: Binary64) -> (r: DeadbandState)
    ensures
        r == space_state(threshold, free),
{
    let trip = Binary64::from_u64(1).minus(threshold);
    let warn_at = trip.times(Binary64::ratio(3, 2));
    if free.le(trip) {
        DeadbandState::Exceeded
    } else if free.le(warn_at) {
        DeadbandState::Approaching
    } else {
        DeadbandState::Normal
    }
}

/// Less free space is never in a milder state.
pub proof fn law_less_free_is_not_milder(threshold: Binary64, less: Binary64, more: Binary64)
    requires
        at_most(less, more),
    ensures
        space_state(threshold, less).severity() >= space_state(threshold, more).severity(),
{
}

/// A `Below` deadband around 0 with a tolerance above one half watches free space.
pub proof fn law_deadband_watches_free_space(
    center: Binary64,
    tolerance: Binary64,
    signal: Binary64,
)
    requires
        watches_free_space(center, tolerance),
    ensures
        deadband_state(center, tolerance, DeadbandDirection::Below, signal) == space_state(
            tolerance,
            signal,
        ),
{
}

/// A smaller signal is never in a milder state of a `Below` deadband.
pub proof fn law_less_is_not_milder(
    center: Binary64,
    tolerance: Binary64,
    less: Binary64,
    more: Binary64,
)
    requires
        at_most(less, more),
    ensures
        deadband_state(center, tolerance, DeadbandDirection::Below, less).severity()
            >= deadband_state(center, tolerance, DeadbandDirection::Below, more).severity(),
{
}

/// A larger signal is never in a milder state of an `Above` deadband.
pub proof fn law_more_is_not_milder(
    center: Binary64,
    tolerance: Binary64,
    less: Binary64,
    more: Binary64,
)
    requires
        at_most(less, more),
    ensures
        deadband_state(center, tolerance, DeadbandDirection::Above, less).severity()
            <= deadband_state(center, tolerance, DeadbandDirection::Above, more).severity(),
{
}

/// Free space passes the warning zone before it trips: the trip point lies in the zone.
pub proof fn law_warning_comes_first(threshold: Binary64)
    requires
        is_share(threshold),
    ensures
        is_share(space_trip(threshold)),
        at_most(space_trip(threshold), space_warning(threshold)),
{
    let trip = space_trip(threshold);
    law_rest_of_one(threshold, threshold);
    law_whole_numbers_are_exact(1);
    law_whole_numbers_are_exact(2);
    assert((3 * one_units()) * 1 <= (2 * one_units()) * 2);
    law_rounding_keeps_order(3 * one_units(), 2, 2 * one_units(), 1);
    law_grown_is_not_smaller(trip, 3, 2);
}

/// Device tier: what role does this node play in the fleet?
#[derive(Debug, Clone, Copy, PartialEq, Eq, Hash, Structural)]
pub enum DeviceTier {
    /// Always-on node, high storage capacity (NAS, home server).
    Backbone,
    /// Fast compute node, GPU-capable (desktop, workstation).
    Cortex,
    /// Cloud / API-driven node (S3, B2, GCS).
    Cloud,
    /// Intermittent, limited edge device (phone, tablet).
    Reflex,
}

impl DeviceTier {
    /// The name of the tier.
    pub fn name(&self) -> (r: &'static str)
        ensures
            r@ == match *self {
                DeviceTier::Backbone => "Backbone"@,
                DeviceTier::Cortex => "Cortex"@,
                DeviceTier::Cloud => "Cloud"@,
                DeviceTier::Reflex => "Reflex"@,
            },
    {
        match self {
            DeviceTier::Backbone => "Backbone",
            DeviceTier::Cortex => "Cortex",
            DeviceTier::Cloud => "Cloud",
            DeviceTier::Reflex => "Reflex",
        }
    }

    /// The name of the tier with its role.
    pub fn display_name(&self) -> (r: &'static str)
        ensures
            r@ == match *self {
                DeviceTier::Backbone => "Backbone (always-on / NAS)"@,
                DeviceTier::Cortex => "Cortex (fast compute / desktop)"@,
                DeviceTier::Cloud => "Cloud (API-driven storage)"@,
                DeviceTier::Reflex => "Reflex (intermittent / edge)"@,
            },
    {
        match self {
            DeviceTier::Backbone => "Backbone (always-on / NAS)",
            DeviceTier::Cortex => "Cortex (fast compute / desktop)",
            DeviceTier::Cloud => "Cloud (API-driven storage)",
            DeviceTier::Reflex => "Reflex (intermittent / edge)",
        }
    }
}

} // verus!
