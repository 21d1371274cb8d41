//! Storage stripe: ordered fallback across volume tiers.
//!
//! Each volume has a profile that describes its storage role. The stripe is ordered by
//! preference: Hot, Bulk, Archive; removable volumes stand outside this order. Profiles are held
//! in a hash map, whose order of iteration is open: what depends on it takes the order, a walk
//! over the volumes, as an argument.

use crate::internal::sd_core::Id;
use crate::tiering::StorageTier;
use crate::walk::{is_walk, keys_of};
use std::collections::HashMap;
use vstd::prelude::*;

verus! {

/// A tier profile for a single volume in the fleet stripe.
#[derive(Debug, Clone)]
pub struct TierProfile {
    pub volume_id: Id,
    pub volume_name: String,
    pub storage_tier: StorageTier,
    pub free_bytes: u64,
    pub total_bytes: u64,
    pub healthy: bool,
    /// Volumes to fall back to when this volume is full/unhealthy.
    pub escalation_targets: Vec<Id>,
}

/// Events emitted by the storage stripe during rebalancing.
#[derive(Debug, Clone)]
pub enum StorageStripeEvent {
    /// A volume was added to the stripe.
    VolumeAdded(Id, StorageTier),
    /// A volume failed (full, unmounted, degraded).
    VolumeFailed { volume_id: Id, reason: String },
    /// Workload was rebalanced from one volume to another.
    Rebalanced { from: Id, to: Id, reason: String },
    /// All volumes in a tier are unhealthy: emergency degradation.
    Degraded { remaining_tiers: Vec<StorageTier> },
    /// Escalation from one tier to another.
    Escalated { from_tier: StorageTier, to_tier: StorageTier, volume_id: Id },
}

/// Whether a volume is in the stripe and healthy.
pub open spec fn is_healthy(profiles: Map<Id, TierProfile>, id: Id) -> bool {
    profiles.contains_key(id) && profiles[id].healthy
}

/// The healthy volumes of a tier, in the order of the walk.
pub open spec fn healthy_in(
    profiles: Map<Id, TierProfile>,
    walk: Seq<Id>,
    tier: StorageTier,
) -> Seq<Id> {
    walk.filter(|id: Id| is_healthy(profiles, id) && profiles[id].storage_tier == tier)
}

/// Puts a volume behind all volumes that have as much free space as it has.
pub open spec fn insert_by_free(profiles: Map<Id, TierProfile>, sorted: Seq<Id>, id: Id) -> Seq<Id>
    decreases sorted.len(),
{
    if sorted.len() == 0 || profiles[sorted.last()].free_bytes >= profiles[id].free_bytes {
        sorted.push(id)
    } else {
        insert_by_free(profiles, sorted.drop_last(), id).push(sorted.last())
    }
}

/// Volumes by falling free space; volumes with equally much stay in order.
pub open spec fn by_free(profiles: Map<Id, TierProfile>, ids: Seq<Id>) -> Seq<Id>
    decreases ids.len(),
{
    if ids.len() == 0 {
        Seq::empty()
    } else {
        insert_by_free(profiles, by_free(profiles, ids.drop_last()), ids.last())
    }
}

/// The tiers behind a tier, down to the archive tier.
pub open spec fn tiers_behind(tier: StorageTier) -> Seq<StorageTier> {
    match tier {
        StorageTier::Hot => seq![StorageTier::Bulk, StorageTier::Archive],
        StorageTier::Bulk => seq![StorageTier::Archive],
        StorageTier::Archive => Seq::empty(),
        StorageTier::Offload => Seq::empty(),
    }
}

/// The healthy volumes of some tiers: tier by tier, and by falling free space within each.
pub open spec fn path_through(
    profiles: Map<Id, TierProfile>,
    walk: Seq<Id>,
    tiers: Seq<StorageTier>,
) -> Seq<Id>
    decreases tiers.len(),
{
    if tiers.len() == 0 {
        Seq::empty()
    } else {
        path_through(profiles, walk, tiers.drop_last()) + by_free(
            profiles,
            healthy_in(profiles, walk, tiers.last()),
        )
    }
}

/// Where the data of a volume can go: nowhere for a volume that is not in the stripe.
pub open spec fn fallback_path(profiles: Map<Id, TierProfile>, walk: Seq<Id>, id: Id) -> Seq<Id> {
    if profiles.contains_key(id) {
        path_through(profiles, walk, tiers_behind(profiles[id].storage_tier))
    } else {
        Seq::empty()
    }
}

/// The tiers that take over from a failed volume. A removable volume is taken over like a hot one.
pub open spec fn tiers_taking_over(tier: StorageTier) -> Seq<StorageTier> {
    match tier {
        StorageTier::Hot => seq![StorageTier::Bulk, StorageTier::Archive],
        StorageTier::Bulk => seq![StorageTier::Archive],
        StorageTier::Archive => Seq::empty(),
        StorageTier::Offload => seq![StorageTier::Bulk, StorageTier::Archive],
    }
}

/// The first healthy one of some volumes.
pub open spec fn first_healthy(profiles: Map<Id, TierProfile>, targets: Seq<Id>) -> Option<Id>
    decreases targets.len(),
{
    if targets.len() == 0 {
        None
    } else if is_healthy(profiles, targets[0]) {
        Some(targets[0])
    } else {
        first_healthy(profiles, targets.drop_first())
    }
}

/// The first healthy volume of the first of some tiers that has one.
pub open spec fn first_in_tiers(
    profiles: Map<Id, TierProfile>,
    walk: Seq<Id>,
    tiers: Seq<StorageTier>,
) -> Option<Id>
    decreases tiers.len(),
{
    if tiers.len() == 0 {
        None
    } else if healthy_in(profiles, walk, tiers[0]).len() > 0 {
        Some(healthy_in(profiles, walk, tiers[0])[0])
    } else {
        first_in_tiers(profiles, walk, tiers.drop_first())
    }
}

/// The volume that takes over from a failed one: the first healthy one of its targets, or, where
/// it has no targets, one of the next tier.
pub open spec fn escalation_target(
    profiles: Map<Id, TierProfile>,
    walk: Seq<Id>,
    failed: TierProfile,
) -> Option<Id> {
    if failed.escalation_targets@.len() > 0 {
        first_healthy(profiles, failed.escalation_targets@)
    } else {
        first_in_tiers(profiles, walk, tiers_taking_over(failed.storage_tier))
    }
}

/// The escalation of one volume: none of a healthy one, or where nothing can take over.
pub open spec fn escalation_of(
    profiles: Map<Id, TierProfile>,
    walk: Seq<Id>,
    id: Id,
) -> Option<StorageStripeEvent> {
    if !profiles.contains_key(id) || profiles[id].healthy {
        None
    } else {
        match escalation_target(profiles, walk, profiles[id]) {
            Some(target) => Some(
                StorageStripeEvent::Escalated {
                    from_tier: profiles[id].storage_tier,
                    to_tier: profiles[target].storage_tier,
                    volume_id: target,
                },
            ),
            None => None,
        }
    }
}

/// The escalations of some volumes, in order.
pub open spec fn escalations_of(
    profiles: Map<Id, TierProfile>,
    walk: Seq<Id>,
    ids: Seq<Id>,
) -> Seq<StorageStripeEvent>
    decreases ids.len(),
{
    if ids.len() == 0 {
        Seq::empty()
    } else {
        let before = escalations_of(profiles, walk, ids.drop_last());
        match escalation_of(profiles, walk, ids.last()) {
            Some(event) => before.push(event),
            None => before,
        }
    }
}

/// The escalations of all failed volumes.
pub open spec fn escalations(profiles: Map<Id, TierProfile>, walk: Seq<Id>) -> Seq<
    StorageStripeEvent,
> {
    escalations_of(profiles, walk, walk)
}

/// The profiles after a volume was added.
pub open spec fn with_added(
    profiles: Map<Id, TierProfile>,
    id: Id,
    name: String,
    tier: StorageTier,
    free: u64,
    total: u64,
    targets: Vec<Id>,
) -> Map<Id, TierProfile> {
    profiles.insert(
        id,
        TierProfile {
            volume_id: id,
            volume_name: name,
            storage_tier: tier,
            free_bytes: free,
            total_bytes: total,
            healthy: true,
            escalation_targets: targets,
        },
    )
}

/// The profiles after a volume has failed.
pub open spec fn with_failed(profiles: Map<Id, TierProfile>, id: Id) -> Map<Id, TierProfile> {
    if profiles.contains_key(id) {
        profiles.insert(id, TierProfile { healthy: false, ..profiles[id] })
    } else {
        profiles
    }
}

/// An ordered set of storage tiers.
#[derive(Debug, Clone)]
pub struct StorageStripe {
    /// All tier profiles keyed by volume.
    profiles: HashMap<Id, TierProfile>,
}

impl View for StorageStripe {
    type V = Map<Id, TierProfile>;

    closed spec fn view(&self) -> Map<Id, TierProfile> {
        self.profiles@
    }
}

impl StorageStripe {
    /// Every profile is filed under the volume it describes.
    pub open spec fn wf(&self) -> bool {
        forall|id: Id| #[trigger] self@.contains_key(id) ==> self@[id].volume_id == id
    }

    pub fn new() -> (r: StorageStripe)
        ensures
            r@ == Map::<Id, TierProfile>::empty(),
            r.wf(),
    {
        StorageStripe { profiles: HashMap::new() }
    }

    /// Register a volume in the stripe.
    pub fn add_volume(
        &mut self,
        volume_id: Id,
        volume_name: String,
        storage_tier: StorageTier,
        free_bytes: u64,
        total_bytes: u64,
        escalation_targets: Vec<Id>,
    ) -> (r: StorageStripeEvent)
        ensures
            final(self)@ == old(self)@.insert(
                volume_id,
                TierProfile {
                    volume_id,
                    volume_name,
                    storage_tier,
                    free_bytes,
                    total_bytes,
                    healthy: true,
                    escalation_targets,
                },
            ),
            final(self)@ == with_added(
                old(self)@,
                volume_id,
                volume_name,
                storage_tier,
                free_bytes,
                total_bytes,
                escalation_targets,
            ),
            old(self).wf() ==> final(self).wf(),
            r == StorageStripeEvent::VolumeAdded(volume_id, storage_tier),
    {
        let profile = TierProfile {
            volume_id,
            volume_name,
            storage_tier,
            free_bytes,
            total_bytes,
            healthy: true,
            escalation_targets,
        };
        self.profiles.insert(volume_id, profile);
        StorageStripeEvent::VolumeAdded(volume_id, storage_tier)
    }

    /// Mark a volume as failed (full, unmounted, degraded).
    pub fn fail_volume(&mut self, volume_id: Id, reason: String) -> (r: Option<StorageStripeEvent>)
        ensures
            final(self)@ == with_failed(old(self)@, volume_id),
            old(self).wf() ==> final(self).wf(),
            r == if old(self)@.contains_key(volume_id) {
                Some(StorageStripeEvent::VolumeFailed { volume_id, reason })
            } else {
                None
            },
    {
        match self.profiles.remove(&volume_id) {
            Some(profile) => {
                let mut failed: TierProfile = profile;
                failed.healthy = false;
                self.profiles.insert(volume_id, failed);
                assert(self@ =~= with_failed(old(self)@, volume_id));
                Some(StorageStripeEvent::VolumeFailed { volume_id, reason })
            },
            None => {
                assert(self@ =~= old(self)@);
                None
            },
        }
    }

    /// The volumes of the stripe, in some order.
    pub fn walk(&self) -> (r: Vec<Id>)
        ensures
            is_walk(self@, r@),
    {
        keys_of(&self.profiles)
    }

    /// The healthy volumes of a tier, in the order of the walk.
    fn healthy_ids(&self, walk: &[Id], tier: StorageTier) -> (r: Vec<Id>)
        ensures
            r@ == healthy_in(self@, walk@, tier),
            forall|i: int| 0 <= i < r@.len() ==> is_healthy(self@, #[trigger] r@[i]),
    {
        let mut ids: Vec<Id> = Vec::new();
        let mut i: usize = 0;
        proof {
            reveal(Seq::filter);
        }
        while i < walk.len()
            invariant
                i <= walk@.len(),
                ids@ == healthy_in(self@, walk@.take(i as int), tier),
                forall|i: int| 0 <= i < ids@.len() ==> is_healthy(self@, #[trigger] ids@[i]),
            decreases walk@.len() - i,
        {
            let id: Id = walk[i];
            proof {
                reveal(Seq::filter);
                assert(walk@.take(i + 1).drop_last() =~= walk@.take(i as int));
            }
            match self.profiles.get(&id) {
                Some(profile) => {
                    if profile.healthy && profile.storage_tier == tier {
                        ids.push(id);
                    }
                },
                None => {},
            }
            i = i + 1;
        }
        assert(walk@.take(i as int) =~= walk@);
        ids
    }

    /// Sorts volumes of the stripe by falling free space, stably.
    fn sorted_by_free(&self, ids: &[Id]) -> (r: Vec<Id>)
        requires
            forall|i: int| 0 <= i < ids@.len() ==> self@.contains_key(#[trigger] ids@[i]),
        ensures
            r@ == by_free(self@, ids@),
    {
        let mut sorted: Vec<Id> = Vec::new();
        let mut i: usize = 0;
        while i < ids.len()
            invariant
                i <= ids@.len(),
                forall|i: int| 0 <= i < ids@.len() ==> self@.contains_key(#[trigger] ids@[i]),
                forall|i: int| 0 <= i < sorted@.len() ==> self@.contains_key(#[trigger] sorted@[i]),
                sorted@ == by_free(self@, ids@.take(i as int)),
            decreases ids@.len() - i,
        {
            let id: Id = ids[i];
            let free: u64 = self.free_of(id);
            let mut place: usize = sorted.len();
            proof {
                assert(sorted@.take(place as int) =~= sorted@);
                assert(insert_by_free(self@, sorted@, id) + sorted@.skip(place as int)
                    =~= insert_by_free(self@, sorted@, id));
            }
            while place > 0 && self.free_of(sorted[place - 1]) < free
                invariant
                    place <= sorted@.len(),
                    free == self@[id].free_bytes,
                    forall|i: int|
                        0 <= i < sorted@.len() ==> self@.contains_key(#[trigger] sorted@[i]),
                    insert_by_free(self@, sorted@, id) == insert_by_free(
                        self@,
                        sorted@.take(place as int),
                        id,
                    ) + sorted@.skip(place as int),
                decreases place,
            {
                proof {
                    let short = sorted@.take(place as int);
                    let shorter = sorted@.take(place - 1);
                    assert(short.drop_last() =~= shorter);
                    assert(insert_by_free(self@, shorter, id).push(short.last()) + sorted@.skip(
                        place as int,
                    ) =~= insert_by_free(self@, shorter, id) + sorted@.skip(place - 1));
                }
                place = place - 1;
            }
            let ghost before = sorted@;
            sorted.insert(place, id);
            proof {
                assert(before.take(place as int).push(id) + before.skip(place as int)
                    =~= before.insert(place as int, id));
                assert(ids@.take(i + 1).drop_last() =~= ids@.take(i as int));
            }
            i = i + 1;
        }
        assert(ids@.take(i as int) =~= ids@);
        sorted
    }

    /// The free space of a volume of the stripe.
    fn free_of(&self, id: Id) -> (r: u64)
        requires
            self@.contains_key(id),
        ensures
            r == self@[id].free_bytes,
    {
        match self.profiles.get(&id) {
            Some(profile) => profile.free_bytes,
            None => 0,
        }
    }

    /// Get the fallback path of a volume, with the volumes of the stripe in a given order: the
    /// healthy volumes of the tiers behind its own.
    pub fn fallback_path_along(&self, walk: &[Id], volume_id: Id) -> (r: Vec<Id>)
        ensures
            r@ == fallback_path(self@, walk@, volume_id),
    {
        let current: StorageTier = match self.profiles.get(&volume_id) {
            Some(profile) => profile.storage_tier,
            None => {
                return Vec::new();
            },
        };
        let tiers: Vec<StorageTier> = match current {
            StorageTier::Hot => vec![StorageTier::Bulk, StorageTier::Archive],
            StorageTier::Bulk => vec![StorageTier::Archive],
            StorageTier::Archive => Vec::new(),
            StorageTier::Offload => Vec::new(),
        };
        assert(tiers@ =~= tiers_behind(current));
        let mut path: Vec<Id> = Vec::new();
        let mut i: usize = 0;
        while i < tiers.len()
            invariant
                i <= tiers@.len(),
                path@ == path_through(self@, walk@, tiers@.take(i as int)),
            decreases tiers@.len() - i,
        {
            let healthy: Vec<Id> = self.healthy_ids(walk, tiers[i]);
            let mut sorted: Vec<Id> = self.sorted_by_free(healthy.as_slice());
            assert(tiers@.take(i + 1).drop_last() =~= tiers@.take(i as int));
            path.append(&mut sorted);
            i = i + 1;
        }
        assert(tiers@.take(i as int) =~= tiers@);
        path
    }

    /// Get the fallback path: the healthy volumes of the tiers behind that of the volume, down to
    /// the archive tier, tier by tier, those with more free space first.
    pub fn fallback_path_for(&self, volume_id: Id) -> (r: Vec<Id>)
        ensures
            exists|walk: Seq<Id>| #[trigger]
                is_walk(self@, walk) && r@ == fallback_path(self@, walk, volume_id),
    {
        let walk: Vec<Id> = self.walk();
        self.fallback_path_along(walk.as_slice(), volume_id)
    }

    /// The volume that takes over from a failed one.
    fn target_of(&self, walk: &[Id], failed: &TierProfile) -> (r: Option<Id>)
        ensures
            r == escalation_target(self@, walk@, *failed),
            r matches Some(id) ==> is_healthy(self@, id),
    {
        let targets: &Vec<Id> = &failed.escalation_targets;
        if targets.len() > 0 {
            let mut i: usize = 0;
            assert(targets@.skip(0) =~= targets@);
            while i < targets.len()
                invariant
                    i <= targets@.len(),
                    targets@.len() > 0,
                    targets@ == failed.escalation_targets@,
                    first_healthy(self@, targets@) == first_healthy(self@, targets@.skip(i as int)),
                decreases targets@.len() - i,
            {
                assert(targets@.skip(i as int).drop_first() =~= targets@.skip(i + 1));
                match self.profiles.get(&targets[i]) {
                    Some(target) => {
                        if target.healthy {
                            return Some(targets[i]);
                        }
                    },
                    None => {},
                }
                i = i + 1;
            }
            return None;
        }
        let tiers: Vec<StorageTier> = match failed.storage_tier {
            StorageTier::Hot | StorageTier::Offload => vec![
                StorageTier::Bulk,
                StorageTier::Archive,
            ],
            StorageTier::Bulk => vec![StorageTier::Archive],
            StorageTier::Archive => Vec::new(),
        };
        assert(tiers@ =~= tiers_taking_over(failed.storage_tier));
        let mut i: usize = 0;
        assert(tiers@.skip(0) =~= tiers@);
        while i < tiers.len()
            invariant
                i <= tiers@.len(),
                failed.escalation_targets@.len() == 0,
                tiers@ == tiers_taking_over(failed.storage_tier),
                first_in_tiers(self@, walk@, tiers@) == first_in_tiers(
                    self@,
                    walk@,
                    tiers@.skip(i as int),
                ),
            decreases tiers@.len() - i,
        {
            assert(tiers@.skip(i as int).drop_first() =~= tiers@.skip(i + 1));
            let healthy: Vec<Id> = self.healthy_ids(walk, tiers[i]);
            if healthy.len() > 0 {
                return Some(healthy[0]);
            }
            i = i + 1;
        }
        None
    }

    /// Check if one volume needs escalation, with the volumes of the stripe in a given order.
    pub fn escalation_along(&self, walk: &[Id], volume_id: Id) -> (r: Option<StorageStripeEvent>)
        ensures
            r == escalation_of(self@, walk@, volume_id),
    {
        let profile: &TierProfile = match self.profiles.get(&volume_id) {
            Some(profile) => profile,
            None => {
                return None;
            },
        };
        if profile.healthy {
            return None;
        }
        match self.target_of(walk, profile) {
            Some(target) => {
                let to_tier: StorageTier = match self.profiles.get(&target) {
                    Some(p) => p.storage_tier,
                    None => profile.storage_tier,
                };
                Some(
                    StorageStripeEvent::Escalated {
                        from_tier: profile.storage_tier,
                        to_tier,
                        volume_id: target,
                    },
                )
            },
            None => None,
        }
    }

    /// Check if any volumes need escalation and return events, with the volumes of the stripe in
    /// a given order.
    pub fn check_escalations_along(&self, walk: &[Id]) -> (r: Vec<StorageStripeEvent>)
        ensures
            r@ == escalations(self@, walk@),
    {
        let mut events: Vec<StorageStripeEvent> = Vec::new();
        let mut i: usize = 0;
        while i < walk.len()
            invariant
                i <= walk@.len(),
                events@ == escalations_of(self@, walk@, walk@.take(i as int)),
            decreases walk@.len() - i,
        {
            assert(walk@.take(i + 1).drop_last() =~= walk@.take(i as int));
            match self.escalation_along(walk, walk[i]) {
                Some(event) => events.push(event),
                None => {},
            }
            i = i + 1;
        }
        assert(walk@.take(i as int) =~= walk@);
        events
    }

    /// Check if any volumes need escalation and return events.
    pub fn check_escalations(&self) -> (r: Vec<StorageStripeEvent>)
        ensures
            exists|walk: Seq<Id>| #[trigger]
                is_walk(self@, walk) && r@ == escalations(self@, walk),
    {
        let walk: Vec<Id> = self.walk();
        self.check_escalations_along(walk.as_slice())
    }

    /// Get all healthy volumes for a tier, with the volumes of the stripe in a given order.
    pub fn healthy_volumes_along(&self, walk: &[Id], tier: StorageTier) -> (r: Vec<&TierProfile>)
        ensures
            r@.len() == healthy_in(self@, walk@, tier).len(),
            forall|i: int|
                0 <= i < r@.len() ==> *(#[trigger] r@[i]) == self@[healthy_in(
                    self@,
                    walk@,
                    tier,
                )[i]],
    {
        let ids: Vec<Id> = self.healthy_ids(walk, tier);
        let mut found: Vec<&TierProfile> = Vec::new();
        let mut i: usize = 0;
        while i < ids.len()
            invariant
                i <= ids@.len(),
                found@.len() == i,
                forall|i: int| 0 <= i < ids@.len() ==> is_healthy(self@, #[trigger] ids@[i]),
                forall|j: int| 0 <= j < i ==> *(#[trigger] found@[j]) == self@[ids@[j]],
            decreases ids@.len() - i,
        {
            assert(is_healthy(self@, ids@[i as int]));
            if let Some(profile) = self.profiles.get(&ids[i]) {
                found.push(profile);
            }
            i = i + 1;
        }
        found
    }

    /// Get all healthy volumes for a tier.
    pub fn healthy_volumes_in_tier(&self, tier: StorageTier) -> (r: Vec<&TierProfile>)
        ensures
            exists|walk: Seq<Id>| #[trigger]
                is_walk(self@, walk) && r@.len() == healthy_in(self@, walk, tier).len() && (forall|
                    i: int,
                |
                    0 <= i < r@.len() ==> *(#[trigger] r@[i]) == self@[healthy_in(
                        self@,
                        walk,
                        tier,
                    )[i]]),
    {
        let walk: Vec<Id> = self.walk();
        self.healthy_volumes_along(walk.as_slice(), tier)
    }

    /// The profile of a volume, if it is healthy and in the given tier.
    pub fn healthy_profile(&self, volume_id: Id, tier: StorageTier) -> (r: Option<&TierProfile>)
        ensures
            match r {
                Some(profile) => is_healthy(self@, volume_id) && *profile == self@[volume_id]
                    && profile.storage_tier == tier,
                None => !(is_healthy(self@, volume_id) && self@[volume_id].storage_tier == tier),
            },
    {
        match self.profiles.get(&volume_id) {
            Some(profile) => {
                if profile.healthy && profile.storage_tier == tier {
                    Some(profile)
                } else {
                    None
                }
            },
            None => None,
        }
    }

    /// Get the current tier for a volume.
    pub fn tier_for_volume(&self, volume_id: Id) -> (r: Option<StorageTier>)
        ensures
            r == if self@.contains_key(volume_id) {
                Some(self@[volume_id].storage_tier)
            } else {
                None
            },
    {
        match self.profiles.get(&volume_id) {
            Some(profile) => Some(profile.storage_tier),
            None => None,
        }
    }
}

/// The place of a tier in the order of preference, with removable volumes last.
pub open spec fn rank(tier: StorageTier) -> int {
    match tier {
        StorageTier::Hot => 0,
        StorageTier::Bulk => 1,
        StorageTier::Archive => 2,
        StorageTier::Offload => 3,
    }
}

/// Those of some volumes that have exactly `free` bytes of free space, in order.
pub open spec fn with_free(profiles: Map<Id, TierProfile>, ids: Seq<Id>, free: u64) -> Seq<Id> {
    ids.filter(|id: Id| profiles[id].free_bytes == free)
}

/// Whether no volume has less free space than a later one.
pub open spec fn falling(profiles: Map<Id, TierProfile>, ids: Seq<Id>) -> bool {
    forall|i: int, j: int|
        0 <= i < j < ids.len() ==> profiles[#[trigger] ids[i]].free_bytes
            >= profiles[#[trigger] ids[j]].free_bytes
}

/// What inserting a volume by its free space keeps.
proof fn lemma_insert_by_free(profiles: Map<Id, TierProfile>, sorted: Seq<Id>, id: Id)
    requires
        falling(profiles, sorted),
    ensures
        falling(profiles, insert_by_free(profiles, sorted, id)),
        forall|v: Id| #[trigger]
            insert_by_free(profiles, sorted, id).contains(v) <==> sorted.contains(v) || v == id,
        sorted.no_duplicates() && !sorted.contains(id) ==> insert_by_free(
            profiles,
            sorted,
            id,
        ).no_duplicates(),
        forall|free: u64| #[trigger]
            with_free(profiles, insert_by_free(profiles, sorted, id), free) == with_free(
                profiles,
                sorted.push(id),
                free,
            ),
    decreases sorted.len(),
{
    let all = insert_by_free(profiles, sorted, id);
    if sorted.len() == 0 || profiles[sorted.last()].free_bytes >= profiles[id].free_bytes {
        lemma_push_contains(sorted, id);
    } else {
        let shorter = sorted.drop_last();
        let last = sorted.last();
        let inserted = insert_by_free(profiles, shorter, id);
        lemma_insert_by_free(profiles, shorter, id);
        lemma_push_contains(inserted, last);
        lemma_push_contains(shorter, last);
        assert(shorter.push(last) =~= sorted);
        assert forall|i: int, j: int| 0 <= i < j < all.len() implies profiles[#[trigger] all[i]].free_bytes
            >= profiles[#[trigger] all[j]].free_bytes by {
            if j == all.len() - 1 {
                assert(inserted.contains(inserted[i]));
                if inserted[i] != id {
                    let k = choose|k: int| 0 <= k < shorter.len() && shorter[k] == inserted[i];
                    assert(sorted[k] == inserted[i]);
                    assert(sorted[sorted.len() - 1] == last);
                }
            }
        }
        if sorted.no_duplicates() && !sorted.contains(id) {
            assert(sorted[sorted.len() - 1] == last);
            assert(sorted.contains(last));
            assert(!shorter.contains(last)) by {
                if shorter.contains(last) {
                    let k = choose|k: int| 0 <= k < shorter.len() && shorter[k] == last;
                    assert(sorted[k] == last);
                }
            }
            assert(!inserted.contains(last));
            assert forall|i: int, j: int| 0 <= i < j < all.len() implies all[i] != all[j] by {
                if j == all.len() - 1 {
                    assert(inserted.contains(inserted[i]));
                }
            }
        }
        assert forall|free: u64| #[trigger]
            with_free(profiles, all, free) == with_free(profiles, sorted.push(id), free) by {
            assert(with_free(profiles, inserted, free) == with_free(
                profiles,
                shorter.push(id),
                free,
            ));
            lemma_with_free_push(profiles, inserted, last, free);
            lemma_with_free_push(profiles, shorter, last, free);
            lemma_with_free_push(profiles, shorter, id, free);
            lemma_with_free_push(profiles, sorted, id, free);
        }
    }
}

/// The volumes with some free space, with one volume more.
proof fn lemma_with_free_push(profiles: Map<Id, TierProfile>, ids: Seq<Id>, id: Id, free: u64)
    ensures
        with_free(profiles, ids.push(id), free) == if profiles[id].free_bytes == free {
            with_free(profiles, ids, free).push(id)
        } else {
            with_free(profiles, ids, free)
        },
{
    reveal(Seq::filter);
    assert(ids.push(id).drop_last() =~= ids);
}

/// What a sequence contains with one element more.
proof fn lemma_push_contains(ids: Seq<Id>, id: Id)
    ensures
        forall|v: Id| #[trigger] ids.push(id).contains(v) <==> ids.contains(v) || v == id,
{
    assert forall|v: Id| #[trigger] ids.push(id).contains(v) <==> ids.contains(v) || v == id by {
        if ids.contains(v) {
            let k = choose|k: int| 0 <= k < ids.len() && ids[k] == v;
            assert(ids.push(id)[k] == v);
        }
        assert(ids.push(id)[ids.len() as int] == id);
    }
}

/// Sorting by free space loses and adds nothing, puts volumes with more free space first, and
/// leaves those with equally much in order.
pub proof fn law_sorted_by_falling_free_space(profiles: Map<Id, TierProfile>, ids: Seq<Id>)
    ensures
        falling(profiles, by_free(profiles, ids)),
        forall|v: Id| #[trigger] by_free(profiles, ids).contains(v) <==> ids.contains(v),
        ids.no_duplicates() ==> by_free(profiles, ids).no_duplicates(),
        forall|free: u64| #[trigger]
            with_free(profiles, by_free(profiles, ids), free) == with_free(profiles, ids, free),
    decreases ids.len(),
{
    if ids.len() > 0 {
        let shorter = ids.drop_last();
        let last = ids.last();
        let before = by_free(profiles, shorter);
        law_sorted_by_falling_free_space(profiles, shorter);
        lemma_insert_by_free(profiles, before, last);
        lemma_push_contains(shorter, last);
        assert(shorter.push(last) =~= ids);
        if ids.no_duplicates() {
            assert(!shorter.contains(last)) by {
                if shorter.contains(last) {
                    let k = choose|k: int| 0 <= k < shorter.len() && shorter[k] == last;
                    assert(ids[k] == ids[ids.len() - 1]);
                }
            }
            assert(shorter.no_duplicates());
        }
        assert forall|free: u64| #[trigger]
            with_free(profiles, by_free(profiles, ids), free) == with_free(
                profiles,
                ids,
                free,
            ) by {
            lemma_with_free_push(profiles, before, last, free);
            lemma_with_free_push(profiles, shorter, last, free);
            assert(with_free(profiles, before, free) == with_free(profiles, shorter, free));
            assert(with_free(profiles, before.push(last), free) == with_free(profiles, ids, free));
        }
    } else {
        assert(by_free(profiles, ids) =~= ids);
    }
}

/// The healthy volumes of a tier are exactly those of the walk that are healthy and of the tier,
/// each as often as in the walk.
pub proof fn law_healthy_volumes(profiles: Map<Id, TierProfile>, walk: Seq<Id>, tier: StorageTier)
    ensures
        forall|v: Id| #[trigger]
            healthy_in(profiles, walk, tier).contains(v) <==> walk.contains(v) && is_healthy(
                profiles,
                v,
            ) && profiles[v].storage_tier == tier,
        walk.no_duplicates() ==> healthy_in(profiles, walk, tier).no_duplicates(),
    decreases walk.len(),
{
    reveal(Seq::filter);
    if walk.len() > 0 {
        let shorter = walk.drop_last();
        let before = healthy_in(profiles, shorter, tier);
        law_healthy_volumes(profiles, shorter, tier);
        lemma_push_contains(shorter, walk.last());
        lemma_push_contains(before, walk.last());
        assert(shorter.push(walk.last()) =~= walk);
        if walk.no_duplicates() {
            assert(shorter.no_duplicates());
            assert(!shorter.contains(walk.last())) by {
                if shorter.contains(walk.last()) {
                    let k = choose|k: int| 0 <= k < shorter.len() && shorter[k] == walk.last();
                    assert(walk[k] == walk[walk.len() - 1]);
                }
            }
            assert(!before.contains(walk.last()));
            let all = healthy_in(profiles, walk, tier);
            assert forall|i: int, j: int| 0 <= i < j < all.len() implies all[i] != all[j] by {
                if j == before.len() {
                    assert(before.contains(before[i]));
                }
            }
        }
    }
}

/// Whether one volume comes before another on a path: its tier is preferred, or the tier is the
/// same and it has no less free space.
pub open spec fn preferred(profiles: Map<Id, TierProfile>, a: Id, b: Id) -> bool {
    let (p, q) = (profiles[a], profiles[b]);
    rank(p.storage_tier) < rank(q.storage_tier) || (p.storage_tier == q.storage_tier
        && p.free_bytes >= q.free_bytes)
}

/// What holds of a path through tiers in order of preference.
proof fn lemma_path_through(
    profiles: Map<Id, TierProfile>,
    walk: Seq<Id>,
    tiers: Seq<StorageTier>,
)
    requires
        is_walk(profiles, walk),
        forall|i: int, j: int|
            0 <= i < j < tiers.len() ==> rank(#[trigger] tiers[i]) < rank(#[trigger] tiers[j]),
    ensures
        ({
            let path = path_through(profiles, walk, tiers);
            &&& path.no_duplicates()
            &&& forall|v: Id| #[trigger]
                path.contains(v) <==> is_healthy(profiles, v) && tiers.contains(
                    profiles[v].storage_tier,
                )
            &&& forall|i: int, j: int|
                0 <= i < j < path.len() ==> preferred(
                    profiles,
                    #[trigger] path[i],
                    #[trigger] path[j],
                )
        }),
    decreases tiers.len(),
{
    let path = path_through(profiles, walk, tiers);
    if tiers.len() > 0 {
        let fewer = tiers.drop_last();
        let tier = tiers.last();
        let before = path_through(profiles, walk, fewer);
        let healthy = healthy_in(profiles, walk, tier);
        let added = by_free(profiles, healthy);
        lemma_path_through(profiles, walk, fewer);
        law_healthy_volumes(profiles, walk, tier);
        law_sorted_by_falling_free_space(profiles, healthy);
        assert forall|v: Id| #[trigger] path.contains(v) <==> is_healthy(profiles, v)
            && tiers.contains(profiles[v].storage_tier) by {
            assert(path.contains(v) <==> before.contains(v) || added.contains(v)) by {
                if before.contains(v) {
                    let k = choose|k: int| 0 <= k < before.len() && before[k] == v;
                    assert(path[k] == v);
                }
                if added.contains(v) {
                    let k = choose|k: int| 0 <= k < added.len() && added[k] == v;
                    assert(path[before.len() + k] == v);
                }
            }
            assert(added.contains(v) <==> healthy.contains(v));
            if is_healthy(profiles, v) {
                assert(walk.to_set().contains(v));
                assert(walk.contains(v));
            }
            let t = profiles[v].storage_tier;
            assert(tiers.contains(t) <==> fewer.contains(t) || t == tier) by {
                if fewer.contains(t) {
                    let k = choose|k: int| 0 <= k < fewer.len() && fewer[k] == t;
                    assert(tiers[k] == t);
                }
                if tiers.contains(t) {
                    let k = choose|k: int| 0 <= k < tiers.len() && tiers[k] == t;
                    if k < fewer.len() {
                        assert(fewer[k] == t);
                    }
                }
                assert(tiers[tiers.len() - 1] == tier);
            }
        }
        assert forall|i: int, j: int| 0 <= i < j < path.len() implies preferred(
            profiles,
            #[trigger] path[i],
            #[trigger] path[j],
        ) && path[i] != path[j] by {
            if j >= before.len() {
                assert(path[j] == added[j - before.len()]);
                assert(added.contains(path[j]));
                assert(healthy.contains(path[j]));
                if i < before.len() {
                    assert(path[i] == before[i]);
                    assert(before.contains(path[i]));
                    let t = profiles[path[i]].storage_tier;
                    let k = choose|k: int| 0 <= k < fewer.len() && fewer[k] == t;
                    assert(tiers[k] == t && tiers[tiers.len() - 1] == tier);
                } else {
                    assert(path[i] == added[i - before.len()]);
                    assert(added.contains(path[i]));
                    assert(healthy.contains(path[i]));
                }
            } else {
                assert(path[i] == before[i] && path[j] == before[j]);
            }
        }
    }
}

/// The fallback path of a volume holds exactly the healthy volumes of the tiers behind its own,
/// down to the archive tier, each once: preferred tiers first, and within a tier those with more
/// free space first.
pub proof fn law_fallback_path(profiles: Map<Id, TierProfile>, walk: Seq<Id>, id: Id)
    requires
        is_walk(profiles, walk),
        profiles.contains_key(id),
    ensures
        ({
            let path = fallback_path(profiles, walk, id);
            &&& path.no_duplicates()
            &&& forall|v: Id| #[trigger]
                path.contains(v) <==> is_healthy(profiles, v) && rank(profiles[id].storage_tier)
                    < rank(profiles[v].storage_tier) <= rank(StorageTier::Archive)
            &&& forall|i: int, j: int|
                0 <= i < j < path.len() ==> preferred(
                    profiles,
                    #[trigger] path[i],
                    #[trigger] path[j],
                )
        }),
{
    let tier = profiles[id].storage_tier;
    let tiers = tiers_behind(tier);
    lemma_path_through(profiles, walk, tiers);
    assert forall|t: StorageTier| #[trigger] tiers.contains(t) <==> rank(tier) < rank(t)
        <= rank(StorageTier::Archive) by {
        if rank(tier) < rank(t) <= rank(StorageTier::Archive) {
            assert(tiers[rank(t) - rank(tier) - 1] == t);
        }
    }
}

/// The data of a volume never goes back to the volume itself, nor to one that has failed.
pub proof fn law_failed_is_no_fallback(
    profiles: Map<Id, TierProfile>,
    walk: Seq<Id>,
    failed: Id,
    id: Id,
)
    requires
        is_walk(profiles, walk),
    ensures
        !fallback_path(profiles, walk, id).contains(id),
        !fallback_path(with_failed(profiles, failed), walk, id).contains(failed),
{
    if profiles.contains_key(id) {
        let after = with_failed(profiles, failed);
        assert(after.dom() =~= profiles.dom());
        law_fallback_path(profiles, walk, id);
        law_fallback_path(after, walk, id);
    }
}

/// Failing a volume takes it out of use and touches no other; failing it again changes nothing.
pub proof fn law_failing(profiles: Map<Id, TierProfile>, id: Id)
    ensures
        ({
            let after = with_failed(profiles, id);
            &&& !is_healthy(after, id)
            &&& after.dom() == profiles.dom()
            &&& forall|v: Id| v != id ==> #[trigger] after[v] == profiles[v]
            &&& with_failed(after, id) == after
        }),
{
    let after = with_failed(profiles, id);
    assert(after.dom() =~= profiles.dom());
    assert(with_failed(after, id) =~= after);
}

/// Nothing is escalated while all volumes are healthy.
pub proof fn law_no_escalation_when_all_healthy(
    profiles: Map<Id, TierProfile>,
    walk: Seq<Id>,
    ids: Seq<Id>,
)
    requires
        forall|id: Id| #[trigger] profiles.contains_key(id) ==> profiles[id].healthy,
    ensures
        escalations_of(profiles, walk, ids).len() == 0,
    decreases ids.len(),
{
    if ids.len() > 0 {
        law_no_escalation_when_all_healthy(profiles, walk, ids.drop_last());
    }
}

/// What takes over from a failed volume is a healthy volume of the stripe. If the failed volume
/// names targets it is one of them; else it is a bulk or archive volume, and never of a tier that
/// is preferred to that of the failed one, unless that one is removable.
pub proof fn law_healthy_volume_takes_over(
    profiles: Map<Id, TierProfile>,
    walk: Seq<Id>,
    failed: TierProfile,
)
    ensures
        escalation_target(profiles, walk, failed) matches Some(target) ==> {
            &&& is_healthy(profiles, target)
            &&& if failed.escalation_targets@.len() > 0 {
                failed.escalation_targets@.contains(target)
            } else {
                let tier = profiles[target].storage_tier;
                &&& tier == StorageTier::Bulk || tier == StorageTier::Archive
                &&& rank(tier) > rank(failed.storage_tier) || failed.storage_tier
                    == StorageTier::Offload
            }
        },
{
    if failed.escalation_targets@.len() > 0 {
        lemma_first_healthy(profiles, failed.escalation_targets@);
    } else {
        lemma_first_in_tiers(profiles, walk, tiers_taking_over(failed.storage_tier));
    }
}

/// Something takes over from a failed volume whenever one of its targets is healthy or, where it
/// names none, a volume of a tier that takes over is.
pub proof fn law_takes_over_if_it_can(
    profiles: Map<Id, TierProfile>,
    walk: Seq<Id>,
    failed: TierProfile,
    able: Id,
)
    requires
        is_healthy(profiles, able),
        if failed.escalation_targets@.len() > 0 {
            failed.escalation_targets@.contains(able)
        } else {
            walk.contains(able) && tiers_taking_over(failed.storage_tier).contains(
                profiles[able].storage_tier,
            )
        },
    ensures
        escalation_target(profiles, walk, failed) is Some,
{
    if failed.escalation_targets@.len() > 0 {
        lemma_first_healthy(profiles, failed.escalation_targets@);
    } else {
        lemma_first_in_tiers(profiles, walk, tiers_taking_over(failed.storage_tier));
        law_healthy_volumes(profiles, walk, profiles[able].storage_tier);
        assert(healthy_in(profiles, walk, profiles[able].storage_tier).contains(able));
    }
}

/// Where a failed volume names no targets, no healthy volume of a tier that takes over is preferred
/// to the one that does: a bulk volume takes over before an archive volume.
pub proof fn law_nearest_tier_takes_over(
    profiles: Map<Id, TierProfile>,
    walk: Seq<Id>,
    failed: TierProfile,
    other: Id,
)
    requires
        failed.escalation_targets@.len() == 0,
        walk.contains(other),
        is_healthy(profiles, other),
        tiers_taking_over(failed.storage_tier).contains(profiles[other].storage_tier),
    ensures
        escalation_target(profiles, walk, failed) matches Some(target) && rank(
            profiles[target].storage_tier,
        ) <= rank(profiles[other].storage_tier),
{
    let tiers = tiers_taking_over(failed.storage_tier);
    law_takes_over_if_it_can(profiles, walk, failed, other);
    law_healthy_volumes(profiles, walk, StorageTier::Bulk);
    let bulk = healthy_in(profiles, walk, StorageTier::Bulk);
    lemma_first_in_tiers(profiles, walk, tiers);
    if profiles[other].storage_tier == StorageTier::Bulk {
        assert(bulk.contains(other));
        assert(tiers[0] == StorageTier::Bulk);
        assert(bulk.contains(bulk[0]));
    }
}

/// The first healthy target, if there is a healthy one.
proof fn lemma_first_healthy(profiles: Map<Id, TierProfile>, targets: Seq<Id>)
    ensures
        match first_healthy(profiles, targets) {
            Some(target) => is_healthy(profiles, target) && targets.contains(target),
            None => forall|id: Id| #[trigger] targets.contains(id) ==> !is_healthy(profiles, id),
        },
    decreases targets.len(),
{
    if targets.len() > 0 {
        let rest = targets.drop_first();
        lemma_first_healthy(profiles, rest);
        assert(targets.contains(targets[0]));
        assert forall|id: Id| #[trigger] rest.contains(id) implies targets.contains(id) by {
            let k = choose|k: int| 0 <= k < rest.len() && rest[k] == id;
            assert(targets[k + 1] == id);
        }
        assert forall|id: Id| #[trigger] targets.contains(id) implies id == targets[0]
            || rest.contains(id) by {
            let k = choose|k: int| 0 <= k < targets.len() && targets[k] == id;
            if k > 0 {
                assert(rest[k - 1] == id);
            }
        }
    }
}

/// The first healthy volume of some tiers, if there is one.
proof fn lemma_first_in_tiers(
    profiles: Map<Id, TierProfile>,
    walk: Seq<Id>,
    tiers: Seq<StorageTier>,
)
    ensures
        match first_in_tiers(profiles, walk, tiers) {
            Some(target) => is_healthy(profiles, target) && tiers.contains(
                profiles[target].storage_tier,
            ),
            None => forall|tier: StorageTier| #[trigger]
                tiers.contains(tier) ==> healthy_in(profiles, walk, tier).len() == 0,
        },
    decreases tiers.len(),
{
    if tiers.len() > 0 {
        let rest = tiers.drop_first();
        lemma_first_in_tiers(profiles, walk, rest);
        law_healthy_volumes(profiles, walk, tiers[0]);
        let healthy = healthy_in(profiles, walk, tiers[0]);
        assert(tiers.contains(tiers[0]));
        if healthy.len() > 0 {
            assert(healthy.contains(healthy[0]));
        }
        assert forall|t: StorageTier| #[trigger] rest.contains(t) implies tiers.contains(t) by {
            let k = choose|k: int| 0 <= k < rest.len() && rest[k] == t;
            assert(tiers[k + 1] == t);
        }
        assert forall|t: StorageTier| #[trigger] tiers.contains(t) implies t == tiers[0]
            || rest.contains(t) by {
            let k = choose|k: int| 0 <= k < tiers.len() && tiers[k] == t;
            if k > 0 {
                assert(rest[k - 1] == t);
            }
        }
    }
}

/// Every escalation that is reported is that of a failed volume of the stripe, and every failed
/// volume that something can take over from is reported.
pub proof fn law_escalations_are_those_of_failed_volumes(
    profiles: Map<Id, TierProfile>,
    walk: Seq<Id>,
    ids: Seq<Id>,
)
    ensures
        forall|k: int|
            0 <= k < escalations_of(profiles, walk, ids).len() ==> exists|id: Id|
                #![trigger ids.contains(id)]
                ids.contains(id) && escalation_of(profiles, walk, id) == Some(
                    #[trigger] escalations_of(profiles, walk, ids)[k],
                ),
        forall|id: Id| #[trigger]
            ids.contains(id) && escalation_of(profiles, walk, id) is Some ==> escalations_of(
                profiles,
                walk,
                ids,
            ).contains(escalation_of(profiles, walk, id)->0),
    decreases ids.len(),
{
    if ids.len() > 0 {
        let shorter = ids.drop_last();
        let before = escalations_of(profiles, walk, shorter);
        let all = escalations_of(profiles, walk, ids);
        law_escalations_are_those_of_failed_volumes(profiles, walk, shorter);
        lemma_push_contains(shorter, ids.last());
        assert(shorter.push(ids.last()) =~= ids);
        assert forall|k: int| 0 <= k < all.len() implies exists|id: Id|
            #![trigger ids.contains(id)]
            ids.contains(id) && escalation_of(profiles, walk, id) == Some(#[trigger] all[k]) by {
            if k < before.len() {
                assert(all[k] == before[k]);
                let id = choose|id: Id|
                    #![trigger shorter.contains(id)]
                    shorter.contains(id) && escalation_of(profiles, walk, id) == Some(before[k]);
                assert(ids.contains(id));
            } else {
                assert(ids.contains(ids.last()));
            }
        }
        assert forall|id: Id| #[trigger]
            ids.contains(id) && escalation_of(profiles, walk, id) is Some implies all.contains(
            escalation_of(profiles, walk, id)->0,
        ) by {
            let event = escalation_of(profiles, walk, id)->0;
            if shorter.contains(id) {
                let k = choose|k: int| 0 <= k < before.len() && before[k] == event;
                assert(all[k] == event);
            } else {
                assert(all[all.len() - 1] == event);
            }
        }
    }
}

} // verus!
