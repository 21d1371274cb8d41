//! Calls on a stripe.

use crate::internal::sd_core::Id;
use crate::laws::stripe::{
    law_adding, law_escalation_leads_to_a_healthy_volume, law_escalations_of_all_volumes,
    law_failing_changes_health_alone, law_first_named_target_takes_over,
    law_first_volume_of_the_next_tier_takes_over, law_healthy_volumes_in_order,
    law_ties_keep_the_order_of_the_walk, law_where_data_can_go, may_succeed, usable,
};
use crate::stripe::{
    escalation_of, fallback_path, healthy_in, law_healthy_volumes, StorageStripe,
    StorageStripeEvent, TierProfile,
};
use crate::tiering::StorageTier;
use crate::walk::is_walk;
use vstd::prelude::*;

verus! {

/// A new stripe is empty.
pub proof fn law_new_stripe(stripe: StorageStripe, id: Id)
    requires
        call_ensures(StorageStripe::new, (), stripe),
    ensures
        !stripe@.contains_key(id),
{
}

/// A volume that is added is in the stripe as it is given, healthy whatever it was before, and no
/// other volume is touched. The addition is reported.
pub proof fn law_add_volume(
    stripe: &mut StorageStripe,
    id: Id,
    name: String,
    tier: StorageTier,
    free: u64,
    total: u64,
    targets: Vec<Id>,
    r: StorageStripeEvent,
    other: Id,
)
    requires
        call_ensures(StorageStripe::add_volume, (stripe, id, name, tier, free, total, targets), r),
    ensures
        r matches StorageStripeEvent::VolumeAdded(v, t) && v == id && t == tier,
        usable(final(stripe)@, id),
        ({
            let added = final(stripe)@[id];
            &&& added.volume_id == id
            &&& added.volume_name == name
            &&& added.storage_tier == tier
            &&& added.free_bytes == free
            &&& added.total_bytes == total
            &&& added.escalation_targets == targets
        }),
        other != id ==> final(stripe)@.contains_key(other) == old(stripe)@.contains_key(other)
            && final(stripe)@[other] == old(stripe)@[other],
{
    law_adding(old(stripe)@, id, name, tier, free, total, targets, other);
}

/// A volume of the stripe that fails is no longer healthy, which is reported with its reason, and
/// nothing else changes. A volume that is not in the stripe cannot fail.
pub proof fn law_fail_volume(
    stripe: &mut StorageStripe,
    id: Id,
    why: String,
    r: Option<StorageStripeEvent>,
    other: Id,
)
    requires
        call_ensures(StorageStripe::fail_volume, (stripe, id, why), r),
    ensures
        r is None <==> !old(stripe)@.contains_key(id),
        r matches Some(event) ==> event matches StorageStripeEvent::VolumeFailed {
            volume_id,
            reason,
        } && volume_id == id && reason == why,
        !usable(final(stripe)@, id),
        final(stripe)@.contains_key(other) == old(stripe)@.contains_key(other),
        final(stripe)@.contains_key(other) ==> {
            let (p, q) = (old(stripe)@[other], final(stripe)@[other]);
            &&& other != id ==> q == p
            &&& q.volume_id == p.volume_id
            &&& q.volume_name == p.volume_name
            &&& q.storage_tier == p.storage_tier
            &&& q.free_bytes == p.free_bytes
            &&& q.total_bytes == p.total_bytes
            &&& q.escalation_targets == p.escalation_targets
        },
{
    law_failing_changes_health_alone(old(stripe)@, id);
    assert(old(stripe)@.dom().contains(other) == final(stripe)@.dom().contains(other));
}

/// The tier of a volume of the stripe, and the profile of a healthy one of a tier.
pub proof fn law_looking_up(
    stripe: &StorageStripe,
    id: Id,
    asked: StorageTier,
    tier: Option<StorageTier>,
    profile: Option<&TierProfile>,
)
    requires
        call_ensures(StorageStripe::tier_for_volume, (stripe, id), tier),
        call_ensures(StorageStripe::healthy_profile, (stripe, id, asked), profile),
    ensures
        tier is Some <==> stripe@.contains_key(id),
        tier matches Some(t) ==> t == stripe@[id].storage_tier,
        profile is Some <==> usable(stripe@, id) && stripe@[id].storage_tier == asked,
        profile matches Some(p) ==> *p == stripe@[id],
{
}

/// The volume that takes over from a failed one. Where it names targets, that is the first of them
/// that is healthy, in the order in which it names them, whatever room they have. Where it names
/// none, it is the first healthy volume of the walk in the bulk tier, and failing that in the
/// archive tier, as far as these tiers may succeed its own. Where there is none, and for a volume
/// that is healthy or not in the stripe, there is no escalation.
pub proof fn law_escalation(
    stripe: &StorageStripe,
    walk: &[Id],
    id: Id,
    r: Option<StorageStripeEvent>,
)
    requires
        call_ensures(StorageStripe::escalation_along, (stripe, walk, id), r),
    ensures
        !stripe@.contains_key(id) || stripe@[id].healthy ==> r is None,
        r matches Some(event) ==> {
            &&& event matches StorageStripeEvent::Escalated { from_tier, to_tier, volume_id }
            &&& usable(stripe@, volume_id)
            &&& volume_id != id
            &&& from_tier == stripe@[id].storage_tier
            &&& to_tier == stripe@[volume_id].storage_tier
        },
        stripe@.contains_key(id) && !stripe@[id].healthy ==> {
            let targets = stripe@[id].escalation_targets@;
            let failed = stripe@[id].storage_tier;
            if targets.len() > 0 {
                match r {
                    Some(event) => exists|k: int|
                        #![trigger targets[k]]
                        0 <= k < targets.len() && targets[k] == event->Escalated_volume_id
                            && usable(stripe@, targets[k]) && forall|j: int|
                            0 <= j < k ==> !usable(stripe@, #[trigger] targets[j]),
                    None => forall|j: int|
                        0 <= j < targets.len() ==> !usable(stripe@, #[trigger] targets[j]),
                }
            } else {
                match r {
                    Some(event) => {
                        let to_tier = event->Escalated_to_tier;
                        may_succeed(to_tier, failed) && exists|k: int|
                            #![trigger walk@[k]]
                            0 <= k < walk@.len() && walk@[k] == event->Escalated_volume_id
                                && usable(stripe@, walk@[k]) && forall|j: int|
                                0 <= j < walk@.len() && usable(stripe@, #[trigger] walk@[j])
                                    && may_succeed(stripe@[walk@[j]].storage_tier, failed) ==> (
                                stripe@[walk@[j]].storage_tier == to_tier && k <= j) || (to_tier
                                    == StorageTier::Bulk && stripe@[walk@[j]].storage_tier
                                    == StorageTier::Archive)
                    },
                    None => forall|j: int|
                        0 <= j < walk@.len() && usable(stripe@, #[trigger] walk@[j])
                            ==> !may_succeed(stripe@[walk@[j]].storage_tier, failed),
                }
            }
        },
{
    law_escalation_leads_to_a_healthy_volume(stripe@, walk@, id);
    if stripe@.contains_key(id) && !stripe@[id].healthy {
        if stripe@[id].escalation_targets@.len() > 0 {
            law_first_named_target_takes_over(stripe@, walk@, id);
        } else {
            law_first_volume_of_the_next_tier_takes_over(stripe@, walk@, id);
        }
    }
}

/// Where the data of a volume of the stripe can go: to the healthy volumes of the bulk tier and
/// then of the archive tier, as far as they are behind its own, each once, by falling free space
/// within a tier, and in the order of the walk where that is equal.
pub proof fn law_fallback(
    stripe: &StorageStripe,
    walk: &[Id],
    id: Id,
    r: Vec<Id>,
    place: spec_fn(Id) -> int,
)
    requires
        is_walk(stripe@, walk@),
        forall|i: int, j: int|
            0 <= i < j < walk@.len() ==> place(#[trigger] walk@[i]) < place(#[trigger] walk@[j]),
        call_ensures(StorageStripe::fallback_path_along, (stripe, walk, id), r),
    ensures
        !stripe@.contains_key(id) ==> r@.len() == 0,
        r@.no_duplicates(),
        stripe@.contains_key(id) ==> forall|v: Id| #[trigger]
            r@.contains(v) <==> usable(stripe@, v) && {
                ||| stripe@[v].storage_tier == StorageTier::Bulk && stripe@[id].storage_tier
                    == StorageTier::Hot
                ||| stripe@[v].storage_tier == StorageTier::Archive && (stripe@[id].storage_tier
                    == StorageTier::Hot || stripe@[id].storage_tier == StorageTier::Bulk)
            },
        forall|i: int, j: int|
            0 <= i < j < r@.len() ==> {
                let (p, q) = (stripe@[#[trigger] r@[i]], stripe@[#[trigger] r@[j]]);
                ||| p.storage_tier == StorageTier::Bulk && q.storage_tier == StorageTier::Archive
                ||| p.storage_tier == q.storage_tier && p.free_bytes > q.free_bytes
                ||| p.storage_tier == q.storage_tier && p.free_bytes == q.free_bytes && place(r@[i])
                    < place(r@[j])
            },
{
    law_where_data_can_go(stripe@, walk@, id);
    law_ties_keep_the_order_of_the_walk(stripe@, walk@, id, place);
}

/// The escalations along a walk are those of its volumes, one by one and in order.
pub proof fn law_check_escalations(
    stripe: &StorageStripe,
    walk: &[Id],
    r: Vec<StorageStripeEvent>,
    each: spec_fn(Id) -> Option<StorageStripeEvent>,
)
    requires
        call_ensures(StorageStripe::check_escalations_along, (stripe, walk), r),
        forall|id: Id|
            call_ensures(StorageStripe::escalation_along, (stripe, walk, id), #[trigger] each(id)),
    ensures
        r@ == walk@.map_values(each).filter(
            |event: Option<StorageStripeEvent>| event is Some,
        ).map_values(|event: Option<StorageStripeEvent>| event->0),
{
    law_escalations_of_all_volumes(stripe@, walk@);
    let named = |id: Id| escalation_of(stripe@, walk@, id);
    assert forall|id: Id| #[trigger] each(id) == named(id) by {
        assert(call_ensures(StorageStripe::escalation_along, (stripe, walk, id), each(id)));
    }
    assert(walk@.map_values(each) =~= walk@.map_values(named));
}

/// The healthy volumes of a tier along one volume, and along some volumes and then some more.
pub proof fn law_healthy_volumes_call(
    stripe: &StorageStripe,
    tier: StorageTier,
    id: Id,
    alone: &[Id],
    of_one: Vec<&TierProfile>,
    some: &[Id],
    of_some: Vec<&TierProfile>,
    more: &[Id],
    of_more: Vec<&TierProfile>,
    all: &[Id],
    of_all: Vec<&TierProfile>,
)
    requires
        alone@ == seq![id],
        all@ == some@ + more@,
        call_ensures(StorageStripe::healthy_volumes_along, (stripe, alone, tier), of_one),
        call_ensures(StorageStripe::healthy_volumes_along, (stripe, some, tier), of_some),
        call_ensures(StorageStripe::healthy_volumes_along, (stripe, more, tier), of_more),
        call_ensures(StorageStripe::healthy_volumes_along, (stripe, all, tier), of_all),
    ensures
        usable(stripe@, id) && stripe@[id].storage_tier == tier ==> of_one@.len() == 1
            && *of_one@[0] == stripe@[id],
        !(usable(stripe@, id) && stripe@[id].storage_tier == tier) ==> of_one@.len() == 0,
        of_all@.len() == of_some@.len() + of_more@.len(),
        forall|i: int|
            0 <= i < of_all@.len() ==> *(#[trigger] of_all@[i]) == *(of_some@ + of_more@)[i],
{
    law_healthy_volumes_in_order(stripe@, some@, more@, id, tier);
}

/// Where the data of a volume can go, in whatever order the stripe is walked.
pub proof fn law_fallback_on_any_walk(stripe: &StorageStripe, id: Id, r: Vec<Id>)
    requires
        call_ensures(StorageStripe::fallback_path_for, (stripe, id), r),
    ensures
        !stripe@.contains_key(id) ==> r@.len() == 0,
        r@.no_duplicates(),
        stripe@.contains_key(id) ==> forall|v: Id| #[trigger]
            r@.contains(v) <==> usable(stripe@, v) && {
                ||| stripe@[v].storage_tier == StorageTier::Bulk && stripe@[id].storage_tier
                    == StorageTier::Hot
                ||| stripe@[v].storage_tier == StorageTier::Archive && (stripe@[id].storage_tier
                    == StorageTier::Hot || stripe@[id].storage_tier == StorageTier::Bulk)
            },
        forall|i: int, j: int|
            0 <= i < j < r@.len() ==> {
                let (p, q) = (stripe@[#[trigger] r@[i]], stripe@[#[trigger] r@[j]]);
                ||| p.storage_tier == StorageTier::Bulk && q.storage_tier == StorageTier::Archive
                ||| p.storage_tier == q.storage_tier && p.free_bytes >= q.free_bytes
            },
{
    let walk = choose|walk: Seq<Id>| #[trigger]
        is_walk(stripe@, walk) && r@ == fallback_path(stripe@, walk, id);
    law_where_data_can_go(stripe@, walk, id);
}

/// The healthy volumes of a tier are all of those, and no others.
pub proof fn law_healthy_volumes_of_tier(
    stripe: &StorageStripe,
    tier: StorageTier,
    r: Vec<&TierProfile>,
    id: Id,
)
    requires
        stripe.wf(),
        call_ensures(StorageStripe::healthy_volumes_in_tier, (stripe, tier), r),
    ensures
        forall|i: int|
            0 <= i < r@.len() ==> (#[trigger] r@[i]).healthy && r@[i].storage_tier == tier
                && stripe@.contains_key(r@[i].volume_id) && stripe@[r@[i].volume_id] == *r@[i],
        usable(stripe@, id) && stripe@[id].storage_tier == tier <==> exists|i: int|
            0 <= i < r@.len() && (#[trigger] r@[i]).volume_id == id,
{
    let walk = choose|walk: Seq<Id>| #[trigger]
        is_walk(stripe@, walk) && r@.len() == healthy_in(stripe@, walk, tier).len() && (forall|
            i: int,
        |
            0 <= i < r@.len() ==> *(#[trigger] r@[i]) == stripe@[healthy_in(
                stripe@,
                walk,
                tier,
            )[i]]);
    let ids = healthy_in(stripe@, walk, tier);
    law_healthy_volumes(stripe@, walk, tier);
    assert forall|i: int| 0 <= i < r@.len() implies (#[trigger] r@[i]).healthy
        && r@[i].storage_tier == tier && r@[i].volume_id == ids[i] && stripe@.contains_key(
        ids[i],
    ) by {
        assert(ids.contains(ids[i]));
    }
    if usable(stripe@, id) && stripe@[id].storage_tier == tier {
        assert(walk.to_set().contains(id));
        assert(ids.contains(id));
        let i = choose|i: int| 0 <= i < ids.len() && ids[i] == id;
        assert(r@[i].volume_id == id);
    }
}

} // verus!
