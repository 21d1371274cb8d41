//! The stripe: who takes over from a failed volume, and where the data of a volume can go.

use crate::internal::sd_core::Id;
use crate::stripe::{
    by_free, escalation_of, escalations, escalations_of, fallback_path, healthy_in,
    insert_by_free, law_fallback_path, law_healthy_volumes, law_sorted_by_falling_free_space,
    path_through, tiers_behind, with_added, with_failed, StorageStripeEvent, TierProfile,
};
use crate::tiering::StorageTier;
use crate::walk::is_walk;
use vstd::prelude::*;

verus! {

/// Whether a volume of the stripe can be relied on.
pub open spec fn usable(profiles: Map<Id, TierProfile>, id: Id) -> bool {
    profiles.contains_key(id) && profiles[id].healthy
}

/// Whether volumes of one tier take over from volumes of another that name no targets: bulk and
/// archive volumes from hot and from removable ones, archive volumes from bulk ones.
pub open spec fn may_succeed(tier: StorageTier, failed: StorageTier) -> bool {
    (tier == StorageTier::Archive && failed != StorageTier::Archive) || (tier == StorageTier::Bulk
        && (failed == StorageTier::Hot || failed == StorageTier::Offload))
}

/// An escalation is reported of failed volumes of the stripe alone. It leads from the tier of the
/// failed volume to the tier of the one that takes over, which is a healthy volume of the stripe
/// and not the failed one.
pub proof fn law_escalation_leads_to_a_healthy_volume(
    profiles: Map<Id, TierProfile>,
    walk: Seq<Id>,
    id: Id,
)
    ensures
        escalation_of(profiles, walk, id) matches Some(event) ==> {
            &&& profiles.contains_key(id)
            &&& !profiles[id].healthy
            &&& event matches StorageStripeEvent::Escalated { from_tier, to_tier, volume_id }
            &&& usable(profiles, volume_id)
            &&& volume_id != id
            &&& from_tier == profiles[id].storage_tier
            &&& to_tier == profiles[volume_id].storage_tier
        },
{
    if profiles.contains_key(id) && !profiles[id].healthy {
        if profiles[id].escalation_targets@.len() > 0 {
            law_first_named_target_takes_over(profiles, walk, id);
        } else {
            law_first_volume_of_the_next_tier_takes_over(profiles, walk, id);
        }
    }
}

/// Where a failed volume names targets, the first of them that is healthy takes over, in the order
/// in which they are named; nothing does where none of them is healthy.
pub proof fn law_first_named_target_takes_over(
    profiles: Map<Id, TierProfile>,
    walk: Seq<Id>,
    id: Id,
)
    requires
        profiles.contains_key(id),
        !profiles[id].healthy,
        profiles[id].escalation_targets@.len() > 0,
    ensures
        ({
            let targets = profiles[id].escalation_targets@;
            match escalation_of(profiles, walk, id) {
                Some(event) => event matches StorageStripeEvent::Escalated {
                    from_tier,
                    to_tier,
                    volume_id,
                } && exists|k: int|
                    #![trigger targets[k]]
                    0 <= k < targets.len() && targets[k] == volume_id && usable(
                        profiles,
                        targets[k],
                    ) && forall|j: int| 0 <= j < k ==> !usable(profiles, #[trigger] targets[j]),
                None => forall|j: int|
                    0 <= j < targets.len() ==> !usable(profiles, #[trigger] targets[j]),
            }
        }),
{
    let targets = profiles[id].escalation_targets@;
    lemma_first_in_order(profiles, targets);
}

/// The first healthy one of some volumes comes before all other healthy ones.
proof fn lemma_first_in_order(profiles: Map<Id, TierProfile>, targets: Seq<Id>)
    ensures
        match crate::stripe::first_healthy(profiles, targets) {
            Some(target) => exists|k: int|
                #![trigger targets[k]]
                0 <= k < targets.len() && targets[k] == target && usable(profiles, targets[k])
                    && forall|j: int| 0 <= j < k ==> !usable(profiles, #[trigger] targets[j]),
            None => forall|j: int|
                0 <= j < targets.len() ==> !usable(profiles, #[trigger] targets[j]),
        },
    decreases targets.len(),
{
    if targets.len() > 0 {
        let rest = targets.drop_first();
        lemma_first_in_order(profiles, rest);
        if usable(profiles, targets[0]) {
            assert(targets[0] == targets[0]);
        } else {
            match crate::stripe::first_healthy(profiles, targets) {
                Some(target) => {
                    let k = choose|k: int|
                        #![trigger rest[k]]
                        0 <= k < rest.len() && rest[k] == target && usable(profiles, rest[k])
                            && forall|j: int| 0 <= j < k ==> !usable(profiles, #[trigger] rest[j]);
                    assert(targets[k + 1] == target);
                    assert forall|j: int| 0 <= j < k + 1 implies !usable(
                        profiles,
                        #[trigger] targets[j],
                    ) by {
                        if j > 0 {
                            assert(rest[j - 1] == targets[j]);
                        }
                    }
                },
                None => {
                    assert forall|j: int| 0 <= j < targets.len() implies !usable(
                        profiles,
                        #[trigger] targets[j],
                    ) by {
                        if j > 0 {
                            assert(rest[j - 1] == targets[j]);
                        }
                    }
                },
            }
        }
    }
}

/// Where a failed volume names no targets, the first healthy volume of the walk that is of the
/// nearest tier with one takes over: a bulk volume before any archive volume, and none where
/// neither tier may take over.
pub proof fn law_first_volume_of_the_next_tier_takes_over(
    profiles: Map<Id, TierProfile>,
    walk: Seq<Id>,
    id: Id,
)
    requires
        profiles.contains_key(id),
        !profiles[id].healthy,
        profiles[id].escalation_targets@.len() == 0,
    ensures
        ({
            let failed = profiles[id].storage_tier;
            match escalation_of(profiles, walk, id) {
                Some(event) => event matches StorageStripeEvent::Escalated {
                    from_tier,
                    to_tier,
                    volume_id,
                } && may_succeed(to_tier, failed) && exists|k: int|
                    #![trigger walk[k]]
                    0 <= k < walk.len() && walk[k] == volume_id && usable(profiles, walk[k])
                        && profiles[volume_id].storage_tier == to_tier && forall|j: int|
                        0 <= j < walk.len() && usable(profiles, #[trigger] walk[j]) && may_succeed(
                            profiles[walk[j]].storage_tier,
                            failed,
                        ) ==> (profiles[walk[j]].storage_tier == to_tier && k <= j) || (to_tier
                            == StorageTier::Bulk && profiles[walk[j]].storage_tier
                            == StorageTier::Archive),
                None => forall|j: int|
                    0 <= j < walk.len() && usable(profiles, #[trigger] walk[j]) ==> !may_succeed(
                        profiles[walk[j]].storage_tier,
                        failed,
                    ),
            }
        }),
{
    let failed = profiles[id].storage_tier;
    let bulk = healthy_in(profiles, walk, StorageTier::Bulk);
    let archive = healthy_in(profiles, walk, StorageTier::Archive);
    let tiers = crate::stripe::tiers_taking_over(failed);
    reveal_with_fuel(crate::stripe::first_in_tiers, 3);
    lemma_first_of_walk(profiles, walk, StorageTier::Bulk);
    lemma_first_of_walk(profiles, walk, StorageTier::Archive);
    law_healthy_volumes(profiles, walk, StorageTier::Bulk);
    law_healthy_volumes(profiles, walk, StorageTier::Archive);
    if tiers.len() == 2 {
        assert(tiers.drop_first() =~= seq![StorageTier::Archive]);
    }
    if tiers.len() > 0 {
        assert(seq![StorageTier::Archive].drop_first() =~= Seq::<StorageTier>::empty());
        assert(tiers.len() == 1 ==> tiers =~= seq![StorageTier::Archive]);
    }
    assert forall|j: int| 0 <= j < walk.len() && usable(profiles, #[trigger] walk[j]) implies {
        &&& profiles[walk[j]].storage_tier == StorageTier::Bulk ==> bulk.len() > 0
        &&& profiles[walk[j]].storage_tier == StorageTier::Archive ==> archive.len() > 0
    } by {
        assert(walk.contains(walk[j]));
        if profiles[walk[j]].storage_tier == StorageTier::Bulk {
            assert(bulk.contains(walk[j]));
        }
        if profiles[walk[j]].storage_tier == StorageTier::Archive {
            assert(archive.contains(walk[j]));
        }
    }
}

/// The first healthy volume of a tier is the first of the walk.
proof fn lemma_first_of_walk(profiles: Map<Id, TierProfile>, walk: Seq<Id>, tier: StorageTier)
    ensures
        healthy_in(profiles, walk, tier).len() > 0 ==> exists|k: int|
            #![trigger walk[k]]
            0 <= k < walk.len() && walk[k] == healthy_in(profiles, walk, tier)[0] && usable(
                profiles,
                walk[k],
            ) && profiles[walk[k]].storage_tier == tier && forall|j: int|
                0 <= j < k ==> !(usable(profiles, #[trigger] walk[j])
                    && profiles[walk[j]].storage_tier == tier),
    decreases walk.len(),
{
    reveal(Seq::filter);
    if walk.len() > 0 {
        let shorter = walk.drop_last();
        let before = healthy_in(profiles, shorter, tier);
        lemma_first_of_walk(profiles, shorter, tier);
        law_healthy_volumes(profiles, shorter, tier);
        if before.len() > 0 {
            let k = choose|k: int|
                #![trigger shorter[k]]
                0 <= k < shorter.len() && shorter[k] == before[0] && usable(profiles, shorter[k])
                    && profiles[shorter[k]].storage_tier == tier && forall|j: int|
                    0 <= j < k ==> !(usable(profiles, #[trigger] shorter[j])
                        && profiles[shorter[j]].storage_tier == tier);
            assert(walk[k] == before[0]);
            assert(healthy_in(profiles, walk, tier)[0] == before[0]);
            assert forall|j: int| 0 <= j < k implies !(usable(profiles, #[trigger] walk[j])
                && profiles[walk[j]].storage_tier == tier) by {
                assert(shorter[j] == walk[j]);
            }
        } else if healthy_in(profiles, walk, tier).len() > 0 {
            let k = walk.len() - 1;
            assert(walk[k] == healthy_in(profiles, walk, tier)[0]);
            assert forall|j: int| 0 <= j < k implies !(usable(profiles, #[trigger] walk[j])
                && profiles[walk[j]].storage_tier == tier) by {
                assert(shorter[j] == walk[j]);
                if usable(profiles, walk[j]) && profiles[walk[j]].storage_tier == tier {
                    assert(shorter.contains(shorter[j]));
                    assert(before.contains(walk[j]));
                }
            }
        }
    }
}

/// The stripe reports the escalations of the volumes of the walk, one for each that has one, in the
/// order of the walk.
pub proof fn law_escalations_of_all_volumes(profiles: Map<Id, TierProfile>, walk: Seq<Id>)
    ensures
        escalations(profiles, walk) == walk.map_values(
            |id: Id| escalation_of(profiles, walk, id),
        ).filter(|event: Option<StorageStripeEvent>| event is Some).map_values(
            |event: Option<StorageStripeEvent>| event->0,
        ),
{
    lemma_escalations_of(profiles, walk, walk);
}

/// The escalations of some volumes.
proof fn lemma_escalations_of(profiles: Map<Id, TierProfile>, walk: Seq<Id>, ids: Seq<Id>)
    ensures
        escalations_of(profiles, walk, ids) == ids.map_values(
            |id: Id| escalation_of(profiles, walk, id),
        ).filter(|event: Option<StorageStripeEvent>| event is Some).map_values(
            |event: Option<StorageStripeEvent>| event->0,
        ),
    decreases ids.len(),
{
    reveal(Seq::filter);
    let f = |id: Id| escalation_of(profiles, walk, id);
    let some = |event: Option<StorageStripeEvent>| event is Some;
    let inner = |event: Option<StorageStripeEvent>| event->0;
    let found = ids.map_values(f);
    if ids.len() > 0 {
        let shorter = ids.drop_last();
        lemma_escalations_of(profiles, walk, shorter);
        assert(found.drop_last() =~= shorter.map_values(f));
        assert(found.last() == escalation_of(profiles, walk, ids.last()));
        let before = shorter.map_values(f).filter(some);
        if found.last() is Some {
            assert(found.filter(some) =~= before.push(found.last()));
            assert(before.push(found.last()).map_values(inner) =~= before.map_values(inner).push(
                found.last()->0,
            ));
        }
    } else {
        assert(found.filter(some).map_values(inner) =~= Seq::<StorageStripeEvent>::empty());
    }
}

/// The healthy volumes of a tier come in the order of the walk.
pub proof fn law_healthy_volumes_in_order(
    profiles: Map<Id, TierProfile>,
    first: Seq<Id>,
    more: Seq<Id>,
    id: Id,
    tier: StorageTier,
)
    ensures
        healthy_in(profiles, first + more, tier) == healthy_in(profiles, first, tier) + healthy_in(
            profiles,
            more,
            tier,
        ),
        healthy_in(profiles, seq![id], tier) == if profiles.contains_key(id)
            && profiles[id].healthy && profiles[id].storage_tier == tier {
            seq![id]
        } else {
            Seq::empty()
        },
{
    let pred = |id: Id|
        crate::stripe::is_healthy(profiles, id) && profiles[id].storage_tier == tier;
    Seq::filter_distributes_over_add(first, more, pred);
    reveal_with_fuel(Seq::filter, 2);
    assert(seq![id].drop_last() =~= Seq::<Id>::empty());
}

/// A volume that is added is in the stripe, healthy, with what was said of it, also if it had
/// failed before; the others stay as they are.
pub proof fn law_adding(
    profiles: Map<Id, TierProfile>,
    id: Id,
    name: String,
    tier: StorageTier,
    free: u64,
    total: u64,
    targets: Vec<Id>,
    other: Id,
)
    ensures
        ({
            let after = with_added(profiles, id, name, tier, free, total, targets);
            &&& after.contains_key(id)
            &&& after[id].volume_id == id
            &&& after[id].volume_name == name
            &&& after[id].storage_tier == tier
            &&& after[id].free_bytes == free
            &&& after[id].total_bytes == total
            &&& after[id].healthy
            &&& after[id].escalation_targets == targets
            &&& other != id ==> after.contains_key(other) == profiles.contains_key(other)
                && after[other] == profiles[other]
            &&& with_added(with_failed(profiles, id), id, name, tier, free, total, targets)
                =~= after
        }),
{
}

/// Failing a volume changes its health and nothing else of the stripe, and leaves a volume that is
/// not in the stripe out of it.
pub proof fn law_failing_changes_health_alone(profiles: Map<Id, TierProfile>, id: Id)
    ensures
        ({
            let after = with_failed(profiles, id);
            &&& after.dom() == profiles.dom()
            &&& forall|v: Id| #[trigger]
                after.contains_key(v) ==> {
                    &&& after[v].healthy == (profiles[v].healthy && v != id)
                    &&& after[v].volume_id == profiles[v].volume_id
                    &&& after[v].volume_name == profiles[v].volume_name
                    &&& after[v].storage_tier == profiles[v].storage_tier
                    &&& after[v].free_bytes == profiles[v].free_bytes
                    &&& after[v].total_bytes == profiles[v].total_bytes
                    &&& after[v].escalation_targets == profiles[v].escalation_targets
                }
        }),
{
    assert(with_failed(profiles, id).dom() =~= profiles.dom());
}

/// Where the data of a volume can go, spelled out: the healthy bulk and archive volumes for a hot
/// one, the healthy archive volumes for a bulk one, nowhere for the others and for a volume that is
/// not in the stripe. Bulk comes before archive, and more free space before less.
pub proof fn law_where_data_can_go(profiles: Map<Id, TierProfile>, walk: Seq<Id>, id: Id)
    requires
        is_walk(profiles, walk),
    ensures
        ({
            let path = fallback_path(profiles, walk, id);
            &&& !profiles.contains_key(id) ==> path.len() == 0
            &&& path.no_duplicates()
            &&& profiles.contains_key(id) ==> forall|v: Id| #[trigger]
                path.contains(v) <==> usable(profiles, v) && {
                    ||| profiles[v].storage_tier == StorageTier::Bulk && profiles[id].storage_tier
                        == StorageTier::Hot
                    ||| profiles[v].storage_tier == StorageTier::Archive && (
                    profiles[id].storage_tier == StorageTier::Hot || profiles[id].storage_tier
                        == StorageTier::Bulk)
                }
            &&& forall|i: int, j: int|
                0 <= i < j < path.len() ==> {
                    let (p, q) = (profiles[#[trigger] path[i]], profiles[#[trigger] path[j]]);
                    ||| p.storage_tier == StorageTier::Bulk && q.storage_tier
                        == StorageTier::Archive
                    ||| p.storage_tier == q.storage_tier && p.free_bytes >= q.free_bytes
                }
        }),
{
    if profiles.contains_key(id) {
        law_fallback_path(profiles, walk, id);
        let path = fallback_path(profiles, walk, id);
        assert forall|i: int, j: int| 0 <= i < j < path.len() implies {
            let (p, q) = (profiles[#[trigger] path[i]], profiles[#[trigger] path[j]]);
            ||| p.storage_tier == StorageTier::Bulk && q.storage_tier == StorageTier::Archive
            ||| p.storage_tier == q.storage_tier && p.free_bytes >= q.free_bytes
        } by {
            assert(path.contains(path[i]) && path.contains(path[j]));
        }
    }
}

/// Whether volumes come in a given order.
spec fn in_order(ids: Seq<Id>, place: spec_fn(Id) -> int) -> bool {
    forall|i: int, j: int|
        0 <= i < j < ids.len() ==> place(#[trigger] ids[i]) < place(#[trigger] ids[j])
}

/// Whether volumes with equally much free space come in a given order.
spec fn ties_in_order(
    profiles: Map<Id, TierProfile>,
    ids: Seq<Id>,
    place: spec_fn(Id) -> int,
) -> bool {
    forall|i: int, j: int|
        0 <= i < j < ids.len() && profiles[#[trigger] ids[i]].free_bytes == profiles[
            #[trigger] ids[j]
        ].free_bytes ==> place(ids[i]) < place(ids[j])
}

/// Inserting the last volume of an order keeps ties in that order.
proof fn lemma_insert_keeps_ties(
    profiles: Map<Id, TierProfile>,
    sorted: Seq<Id>,
    id: Id,
    place: spec_fn(Id) -> int,
)
    requires
        ties_in_order(profiles, sorted, place),
        forall|i: int| 0 <= i < sorted.len() ==> place(#[trigger] sorted[i]) < place(id),
        crate::stripe::falling(profiles, sorted),
    ensures
        ties_in_order(profiles, insert_by_free(profiles, sorted, id), place),
        forall|i: int|
            0 <= i < insert_by_free(profiles, sorted, id).len() ==> (#[trigger] insert_by_free(
                profiles,
                sorted,
                id,
            )[i]) == id || sorted.contains(insert_by_free(profiles, sorted, id)[i]),
    decreases sorted.len(),
{
    let all = insert_by_free(profiles, sorted, id);
    if sorted.len() > 0 && profiles[sorted.last()].free_bytes < profiles[id].free_bytes {
        let shorter = sorted.drop_last();
        let last = sorted.last();
        let inserted = insert_by_free(profiles, shorter, id);
        assert forall|i: int, j: int|
            0 <= i < j < shorter.len() && profiles[#[trigger] shorter[i]].free_bytes == profiles[
                #[trigger] shorter[j]
            ].free_bytes implies place(shorter[i]) < place(shorter[j]) by {
            assert(sorted[i] == shorter[i] && sorted[j] == shorter[j]);
        }
        assert forall|i: int| 0 <= i < shorter.len() implies place(#[trigger] shorter[i]) < place(
            id,
        ) by {
            assert(sorted[i] == shorter[i]);
        }
        lemma_insert_keeps_ties(profiles, shorter, id, place);
        assert(sorted[sorted.len() - 1] == last);
        assert forall|i: int, j: int|
            0 <= i < j < all.len() && profiles[#[trigger] all[i]].free_bytes == profiles[
                #[trigger] all[j]
            ].free_bytes implies place(all[i]) < place(all[j]) by {
            if j == all.len() - 1 {
                if inserted[i] != id {
                    assert(shorter.contains(inserted[i]));
                    let k = choose|k: int| 0 <= k < shorter.len() && shorter[k] == inserted[i];
                    assert(sorted[k] == inserted[i]);
                }
            } else {
                assert(all[i] == inserted[i] && all[j] == inserted[j]);
            }
        }
        assert forall|i: int| 0 <= i < all.len() implies (#[trigger] all[i]) == id
            || sorted.contains(all[i]) by {
            if i < inserted.len() {
                assert(all[i] == inserted[i]);
                if inserted[i] != id {
                    let k = choose|k: int| 0 <= k < shorter.len() && shorter[k] == inserted[i];
                    assert(sorted[k] == inserted[i]);
                }
            }
        }
    } else {
        assert forall|i: int| 0 <= i < all.len() implies (#[trigger] all[i]) == id
            || sorted.contains(all[i]) by {
            if i < sorted.len() {
                assert(all[i] == sorted[i]);
            }
        }
    }
}

/// Sorting by free space leaves ties in order.
proof fn lemma_sorting_keeps_ties(
    profiles: Map<Id, TierProfile>,
    ids: Seq<Id>,
    place: spec_fn(Id) -> int,
)
    requires
        in_order(ids, place),
    ensures
        ties_in_order(profiles, by_free(profiles, ids), place),
    decreases ids.len(),
{
    if ids.len() > 0 {
        let shorter = ids.drop_last();
        let last = ids.last();
        let before = by_free(profiles, shorter);
        assert forall|i: int, j: int| 0 <= i < j < shorter.len() implies place(
            #[trigger] shorter[i],
        ) < place(#[trigger] shorter[j]) by {
            assert(ids[i] == shorter[i] && ids[j] == shorter[j]);
        }
        lemma_sorting_keeps_ties(profiles, shorter, place);
        law_sorted_by_falling_free_space(profiles, shorter);
        assert forall|i: int| 0 <= i < before.len() implies place(#[trigger] before[i]) < place(
            last,
        ) by {
            assert(before.contains(before[i]));
            let k = choose|k: int| 0 <= k < shorter.len() && shorter[k] == before[i];
            assert(ids[k] == before[i] && ids[ids.len() - 1] == last);
        }
        lemma_insert_keeps_ties(profiles, before, last, place);
    }
}

/// The healthy volumes of a tier keep the order of the walk.
proof fn lemma_healthy_keeps_order(
    profiles: Map<Id, TierProfile>,
    walk: Seq<Id>,
    tier: StorageTier,
    place: spec_fn(Id) -> int,
)
    requires
        in_order(walk, place),
    ensures
        in_order(healthy_in(profiles, walk, tier), place),
    decreases walk.len(),
{
    reveal(Seq::filter);
    if walk.len() > 0 {
        let shorter = walk.drop_last();
        let before = healthy_in(profiles, shorter, tier);
        let all = healthy_in(profiles, walk, tier);
        assert forall|i: int, j: int| 0 <= i < j < shorter.len() implies place(
            #[trigger] shorter[i],
        ) < place(#[trigger] shorter[j]) by {
            assert(walk[i] == shorter[i] && walk[j] == shorter[j]);
        }
        lemma_healthy_keeps_order(profiles, shorter, tier, place);
        law_healthy_volumes(profiles, shorter, tier);
        assert forall|i: int, j: int| 0 <= i < j < all.len() implies place(#[trigger] all[i])
            < place(#[trigger] all[j]) by {
            assert(all[i] == before[i]);
            if j < before.len() {
                assert(all[j] == before[j]);
            } else {
                assert(before.contains(before[i]));
                let k = choose|k: int| 0 <= k < shorter.len() && shorter[k] == before[i];
                assert(walk[k] == before[i] && walk[walk.len() - 1] == all[j]);
            }
        }
    }
}

/// Volumes of one tier with equally much free space stand on a fallback path in the order of the
/// walk.
pub proof fn law_ties_keep_the_order_of_the_walk(
    profiles: Map<Id, TierProfile>,
    walk: Seq<Id>,
    id: Id,
    place: spec_fn(Id) -> int,
)
    requires
        is_walk(profiles, walk),
        forall|i: int, j: int|
            0 <= i < j < walk.len() ==> place(#[trigger] walk[i]) < place(#[trigger] walk[j]),
    ensures
        ({
            let path = fallback_path(profiles, walk, id);
            forall|i: int, j: int|
                0 <= i < j < path.len() && profiles[#[trigger] path[i]].storage_tier == profiles[
                    #[trigger] path[j]
                ].storage_tier && profiles[path[i]].free_bytes == profiles[path[j]].free_bytes
                    ==> place(path[i]) < place(path[j])
        }),
{
    if profiles.contains_key(id) {
        lemma_path_ties(profiles, walk, tiers_behind(profiles[id].storage_tier), place);
    }
}

/// Ties on a path through different tiers.
proof fn lemma_path_ties(
    profiles: Map<Id, TierProfile>,
    walk: Seq<Id>,
    tiers: Seq<StorageTier>,
    place: spec_fn(Id) -> int,
)
    requires
        in_order(walk, place),
        tiers.no_duplicates(),
    ensures
        ({
            let path = path_through(profiles, walk, tiers);
            &&& forall|i: int|
                0 <= i < path.len() ==> tiers.contains(
                    profiles[#[trigger] path[i]].storage_tier,
                )
            &&& forall|i: int, j: int|
                0 <= i < j < path.len() && profiles[#[trigger] path[i]].storage_tier == profiles[
                    #[trigger] path[j]
                ].storage_tier && profiles[path[i]].free_bytes == profiles[path[j]].free_bytes
                    ==> place(path[i]) < place(path[j])
        }),
    decreases tiers.len(),
{
    if tiers.len() > 0 {
        let fewer = tiers.drop_last();
        let tier = tiers.last();
        let before = path_through(profiles, walk, fewer);
        let healthy = healthy_in(profiles, walk, tier);
        let added = by_free(profiles, healthy);
        let path = path_through(profiles, walk, tiers);
        assert(fewer.no_duplicates());
        lemma_path_ties(profiles, walk, fewer, place);
        lemma_healthy_keeps_order(profiles, walk, tier, place);
        lemma_sorting_keeps_ties(profiles, healthy, place);
        law_healthy_volumes(profiles, walk, tier);
        law_sorted_by_falling_free_space(profiles, healthy);
        assert forall|i: int| 0 <= i < path.len() implies tiers.contains(
            profiles[#[trigger] path[i]].storage_tier,
        ) && (i >= before.len() ==> profiles[path[i]].storage_tier == tier) && (i < before.len()
            ==> profiles[path[i]].storage_tier != tier) by {
            if i < before.len() {
                assert(path[i] == before[i]);
                let t = profiles[before[i]].storage_tier;
                let k = choose|k: int| 0 <= k < fewer.len() && fewer[k] == t;
                assert(tiers[k] == t && tiers[tiers.len() - 1] == tier);
            } else {
                assert(path[i] == added[i - before.len()]);
                assert(added.contains(path[i]));
                assert(healthy.contains(path[i]));
                assert(tiers[tiers.len() - 1] == tier);
            }
        }
        assert forall|i: int, j: int|
            0 <= i < j < path.len() && profiles[#[trigger] path[i]].storage_tier == profiles[
                #[trigger] path[j]
            ].storage_tier && profiles[path[i]].free_bytes
                == profiles[path[j]].free_bytes implies place(path[i]) < place(path[j]) by {
            if j < before.len() {
                assert(path[i] == before[i] && path[j] == before[j]);
            } else {
                assert(i >= before.len());
                assert(path[i] == added[i - before.len()] && path[j] == added[j - before.len()]);
            }
        }
    }
}

} // verus!
