//! What the coordinator does on each tick of the host: it builds the tag map
//! anew if that is due, plans a shard if capacity is short, and starts to
//! provision a planned shard if none is being provisioned.

use crate::identity::Identity;
use crate::index::businesslogic::{
    capacity_short, rebuild_due, reindex_tag_to_canisters, should_spawn_buckets,
    spawn_bucket_loop, spawn_step, CoordinatorView, GlobalIndexView, PlannedBucketCanister,
    SpawnAction, SpawnEvent,
};
use crate::index::tag_map::tag_map_of;
use crate::index::{Data, IndexCanisterSettings};
use crate::TimestampMillis;
use vstd::prelude::*;

verus! {

/// The state after the tag map was built anew at `now`, if that was due.
pub open spec fn after_reindex(
    state: CoordinatorView,
    settings: IndexCanisterSettings,
    now: TimestampMillis,
) -> CoordinatorView {
    if rebuild_due(now, state.global_index.last_updated, settings.reindex_interval) {
        CoordinatorView {
            global_index: GlobalIndexView {
                tag_to_canisters: tag_map_of(state.shards),
                last_updated: now,
            },
            ..state
        }
    } else {
        state
    }
}

/// The state after the planner ran: with one more planned shard if the free
/// slots and the planned capacity fell short of what is desired, and as
/// before otherwise.
pub open spec fn after_planning(
    state: CoordinatorView,
    settings: IndexCanisterSettings,
) -> CoordinatorView {
    if capacity_short(state, settings.desired_free_slots) {
        CoordinatorView { planned: state.planned.push(PlannedBucketCanister::fresh()), ..state }
    } else {
        state
    }
}

/// The planner plans nothing while the free slots and the planned capacity
/// reach what is desired, and never more than one shard at a time.
pub proof fn lemma_planner_waits(state: CoordinatorView, settings: IndexCanisterSettings)
    ensures
        state.planned_slots() + state.free_slots >= settings.desired_free_slots ==> after_planning(
            state,
            settings,
        ) == state,
        after_planning(state, settings).planned.len() <= state.planned.len() + 1,
        state.wf() ==> after_planning(state, settings).wf(),
{
}

/// Plans one more shard if the free slots and the capacity that is planned
/// already fall short of what is desired, and says whether it did.
pub fn plan_bucket(data: &mut Data) -> (planned: bool)
    requires
        old(data).business_state@.wf(),
    ensures
        planned == capacity_short(
            old(data).business_state@,
            old(data).canister_settings.desired_free_slots,
        ),
        final(data).business_state@ == after_planning(
            old(data).business_state@,
            old(data).canister_settings,
        ),
        final(data).business_state@.wf(),
        final(data).business_state.tag_order() == old(data).business_state.tag_order(),
        final(data).canister_settings == old(data).canister_settings,
{
    if should_spawn_buckets(data) {
        data.business_state.add_planned_bucket();
        true
    } else {
        false
    }
}

/// One tick of the coordinator, up to the first request to the host: the tag
/// map is built anew if that is due at `now`, the planner runs, and the
/// provisioning of planned shards takes a tick with `lock` and
/// `controller_id`.
pub fn heartbeat(
    data: &mut Data,
    now: TimestampMillis,
    lock: u32,
    controller_id: Identity,
) -> (action: SpawnAction)
    requires
        old(data).business_state@.wf(),
    ensures
        spawn_step(
            after_planning(
                after_reindex(old(data).business_state@, old(data).canister_settings, now),
                old(data).canister_settings,
            ),
            SpawnEvent::Tick { lock, controller_id },
            final(data).business_state@,
            action,
        ),
        final(data).business_state@.wf(),
        final(data).canister_settings == old(data).canister_settings,
{
    reindex_tag_to_canisters(data, now);
    plan_bucket(data);
    spawn_bucket_loop(&mut data.business_state, SpawnEvent::Tick { lock, controller_id })
}

} // verus!
