//! A shard: a bounded store of tagged entries and the agent that publishes its
//! summary to the coordinator.

pub mod businesslogic;
pub mod lifetime;

use crate::bucket::businesslogic::{
    entry_views, BucketEntry, BucketIndex, BucketMetrics, BusinessState, EntryView, StoreView,
};
use crate::identity::{clone_identities, contains_identity, identity_views, Identity};
use crate::summary::EffectiveIndex;
use crate::TimestampMillis;
use vstd::prelude::*;

verus! {

/// The time that passes between two summaries unless told otherwise.
pub const DEFAULT_REINDEX_INTERVAL: TimestampMillis = 5_000_000_000;

/// How a shard is set up: who controls it, which coordinator it reports to,
/// and how much time has to pass between two summaries.
#[derive(Debug)]
pub struct BucketCanisterSettings {
    pub controllers: Vec<Identity>,
    pub index_canister_id: Option<Identity>,
    pub reindex_interval: TimestampMillis,
}

impl Default for BucketCanisterSettings {
    fn default() -> (settings: BucketCanisterSettings)
        ensures
            settings.controllers@.len() == 0,
            settings.index_canister_id.is_none(),
            settings.reindex_interval == DEFAULT_REINDEX_INTERVAL,
    {
        BucketCanisterSettings {
            controllers: Vec::new(),
            index_canister_id: None,
            reindex_interval: DEFAULT_REINDEX_INTERVAL,
        }
    }
}

/// Everything a shard keeps across restarts.
#[derive(Debug)]
pub struct Data {
    pub canister_settings: BucketCanisterSettings,
    pub business_state: BusinessState,
    pub bucket_index: BucketIndex,
}

impl Default for Data {
    fn default() -> (data: Data)
        ensures
            data.canister_settings.controllers@.len() == 0,
            data.canister_settings.index_canister_id.is_none(),
            data.canister_settings.reindex_interval == DEFAULT_REINDEX_INTERVAL,
            data.business_state@ == BusinessState::default_view(),
            data.bucket_index@ == BucketIndex::default_view(),
    {
        Data {
            canister_settings: BucketCanisterSettings::default(),
            business_state: BusinessState::default(),
            bucket_index: BucketIndex::default(),
        }
    }
}

/// The message that turns away a caller who is no controller.
pub open spec fn not_a_controller() -> Seq<char> {
    "You are not a controller"@
}

/// The message that turns away a caller who is no moderator.
pub open spec fn not_a_moderator() -> Seq<char> {
    "You are not a moderator"@
}

/// The state of a shard that `caller` has just set up: `caller` is its
/// coordinator and its first controller, `controllers` follow, and the store
/// is empty.
pub fn init(caller: Identity, controllers: &Vec<Identity>) -> (data: Data)
    ensures
        identity_views(data.canister_settings.controllers@) == seq![caller@] + identity_views(
            controllers@,
        ),
        data.canister_settings.index_canister_id.is_some(),
        data.canister_settings.index_canister_id.unwrap()@ == caller@,
        data.canister_settings.reindex_interval == DEFAULT_REINDEX_INTERVAL,
        data.business_state@ == BusinessState::default_view(),
        data.bucket_index@ == BucketIndex::default_view(),
{
    let mut data = Data::default();
    data.canister_settings.controllers.push(caller.clone());
    data.canister_settings.index_canister_id = Some(caller);
    let mut i: usize = 0;
    while i < controllers.len()
        invariant
            i <= controllers@.len(),
            identity_views(data.canister_settings.controllers@) == seq![caller@] + identity_views(
                controllers@,
            ).subrange(0, i as int),
            data.canister_settings.index_canister_id == Some(caller),
            data.canister_settings.reindex_interval == DEFAULT_REINDEX_INTERVAL,
            data.business_state@ == BusinessState::default_view(),
            data.bucket_index@ == BucketIndex::default_view(),
        decreases controllers@.len() - i,
    {
        let ghost before = identity_views(data.canister_settings.controllers@);
        data.canister_settings.controllers.push(controllers[i].clone());
        assert(identity_views(data.canister_settings.controllers@) =~= before.push(
            controllers@[i as int]@,
        ));
        assert(identity_views(controllers@).subrange(0, i + 1) =~= identity_views(
            controllers@,
        ).subrange(0, i as int).push(controllers@[i as int]@));
        i += 1;
    }
    assert(identity_views(controllers@).subrange(0, i as int) =~= identity_views(controllers@));
    data
}

/// Stores what `caller` submitted at `now`, if the store has room.
pub fn post_content_impl(
    tag: String,
    body: String,
    now: TimestampMillis,
    caller: Identity,
    data: &mut Data,
) -> (accepted: bool)
    requires
        old(data).business_state@.wf(),
    ensures
        accepted == old(data).business_state@.has_room(),
        final(data).business_state@ == old(data).business_state@.after_insert(
            EntryView { tag: tag@, body: body@, submitted_at: now, submitted_by: caller@ },
        ),
        final(data).business_state@.wf(),
        final(data).canister_settings == old(data).canister_settings,
        final(data).bucket_index == old(data).bucket_index,
{
    let entry = BucketEntry { tag, body, submitted_at: now, submitted_by: caller };
    data.business_state.add_entry(entry)
}

/// The entries under `tag` that `caller` or an anonymous caller wrote.
pub fn get_by_tag_impl(tag: String, caller: Identity, data: &Data) -> (listed: Vec<BucketEntry>)
    requires
        data.business_state@.wf(),
    ensures
        entry_views(listed@) == data.business_state@.visible(tag@, caller@),
{
    data.business_state.list_entries(tag.as_str(), caller)
}

/// Every stored entry, for callers that passed `is_content_moderator`.
pub fn get_all_impl(data: &Data) -> (listed: Vec<BucketEntry>)
    ensures
        entry_views(listed@) == data.business_state@.all_entries(),
{
    data.business_state.list_all_entries()
}

/// The summary that the shard last made of itself.
pub fn get_bucket_index_impl(data: &Data) -> (index: EffectiveIndex)
    ensures
        index@ == data.bucket_index.effective_index@,
{
    data.bucket_index.effective_index.clone()
}

/// Replaces the moderators by those that the coordinator sent.
pub fn add_content_moderators_impl(moderators: Vec<Identity>, data: &mut Data)
    ensures
        final(data).business_state@ == (StoreView {
            moderators: identity_views(moderators@),
            ..old(data).business_state@
        }),
        final(data).canister_settings == old(data).canister_settings,
        final(data).bucket_index == old(data).bucket_index,
{
    data.business_state.add_content_moderators(moderators)
}

/// The report of a shard that runs as `canister_id` with `cycles_balance`
/// cycles left and `memory_used` bytes in use.
pub fn get_metrics_impl(
    canister_id: Identity,
    cycles_balance: u128,
    memory_used: u64,
    data: &Data,
) -> (metrics: BucketMetrics)
    requires
        data.canister_settings.index_canister_id.is_some(),
    ensures
        metrics.canister_id@ == canister_id@,
        metrics.cycles_balance == cycles_balance,
        identity_views(metrics.controllers@) == identity_views(
            data.canister_settings.controllers@,
        ),
        identity_views(metrics.moderators@) == data.business_state@.moderators,
        metrics.index_canister_id@ == data.canister_settings.index_canister_id.unwrap()@,
        metrics.max_entries == data.business_state@.max_entries,
        metrics.current_entries == data.business_state@.current_entries,
        metrics.memory_used == memory_used,
{
    let index_canister_id = match &data.canister_settings.index_canister_id {
        Some(id) => id.clone(),
        None => Identity::anonymous(),
    };
    BucketMetrics {
        canister_id,
        cycles_balance,
        controllers: clone_identities(&data.canister_settings.controllers),
        moderators: data.business_state.get_content_moderators(),
        index_canister_id,
        max_entries: data.business_state.max_entries(),
        current_entries: data.business_state.entries_count(),
        memory_used,
    }
}

/// Lets `caller` pass if it is one of the shard's controllers.
pub fn is_controller(caller: &Identity, data: &Data) -> (verdict: Result<(), String>)
    ensures
        verdict.is_ok() == identity_views(data.canister_settings.controllers@).contains(caller@),
        verdict matches Err(message) ==> message@ == not_a_controller(),
{
    if contains_identity(&data.canister_settings.controllers, caller) {
        Ok(())
    } else {
        Err("You are not a controller".to_owned())
    }
}

/// Lets `caller` pass if it is one of the shard's moderators.
pub fn is_content_moderator(caller: &Identity, data: &Data) -> (verdict: Result<(), String>)
    ensures
        verdict.is_ok() == data.business_state@.moderators.contains(caller@),
        verdict matches Err(message) ==> message@ == not_a_moderator(),
{
    let moderators = data.business_state.get_content_moderators();
    if contains_identity(&moderators, caller) {
        Ok(())
    } else {
        Err("You are not a moderator".to_owned())
    }
}

} // verus!
