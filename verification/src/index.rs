//! The coordinator: it indexes the summaries of the shards, ranks the shards
//! for new writes, and plans new shards when free capacity runs low.

pub mod businesslogic;
pub mod lifetime;
pub mod management;
pub mod placement;
pub mod shards;
pub mod tag_map;

use crate::identity::{identity_views, principal_text, Identity};
use crate::index::businesslogic::{BusinessState, CoordinatorView};
use crate::index::placement::is_upload_order;
use crate::summary::EffectiveIndex;
use crate::TimestampMillis;
use vstd::prelude::*;

verus! {

/// The time that passes between two builds of the tag map unless told
/// otherwise.
pub const DEFAULT_REINDEX_INTERVAL: TimestampMillis = 5_000_000_000;

/// The free slots that the coordinator wants to see unless told otherwise.
pub const DEFAULT_DESIRED_FREE_SLOTS: u128 = 60;

/// A failed call: the host's code for it, and its words.
#[derive(Debug)]
pub struct Error {
    pub code: u8,
    pub msg: String,
}

/// How the coordinator is set up: how much time has to pass between two
/// builds of the tag map, and how many free slots it wants to see.
#[derive(Clone, Copy, Debug, PartialEq, Eq, Structural)]
pub struct IndexCanisterSettings {
    pub reindex_interval: TimestampMillis,
    pub desired_free_slots: u128,
}

impl Default for IndexCanisterSettings {
    fn default() -> (settings: IndexCanisterSettings)
        ensures
            settings == IndexCanisterSettings::standard(),
    {
        IndexCanisterSettings {
            reindex_interval: DEFAULT_REINDEX_INTERVAL,
            desired_free_slots: DEFAULT_DESIRED_FREE_SLOTS,
        }
    }
}

impl IndexCanisterSettings {
    /// The settings that `default` makes.
    pub open spec fn standard() -> IndexCanisterSettings {
        IndexCanisterSettings {
            reindex_interval: DEFAULT_REINDEX_INTERVAL,
            desired_free_slots: DEFAULT_DESIRED_FREE_SLOTS,
        }
    }
}

/// Everything the coordinator keeps across restarts.
#[derive(Debug)]
pub struct Data {
    pub canister_settings: IndexCanisterSettings,
    pub business_state: BusinessState,
}

impl Default for Data {
    fn default() -> (data: Data)
        ensures
            data.canister_settings == IndexCanisterSettings::standard(),
            data.business_state@ == BusinessState::default_view(),
    {
        Data {
            canister_settings: IndexCanisterSettings::default(),
            business_state: BusinessState::default(),
        }
    }
}

/// Takes in the summary that `caller` pushed, and acknowledges it.
pub fn add_bucket_index_impl(
    bucket_index: EffectiveIndex,
    caller: Identity,
    data: &mut Data,
) -> (acknowledged: bool)
    requires
        old(data).business_state@.wf(),
    ensures
        acknowledged,
        final(data).business_state@ == old(data).business_state@.with_summary(
            caller@,
            bucket_index@,
        ),
        final(data).business_state@.wf(),
        final(data).canister_settings == old(data).canister_settings,
{
    data.business_state.add_bucket_index(caller, bucket_index);
    true
}

/// The tag map as a table of texts: one row for each tag, holding the tag
/// and then the textual form of each shard that the map lists for it.
pub fn get_global_index_impl(data: &Data) -> (table: Vec<Vec<String>>)
    ensures
        table@.len() == data.business_state.tag_order().len(),
        forall|i: int|
            0 <= i < table@.len() ==> {
                let tag = #[trigger] data.business_state.tag_order()[i];
                &&& data.business_state@.global_index.tag_to_canisters.contains_key(tag)
                &&& table@[i]@.len() == 1 + data.business_state@.listed_under(tag).len()
                &&& table@[i]@[0]@ == tag
                &&& forall|k: int|
                    0 <= k < data.business_state@.listed_under(tag).len() ==> (
                    #[trigger] table@[i]@[1 + k])@ == principal_text(
                        data.business_state@.listed_under(tag)[k],
                    )
            },
        forall|i: int, j: int|
            0 <= i < j < data.business_state.tag_order().len() ==> data.business_state.tag_order()[i]
                != data.business_state.tag_order()[j],
        forall|tag: Seq<char>|
            data.business_state@.global_index.tag_to_canisters.contains_key(tag)
                ==> data.business_state.tag_order().contains(tag),
{
    data.business_state.get_index_tag2can_as_vec()
}

/// What the coordinator reports of itself to its operators.
#[derive(Debug)]
pub struct IndexMetrics {
    pub canister_id: Identity,
    pub cycles_balance: u128,
    pub free_slots: u128,
    pub desired_free_slots: u128,
    pub planned_slots: u128,
    pub all_buckets: Vec<String>,
    pub memory_used: u64,
    pub caller: String,
}

/// The report of a coordinator that runs as `canister_id` with
/// `cycles_balance` cycles left and `memory_used` bytes in use, made for
/// `caller`.
pub fn get_metrics_impl(
    canister_id: Identity,
    cycles_balance: u128,
    memory_used: u64,
    caller: Identity,
    data: &Data,
) -> (metrics: IndexMetrics)
    ensures
        metrics.canister_id@ == canister_id@,
        metrics.cycles_balance == cycles_balance,
        metrics.free_slots == data.business_state@.free_slots,
        metrics.desired_free_slots == data.canister_settings.desired_free_slots,
        metrics.planned_slots == data.business_state@.planned_slots(),
        metrics.all_buckets@.len() == data.business_state@.shard_ids().len(),
        forall|i: int|
            0 <= i < metrics.all_buckets@.len() ==> (#[trigger] metrics.all_buckets@[i])@
                == principal_text(data.business_state@.shard_ids()[i]),
        metrics.memory_used == memory_used,
        metrics.caller@ == principal_text(caller@),
{
    let buckets = data.business_state.get_all_buckets();
    let mut all_buckets: Vec<String> = Vec::new();
    let mut i: usize = 0;
    while i < buckets.len()
        invariant
            i <= buckets@.len(),
            all_buckets@.len() == i,
            forall|j: int|
                0 <= j < i ==> (#[trigger] all_buckets@[j])@ == principal_text(buckets@[j]@),
        decreases buckets@.len() - i,
    {
        all_buckets.push(buckets[i].to_text());
        i += 1;
    }
    proof {
        let ids = identity_views(buckets@);
        assert(ids.len() == buckets@.len());
        assert forall|j: int| 0 <= j < all_buckets@.len() implies (#[trigger] all_buckets@[j])@
            == principal_text(data.business_state@.shard_ids()[j]) by {
            assert(ids[j] == buckets@[j]@);
        }
    }
    IndexMetrics {
        canister_id,
        cycles_balance,
        free_slots: data.business_state.get_free_slots(),
        desired_free_slots: data.canister_settings.desired_free_slots,
        planned_slots: data.business_state.get_planned_slots(),
        all_buckets,
        memory_used,
        caller: caller.to_text(),
    }
}

/// The shards in which a reader finds entries under `tag`.
pub fn get_index_by_tag_impl(tag: String, data: &Data) -> (listed: Vec<Identity>)
    ensures
        identity_views(listed@) == data.business_state@.listed_under(tag@),
{
    data.business_state.get_index_by_tag(tag.as_str())
}

/// All shards, in the order in which they first reported.
pub fn get_all_indexes_impl(data: &Data) -> (buckets: Vec<Identity>)
    ensures
        identity_views(buckets@) == data.business_state@.shard_ids(),
{
    data.business_state.get_all_buckets()
}

/// The shards to which a writer should turn, in this order.
pub fn get_upload_order_impl(data: &Data) -> (order: Vec<Identity>)
    requires
        data.business_state@.wf(),
    ensures
        exists|picks: Seq<int>|
            is_upload_order(
                data.business_state@.shards,
                data.business_state@.strategy,
                picks,
                identity_views(order@),
            ),
{
    data.business_state.where_to_upload()
}

/// Adds `moderator` to the moderators and notes that the shards have yet to
/// hear of it.
pub fn add_content_moderator_impl(moderator: Identity, data: &mut Data)
    ensures
        final(data).business_state@ == (CoordinatorView {
            moderators: old(data).business_state@.moderators.push(moderator@),
            push_moderators: true,
            ..old(data).business_state@
        }),
        final(data).canister_settings == old(data).canister_settings,
{
    data.business_state.add_content_moderator(moderator);
    data.business_state.set_push_moderators(true);
}

} // verus!
