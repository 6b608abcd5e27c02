//! The coordinator's state: the summaries it knows, the tag map it builds of
//! them, the shards it plans, and the moderators it hands on.

use crate::identity::{
    anonymous_bytes, clone_identities, identity_views, principal_parse, principal_text, Identity,
};
use crate::index::management::{
    create_args_for, creates_for, install_args_for, installs_for, operator, operator_text,
    CanisterInstallSendArgs, CreateCanisterArgs,
};
use crate::index::placement::{
    is_upload_order, lemma_upload_order_sorted, rank_shards, ranks_no_later, summary_of,
};
use crate::index::Data;
use crate::index::shards::{
    check_distinct_ids, clone_records, distinct_ids, knows, lemma_total_free_slots_bound,
    place_of, record_views, total_free_slots, BucketRecord, ShardSummary,
};
use crate::index::tag_map::{
    distinct_tags, row_tags, row_views, rows_map, tag_map_of, TagRow, TagToCanisters,
};
use crate::summary::{EffectiveIndex, SummaryView};
use crate::TimestampMillis;
use vstd::prelude::*;

verus! {

/// How the shards are ranked for new writes.
#[derive(Clone, Copy, Debug, PartialEq, Eq, Structural)]
pub enum IndexingStrategy {
    /// The emptiest shard first.
    BalancedLoad,
    /// The fullest shard first.
    FillFirst,
}

impl Default for IndexingStrategy {
    fn default() -> (strategy: IndexingStrategy)
        ensures
            strategy == IndexingStrategy::BalancedLoad,
    {
        IndexingStrategy::BalancedLoad
    }
}

/// A shard that was brought up.
#[derive(Clone, Copy, Debug, Default, PartialEq, Eq, Structural)]
pub struct SpawnedBucketCanister {}

/// How a planned shard is to be set up.
#[derive(Clone, Copy, Debug, Default, PartialEq, Eq, Structural)]
pub struct BucketCanisterSettings {}

/// How far the provisioning of a planned shard has come.
#[derive(Clone, Copy, Debug, PartialEq, Eq, Structural)]
pub enum SpawnStatus {
    /// Nobody works on it.
    New,
    /// The attempt that drew this lock token works on it.
    InWork(u32),
    /// It runs; its capacity is counted through its own summaries from now on.
    Installed,
}

impl Default for SpawnStatus {
    fn default() -> (status: SpawnStatus)
        ensures
            status == SpawnStatus::New,
    {
        SpawnStatus::New
    }
}

/// The capacity of a planned shard unless told otherwise.
pub const DEFAULT_PLANNED_ENTRIES: u64 = 20;

/// A shard that the planner asked for.
#[derive(Clone, Copy, Debug, PartialEq, Eq, Structural)]
pub struct PlannedBucketCanister {
    pub canister_settings: BucketCanisterSettings,
    pub spawn_status: SpawnStatus,
    pub bucket_max_entries: u64,
}

impl Default for PlannedBucketCanister {
    fn default() -> (planned: PlannedBucketCanister)
        ensures
            planned == PlannedBucketCanister::fresh(),
    {
        PlannedBucketCanister {
            canister_settings: BucketCanisterSettings {  },
            spawn_status: SpawnStatus::New,
            bucket_max_entries: DEFAULT_PLANNED_ENTRIES,
        }
    }
}

impl PlannedBucketCanister {
    /// A planned shard as the planner enqueues it.
    pub open spec fn fresh() -> PlannedBucketCanister {
        PlannedBucketCanister {
            canister_settings: BucketCanisterSettings {  },
            spawn_status: SpawnStatus::New,
            bucket_max_entries: DEFAULT_PLANNED_ENTRIES,
        }
    }
}

/// The capacity that `planned` reserves: what its shards take at most, all
/// together.
pub open spec fn planned_slots(planned: Seq<PlannedBucketCanister>) -> nat
    decreases planned.len(),
{
    if planned.len() == 0 {
        0
    } else {
        planned_slots(planned.drop_last()) + planned.last().bucket_max_entries as nat
    }
}

/// The planned capacity stays below what a `u64` can count times the number
/// of planned shards.
pub proof fn lemma_planned_slots_bound(planned: Seq<PlannedBucketCanister>)
    ensures
        planned_slots(planned) <= planned.len() * u64::MAX,
    decreases planned.len(),
{
    if planned.len() > 0 {
        lemma_planned_slots_bound(planned.drop_last());
        assert((planned.len() - 1) * u64::MAX + u64::MAX == planned.len() * u64::MAX)
            by (nonlinear_arith);
    }
}

/// As many summands as a machine can hold, each within `u64`, add up within
/// `u128`.
proof fn lemma_sum_fits(count: int, sum: int, next: int)
    requires
        0 <= count < usize::MAX,
        0 <= sum <= count * u64::MAX,
        0 <= next <= u64::MAX,
    ensures
        sum + next <= (count + 1) * u64::MAX,
        sum + next <= u128::MAX,
{
    assert(usize::MAX <= u64::MAX);
    assert((count + 1) * u64::MAX == count * u64::MAX + u64::MAX) by (nonlinear_arith);
    assert((count + 1) * u64::MAX <= u64::MAX * u64::MAX) by (nonlinear_arith)
        requires
            0 <= count + 1 <= u64::MAX,
    ;
    assert(u64::MAX * u64::MAX <= u128::MAX) by (nonlinear_arith);
}

/// At most one planned shard is being provisioned.
pub open spec fn at_most_one_in_work(planned: Seq<PlannedBucketCanister>) -> bool {
    forall|i: int, j: int|
        0 <= i < j < planned.len() ==> !(planned[i].spawn_status is InWork
            && planned[j].spawn_status is InWork)
}

/// Whether one of `planned` is being provisioned.
pub open spec fn some_in_work(planned: Seq<PlannedBucketCanister>) -> bool {
    exists|i: int| 0 <= i < planned.len() && (#[trigger] planned[i]).spawn_status is InWork
}

/// A tag map and the time at which it was built, as mathematical values.
pub struct GlobalIndexView {
    pub tag_to_canisters: Map<Seq<char>, Seq<Seq<u8>>>,
    pub last_updated: TimestampMillis,
}

/// The tag map that readers are served from, and the time at which it was
/// built.
#[derive(Debug)]
pub struct GlobalIndex {
    pub tag_to_canisters: TagToCanisters,
    pub last_updated: TimestampMillis,
}

impl View for GlobalIndex {
    type V = GlobalIndexView;

    open spec fn view(&self) -> GlobalIndexView {
        GlobalIndexView {
            tag_to_canisters: self.tag_to_canisters@,
            last_updated: self.last_updated,
        }
    }
}

impl Clone for GlobalIndex {
    fn clone(&self) -> (copy: GlobalIndex)
        ensures
            copy@ == self@,
            copy.tag_to_canisters.tag_order() == self.tag_to_canisters.tag_order(),
    {
        GlobalIndex {
            tag_to_canisters: self.tag_to_canisters.clone(),
            last_updated: self.last_updated,
        }
    }
}

impl Default for GlobalIndex {
    fn default() -> (index: GlobalIndex)
        ensures
            index@ == GlobalIndex::default_view(),
            index.tag_to_canisters.tag_order() == Seq::<Seq<char>>::empty(),
    {
        GlobalIndex { tag_to_canisters: TagToCanisters::new(), last_updated: 0 }
    }
}

impl GlobalIndex {
    /// The index that `default` makes: no tags, never built.
    pub open spec fn default_view() -> GlobalIndexView {
        GlobalIndexView { tag_to_canisters: Map::empty(), last_updated: 0 }
    }
}

/// The coordinator's state as mathematical values: the shards and their
/// summaries in the order in which the shards first reported, the tag map,
/// the cached number of free slots, the planned shards in the order in which
/// they were planned, and the moderators with the flag that says that the
/// shards have yet to hear of them.
pub struct CoordinatorView {
    pub shards: Seq<ShardSummary>,
    pub spawned_buckets: Seq<SpawnedBucketCanister>,
    pub global_index: GlobalIndexView,
    pub free_slots: u128,
    pub planned: Seq<PlannedBucketCanister>,
    pub strategy: IndexingStrategy,
    pub moderators: Seq<Seq<u8>>,
    pub push_moderators: bool,
}

impl CoordinatorView {
    /// No shard is listed twice, the cache counts the free slots of the
    /// summaries, and at most one planned shard is being provisioned.
    pub open spec fn wf(self) -> bool {
        &&& distinct_ids(self.shards)
        &&& self.free_slots == total_free_slots(self.shards)
        &&& at_most_one_in_work(self.planned)
    }

    /// The shards after `id` reported `summary`: in place of its earlier
    /// summary, or at the end where `id` reports for the first time.
    pub open spec fn shards_with(self, id: Seq<u8>, summary: SummaryView) -> Seq<ShardSummary> {
        if knows(self.shards, id) {
            self.shards.update(place_of(self.shards, id), ShardSummary { id, summary })
        } else {
            self.shards.push(ShardSummary { id, summary })
        }
    }

    /// The state after `id` reported `summary`, with the free slots counted
    /// anew.
    pub open spec fn with_summary(self, id: Seq<u8>, summary: SummaryView) -> CoordinatorView {
        CoordinatorView {
            shards: self.shards_with(id, summary),
            free_slots: total_free_slots(self.shards_with(id, summary)) as u128,
            ..self
        }
    }

    /// The capacity that the planned shards reserve.
    pub open spec fn planned_slots(self) -> nat {
        planned_slots(self.planned)
    }

    /// The shards that the tag map lists for `tag`; none for a tag that it
    /// does not know.
    pub open spec fn listed_under(self, tag: Seq<char>) -> Seq<Seq<u8>> {
        if self.global_index.tag_to_canisters.contains_key(tag) {
            self.global_index.tag_to_canisters[tag]
        } else {
            Seq::empty()
        }
    }

    /// The shards, in the order in which they first reported.
    pub open spec fn shard_ids(self) -> Seq<Seq<u8>> {
        Seq::new(self.shards.len(), |i: int| self.shards[i].id)
    }
}

/// The state of the coordinator.
#[derive(Debug)]
pub struct BusinessState {
    bucket_indexes: Vec<BucketRecord>,
    spawned_buckets: Vec<SpawnedBucketCanister>,
    global_index: GlobalIndex,
    current_buckets_free_slots: u128,
    planned_buckets: Vec<PlannedBucketCanister>,
    indexing_strategy: IndexingStrategy,
    content_moderators: Vec<Identity>,
    push_moderators: bool,
}

impl View for BusinessState {
    type V = CoordinatorView;

    closed spec fn view(&self) -> CoordinatorView {
        CoordinatorView {
            shards: record_views(self.bucket_indexes@),
            spawned_buckets: self.spawned_buckets@,
            global_index: self.global_index@,
            free_slots: self.current_buckets_free_slots,
            planned: self.planned_buckets@,
            strategy: self.indexing_strategy,
            moderators: identity_views(self.content_moderators@),
            push_moderators: self.push_moderators,
        }
    }
}

/// All that the coordinator holds, laid open for safekeeping.
#[derive(Debug)]
pub struct CoordinatorSnapshot {
    pub bucket_indexes: Vec<BucketRecord>,
    pub spawned_buckets: Vec<SpawnedBucketCanister>,
    pub tag_to_canisters: Vec<TagRow>,
    pub last_updated: TimestampMillis,
    pub current_buckets_free_slots: u128,
    pub planned_buckets: Vec<PlannedBucketCanister>,
    pub indexing_strategy: IndexingStrategy,
    pub content_moderators: Vec<Identity>,
    pub push_moderators: bool,
}

impl View for CoordinatorSnapshot {
    type V = CoordinatorView;

    open spec fn view(&self) -> CoordinatorView {
        CoordinatorView {
            shards: record_views(self.bucket_indexes@),
            spawned_buckets: self.spawned_buckets@,
            global_index: GlobalIndexView {
                tag_to_canisters: rows_map(row_views(self.tag_to_canisters@)),
                last_updated: self.last_updated,
            },
            free_slots: self.current_buckets_free_slots,
            planned: self.planned_buckets@,
            strategy: self.indexing_strategy,
            moderators: identity_views(self.content_moderators@),
            push_moderators: self.push_moderators,
        }
    }
}

impl CoordinatorSnapshot {
    /// Whether the snapshot can have been taken of a coordinator: its state
    /// is well-formed, and no tag has two rows.
    pub open spec fn in_order(&self) -> bool {
        self@.wf() && distinct_tags(row_views(self.tag_to_canisters@))
    }
}

/// A copy of `planned`.
fn clone_planned(planned: &Vec<PlannedBucketCanister>) -> (copy: Vec<PlannedBucketCanister>)
    ensures
        copy@ == planned@,
{
    let mut copy: Vec<PlannedBucketCanister> = Vec::new();
    let mut i: usize = 0;
    while i < planned.len()
        invariant
            i <= planned@.len(),
            copy@ == planned@.subrange(0, i as int),
        decreases planned@.len() - i,
    {
        copy.push(planned[i]);
        i += 1;
    }
    assert(planned@.subrange(0, i as int) == planned@);
    copy
}

/// A copy of `spawned`.
fn clone_spawned(spawned: &Vec<SpawnedBucketCanister>) -> (copy: Vec<SpawnedBucketCanister>)
    ensures
        copy@ == spawned@,
{
    let mut copy: Vec<SpawnedBucketCanister> = Vec::new();
    let mut i: usize = 0;
    while i < spawned.len()
        invariant
            i <= spawned@.len(),
            copy@ == spawned@.subrange(0, i as int),
        decreases spawned@.len() - i,
    {
        copy.push(spawned[i]);
        i += 1;
    }
    assert(spawned@.subrange(0, i as int) == spawned@);
    copy
}

/// Whether at most one of `planned` is being provisioned.
fn check_one_in_work(planned: &Vec<PlannedBucketCanister>) -> (ok: bool)
    ensures
        ok == at_most_one_in_work(planned@),
{
    let mut seen: Option<usize> = None;
    let mut i: usize = 0;
    while i < planned.len()
        invariant
            i <= planned@.len(),
            seen matches Some(k) ==> k < i && planned@[k as int].spawn_status is InWork,
            forall|j: int|
                0 <= j < i && (#[trigger] planned@[j]).spawn_status is InWork ==> seen == Some(
                    j as usize,
                ),
        decreases planned@.len() - i,
    {
        match planned[i].spawn_status {
            SpawnStatus::InWork(_) => {
                match seen {
                    Some(k) => {
                        assert(planned@[k as int].spawn_status is InWork && planned@[i as int].spawn_status
                            is InWork);
                        return false;
                    },
                    None => {
                        seen = Some(i);
                    },
                }
            },
            _ => {},
        }
        i += 1;
    }
    assert forall|a: int, b: int| 0 <= a < b < planned@.len() implies !(planned@[a].spawn_status
        is InWork && planned@[b].spawn_status is InWork) by {
        if planned@[a].spawn_status is InWork && planned@[b].spawn_status is InWork {
            assert(seen == Some(a as usize));
            assert(seen == Some(b as usize));
        }
    }
    true
}

impl Default for BusinessState {
    fn default() -> (state: BusinessState)
        ensures
            state@ == BusinessState::default_view(),
            state.tag_order() == Seq::<Seq<char>>::empty(),
    {
        let state = BusinessState {
            bucket_indexes: Vec::new(),
            spawned_buckets: Vec::new(),
            global_index: GlobalIndex::default(),
            current_buckets_free_slots: 0,
            planned_buckets: Vec::new(),
            indexing_strategy: IndexingStrategy::BalancedLoad,
            content_moderators: Vec::new(),
            push_moderators: false,
        };
        assert(state@.shards =~= Seq::empty());
        assert(state@.moderators =~= Seq::empty());
        state
    }
}

impl BusinessState {
    /// The state that `default` makes: no shards, no tags, nothing planned,
    /// no moderators, and the emptiest shard first.
    pub open spec fn default_view() -> CoordinatorView {
        CoordinatorView {
            shards: Seq::empty(),
            spawned_buckets: Seq::empty(),
            global_index: GlobalIndex::default_view(),
            free_slots: 0,
            planned: Seq::empty(),
            strategy: IndexingStrategy::BalancedLoad,
            moderators: Seq::empty(),
            push_moderators: false,
        }
    }

    /// The tags of the tag map in the order in which it lists them.
    pub closed spec fn tag_order(&self) -> Seq<Seq<char>> {
        self.global_index.tag_to_canisters.tag_order()
    }

    /// All that the coordinator holds, for safekeeping.
    pub fn snapshot(&self) -> (snapshot: CoordinatorSnapshot)
        ensures
            snapshot@ == self@,
            distinct_tags(row_views(snapshot.tag_to_canisters@)),
            row_tags(row_views(snapshot.tag_to_canisters@)) == self.tag_order(),
    {
        CoordinatorSnapshot {
            bucket_indexes: clone_records(&self.bucket_indexes),
            spawned_buckets: clone_spawned(&self.spawned_buckets),
            tag_to_canisters: self.global_index.tag_to_canisters.to_rows(),
            last_updated: self.global_index.last_updated,
            current_buckets_free_slots: self.current_buckets_free_slots,
            planned_buckets: clone_planned(&self.planned_buckets),
            indexing_strategy: self.indexing_strategy,
            content_moderators: clone_identities(&self.content_moderators),
            push_moderators: self.push_moderators,
        }
    }

    /// The state that `snapshot` was taken of; `None` where `snapshot` is
    /// not in order and so was taken of no coordinator.
    pub fn restore(snapshot: CoordinatorSnapshot) -> (restored: Option<BusinessState>)
        ensures
            restored.is_some() == snapshot.in_order(),
            restored matches Some(state) ==> state@ == snapshot@ && state.tag_order() == row_tags(
                row_views(snapshot.tag_to_canisters@),
            ),
    {
        if !check_distinct_ids(&snapshot.bucket_indexes) {
            return None;
        }
        if !check_one_in_work(&snapshot.planned_buckets) {
            return None;
        }
        let tag_to_canisters = match TagToCanisters::from_rows(snapshot.tag_to_canisters) {
            Some(map) => map,
            None => {
                return None;
            },
        };
        let state = BusinessState {
            bucket_indexes: snapshot.bucket_indexes,
            spawned_buckets: snapshot.spawned_buckets,
            global_index: GlobalIndex { tag_to_canisters, last_updated: snapshot.last_updated },
            current_buckets_free_slots: snapshot.current_buckets_free_slots,
            planned_buckets: snapshot.planned_buckets,
            indexing_strategy: snapshot.indexing_strategy,
            content_moderators: snapshot.content_moderators,
            push_moderators: snapshot.push_moderators,
        };
        if state.calculate_free_slots() != state.current_buckets_free_slots {
            return None;
        }
        Some(state)
    }

    /// The place of `canister_id` among the shards, if it is known.
    fn find_bucket(&self, canister_id: &Identity) -> (found: Option<usize>)
        requires
            distinct_ids(self@.shards),
        ensures
            found.is_some() == knows(self@.shards, canister_id@),
            found matches Some(i) ==> i == place_of(self@.shards, canister_id@),
    {
        let mut i: usize = 0;
        while i < self.bucket_indexes.len()
            invariant
                i <= self.bucket_indexes@.len(),
                distinct_ids(self@.shards),
                forall|j: int| 0 <= j < i ==> (#[trigger] self@.shards[j]).id != canister_id@,
            decreases self.bucket_indexes@.len() - i,
        {
            if self.bucket_indexes[i].canister_id.same_as(canister_id) {
                assert(self@.shards[i as int].id == canister_id@);
                return Some(i);
            }
            i += 1;
        }
        None
    }

    /// Sets how the shards are ranked for new writes.
    pub fn set_indexing_strategy(&mut self, strategy: IndexingStrategy)
        ensures
            final(self)@ == (CoordinatorView { strategy, ..old(self)@ }),
            final(self).tag_order() == old(self).tag_order(),
    {
        self.indexing_strategy = strategy;
    }

    /// Takes in the summary of `canister_id`, in place of its earlier one if
    /// it had one, and counts the free slots anew.
    pub fn add_bucket_index(&mut self, canister_id: Identity, effective_index: EffectiveIndex)
        requires
            old(self)@.wf(),
        ensures
            final(self)@ == old(self)@.with_summary(canister_id@, effective_index@),
            final(self)@.wf(),
            final(self).tag_order() == old(self).tag_order(),
    {
        let ghost before = self@;
        match self.find_bucket(&canister_id) {
            Some(i) => {
                self.bucket_indexes[i] = BucketRecord { canister_id, effective_index };
            },
            None => {
                self.bucket_indexes.push(BucketRecord { canister_id, effective_index });
            },
        }
        assert(self@.shards =~= before.shards_with(canister_id@, effective_index@));
        self.update_free_slots();
    }

    /// Notes that a shard was brought up.
    pub fn add_spawned_bucket(&mut self, spawned_bucket: SpawnedBucketCanister)
        ensures
            final(self)@ == (CoordinatorView {
                spawned_buckets: old(self)@.spawned_buckets.push(spawned_bucket),
                ..old(self)@
            }),
            final(self).tag_order() == old(self).tag_order(),
    {
        self.spawned_buckets.push(spawned_bucket);
    }

    /// The tag map that inverts the summaries known now.
    pub fn generate_index_tag_to_canisters(&self) -> (map: TagToCanisters)
        ensures
            map@ == tag_map_of(self@.shards),
    {
        TagToCanisters::invert(&self.bucket_indexes)
    }

    /// The shards that the tag map lists for `tag`.
    pub fn get_index_by_tag(&self, tag: &str) -> (listed: Vec<Identity>)
        ensures
            identity_views(listed@) == self@.listed_under(tag@),
    {
        match self.global_index.tag_to_canisters.get(tag) {
            Some(canisters) => clone_identities(canisters),
            None => {
                let listed: Vec<Identity> = Vec::new();
                assert(identity_views(listed@) =~= Seq::<Seq<u8>>::empty());
                listed
            },
        }
    }

    /// All shards, in the order in which they first reported.
    pub fn get_all_buckets(&self) -> (buckets: Vec<Identity>)
        ensures
            identity_views(buckets@) == self@.shard_ids(),
    {
        let mut buckets: Vec<Identity> = Vec::new();
        let mut i: usize = 0;
        while i < self.bucket_indexes.len()
            invariant
                i <= self.bucket_indexes@.len(),
                buckets@.len() == i,
                forall|j: int| 0 <= j < i ==> buckets@[j]@ == self@.shards[j].id,
            decreases self.bucket_indexes@.len() - i,
        {
            buckets.push(self.bucket_indexes[i].canister_id.clone());
            i += 1;
        }
        assert(identity_views(buckets@) =~= self@.shard_ids());
        buckets
    }

    /// A copy of the tag map and of the time at which it was built.
    pub fn get_global_index(&self) -> (index: GlobalIndex)
        ensures
            index@ == self@.global_index,
            index.tag_to_canisters.tag_order() == self.tag_order(),
    {
        self.global_index.clone()
    }

    /// The entries that the shards can still take, counted from their
    /// summaries.
    pub fn calculate_free_slots(&self) -> (free_slots: u128)
        ensures
            free_slots == total_free_slots(self@.shards),
    {
        let ghost shards = self@.shards;
        let mut free_slots: u128 = 0;
        let mut i: usize = 0;
        assert(shards.subrange(0, 0) =~= Seq::empty());
        while i < self.bucket_indexes.len()
            invariant
                i <= self.bucket_indexes@.len(),
                shards == self@.shards,
                free_slots == total_free_slots(shards.subrange(0, i as int)),
            decreases self.bucket_indexes@.len() - i,
        {
            let index = &self.bucket_indexes[i].effective_index;
            let free: u64 = if index.current_entries <= index.bucket_max_entries {
                index.bucket_max_entries - index.current_entries
            } else {
                0
            };
            proof {
                assert(shards.subrange(0, i + 1).drop_last() =~= shards.subrange(0, i as int));
                assert(free == shards[i as int].summary.free_slots());
                lemma_total_free_slots_bound(shards.subrange(0, i as int));
                lemma_sum_fits(i as int, free_slots as int, free as int);
            }
            free_slots = free_slots + free as u128;
            i += 1;
        }
        assert(shards.subrange(0, i as int) =~= shards);
        free_slots
    }

    /// Counts the free slots anew and keeps the count.
    pub fn update_free_slots(&mut self)
        ensures
            final(self)@ == (CoordinatorView {
                free_slots: total_free_slots(old(self)@.shards) as u128,
                ..old(self)@
            }),
            final(self)@.free_slots == total_free_slots(old(self)@.shards),
            final(self).tag_order() == old(self).tag_order(),
    {
        self.current_buckets_free_slots = self.calculate_free_slots()
    }

    /// The free slots as last counted.
    pub fn get_free_slots(&self) -> (free_slots: u128)
        ensures
            free_slots == self@.free_slots,
    {
        self.current_buckets_free_slots
    }

    /// The capacity that the planned shards reserve.
    pub fn get_planned_slots(&self) -> (slots: u128)
        ensures
            slots == self@.planned_slots(),
    {
        let ghost planned = self@.planned;
        let mut slots: u128 = 0;
        let mut i: usize = 0;
        assert(planned.subrange(0, 0) =~= Seq::empty());
        while i < self.planned_buckets.len()
            invariant
                i <= self.planned_buckets@.len(),
                planned == self.planned_buckets@,
                slots == planned_slots(planned.subrange(0, i as int)),
            decreases self.planned_buckets@.len() - i,
        {
            let reserved: u64 = self.planned_buckets[i].bucket_max_entries;
            proof {
                assert(planned.subrange(0, i + 1).drop_last() =~= planned.subrange(0, i as int));
                lemma_planned_slots_bound(planned.subrange(0, i as int));
                lemma_sum_fits(i as int, slots as int, reserved as int);
            }
            slots = slots + reserved as u128;
            i += 1;
        }
        assert(planned.subrange(0, i as int) =~= planned);
        slots
    }

    /// Plans one more shard of the default capacity.
    pub fn add_planned_bucket(&mut self)
        requires
            old(self)@.wf(),
        ensures
            final(self)@ == (CoordinatorView {
                planned: old(self)@.planned.push(PlannedBucketCanister::fresh()),
                ..old(self)@
            }),
            final(self)@.wf(),
            final(self).tag_order() == old(self).tag_order(),
    {
        let bucket = PlannedBucketCanister::default();
        self.planned_buckets.push(bucket);
    }

    /// Adds `moderator` to the moderators.
    pub fn add_content_moderator(&mut self, moderator: Identity)
        ensures
            final(self)@ == (CoordinatorView {
                moderators: old(self)@.moderators.push(moderator@),
                ..old(self)@
            }),
            final(self).tag_order() == old(self).tag_order(),
    {
        self.content_moderators.push(moderator);
        assert(self@.moderators =~= old(self)@.moderators.push(moderator@));
    }

    /// The moderators.
    pub fn get_content_moderators(&self) -> (moderators: Vec<Identity>)
        ensures
            identity_views(moderators@) == self@.moderators,
    {
        clone_identities(&self.content_moderators)
    }

    /// The shards that have room, in the order in which writers should turn
    /// to them: by load as the strategy asks, shards of equal load in the
    /// order in which they first reported.
    pub fn where_to_upload(&self) -> (order: Vec<Identity>)
        requires
            self@.wf(),
        ensures
            exists|picks: Seq<int>|
                is_upload_order(self@.shards, self@.strategy, picks, identity_views(order@)),
            forall|k: int, l: int|
                0 <= k < l < order@.len() ==> ranks_no_later(
                    self@.strategy,
                    summary_of(self@.shards, #[trigger] identity_views(order@)[k]),
                    summary_of(self@.shards, #[trigger] identity_views(order@)[l]),
                ),
    {
        let order = rank_shards(&self.bucket_indexes, self.indexing_strategy);
        proof {
            let picks = choose|picks: Seq<int>|
                is_upload_order(self@.shards, self@.strategy, picks, identity_views(order@));
            lemma_upload_order_sorted(self@.shards, self@.strategy, picks, identity_views(order@));
        }
        order
    }

    /// The tag map as a table of texts: one row for each tag, in the order of
    /// `tag_order`, holding the tag and then the textual form of each shard
    /// that the map lists for it.
    pub fn get_index_tag2can_as_vec(&self) -> (table: Vec<Vec<String>>)
        ensures
            table@.len() == self.tag_order().len(),
            forall|i: int|
                0 <= i < table@.len() ==> {
                    let tag = #[trigger] self.tag_order()[i];
                    &&& self@.global_index.tag_to_canisters.contains_key(tag)
                    &&& table@[i]@.len() == 1 + self@.listed_under(tag).len()
                    &&& table@[i]@[0]@ == tag
                    &&& forall|k: int|
                        0 <= k < self@.listed_under(tag).len() ==> (#[trigger] table@[i]@[1 + k])@
                            == principal_text(self@.listed_under(tag)[k])
                },
            forall|i: int, j: int|
                0 <= i < j < self.tag_order().len() ==> self.tag_order()[i] != self.tag_order()[j],
            forall|tag: Seq<char>|
                self@.global_index.tag_to_canisters.contains_key(tag) ==> self.tag_order().contains(
                    tag,
                ),
    {
        self.global_index.tag_to_canisters.as_text_rows()
    }

    /// The shards that were noted as brought up.
    pub fn get_spawned_buckets(&self) -> (spawned: Vec<SpawnedBucketCanister>)
        ensures
            spawned@ == self@.spawned_buckets,
    {
        clone_spawned(&self.spawned_buckets)
    }

    /// The planned shards, in the order in which they were planned.
    pub fn get_planned_buckets(&self) -> (planned: Vec<PlannedBucketCanister>)
        ensures
            planned@ == self@.planned,
    {
        clone_planned(&self.planned_buckets)
    }

    /// Whether the shards have yet to hear of the moderators.
    pub fn get_push_moderators(&self) -> (flag: bool)
        ensures
            flag == self@.push_moderators,
    {
        self.push_moderators
    }

    /// Notes whether the shards have yet to hear of the moderators.
    pub fn set_push_moderators(&mut self, flag: bool)
        ensures
            final(self)@ == (CoordinatorView { push_moderators: flag, ..old(self)@ }),
            final(self).tag_order() == old(self).tag_order(),
    {
        self.push_moderators = flag;
    }
}

/// Whether at `now` a tag map is due again that was last built at `last`.
pub open spec fn rebuild_due(
    now: TimestampMillis,
    last: TimestampMillis,
    interval: TimestampMillis,
) -> bool {
    now - last > interval
}

/// Builds the tag map anew from the summaries if that is due at `now`, and
/// says whether it did.
pub fn reindex_tag_to_canisters(data: &mut Data, now: TimestampMillis) -> (rebuilt: bool)
    ensures
        rebuilt == rebuild_due(
            now,
            old(data).business_state@.global_index.last_updated,
            old(data).canister_settings.reindex_interval,
        ),
        rebuilt ==> final(data).business_state@ == (CoordinatorView {
            global_index: GlobalIndexView {
                tag_to_canisters: tag_map_of(old(data).business_state@.shards),
                last_updated: now,
            },
            ..old(data).business_state@
        }),
        !rebuilt ==> final(data).business_state@ == old(data).business_state@,
        !rebuilt ==> final(data).business_state.tag_order() == old(data).business_state.tag_order(),
        final(data).canister_settings == old(data).canister_settings,
{
    let last = data.business_state.global_index.last_updated;
    if now > last && now - last > data.canister_settings.reindex_interval {
        let tag_to_canisters = data.business_state.generate_index_tag_to_canisters();
        data.business_state.global_index = GlobalIndex { tag_to_canisters, last_updated: now };
        true
    } else {
        false
    }
}

/// Whether the free slots and the capacity that is already planned fall
/// short of `desired_free_slots`.
pub open spec fn capacity_short(state: CoordinatorView, desired_free_slots: u128) -> bool {
    state.planned_slots() + state.free_slots < desired_free_slots
}

/// Whether a new shard has to be planned: the capacity that is planned
/// already counts as if it were there.
pub fn should_spawn_buckets(data: &Data) -> (short: bool)
    ensures
        short == capacity_short(data.business_state@, data.canister_settings.desired_free_slots),
{
    let desired = data.canister_settings.desired_free_slots;
    let planned = data.business_state.get_planned_slots();
    let free = data.business_state.get_free_slots();
    planned < desired && free < desired - planned
}

/// Whether a planned shard can be claimed: none is being provisioned, and
/// one waits.
pub open spec fn claimable(planned: Seq<PlannedBucketCanister>) -> bool {
    !some_in_work(planned) && exists|i: int|
        0 <= i < planned.len() && (#[trigger] planned[i]).spawn_status == SpawnStatus::New
}

/// The place of the first planned shard that waits.
pub open spec fn first_new(planned: Seq<PlannedBucketCanister>) -> int {
    choose|i: int|
        0 <= i < planned.len() && (#[trigger] planned[i]).spawn_status == SpawnStatus::New
            && forall|j: int| 0 <= j < i ==> (#[trigger] planned[j]).spawn_status != SpawnStatus::New
}

/// The planned shards after the first that waits was claimed under `lock`.
pub open spec fn claimed(planned: Seq<PlannedBucketCanister>, lock: u32) -> Seq<
    PlannedBucketCanister,
> {
    planned.update(
        first_new(planned),
        PlannedBucketCanister {
            spawn_status: SpawnStatus::InWork(lock),
            ..planned[first_new(planned)]
        },
    )
}

/// A planned shard after the attempt that drew `lock` ended: installed and
/// without reserved capacity, or waiting again, if that attempt worked on it;
/// as before otherwise.
pub open spec fn resolved(
    planned: PlannedBucketCanister,
    lock: u32,
    installed: bool,
) -> PlannedBucketCanister {
    if planned.spawn_status == SpawnStatus::InWork(lock) {
        if installed {
            PlannedBucketCanister {
                spawn_status: SpawnStatus::Installed,
                bucket_max_entries: 0,
                ..planned
            }
        } else {
            PlannedBucketCanister { spawn_status: SpawnStatus::New, ..planned }
        }
    } else {
        planned
    }
}

/// The planned shards after the attempt that drew `lock` ended.
pub open spec fn all_resolved(
    planned: Seq<PlannedBucketCanister>,
    lock: u32,
    installed: bool,
) -> Seq<PlannedBucketCanister> {
    Seq::new(planned.len(), |i: int| resolved(planned[i], lock, installed))
}

/// The end of an attempt puts no planned shard into work.
proof fn lemma_resolved_keeps_one_in_work(
    planned: Seq<PlannedBucketCanister>,
    lock: u32,
    installed: bool,
)
    requires
        at_most_one_in_work(planned),
    ensures
        at_most_one_in_work(all_resolved(planned, lock, installed)),
{
    let after = all_resolved(planned, lock, installed);
    assert forall|a: int, b: int| 0 <= a < b < after.len() implies !(after[a].spawn_status
        is InWork && after[b].spawn_status is InWork) by {
        assert(after[a].spawn_status is InWork ==> planned[a].spawn_status is InWork);
        assert(after[b].spawn_status is InWork ==> planned[b].spawn_status is InWork);
    }
}

/// Where a planned shard waits, there is a first one that does.
proof fn lemma_first_new(planned: Seq<PlannedBucketCanister>, i: int)
    requires
        0 <= i < planned.len(),
        planned[i].spawn_status == SpawnStatus::New,
    ensures
        0 <= first_new(planned) <= i,
        planned[first_new(planned)].spawn_status == SpawnStatus::New,
        forall|j: int|
            0 <= j < first_new(planned) ==> (#[trigger] planned[j]).spawn_status
                != SpawnStatus::New,
    decreases i,
{
    if exists|j: int| 0 <= j < i && (#[trigger] planned[j]).spawn_status == SpawnStatus::New {
        let j = choose|j: int|
            0 <= j < i && (#[trigger] planned[j]).spawn_status == SpawnStatus::New;
        lemma_first_new(planned, j);
    } else {
        assert(forall|j: int| 0 <= j < i ==> (#[trigger] planned[j]).spawn_status != SpawnStatus::New);
        let k = first_new(planned);
        if k > i {
            assert(planned[i].spawn_status == SpawnStatus::New);
        }
    }
}

/// A claim that is made while no planned shard is in work leaves one in
/// work.
proof fn lemma_claimed_keeps_one_in_work(planned: Seq<PlannedBucketCanister>, lock: u32)
    requires
        claimable(planned),
    ensures
        at_most_one_in_work(claimed(planned, lock)),
{
    let after = claimed(planned, lock);
    let k = first_new(planned);
    let waiting = choose|i: int|
        0 <= i < planned.len() && (#[trigger] planned[i]).spawn_status == SpawnStatus::New;
    lemma_first_new(planned, waiting);
    assert forall|a: int, b: int| 0 <= a < b < after.len() implies !(after[a].spawn_status
        is InWork && after[b].spawn_status is InWork) by {
        if a != k {
            assert(!(planned[a].spawn_status is InWork));
        }
        if b != k {
            assert(!(planned[b].spawn_status is InWork));
        }
    }
}

/// A claim is made only while no planned shard is being provisioned, so that
/// afterwards one is; and the end of an attempt puts none into work. The
/// steps of provisioning therefore keep it true that at most one planned
/// shard is being provisioned.
pub proof fn lemma_one_in_work_at_most(
    pre: CoordinatorView,
    event: SpawnEvent,
    post: CoordinatorView,
    action: SpawnAction,
)
    requires
        at_most_one_in_work(pre.planned),
        spawn_step(pre, event, post, action),
    ensures
        at_most_one_in_work(post.planned),
{
    match event {
        SpawnEvent::Tick { lock, controller_id } => {
            if claimable(pre.planned) {
                lemma_claimed_keeps_one_in_work(pre.planned, lock);
            }
        },
        SpawnEvent::Created { lock, canister_id } => {
            lemma_resolved_keeps_one_in_work(pre.planned, lock, false);
        },
        SpawnEvent::InstallFinished { lock, installed } => {
            lemma_resolved_keeps_one_in_work(pre.planned, lock, installed);
        },
    }
}

/// Claims the first planned shard that waits under `lock`, unless a planned
/// shard is being provisioned already, and returns the lock if it did.
pub fn prep_lock_bucket(state: &mut BusinessState, lock: u32) -> (claim: Option<u32>)
    requires
        old(state)@.wf(),
    ensures
        claim == if claimable(old(state)@.planned) {
            Some(lock)
        } else {
            None
        },
        final(state)@ == if claimable(old(state)@.planned) {
            CoordinatorView { planned: claimed(old(state)@.planned, lock), ..old(state)@ }
        } else {
            old(state)@
        },
        final(state)@.wf(),
        final(state).tag_order() == old(state).tag_order(),
{
    let ghost planned = state@.planned;
    let mut i: usize = 0;
    while i < state.planned_buckets.len()
        invariant
            i <= state.planned_buckets@.len(),
            planned == state.planned_buckets@,
            state@ == old(state)@,
            state.tag_order() == old(state).tag_order(),
            old(state)@.wf(),
            forall|j: int| 0 <= j < i ==> !((#[trigger] planned[j]).spawn_status is InWork),
        decreases state.planned_buckets@.len() - i,
    {
        match state.planned_buckets[i].spawn_status {
            SpawnStatus::InWork(_) => {
                assert(planned[i as int].spawn_status is InWork);
                return None;
            },
            _ => {},
        }
        i += 1;
    }
    let mut k: usize = 0;
    while k < state.planned_buckets.len()
        invariant
            k <= state.planned_buckets@.len(),
            planned == state.planned_buckets@,
            state@ == old(state)@,
            state.tag_order() == old(state).tag_order(),
            old(state)@.wf(),
            !some_in_work(planned),
            forall|j: int| 0 <= j < k ==> (#[trigger] planned[j]).spawn_status != SpawnStatus::New,
        decreases state.planned_buckets@.len() - k,
    {
        match state.planned_buckets[k].spawn_status {
            SpawnStatus::New => {
                assert(planned[k as int].spawn_status == SpawnStatus::New);
                assert(first_new(planned) == k);
                let bucket = state.planned_buckets[k];
                state.planned_buckets[k] = PlannedBucketCanister {
                    spawn_status: SpawnStatus::InWork(lock),
                    ..bucket
                };
                assert(state@.planned =~= claimed(planned, lock));
                proof {
                    lemma_claimed_keeps_one_in_work(planned, lock);
                }
                return Some(lock);
            },
            _ => {},
        }
        k += 1;
    }
    None
}

/// Records how the attempt that drew `lock` ended: the planned shard that it
/// worked on is installed and reserves nothing any more, or waits again.
pub fn update_planned_bucket(installed: bool, planned_bucket_lock: u32, state: &mut BusinessState)
    requires
        old(state)@.wf(),
    ensures
        final(state)@ == (CoordinatorView {
            planned: all_resolved(old(state)@.planned, planned_bucket_lock, installed),
            ..old(state)@
        }),
        final(state)@.wf(),
        final(state).tag_order() == old(state).tag_order(),
{
    let ghost planned = state@.planned;
    let mut i: usize = 0;
    while i < state.planned_buckets.len()
        invariant
            i <= state.planned_buckets@.len(),
            state.planned_buckets@.len() == planned.len(),
            state@ == (CoordinatorView { planned: state.planned_buckets@, ..old(state)@ }),
            state.tag_order() == old(state).tag_order(),
            forall|j: int|
                0 <= j < i ==> state.planned_buckets@[j] == resolved(
                    #[trigger] planned[j],
                    planned_bucket_lock,
                    installed,
                ),
            forall|j: int| i <= j < planned.len() ==> state.planned_buckets@[j] == planned[j],
        decreases state.planned_buckets@.len() - i,
    {
        let bucket = state.planned_buckets[i];
        match bucket.spawn_status {
            SpawnStatus::InWork(lock) => {
                if lock == planned_bucket_lock {
                    if installed {
                        state.planned_buckets[i] = PlannedBucketCanister {
                            spawn_status: SpawnStatus::Installed,
                            bucket_max_entries: 0,
                            ..bucket
                        };
                    } else {
                        state.planned_buckets[i] = PlannedBucketCanister {
                            spawn_status: SpawnStatus::New,
                            ..bucket
                        };
                    }
                }
            },
            _ => {},
        }
        i += 1;
    }
    proof {
        let after = all_resolved(planned, planned_bucket_lock, installed);
        assert(state.planned_buckets@ =~= after);
        lemma_resolved_keeps_one_in_work(planned, planned_bucket_lock, installed);
    }
}

/// What happens to the provisioning of planned shards.
#[derive(Debug)]
pub enum SpawnEvent {
    /// The host ticked; it drew `lock`, and the coordinator runs as
    /// `controller_id`.
    Tick { lock: u32, controller_id: Identity },
    /// The host answered the request to create an instance for the attempt
    /// that drew `lock`: with the new instance, or with the anonymous
    /// identity where it could not create one.
    Created { lock: u32, canister_id: Identity },
    /// The host answered the request to install the shard's program for the
    /// attempt that drew `lock`.
    InstallFinished { lock: u32, installed: bool },
}

/// What the host has to do next for the provisioning of planned shards.
#[derive(Debug)]
pub enum SpawnAction {
    /// Nothing.
    Nothing,
    /// Create an instance, and come back with `Created`.
    Create { lock: u32, args: CreateCanisterArgs },
    /// Install the shard's program in `canister_id`, and come back with
    /// `InstallFinished`.
    Install { lock: u32, canister_id: Identity, arg: CanisterInstallSendArgs },
}

/// Whether `event` takes the coordinator from `pre` to `post` with `action`
/// for the host.
///
/// A tick claims the first planned shard that waits, if none is being
/// provisioned, and asks for an instance. An instance that was created is to
/// be installed; a creation that failed lets the planned shard wait again. The
/// end of an installation resolves the planned shard.
pub open spec fn spawn_step(
    pre: CoordinatorView,
    event: SpawnEvent,
    post: CoordinatorView,
    action: SpawnAction,
) -> bool {
    let operator = principal_parse(operator_text());
    match event {
        SpawnEvent::Tick { lock, controller_id } => {
            if operator.is_some() && claimable(pre.planned) {
                &&& post == (CoordinatorView { planned: claimed(pre.planned, lock), ..pre })
                &&& action matches SpawnAction::Create { lock: attempt, args }
                &&& attempt == lock
                &&& creates_for(args, controller_id@, operator.unwrap())
            } else {
                post == pre && action is Nothing
            }
        },
        SpawnEvent::Created { lock, canister_id } => {
            if operator.is_some() && canister_id@ != anonymous_bytes() {
                &&& post == pre
                &&& action matches SpawnAction::Install { lock: attempt, canister_id: target, arg }
                &&& attempt == lock
                &&& target@ == canister_id@
                &&& installs_for(arg, operator.unwrap())
            } else {
                &&& post == (CoordinatorView {
                    planned: all_resolved(pre.planned, lock, false),
                    ..pre
                })
                &&& action is Nothing
            }
        },
        SpawnEvent::InstallFinished { lock, installed } => {
            &&& post == (CoordinatorView {
                planned: all_resolved(pre.planned, lock, installed),
                ..pre
            })
            &&& action is Nothing
        },
    }
}

/// Advances the provisioning of planned shards by `event`, and says what the
/// host has to do next.
pub fn spawn_bucket_loop(state: &mut BusinessState, event: SpawnEvent) -> (action: SpawnAction)
    requires
        old(state)@.wf(),
    ensures
        spawn_step(old(state)@, event, final(state)@, action),
        final(state)@.wf(),
        final(state).tag_order() == old(state).tag_order(),
{
    match event {
        SpawnEvent::Tick { lock, controller_id } => {
            match operator() {
                Some(operator) => {
                    match prep_lock_bucket(state, lock) {
                        Some(attempt) => SpawnAction::Create {
                            lock: attempt,
                            args: create_args_for(controller_id, operator),
                        },
                        None => SpawnAction::Nothing,
                    }
                },
                None => SpawnAction::Nothing,
            }
        },
        SpawnEvent::Created { lock, canister_id } => {
            if canister_id.is_anonymous() {
                update_planned_bucket(false, lock, state);
                SpawnAction::Nothing
            } else {
                match operator() {
                    Some(operator) => SpawnAction::Install {
                        lock,
                        canister_id,
                        arg: install_args_for(operator),
                    },
                    None => {
                        update_planned_bucket(false, lock, state);
                        SpawnAction::Nothing
                    },
                }
            }
        },
        SpawnEvent::InstallFinished { lock, installed } => {
            update_planned_bucket(installed, lock, state);
            SpawnAction::Nothing
        },
    }
}

/// The shards and the moderators that they are to hear of.
pub fn prep_push_moderators(state: &BusinessState) -> (prep: (Vec<Identity>, Vec<Identity>))
    ensures
        identity_views(prep.0@) == state@.shard_ids(),
        identity_views(prep.1@) == state@.moderators,
{
    (state.get_all_buckets(), state.get_content_moderators())
}

/// The pushes that are due: the shards and the moderators that each of them
/// is to hear of, if the shards have yet to hear of the moderators.
pub fn push_moderators(state: &BusinessState) -> (due: Option<(Vec<Identity>, Vec<Identity>)>)
    ensures
        due.is_some() == state@.push_moderators,
        due matches Some(prep) ==> identity_views(prep.0@) == state@.shard_ids()
            && identity_views(prep.1@) == state@.moderators,
{
    if state.push_moderators {
        Some(prep_push_moderators(state))
    } else {
        None
    }
}

/// Notes that the moderators were pushed to the shards, whether or not each
/// push arrived.
pub fn moderators_pushed(state: &mut BusinessState)
    ensures
        final(state)@ == (CoordinatorView { push_moderators: false, ..old(state)@ }),
        final(state).tag_order() == old(state).tag_order(),
{
    state.push_moderators = false;
}

} // verus!
