//! The summaries that the coordinator knows, one for each shard that ever
//! reported, in the order in which the shards first reported.

use crate::identity::Identity;
use crate::summary::{EffectiveIndex, SummaryView};
use crate::seq_lemmas::lemma_filter_step;
use vstd::prelude::*;

verus! {

/// A shard and its last summary, as mathematical values.
pub struct ShardSummary {
    pub id: Seq<u8>,
    pub summary: SummaryView,
}

impl ShardSummary {
    /// Whether the shard says that it holds entries under `tag`.
    pub open spec fn advertises(self, tag: Seq<char>) -> bool {
        self.summary.tags.contains(tag)
    }
}

/// A shard and its last summary.
#[derive(Debug)]
pub struct BucketRecord {
    pub canister_id: Identity,
    pub effective_index: EffectiveIndex,
}

impl View for BucketRecord {
    type V = ShardSummary;

    open spec fn view(&self) -> ShardSummary {
        ShardSummary { id: self.canister_id@, summary: self.effective_index@ }
    }
}

/// The views of `records`, in order.
pub open spec fn record_views(records: Seq<BucketRecord>) -> Seq<ShardSummary> {
    Seq::new(records.len(), |i: int| records[i]@)
}

/// A copy of `records`.
pub fn clone_records(records: &Vec<BucketRecord>) -> (copy: Vec<BucketRecord>)
    ensures
        record_views(copy@) == record_views(records@),
{
    let mut copy: Vec<BucketRecord> = Vec::new();
    let mut i: usize = 0;
    while i < records.len()
        invariant
            i <= records@.len(),
            copy@.len() == i,
            forall|j: int| 0 <= j < i ==> copy@[j]@ == records@[j]@,
        decreases records@.len() - i,
    {
        copy.push(
            BucketRecord {
                canister_id: records[i].canister_id.clone(),
                effective_index: records[i].effective_index.clone(),
            },
        );
        i += 1;
    }
    assert(record_views(copy@) =~= record_views(records@));
    copy
}

/// Whether no shard is listed twice in `records`.
pub fn check_distinct_ids(records: &Vec<BucketRecord>) -> (ok: bool)
    ensures
        ok == distinct_ids(record_views(records@)),
{
    let ghost shards = record_views(records@);
    let mut i: usize = 0;
    while i < records.len()
        invariant
            i <= records@.len(),
            shards == record_views(records@),
            forall|a: int, b: int| 0 <= a < b < i ==> shards[a].id != shards[b].id,
        decreases records@.len() - i,
    {
        let mut j: usize = 0;
        while j < i
            invariant
                j <= i < records@.len(),
                shards == record_views(records@),
                forall|a: int| 0 <= a < j ==> shards[a].id != shards[i as int].id,
            decreases i - j,
        {
            if records[j].canister_id.same_as(&records[i].canister_id) {
                assert(shards[j as int].id == shards[i as int].id);
                return false;
            }
            j += 1;
        }
        i += 1;
    }
    true
}

/// The test that picks out the shards that advertise `tag`.
pub open spec fn advertising(tag: Seq<char>) -> spec_fn(ShardSummary) -> bool {
    |shard: ShardSummary| shard.advertises(tag)
}

/// Whether one of `shards` advertises `tag`.
pub open spec fn advertised(shards: Seq<ShardSummary>, tag: Seq<char>) -> bool {
    exists|j: int| 0 <= j < shards.len() && (#[trigger] shards[j]).advertises(tag)
}

/// The shards among `shards` that advertise `tag`, in order.
pub open spec fn advertisers(shards: Seq<ShardSummary>, tag: Seq<char>) -> Seq<Seq<u8>> {
    shards.filter(advertising(tag)).map_values(|shard: ShardSummary| shard.id)
}

/// No shard is listed twice.
pub open spec fn distinct_ids(shards: Seq<ShardSummary>) -> bool {
    forall|i: int, j: int| 0 <= i < j < shards.len() ==> shards[i].id != shards[j].id
}

/// Whether `id` is one of `shards`.
pub open spec fn knows(shards: Seq<ShardSummary>, id: Seq<u8>) -> bool {
    exists|j: int| 0 <= j < shards.len() && (#[trigger] shards[j]).id == id
}

/// The place of `id` among `shards`, where `id` is known.
pub open spec fn place_of(shards: Seq<ShardSummary>, id: Seq<u8>) -> int {
    choose|j: int| 0 <= j < shards.len() && (#[trigger] shards[j]).id == id
}

/// The entries that `shards` can still take, all together.
pub open spec fn total_free_slots(shards: Seq<ShardSummary>) -> nat
    decreases shards.len(),
{
    if shards.len() == 0 {
        0
    } else {
        total_free_slots(shards.drop_last()) + shards.last().summary.free_slots()
    }
}

/// Each shard has fewer free slots than a `u64` can count, so all of them
/// together stay below that bound times their number.
pub proof fn lemma_total_free_slots_bound(shards: Seq<ShardSummary>)
    ensures
        total_free_slots(shards) <= shards.len() * u64::MAX,
    decreases shards.len(),
{
    if shards.len() > 0 {
        lemma_total_free_slots_bound(shards.drop_last());
        assert((shards.len() - 1) * u64::MAX + u64::MAX == shards.len() * u64::MAX)
            by (nonlinear_arith);
    }
}

/// With one shard more, the advertisers of a tag are those of before, and
/// that shard at the end if it advertises the tag.
pub proof fn lemma_advertisers_step(shards: Seq<ShardSummary>, a: int, tag: Seq<char>)
    requires
        0 <= a < shards.len(),
    ensures
        advertisers(shards.subrange(0, a + 1), tag) == if shards[a].advertises(tag) {
            advertisers(shards.subrange(0, a), tag).push(shards[a].id)
        } else {
            advertisers(shards.subrange(0, a), tag)
        },
        advertised(shards.subrange(0, a + 1), tag) == (advertised(shards.subrange(0, a), tag)
            || shards[a].advertises(tag)),
{
    let longer = shards.subrange(0, a + 1);
    let shorter = shards.subrange(0, a);
    assert(longer.subrange(0, a) =~= shorter);
    assert(longer.subrange(0, a + 1) =~= longer);
    lemma_filter_step(longer, a, advertising(tag));
    if shards[a].advertises(tag) {
        assert(advertisers(longer, tag) =~= advertisers(shorter, tag).push(shards[a].id));
        assert(longer[a].advertises(tag));
    }
    if advertised(shorter, tag) {
        let j = choose|j: int| 0 <= j < shorter.len() && (#[trigger] shorter[j]).advertises(tag);
        assert(longer[j].advertises(tag));
    }
    if advertised(longer, tag) {
        let j = choose|j: int| 0 <= j < longer.len() && (#[trigger] longer[j]).advertises(tag);
        if j < a {
            assert(shorter[j].advertises(tag));
        }
    }
}

/// A tag that no shard advertises has no advertisers.
pub proof fn lemma_unadvertised(shards: Seq<ShardSummary>, tag: Seq<char>)
    requires
        !advertised(shards, tag),
    ensures
        advertisers(shards, tag) == Seq::<Seq<u8>>::empty(),
    decreases shards.len(),
{
    reveal(Seq::filter);
    if shards.len() > 0 {
        assert(!shards.last().advertises(tag));
        assert forall|j: int| 0 <= j < shards.drop_last().len() implies !(
        #[trigger] shards.drop_last()[j]).advertises(tag) by {
            assert(shards[j] == shards.drop_last()[j]);
        }
        lemma_unadvertised(shards.drop_last(), tag);
    }
    assert(advertisers(shards, tag) =~= Seq::<Seq<u8>>::empty());
}

} // verus!
