//! The placement policy: the order in which writers are sent to the shards.

use crate::identity::{identity_views, Identity};
use crate::index::businesslogic::IndexingStrategy;
use crate::index::shards::{distinct_ids, place_of, record_views, BucketRecord, ShardSummary};
use crate::summary::{EffectiveIndex, SummaryView};
use vstd::prelude::*;

verus! {

/// Whether by `strategy` a shard with summary `a` may stand before one with
/// summary `b`: the emptier one first under `BalancedLoad`, the fuller one
/// first under `FillFirst`.
pub open spec fn ranks_no_later(strategy: IndexingStrategy, a: SummaryView, b: SummaryView) -> bool {
    match strategy {
        IndexingStrategy::BalancedLoad => a.current_entries <= b.current_entries,
        IndexingStrategy::FillFirst => a.current_entries >= b.current_entries,
    }
}

/// Whether `picks` ranks those of the first `upto` shards that have room:
/// each of them once and no other, by load as `strategy` asks, and shards of
/// equal load in the order in which they first reported.
pub open spec fn ranks(
    shards: Seq<ShardSummary>,
    strategy: IndexingStrategy,
    picks: Seq<int>,
    upto: int,
) -> bool {
    &&& forall|k: int|
        0 <= k < picks.len() ==> 0 <= #[trigger] picks[k] < upto && shards[picks[k]].summary.has_room()
    &&& forall|i: int| 0 <= i < upto && (#[trigger] shards[i]).summary.has_room() ==> picks.contains(i)
    &&& forall|k: int, l: int|
        0 <= k < l < picks.len() ==> {
            let a = shards[#[trigger] picks[k]].summary;
            let b = shards[#[trigger] picks[l]].summary;
            &&& ranks_no_later(strategy, a, b)
            &&& a.current_entries == b.current_entries ==> picks[k] < picks[l]
        }
}

/// Whether `order` is the upload order of `shards` under `strategy`, with
/// `picks` giving the place among `shards` of each shard in `order`.
pub open spec fn is_upload_order(
    shards: Seq<ShardSummary>,
    strategy: IndexingStrategy,
    picks: Seq<int>,
    order: Seq<Seq<u8>>,
) -> bool {
    &&& ranks(shards, strategy, picks, shards.len() as int)
    &&& order.len() == picks.len()
    &&& forall|k: int| 0 <= k < order.len() ==> #[trigger] order[k] == shards[picks[k]].id
}

/// The summary that `shards` holds of `id`.
pub open spec fn summary_of(shards: Seq<ShardSummary>, id: Seq<u8>) -> SummaryView {
    shards[place_of(shards, id)].summary
}

/// Along an upload order the load never falls under `BalancedLoad` and never
/// rises under `FillFirst`; every shard in it has room and is listed once.
pub proof fn lemma_upload_order_sorted(
    shards: Seq<ShardSummary>,
    strategy: IndexingStrategy,
    picks: Seq<int>,
    order: Seq<Seq<u8>>,
)
    requires
        distinct_ids(shards),
        is_upload_order(shards, strategy, picks, order),
    ensures
        forall|k: int, l: int|
            0 <= k < l < order.len() ==> ranks_no_later(
                strategy,
                summary_of(shards, #[trigger] order[k]),
                summary_of(shards, #[trigger] order[l]),
            ) && order[k] != order[l],
        forall|k: int| 0 <= k < order.len() ==> summary_of(shards, #[trigger] order[k]).has_room(),
{
    assert forall|k: int| 0 <= k < order.len() implies place_of(shards, #[trigger] order[k])
        == picks[k] by {
        assert(shards[picks[k]].id == order[k]);
    }
    assert forall|k: int, l: int| 0 <= k < l < order.len() implies ranks_no_later(
        strategy,
        summary_of(shards, #[trigger] order[k]),
        summary_of(shards, #[trigger] order[l]),
    ) && order[k] != order[l] by {
        let a = picks[k];
        let b = picks[l];
        assert(place_of(shards, order[k]) == a);
        assert(place_of(shards, order[l]) == b);
        if a == b {
            assert(shards[a].summary.current_entries == shards[b].summary.current_entries);
        }
    }
}

/// Two rankings of the same shards agree at every place that both have.
proof fn lemma_picks_agree(
    shards: Seq<ShardSummary>,
    strategy: IndexingStrategy,
    first: Seq<int>,
    second: Seq<int>,
    k: int,
)
    requires
        ranks(shards, strategy, first, shards.len() as int),
        ranks(shards, strategy, second, shards.len() as int),
        0 <= k < first.len(),
        k < second.len(),
    ensures
        first[k] == second[k],
    decreases k,
{
    assert forall|i: int| 0 <= i < k implies first[i] == second[i] by {
        lemma_picks_agree(shards, strategy, first, second, i);
    }
    let x = first[k];
    let y = second[k];
    assert(shards[x].summary.has_room());
    assert(shards[y].summary.has_room());
    let m = choose|m: int| 0 <= m < second.len() && second[m] == x;
    let n = choose|n: int| 0 <= n < first.len() && first[n] == y;
    if m < k {
        assert(first[m] == second[m]);
        assert(shards[first[m]].summary.current_entries == shards[first[k]].summary.current_entries);
    }
    if n < k {
        assert(first[n] == second[n]);
        assert(shards[second[n]].summary.current_entries
            == shards[second[k]].summary.current_entries);
    }
    if m > k && n > k {
        assert(ranks_no_later(strategy, shards[second[k]].summary, shards[second[m]].summary));
        assert(ranks_no_later(strategy, shards[first[k]].summary, shards[first[n]].summary));
    } else if m > k {
        assert(n == k);
    }
}

/// The upload order is determined: two orders of the same shards under the
/// same strategy are one order.
pub proof fn lemma_upload_order_unique(
    shards: Seq<ShardSummary>,
    strategy: IndexingStrategy,
    first_picks: Seq<int>,
    first: Seq<Seq<u8>>,
    second_picks: Seq<int>,
    second: Seq<Seq<u8>>,
)
    requires
        is_upload_order(shards, strategy, first_picks, first),
        is_upload_order(shards, strategy, second_picks, second),
    ensures
        first_picks == second_picks,
        first == second,
{
    lemma_rankings_as_long(shards, strategy, first_picks, second_picks);
    lemma_rankings_as_long(shards, strategy, second_picks, first_picks);
    assert forall|k: int| 0 <= k < first_picks.len() implies first_picks[k] == second_picks[k] by {
        lemma_picks_agree(shards, strategy, first_picks, second_picks, k);
    }
    assert(first_picks =~= second_picks);
    assert(first =~= second);
}

/// No ranking is longer than another of the same shards.
proof fn lemma_rankings_as_long(
    shards: Seq<ShardSummary>,
    strategy: IndexingStrategy,
    first: Seq<int>,
    second: Seq<int>,
)
    requires
        ranks(shards, strategy, first, shards.len() as int),
        ranks(shards, strategy, second, shards.len() as int),
    ensures
        first.len() <= second.len(),
{
    if first.len() > second.len() {
        let k = second.len() as int;
        let x = first[k];
        assert(shards[x].summary.has_room());
        let m = choose|m: int| 0 <= m < second.len() && second[m] == x;
        lemma_picks_agree(shards, strategy, first, second, m);
        assert(shards[first[m]].summary.current_entries == shards[first[k]].summary.current_entries);
    }
}

/// Whether by `strategy` a shard with summary `a` has to stand after one with
/// summary `b`.
fn ranks_later(strategy: IndexingStrategy, a: &EffectiveIndex, b: &EffectiveIndex) -> (later: bool)
    ensures
        later == !ranks_no_later(strategy, a@, b@),
{
    match strategy {
        IndexingStrategy::BalancedLoad => a.current_entries > b.current_entries,
        IndexingStrategy::FillFirst => a.current_entries < b.current_entries,
    }
}

/// The places in `picked`, as mathematical integers.
spec fn places(picked: Seq<usize>) -> Seq<int> {
    Seq::new(picked.len(), |k: int| picked[k] as int)
}

/// Ranking stays ranking when the next shard, which has room, goes in behind
/// the shards that may stand before it and in front of those that have to
/// stand after it.
proof fn lemma_insert_keeps_ranks(
    shards: Seq<ShardSummary>,
    strategy: IndexingStrategy,
    before: Seq<int>,
    p: int,
    j: int,
)
    requires
        0 <= j < shards.len(),
        0 <= p <= before.len(),
        shards[j].summary.has_room(),
        ranks(shards, strategy, before, j),
        forall|k: int|
            p <= k < before.len() ==> !ranks_no_later(
                strategy,
                shards[#[trigger] before[k]].summary,
                shards[j].summary,
            ),
        p > 0 ==> ranks_no_later(strategy, shards[before[p - 1]].summary, shards[j].summary),
    ensures
        ranks(shards, strategy, before.insert(p, j), j + 1),
{
    let after = before.insert(p, j);
    assert forall|k: int| 0 <= k < after.len() implies 0 <= #[trigger] after[k] < j + 1
        && shards[after[k]].summary.has_room() by {
        if k < p {
            assert(after[k] == before[k]);
        } else if k > p {
            assert(after[k] == before[k - 1]);
        }
    }
    assert forall|i: int| 0 <= i < j + 1 && (#[trigger] shards[i]).summary.has_room() implies
        after.contains(i) by {
        if i == j {
            assert(after[p] == i);
        } else {
            let k = choose|k: int| 0 <= k < before.len() && before[k] == i;
            if k < p {
                assert(after[k] == i);
            } else {
                assert(after[k + 1] == i);
            }
        }
    }
    assert forall|k: int, l: int| 0 <= k < l < after.len() implies {
        let a = shards[#[trigger] after[k]].summary;
        let b = shards[#[trigger] after[l]].summary;
        &&& ranks_no_later(strategy, a, b)
        &&& a.current_entries == b.current_entries ==> after[k] < after[l]
    } by {
        if l < p {
            assert(after[k] == before[k] && after[l] == before[l]);
        } else if l == p {
            assert(after[k] == before[k]);
            assert(after[l] == j);
            assert(before[k] < j);
            if k < p - 1 {
                assert(ranks_no_later(
                    strategy,
                    shards[before[k]].summary,
                    shards[before[p - 1]].summary,
                ));
            }
        } else if k < p {
            assert(after[k] == before[k] && after[l] == before[l - 1]);
        } else if k == p {
            assert(after[k] == j);
            assert(after[l] == before[l - 1]);
        } else {
            assert(after[k] == before[k - 1] && after[l] == before[l - 1]);
        }
    }
}

/// Puts shard `j`, which has room, into the ranking of the shards before it.
fn insert_ranked(
    records: &Vec<BucketRecord>,
    strategy: IndexingStrategy,
    picked: &mut Vec<usize>,
    j: usize,
)
    requires
        j < records@.len(),
        records@[j as int].effective_index@.has_room(),
        ranks(record_views(records@), strategy, places(old(picked)@), j as int),
    ensures
        ranks(record_views(records@), strategy, places(final(picked)@), j + 1),
{
    let ghost shards = record_views(records@);
    let ghost before = places(picked@);
    let index = &records[j].effective_index;
    assert forall|k: int| 0 <= k < picked@.len() implies #[trigger] picked@[k] < j by {
        assert(before[k] == picked@[k]);
    }
    let mut p: usize = picked.len();
    while p > 0 && ranks_later(strategy, &records[picked[p - 1]].effective_index, index)
        invariant
            p <= picked@.len(),
            j < records@.len(),
            shards == record_views(records@),
            index == records@[j as int].effective_index,
            before == places(picked@),
            forall|k: int| 0 <= k < picked@.len() ==> #[trigger] picked@[k] < j,
            forall|k: int|
                p <= k < before.len() ==> !ranks_no_later(
                    strategy,
                    shards[#[trigger] before[k]].summary,
                    shards[j as int].summary,
                ),
        decreases p,
    {
        assert(before[p - 1] == picked@[p - 1]);
        p -= 1;
    }
    proof {
        if p > 0 {
            assert(before[p - 1] == picked@[p - 1]);
        }
        lemma_insert_keeps_ranks(shards, strategy, before, p as int, j as int);
    }
    picked.insert(p, j);
    assert(places(picked@) =~= before.insert(p as int, j as int));
}

/// The shards of `records` that have room, ranked as `strategy` asks.
pub fn rank_shards(records: &Vec<BucketRecord>, strategy: IndexingStrategy) -> (order: Vec<Identity>)
    ensures
        exists|picks: Seq<int>|
            is_upload_order(record_views(records@), strategy, picks, identity_views(order@)),
{
    let ghost shards = record_views(records@);
    let mut picked: Vec<usize> = Vec::new();
    let mut j: usize = 0;
    while j < records.len()
        invariant
            j <= records@.len(),
            shards == record_views(records@),
            ranks(shards, strategy, places(picked@), j as int),
        decreases records@.len() - j,
    {
        let index = &records[j].effective_index;
        if index.current_entries < index.bucket_max_entries {
            insert_ranked(records, strategy, &mut picked, j);
        } else {
            assert(!shards[j as int].summary.has_room());
        }
        j += 1;
    }
    let ghost picks = places(picked@);
    let mut order: Vec<Identity> = Vec::new();
    let mut k: usize = 0;
    while k < picked.len()
        invariant
            k <= picked@.len(),
            shards == record_views(records@),
            picks == places(picked@),
            ranks(shards, strategy, picks, records@.len() as int),
            order@.len() == k,
            forall|i: int| 0 <= i < k ==> (#[trigger] order@[i])@ == shards[picks[i]].id,
        decreases picked@.len() - k,
    {
        assert(picks[k as int] == picked@[k as int]);
        order.push(records[picked[k]].canister_id.clone());
        k += 1;
    }
    proof {
        let ids = identity_views(order@);
        assert forall|i: int| 0 <= i < ids.len() implies #[trigger] ids[i] == shards[picks[i]].id by {
            assert(ids[i] == order@[i]@);
        }
        assert(is_upload_order(shards, strategy, picks, ids));
    }
    order
}

} // verus!
