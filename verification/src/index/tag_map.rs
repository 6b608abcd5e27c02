//! The tag map: for each tag, the shards that advertise it.

use crate::identity::{clone_identities, identity_views, principal_text, Identity};
use crate::index::shards::{
    advertised, advertisers, lemma_advertisers_step, lemma_unadvertised, record_views,
    BucketRecord, ShardSummary,
};
use crate::seq_lemmas::lemma_prefix_contains_step;
use crate::summary::string_views;
use vstd::prelude::*;

verus! {

/// One row of a tag map, as mathematical values.
pub struct TagRowView {
    pub tag: Seq<char>,
    pub canisters: Seq<Seq<u8>>,
}

/// The tag map that inverts `shards`: it knows the tags that some shard
/// advertises, and lists for each the shards that advertise it, in order.
pub open spec fn tag_map_of(shards: Seq<ShardSummary>) -> Map<Seq<char>, Seq<Seq<u8>>> {
    Map::new(|tag: Seq<char>| advertised(shards, tag), |tag: Seq<char>| advertisers(shards, tag))
}

/// Whether `rows` has a row for `tag`.
pub open spec fn has_row(rows: Seq<TagRowView>, tag: Seq<char>) -> bool {
    exists|i: int| 0 <= i < rows.len() && (#[trigger] rows[i]).tag == tag
}

/// The place of the row for `tag`, where there is one.
pub open spec fn row_of(rows: Seq<TagRowView>, tag: Seq<char>) -> int {
    choose|i: int| 0 <= i < rows.len() && (#[trigger] rows[i]).tag == tag
}

/// No tag has two rows.
pub open spec fn distinct_tags(rows: Seq<TagRowView>) -> bool {
    forall|i: int, j: int| 0 <= i < j < rows.len() ==> rows[i].tag != rows[j].tag
}

/// The map that `rows` stands for.
pub open spec fn rows_map(rows: Seq<TagRowView>) -> Map<Seq<char>, Seq<Seq<u8>>> {
    Map::new(|tag: Seq<char>| has_row(rows, tag), |tag: Seq<char>| rows[row_of(rows, tag)].canisters)
}

/// What the row of `tag` has to hold once the first `a` shards are through
/// and of the next one the first `b` tags.
spec fn expected(shards: Seq<ShardSummary>, a: int, b: int, tag: Seq<char>) -> Seq<Seq<u8>> {
    if a < shards.len() && shards[a].summary.tags.subrange(0, b).contains(tag) {
        advertisers(shards.subrange(0, a), tag).push(shards[a].id)
    } else {
        advertisers(shards.subrange(0, a), tag)
    }
}

/// Whether `tag` has to have a row once the first `a` shards are through and
/// of the next one the first `b` tags.
spec fn covered(shards: Seq<ShardSummary>, a: int, b: int, tag: Seq<char>) -> bool {
    advertised(shards.subrange(0, a), tag) || (a < shards.len()
        && shards[a].summary.tags.subrange(0, b).contains(tag))
}

/// `rows` inverts the first `a` shards and of the next one the first `b`
/// tags.
spec fn inverts(rows: Seq<TagRowView>, shards: Seq<ShardSummary>, a: int, b: int) -> bool {
    &&& distinct_tags(rows)
    &&& forall|i: int|
        0 <= i < rows.len() ==> covered(shards, a, b, (#[trigger] rows[i]).tag)
            && rows[i].canisters == expected(shards, a, b, rows[i].tag)
    &&& forall|tag: Seq<char>| #[trigger] covered(shards, a, b, tag) ==> has_row(rows, tag)
}

/// One row of a tag map.
#[derive(Debug)]
pub struct TagRow {
    pub tag: String,
    pub canisters: Vec<Identity>,
}

impl View for TagRow {
    type V = TagRowView;

    open spec fn view(&self) -> TagRowView {
        TagRowView { tag: self.tag@, canisters: identity_views(self.canisters@) }
    }
}

/// The views of `rows`, in order.
pub open spec fn row_views(rows: Seq<TagRow>) -> Seq<TagRowView> {
    Seq::new(rows.len(), |i: int| rows[i]@)
}

/// The tags of `rows`, in order.
pub open spec fn row_tags(rows: Seq<TagRowView>) -> Seq<Seq<char>> {
    Seq::new(rows.len(), |i: int| rows[i].tag)
}

/// A copy of `rows`.
pub fn clone_rows(rows: &Vec<TagRow>) -> (copy: Vec<TagRow>)
    ensures
        row_views(copy@) == row_views(rows@),
{
    let mut copy: Vec<TagRow> = Vec::new();
    let mut i: usize = 0;
    while i < rows.len()
        invariant
            i <= rows@.len(),
            copy@.len() == i,
            forall|j: int| 0 <= j < i ==> copy@[j]@ == rows@[j]@,
        decreases rows@.len() - i,
    {
        copy.push(
            TagRow { tag: rows[i].tag.clone(), canisters: clone_identities(&rows[i].canisters) },
        );
        i += 1;
    }
    assert(row_views(copy@) =~= row_views(rows@));
    copy
}

/// For each tag the shards that advertise it.
#[derive(Debug)]
pub struct TagToCanisters {
    rows: Vec<TagRow>,
}

impl View for TagToCanisters {
    type V = Map<Seq<char>, Seq<Seq<u8>>>;

    closed spec fn view(&self) -> Map<Seq<char>, Seq<Seq<u8>>> {
        rows_map(row_views(self.rows@))
    }
}

/// The place of the row for `tag` in `rows`, if there is one.
fn find_row(rows: &Vec<TagRow>, tag: &String) -> (found: Option<usize>)
    requires
        distinct_tags(row_views(rows@)),
    ensures
        found.is_some() == has_row(row_views(rows@), tag@),
        found matches Some(i) ==> i < rows@.len() && i == row_of(row_views(rows@), tag@)
            && rows@[i as int].tag@ == tag@,
{
    let mut i: usize = 0;
    while i < rows.len()
        invariant
            i <= rows@.len(),
            distinct_tags(row_views(rows@)),
            forall|j: int| 0 <= j < i ==> (#[trigger] row_views(rows@)[j]).tag != tag@,
        decreases rows@.len() - i,
    {
        if rows[i].tag == *tag {
            assert(row_views(rows@)[i as int].tag == tag@);
            return Some(i);
        }
        i += 1;
    }
    None
}

/// Whether `tag` is among the first `b` of `tags`.
fn among_first(tags: &Vec<String>, b: usize, tag: &String) -> (found: bool)
    requires
        b <= tags@.len(),
    ensures
        found == string_views(tags@).subrange(0, b as int).contains(tag@),
{
    let ghost prefix = string_views(tags@).subrange(0, b as int);
    let mut i: usize = 0;
    while i < b
        invariant
            i <= b <= tags@.len(),
            prefix == string_views(tags@).subrange(0, b as int),
            forall|j: int| 0 <= j < i ==> prefix[j] != tag@,
        decreases b - i,
    {
        if tags[i] == *tag {
            assert(prefix[i as int] == tag@);
            return true;
        }
        i += 1;
    }
    false
}

impl TagToCanisters {
    /// A tag has one row at most.
    #[verifier::type_invariant]
    closed spec fn inv(self) -> bool {
        distinct_tags(row_views(self.rows@))
    }

    /// The tags in the order of their rows.
    pub closed spec fn tag_order(&self) -> Seq<Seq<char>> {
        row_tags(row_views(self.rows@))
    }

    /// The rows of the map, for safekeeping.
    pub fn to_rows(&self) -> (rows: Vec<TagRow>)
        ensures
            distinct_tags(row_views(rows@)),
            rows_map(row_views(rows@)) == self@,
            row_tags(row_views(rows@)) == self.tag_order(),
    {
        proof {
            use_type_invariant(self);
        }
        clone_rows(&self.rows)
    }

    /// The map made of `rows`; `None` where a tag has two rows.
    pub fn from_rows(rows: Vec<TagRow>) -> (made: Option<TagToCanisters>)
        ensures
            made.is_some() == distinct_tags(row_views(rows@)),
            made matches Some(map) ==> map@ == rows_map(row_views(rows@)) && map.tag_order()
                == row_tags(row_views(rows@)),
    {
        let ghost views = row_views(rows@);
        let mut i: usize = 0;
        while i < rows.len()
            invariant
                i <= rows@.len(),
                views == row_views(rows@),
                forall|a: int, b: int| 0 <= a < b < i ==> views[a].tag != views[b].tag,
            decreases rows@.len() - i,
        {
            let mut j: usize = 0;
            while j < i
                invariant
                    j <= i < rows@.len(),
                    views == row_views(rows@),
                    forall|a: int| 0 <= a < j ==> views[a].tag != views[i as int].tag,
                decreases i - j,
            {
                if rows[j].tag == rows[i].tag {
                    assert(views[j as int].tag == views[i as int].tag);
                    return None;
                }
                j += 1;
            }
            i += 1;
        }
        Some(TagToCanisters { rows })
    }

    /// The tag map without tags.
    pub fn new() -> (map: TagToCanisters)
        ensures
            map@ == Map::<Seq<char>, Seq<Seq<u8>>>::empty(),
            map.tag_order() == Seq::<Seq<char>>::empty(),
    {
        let map = TagToCanisters { rows: Vec::new() };
        assert(map@ =~= Map::<Seq<char>, Seq<Seq<u8>>>::empty());
        assert(map.tag_order() =~= Seq::<Seq<char>>::empty());
        map
    }

    /// The number of tags.
    pub fn len(&self) -> (n: usize)
        ensures
            n == self.tag_order().len(),
            self@.dom().finite(),
            n == self@.dom().len(),
    {
        proof {
            use_type_invariant(self);
            let views = row_views(self.rows@);
            let order = self.tag_order();
            assert forall|i: int, j: int| 0 <= i < order.len() && 0 <= j < order.len() && i
                != j implies order[i] != order[j] by {
                assert(views[i].tag == order[i] && views[j].tag == order[j]);
            }
            assert forall|tag: Seq<char>| order.to_set().contains(tag) == self@.dom().contains(
                tag,
            ) by {
                if order.contains(tag) {
                    let i = choose|i: int| 0 <= i < order.len() && order[i] == tag;
                    assert(views[i].tag == tag);
                }
                if has_row(views, tag) {
                    let i = row_of(views, tag);
                    assert(order[i] == tag);
                }
            }
            assert(order.to_set() =~= self@.dom());
            order.unique_seq_to_set();
            vstd::seq_lib::seq_to_set_is_finite(order);
        }
        self.rows.len()
    }

    /// The shards listed for `tag`, if the map knows the tag.
    pub fn get(&self, tag: &str) -> (listed: Option<&Vec<Identity>>)
        ensures
            listed.is_some() == self@.contains_key(tag@),
            listed matches Some(canisters) ==> identity_views(canisters@) == self@[tag@],
    {
        proof {
            use_type_invariant(self);
        }
        let wanted = tag.to_owned();
        match find_row(&self.rows, &wanted) {
            Some(i) => {
                assert(row_views(self.rows@)[i as int].canisters == identity_views(
                    self.rows@[i as int].canisters@,
                ));
                Some(&self.rows[i].canisters)
            },
            None => None,
        }
    }

    /// One row of texts for each tag, in the order of `tag_order`: the tag,
    /// then the textual form of each shard listed for it.
    pub fn as_text_rows(&self) -> (table: Vec<Vec<String>>)
        ensures
            table@.len() == self.tag_order().len(),
            forall|i: int|
                0 <= i < table@.len() ==> {
                    let tag = #[trigger] self.tag_order()[i];
                    &&& self@.contains_key(tag)
                    &&& table@[i]@.len() == 1 + self@[tag].len()
                    &&& table@[i]@[0]@ == tag
                    &&& forall|k: int|
                        0 <= k < self@[tag].len() ==> (#[trigger] table@[i]@[1 + k])@
                            == principal_text(self@[tag][k])
                },
            forall|i: int, j: int|
                0 <= i < j < self.tag_order().len() ==> self.tag_order()[i] != self.tag_order()[j],
            forall|tag: Seq<char>| self@.contains_key(tag) ==> self.tag_order().contains(tag),
    {
        proof {
            use_type_invariant(self);
        }
        let ghost views = row_views(self.rows@);
        let mut table: Vec<Vec<String>> = Vec::new();
        let mut i: usize = 0;
        while i < self.rows.len()
            invariant
                i <= self.rows@.len(),
                views == row_views(self.rows@),
                distinct_tags(views),
                table@.len() == i,
                forall|j: int|
                    0 <= j < i ==> {
                        &&& (#[trigger] table@[j])@.len() == 1 + views[j].canisters.len()
                        &&& table@[j]@[0]@ == views[j].tag
                        &&& forall|k: int|
                            0 <= k < views[j].canisters.len() ==> (#[trigger] table@[j]@[1 + k])@
                                == principal_text(views[j].canisters[k])
                    },
            decreases self.rows@.len() - i,
        {
            let entry = &self.rows[i];
            let mut row: Vec<String> = Vec::new();
            row.push(entry.tag.clone());
            let mut k: usize = 0;
            while k < entry.canisters.len()
                invariant
                    k <= entry.canisters@.len(),
                    entry == self.rows@[i as int],
                    row@.len() == 1 + k,
                    row@[0]@ == entry.tag@,
                    forall|m: int|
                        0 <= m < k ==> (#[trigger] row@[1 + m])@ == principal_text(
                            entry.canisters@[m]@,
                        ),
                decreases entry.canisters@.len() - k,
            {
                row.push(entry.canisters[k].to_text());
                k += 1;
            }
            assert(views[i as int].canisters == identity_views(entry.canisters@));
            table.push(row);
            i += 1;
        }
        proof {
            assert forall|j: int| 0 <= j < table@.len() implies {
                let tag = #[trigger] self.tag_order()[j];
                &&& self@.contains_key(tag)
                &&& table@[j]@.len() == 1 + self@[tag].len()
                &&& table@[j]@[0]@ == tag
                &&& forall|k: int|
                    0 <= k < self@[tag].len() ==> (#[trigger] table@[j]@[1 + k])@ == principal_text(
                        self@[tag][k],
                    )
            } by {
                let tag = self.tag_order()[j];
                assert(views[j].tag == tag);
                assert(row_of(views, tag) == j);
            }
            assert forall|a: int, b: int| 0 <= a < b < self.tag_order().len() implies
                self.tag_order()[a] != self.tag_order()[b] by {
                assert(views[a].tag == self.tag_order()[a]);
                assert(views[b].tag == self.tag_order()[b]);
            }
            assert forall|tag: Seq<char>| self@.contains_key(tag) implies self.tag_order().contains(
                tag,
            ) by {
                let j = row_of(views, tag);
                assert(self.tag_order()[j] == tag);
            }
        }
        table
    }

    /// The tag map that inverts the summaries in `records`.
    pub fn invert(records: &Vec<BucketRecord>) -> (map: TagToCanisters)
        ensures
            map@ == tag_map_of(record_views(records@)),
    {
        let ghost shards = record_views(records@);
        let mut rows: Vec<TagRow> = Vec::new();
        let mut a: usize = 0;
        proof {
            assert forall|tag: Seq<char>| !#[trigger] covered(shards, 0, 0, tag) by {
                if shards.len() > 0 {
                    assert(shards[0].summary.tags.subrange(0, 0).len() == 0);
                }
            }
        }
        while a < records.len()
            invariant
                a <= records@.len(),
                shards == record_views(records@),
                inverts(row_views(rows@), shards, a as int, 0),
            decreases records@.len() - a,
        {
            let record = &records[a];
            let tags = &record.effective_index.tags;
            let ghost all_tags = shards[a as int].summary.tags;
            assert(all_tags == string_views(tags@));
            let mut b: usize = 0;
            while b < tags.len()
                invariant
                    a < records@.len(),
                    b <= tags@.len(),
                    shards == record_views(records@),
                    record == records@[a as int],
                    tags == record.effective_index.tags,
                    all_tags == shards[a as int].summary.tags,
                    all_tags == string_views(tags@),
                    inverts(row_views(rows@), shards, a as int, b as int),
                decreases tags@.len() - b,
            {
                let tag = &tags[b];
                let ghost before = row_views(rows@);
                proof {
                    assert forall|t: Seq<char>|
                        all_tags.subrange(0, b + 1).contains(t) == (all_tags.subrange(
                            0,
                            b as int,
                        ).contains(t) || t == tag@) by {
                        lemma_prefix_contains_step(all_tags, b as int, t);
                    }
                }
                if !among_first(tags, b, tag) {
                    match find_row(&rows, tag) {
                        Some(i) => {
                            rows[i].canisters.push(record.canister_id.clone());
                            proof {
                                let after = row_views(rows@);
                                assert(after[i as int].tag == before[i as int].tag);
                                assert(after[i as int].canisters =~= before[i as int].canisters.push(
                                    record.canister_id@,
                                ));
                                assert forall|j: int| 0 <= j < after.len() && j != i implies after[j]
                                    == before[j] by {}
                                assert forall|t: Seq<char>| #[trigger]
                                    covered(shards, a as int, b + 1, t) implies has_row(after, t) by {
                                    if t != tag@ {
                                        assert(covered(shards, a as int, b as int, t));
                                        let j = row_of(before, t);
                                        assert(after[j].tag == t);
                                    } else {
                                        assert(after[i as int].tag == t);
                                    }
                                }
                            }
                        },
                        None => {
                            let mut canisters: Vec<Identity> = Vec::new();
                            canisters.push(record.canister_id.clone());
                            rows.push(TagRow { tag: tag.clone(), canisters });
                            proof {
                                let after = row_views(rows@);
                                let n = before.len() as int;
                                assert(!covered(shards, a as int, b as int, tag@));
                                lemma_unadvertised(shards.subrange(0, a as int), tag@);
                                assert(after[n].tag == tag@);
                                assert(after[n].canisters =~= seq![record.canister_id@]);
                                assert forall|j: int| 0 <= j < n implies after[j] == before[j] by {}
                                assert forall|t: Seq<char>| #[trigger]
                                    covered(shards, a as int, b + 1, t) implies has_row(after, t) by {
                                    if t != tag@ {
                                        assert(covered(shards, a as int, b as int, t));
                                        let j = row_of(before, t);
                                        assert(after[j].tag == t);
                                    } else {
                                        assert(after[n].tag == t);
                                    }
                                }
                            }
                        },
                    }
                } else {
                    proof {
                        assert forall|t: Seq<char>| #[trigger]
                            covered(shards, a as int, b + 1, t) implies has_row(before, t) by {
                            assert(covered(shards, a as int, b as int, t));
                        }
                    }
                }
                b += 1;
            }
            proof {
                let views = row_views(rows@);
                assert(all_tags.subrange(0, b as int) == all_tags);
                assert forall|t: Seq<char>|
                    covered(shards, a + 1, 0, t) == covered(shards, a as int, b as int, t)
                        && expected(shards, a + 1, 0, t) == expected(
                        shards,
                        a as int,
                        b as int,
                        t,
                    ) by {
                    lemma_advertisers_step(shards, a as int, t);
                    if a + 1 < shards.len() {
                        assert(shards[a + 1].summary.tags.subrange(0, 0).len() == 0);
                    }
                }
                assert forall|t: Seq<char>| #[trigger] covered(shards, a + 1, 0, t) implies has_row(
                    views,
                    t,
                ) by {
                    assert(covered(shards, a as int, b as int, t));
                }
            }
            a += 1;
        }
        proof {
            let views = row_views(rows@);
            assert(shards.subrange(0, a as int) == shards);
            assert forall|t: Seq<char>| has_row(views, t) == advertised(shards, t) by {
                if has_row(views, t) {
                    assert(covered(shards, a as int, 0, views[row_of(views, t)].tag));
                }
                if advertised(shards, t) {
                    assert(covered(shards, a as int, 0, t));
                }
            }
            assert(rows_map(views) =~= tag_map_of(shards));
        }
        TagToCanisters { rows }
    }
}

impl Clone for TagToCanisters {
    fn clone(&self) -> (copy: TagToCanisters)
        ensures
            copy@ == self@,
            copy.tag_order() == self.tag_order(),
    {
        proof {
            use_type_invariant(self);
        }
        let mut rows: Vec<TagRow> = Vec::new();
        let mut i: usize = 0;
        while i < self.rows.len()
            invariant
                i <= self.rows@.len(),
                rows@.len() == i,
                forall|j: int| 0 <= j < i ==> rows@[j]@ == self.rows@[j]@,
            decreases self.rows@.len() - i,
        {
            rows.push(
                TagRow {
                    tag: self.rows[i].tag.clone(),
                    canisters: clone_identities(&self.rows[i].canisters),
                },
            );
            i += 1;
        }
        assert(row_views(rows@) =~= row_views(self.rows@));
        TagToCanisters { rows }
    }
}

} // verus!
