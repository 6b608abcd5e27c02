//! The shard store: entries grouped by tag, filled up to a capacity ceiling.

use crate::identity::{anonymous_bytes, clone_identities, identity_views, Identity};
use crate::seq_lemmas::lemma_filter_step;
use crate::summary::{EffectiveIndex, SummaryView};
use crate::TimestampMillis;
use vstd::prelude::*;

verus! {

/// What an entry holds, as mathematical values.
pub struct EntryView {
    pub tag: Seq<char>,
    pub body: Seq<char>,
    pub submitted_at: TimestampMillis,
    pub submitted_by: Seq<u8>,
}

impl EntryView {
    /// Whether `caller` may read this entry: its author may, and everybody may
    /// read what an anonymous caller wrote.
    pub open spec fn visible_to(self, caller: Seq<u8>) -> bool {
        self.submitted_by == caller || self.submitted_by == anonymous_bytes()
    }
}

/// The test that picks out what `caller` may read.
pub open spec fn visibility(caller: Seq<u8>) -> spec_fn(EntryView) -> bool {
    |e: EntryView| e.visible_to(caller)
}

/// One submitted piece of content.
#[derive(Debug)]
pub struct BucketEntry {
    pub tag: String,
    pub body: String,
    pub submitted_at: TimestampMillis,
    pub submitted_by: Identity,
}

impl View for BucketEntry {
    type V = EntryView;

    open spec fn view(&self) -> EntryView {
        EntryView {
            tag: self.tag@,
            body: self.body@,
            submitted_at: self.submitted_at,
            submitted_by: self.submitted_by@,
        }
    }
}

impl Clone for BucketEntry {
    fn clone(&self) -> (e: BucketEntry)
        ensures
            e@ == self@,
    {
        BucketEntry {
            tag: self.tag.clone(),
            body: self.body.clone(),
            submitted_at: self.submitted_at,
            submitted_by: self.submitted_by.clone(),
        }
    }
}

impl Default for BucketEntry {
    fn default() -> (e: BucketEntry)
        ensures
            e@ == (EntryView {
                tag: Seq::empty(),
                body: Seq::empty(),
                submitted_at: 0,
                submitted_by: anonymous_bytes(),
            }),
    {
        BucketEntry {
            tag: String::new(),
            body: String::new(),
            submitted_at: 0,
            submitted_by: Identity::anonymous(),
        }
    }
}

/// The entries of one tag, oldest first.
pub struct TagGroup {
    pub tag: Seq<char>,
    pub entries: Seq<EntryView>,
}

/// The views of the entries in `entries`, in order.
pub open spec fn entry_views(entries: Seq<BucketEntry>) -> Seq<EntryView> {
    Seq::new(entries.len(), |i: int| entries[i]@)
}

/// All entries of `groups`, group after group.
pub open spec fn concat_groups(groups: Seq<TagGroup>) -> Seq<EntryView>
    decreases groups.len(),
{
    if groups.len() == 0 {
        Seq::empty()
    } else {
        concat_groups(groups.drop_last()) + groups.last().entries
    }
}

/// A shard store as mathematical values: the tag groups in the order in which
/// their tags first came, the entry counter, the capacity ceiling and the
/// moderators.
pub struct StoreView {
    pub groups: Seq<TagGroup>,
    pub current_entries: u64,
    pub max_entries: u64,
    pub moderators: Seq<Seq<u8>>,
}

impl StoreView {
    /// No tag has two groups, no group is empty, and every entry stands in the
    /// group of its own tag.
    pub open spec fn wf(self) -> bool {
        &&& forall|i: int, j: int|
            0 <= i < j < self.groups.len() ==> self.groups[i].tag != self.groups[j].tag
        &&& forall|i: int| 0 <= i < self.groups.len() ==> self.groups[i].entries.len() > 0
        &&& forall|i: int, k: int|
            0 <= i < self.groups.len() && 0 <= k < self.groups[i].entries.len()
                ==> (#[trigger] self.groups[i].entries[k]).tag == self.groups[i].tag
    }

    /// Whether some entry was stored under `tag`.
    pub open spec fn has_tag(self, tag: Seq<char>) -> bool {
        exists|i: int| 0 <= i < self.groups.len() && self.groups[i].tag == tag
    }

    /// The place of the group of `tag`, where `has_tag(tag)`.
    pub open spec fn group_of(self, tag: Seq<char>) -> int {
        choose|i: int| 0 <= i < self.groups.len() && self.groups[i].tag == tag
    }

    /// The entries stored under `tag`, oldest first.
    pub open spec fn entries_under(self, tag: Seq<char>) -> Seq<EntryView> {
        if self.has_tag(tag) {
            self.groups[self.group_of(tag)].entries
        } else {
            Seq::empty()
        }
    }

    /// The tags under which entries are stored, in the order in which they
    /// first came.
    pub open spec fn tags(self) -> Seq<Seq<char>> {
        Seq::new(self.groups.len(), |i: int| self.groups[i].tag)
    }

    /// Every stored entry, tag after tag, each tag's entries oldest first.
    pub open spec fn all_entries(self) -> Seq<EntryView> {
        concat_groups(self.groups)
    }

    /// What the store tells the coordinator of itself.
    pub open spec fn summary(self) -> SummaryView {
        SummaryView {
            tags: self.tags(),
            current_entries: self.current_entries,
            max_entries: self.max_entries,
        }
    }

    /// Whether the counter stands below the ceiling.
    pub open spec fn has_room(self) -> bool {
        self.current_entries < self.max_entries
    }

    /// Whether the counter is the number of entries that are stored.
    pub open spec fn count_consistent(self) -> bool {
        self.current_entries == self.all_entries().len()
    }

    /// The store after `entry` went in: appended to the group of its tag, or
    /// in a new last group, and counted.
    pub open spec fn with_entry(self, entry: EntryView) -> StoreView {
        let groups = if self.has_tag(entry.tag) {
            let i = self.group_of(entry.tag);
            self.groups.update(
                i,
                TagGroup { tag: entry.tag, entries: self.groups[i].entries.push(entry) },
            )
        } else {
            self.groups.push(TagGroup { tag: entry.tag, entries: seq![entry] })
        };
        StoreView { groups, current_entries: (self.current_entries + 1) as u64, ..self }
    }

    /// The store after a request to insert `entry`: with the entry where
    /// there was room, unchanged where there was none.
    pub open spec fn after_insert(self, entry: EntryView) -> StoreView {
        if self.has_room() {
            self.with_entry(entry)
        } else {
            self
        }
    }

    /// The store after requests to insert `entries`, one after the other.
    pub open spec fn after_inserts(self, entries: Seq<EntryView>) -> StoreView
        decreases entries.len(),
    {
        if entries.len() == 0 {
            self
        } else {
            self.after_inserts(entries.drop_last()).after_insert(entries.last())
        }
    }

    /// How many of the requests to insert `entries`, made one after the
    /// other, succeed.
    pub open spec fn accepted(self, entries: Seq<EntryView>) -> nat
        decreases entries.len(),
    {
        if entries.len() == 0 {
            0
        } else {
            let earlier = self.accepted(entries.drop_last());
            if self.after_inserts(entries.drop_last()).has_room() {
                earlier + 1
            } else {
                earlier
            }
        }
    }

    /// What `caller` gets to see of `tag`: the entries under it that `caller`
    /// or an anonymous caller wrote, oldest first.
    pub open spec fn visible(self, tag: Seq<char>, caller: Seq<u8>) -> Seq<EntryView> {
        self.entries_under(tag).filter(visibility(caller))
    }
}

/// Replacing one group changes the number of entries by the difference of
/// the two groups' lengths.
proof fn lemma_concat_update_len(groups: Seq<TagGroup>, i: int, group: TagGroup)
    requires
        0 <= i < groups.len(),
    ensures
        concat_groups(groups.update(i, group)).len() == concat_groups(groups).len()
            - groups[i].entries.len() + group.entries.len(),
    decreases groups.len(),
{
    let updated = groups.update(i, group);
    if i == groups.len() - 1 {
        assert(updated.drop_last() =~= groups.drop_last());
    } else {
        assert(updated.drop_last() =~= groups.drop_last().update(i, group));
        lemma_concat_update_len(groups.drop_last(), i, group);
    }
}

impl StoreView {
    /// An entry that goes in lands last under its own tag, leaves the other
    /// tags alone, and is one entry more in a store that stays well-formed.
    pub proof fn lemma_with_entry(self, entry: EntryView)
        requires
            self.wf(),
        ensures
            self.with_entry(entry).wf(),
            self.with_entry(entry).entries_under(entry.tag) == self.entries_under(entry.tag).push(
                entry,
            ),
            forall|tag: Seq<char>|
                tag != entry.tag ==> #[trigger] self.with_entry(entry).entries_under(tag)
                    == self.entries_under(tag),
            self.with_entry(entry).all_entries().len() == self.all_entries().len() + 1,
            self.with_entry(entry).max_entries == self.max_entries,
            self.with_entry(entry).moderators == self.moderators,
    {
        let after = self.with_entry(entry);
        if self.has_tag(entry.tag) {
            let i = self.group_of(entry.tag);
            lemma_concat_update_len(self.groups, i, after.groups[i]);
            assert(after.groups[i].tag == entry.tag);
            assert(after.has_tag(entry.tag));
            assert(after.group_of(entry.tag) == i);
            assert forall|tag: Seq<char>| tag != entry.tag implies #[trigger] after.entries_under(
                tag,
            ) == self.entries_under(tag) by {
                if self.has_tag(tag) {
                    let j = self.group_of(tag);
                    assert(after.groups[j].tag == tag);
                    assert(after.group_of(tag) == j);
                } else {
                    if after.has_tag(tag) {
                        let j = after.group_of(tag);
                        assert(self.groups[j].tag == tag);
                    }
                }
            }
        } else {
            let n = self.groups.len() as int;
            assert(after.groups.drop_last() =~= self.groups);
            assert(after.groups[n].tag == entry.tag);
            assert(after.has_tag(entry.tag));
            assert(after.group_of(entry.tag) == n);
            assert(self.entries_under(entry.tag).push(entry) =~= seq![entry]);
            assert forall|tag: Seq<char>| tag != entry.tag implies #[trigger] after.entries_under(
                tag,
            ) == self.entries_under(tag) by {
                if self.has_tag(tag) {
                    let j = self.group_of(tag);
                    assert(after.groups[j].tag == tag);
                    assert(after.group_of(tag) == j);
                } else {
                    if after.has_tag(tag) {
                        let j = after.group_of(tag);
                        assert(self.groups[j].tag == tag);
                    }
                }
            }
        }
    }

    /// After any run of requests to insert, the counter has grown by the
    /// number of requests that succeeded and still stands at or below an
    /// unchanged ceiling; a counter that was the number of stored entries
    /// still is; and no request succeeds in a store whose counter has reached
    /// the ceiling.
    pub proof fn lemma_inserts_counted(self, entries: Seq<EntryView>)
        requires
            self.wf(),
        ensures
            self.after_inserts(entries).wf(),
            self.after_inserts(entries).max_entries == self.max_entries,
            self.after_inserts(entries).current_entries == self.current_entries + self.accepted(
                entries,
            ),
            self.after_inserts(entries).all_entries().len() == self.all_entries().len()
                + self.accepted(entries),
            self.count_consistent() ==> self.after_inserts(entries).count_consistent(),
            self.current_entries <= self.max_entries ==> self.after_inserts(
                entries,
            ).current_entries <= self.max_entries,
            self.current_entries >= self.max_entries ==> self.accepted(entries) == 0
                && self.after_inserts(entries) == self,
        decreases entries.len(),
    {
        if entries.len() > 0 {
            self.lemma_inserts_counted(entries.drop_last());
            let earlier = self.after_inserts(entries.drop_last());
            if earlier.has_room() {
                earlier.lemma_with_entry(entries.last());
            }
        }
    }

    /// What a caller sees of a tag is made of entries of that tag that the
    /// caller or an anonymous caller wrote, and every such entry under the
    /// tag is among them.
    pub proof fn lemma_visible_exact(self, tag: Seq<char>, caller: Seq<u8>)
        requires
            self.wf(),
        ensures
            forall|i: int|
                0 <= i < self.visible(tag, caller).len() ==> {
                    let e = #[trigger] self.visible(tag, caller)[i];
                    &&& e.tag == tag
                    &&& e.submitted_by == caller || e.submitted_by == anonymous_bytes()
                    &&& self.entries_under(tag).contains(e)
                },
            forall|k: int|
                0 <= k < self.entries_under(tag).len() && (#[trigger] self.entries_under(
                    tag,
                )[k]).visible_to(caller) ==> self.visible(tag, caller).contains(
                    self.entries_under(tag)[k],
                ),
    {
        let under = self.entries_under(tag);
        let pred = visibility(caller);
        assert forall|i: int| 0 <= i < self.visible(tag, caller).len() implies {
            let e = #[trigger] self.visible(tag, caller)[i];
            &&& e.tag == tag
            &&& e.submitted_by == caller || e.submitted_by == anonymous_bytes()
            &&& under.contains(e)
        } by {
            let e = self.visible(tag, caller)[i];
            under.lemma_filter_pred(pred, i);
            under.lemma_filter_contains_rev(pred, e);
        }
        assert forall|k: int| 0 <= k < under.len() && (#[trigger] under[k]).visible_to(
            caller,
        ) implies self.visible(tag, caller).contains(under[k]) by {
            under.lemma_filter_contains(pred, k);
        }
    }
}

/// The entries that came under one tag.
#[derive(Debug)]
pub struct TagEntries {
    pub tag: String,
    pub entries: Vec<BucketEntry>,
}

impl View for TagEntries {
    type V = TagGroup;

    open spec fn view(&self) -> TagGroup {
        TagGroup { tag: self.tag@, entries: entry_views(self.entries@) }
    }
}

/// The views of `groups`, in order.
pub open spec fn group_views(groups: Seq<TagEntries>) -> Seq<TagGroup> {
    Seq::new(groups.len(), |i: int| groups[i]@)
}

/// A copy of `entries`.
pub fn clone_entries(entries: &Vec<BucketEntry>) -> (copy: Vec<BucketEntry>)
    ensures
        entry_views(copy@) == entry_views(entries@),
{
    let mut copy: Vec<BucketEntry> = Vec::new();
    let mut i: usize = 0;
    while i < entries.len()
        invariant
            i <= entries@.len(),
            copy@.len() == i,
            forall|j: int| 0 <= j < i ==> copy@[j]@ == entries@[j]@,
        decreases entries@.len() - i,
    {
        copy.push(entries[i].clone());
        i += 1;
    }
    assert(entry_views(copy@) =~= entry_views(entries@));
    copy
}

/// All that a shard store holds, laid open for safekeeping.
#[derive(Debug)]
pub struct StoreSnapshot {
    pub entries: Vec<TagEntries>,
    pub current_entries: u64,
    pub bucket_max_entries: u64,
    pub content_moderators: Vec<Identity>,
}

impl View for StoreSnapshot {
    type V = StoreView;

    open spec fn view(&self) -> StoreView {
        StoreView {
            groups: group_views(self.entries@),
            current_entries: self.current_entries,
            max_entries: self.bucket_max_entries,
            moderators: identity_views(self.content_moderators@),
        }
    }
}

/// Whether the group at `i` is in order: not empty, made of entries of its
/// own tag, and of another tag than every group before it.
pub open spec fn group_in_order(groups: Seq<TagGroup>, i: int) -> bool {
    &&& groups[i].entries.len() > 0
    &&& forall|k: int|
        0 <= k < groups[i].entries.len() ==> (#[trigger] groups[i].entries[k]).tag == groups[i].tag
    &&& forall|j: int| 0 <= j < i ==> (#[trigger] groups[j]).tag != groups[i].tag
}

/// A store is well-formed just when each of its groups is in order.
pub proof fn lemma_wf_group_by_group(store: StoreView)
    ensures
        store.wf() == (forall|i: int|
            0 <= i < store.groups.len() ==> group_in_order(store.groups, i)),
{
    let groups = store.groups;
    if store.wf() {
        assert forall|i: int| 0 <= i < groups.len() implies group_in_order(groups, i) by {}
    }
    if forall|i: int| 0 <= i < groups.len() ==> group_in_order(groups, i) {
        assert forall|i: int, j: int| 0 <= i < j < groups.len() implies groups[i].tag
            != groups[j].tag by {
            assert(group_in_order(groups, j));
        }
        assert forall|i: int| 0 <= i < groups.len() implies groups[i].entries.len() > 0 by {
            assert(group_in_order(groups, i));
        }
        assert forall|i: int, k: int|
            0 <= i < groups.len() && 0 <= k < groups[i].entries.len() implies (
        #[trigger] groups[i].entries[k]).tag == groups[i].tag by {
            assert(group_in_order(groups, i));
        }
    }
}

/// Whether the group at `i` of `groups` is in order.
fn check_group(groups: &Vec<TagEntries>, i: usize) -> (ok: bool)
    requires
        i < groups@.len(),
    ensures
        ok == group_in_order(group_views(groups@), i as int),
{
    let ghost views = group_views(groups@);
    let group = &groups[i];
    if group.entries.len() == 0 {
        return false;
    }
    let mut k: usize = 0;
    while k < group.entries.len()
        invariant
            k <= group.entries@.len(),
            i < groups@.len(),
            group == groups@[i as int],
            views == group_views(groups@),
            forall|m: int| 0 <= m < k ==> (#[trigger] views[i as int].entries[m]).tag == views[i as int].tag,
        decreases group.entries@.len() - k,
    {
        if group.entries[k].tag != group.tag {
            assert(views[i as int].entries[k as int].tag != views[i as int].tag);
            return false;
        }
        k += 1;
    }
    let mut j: usize = 0;
    while j < i
        invariant
            j <= i < groups@.len(),
            group == groups@[i as int],
            views == group_views(groups@),
            forall|m: int| 0 <= m < j ==> (#[trigger] views[m]).tag != views[i as int].tag,
        decreases i - j,
    {
        if groups[j].tag == group.tag {
            assert(views[j as int].tag == views[i as int].tag);
            return false;
        }
        j += 1;
    }
    true
}

/// The state of one shard store.
#[derive(Debug)]
pub struct BusinessState {
    entries: Vec<TagEntries>,
    current_entries: u64,
    bucket_max_entries: u64,
    content_moderators: Vec<Identity>,
}

impl View for BusinessState {
    type V = StoreView;

    closed spec fn view(&self) -> StoreView {
        StoreView {
            groups: group_views(self.entries@),
            current_entries: self.current_entries,
            max_entries: self.bucket_max_entries,
            moderators: identity_views(self.content_moderators@),
        }
    }
}

/// The ceiling of a store unless told otherwise.
pub const DEFAULT_MAX_ENTRIES: u64 = 20;

impl Default for BusinessState {
    /// An empty store with the default ceiling.
    fn default() -> (state: BusinessState)
        ensures
            state@ == BusinessState::default_view(),
    {
        let state = BusinessState {
            entries: Vec::new(),
            current_entries: 0,
            bucket_max_entries: DEFAULT_MAX_ENTRIES,
            content_moderators: Vec::new(),
        };
        assert(state@.groups =~= Seq::empty());
        assert(state@.moderators =~= Seq::empty());
        state
    }
}

impl BusinessState {
    /// The store that `default` makes: empty, uncounted, with the default
    /// ceiling and no moderators.
    pub open spec fn default_view() -> StoreView {
        StoreView {
            groups: Seq::empty(),
            current_entries: 0,
            max_entries: DEFAULT_MAX_ENTRIES,
            moderators: Seq::empty(),
        }
    }

    /// All that the store holds, for safekeeping.
    pub fn snapshot(&self) -> (snapshot: StoreSnapshot)
        ensures
            snapshot@ == self@,
    {
        let mut entries: Vec<TagEntries> = Vec::new();
        let mut i: usize = 0;
        while i < self.entries.len()
            invariant
                i <= self.entries@.len(),
                entries@.len() == i,
                forall|j: int| 0 <= j < i ==> entries@[j]@ == self.entries@[j]@,
            decreases self.entries@.len() - i,
        {
            entries.push(
                TagEntries {
                    tag: self.entries[i].tag.clone(),
                    entries: clone_entries(&self.entries[i].entries),
                },
            );
            i += 1;
        }
        let snapshot = StoreSnapshot {
            entries,
            current_entries: self.current_entries,
            bucket_max_entries: self.bucket_max_entries,
            content_moderators: clone_identities(&self.content_moderators),
        };
        assert(snapshot@.groups =~= self@.groups);
        snapshot
    }

    /// The store that `snapshot` was taken of; `None` where `snapshot` is
    /// not in order and so was taken of no store.
    pub fn restore(snapshot: StoreSnapshot) -> (restored: Option<BusinessState>)
        ensures
            restored.is_some() == snapshot@.wf(),
            restored matches Some(state) ==> state@ == snapshot@,
    {
        let ghost views = group_views(snapshot.entries@);
        let mut i: usize = 0;
        while i < snapshot.entries.len()
            invariant
                i <= snapshot.entries@.len(),
                views == group_views(snapshot.entries@),
                forall|j: int| 0 <= j < i ==> group_in_order(views, j),
            decreases snapshot.entries@.len() - i,
        {
            if !check_group(&snapshot.entries, i) {
                proof {
                    lemma_wf_group_by_group(snapshot@);
                }
                return None;
            }
            i += 1;
        }
        proof {
            lemma_wf_group_by_group(snapshot@);
        }
        Some(
            BusinessState {
                entries: snapshot.entries,
                current_entries: snapshot.current_entries,
                bucket_max_entries: snapshot.bucket_max_entries,
                content_moderators: snapshot.content_moderators,
            },
        )
    }

    /// The capacity ceiling.
    pub fn max_entries(&self) -> (max: u64)
        ensures
            max == self@.max_entries,
    {
        self.bucket_max_entries
    }

    /// The entry counter.
    pub fn entries_count(&self) -> (count: u64)
        ensures
            count == self@.current_entries,
    {
        self.current_entries
    }

    /// The place of the group of `tag`, if entries are stored under it.
    fn find_group(&self, tag: &String) -> (found: Option<usize>)
        requires
            self@.wf(),
        ensures
            found.is_some() == self@.has_tag(tag@),
            found.is_some() ==> found.unwrap() == self@.group_of(tag@),
    {
        let mut i: usize = 0;
        while i < self.entries.len()
            invariant
                i <= self.entries@.len(),
                self@.wf(),
                forall|j: int| 0 <= j < i ==> self@.groups[j].tag != tag@,
            decreases self.entries@.len() - i,
        {
            if self.entries[i].tag == *tag {
                assert(self@.groups[i as int].tag == tag@);
                return Some(i);
            }
            i += 1;
        }
        None
    }

    /// Stores `entry` if the counter stands below the ceiling, and counts it;
    /// leaves the store as it is otherwise.
    pub fn add_entry(&mut self, entry: BucketEntry) -> (inserted: bool)
        requires
            old(self)@.wf(),
        ensures
            final(self)@.wf(),
            inserted == old(self)@.has_room(),
            final(self)@ == old(self)@.after_insert(entry@),
    {
        if self.current_entries < self.bucket_max_entries {
            let ghost before = self@;
            match self.find_group(&entry.tag) {
                Some(i) => {
                    let ghost group = self.entries@[i as int];
                    self.entries[i].entries.push(entry);
                    assert(entry_views(self.entries@[i as int].entries@) =~= entry_views(
                        group.entries@,
                    ).push(entry@));
                    assert(self@.groups =~= before.with_entry(entry@).groups);
                },
                None => {
                    let tag = entry.tag.clone();
                    let mut entries: Vec<BucketEntry> = Vec::new();
                    entries.push(entry);
                    self.entries.push(TagEntries { tag, entries });
                    assert(entry_views(entries@) =~= seq![entry@]);
                    assert(self@.groups =~= before.with_entry(entry@).groups);
                },
            }
            self.current_entries += 1;
            return true;
        }
        false
    }

    /// Sets the capacity ceiling.
    pub fn set_max_entries(&mut self, max_entries: u64)
        ensures
            final(self)@ == (StoreView { max_entries, ..old(self)@ }),
    {
        self.bucket_max_entries = max_entries;
    }

    /// Overwrites the entry counter.
    pub fn update_entries_count(&mut self, count: u64)
        ensures
            final(self)@ == (StoreView { current_entries: count, ..old(self)@ }),
    {
        self.current_entries = count;
    }

    /// The entries under `tag` that `submitted_by` or an anonymous caller
    /// wrote, oldest first.
    pub fn list_entries(&self, tag: &str, submitted_by: Identity) -> (listed: Vec<BucketEntry>)
        requires
            self@.wf(),
        ensures
            entry_views(listed@) == self@.visible(tag@, submitted_by@),
    {
        let mut filtered_entries: Vec<BucketEntry> = Vec::new();
        let wanted = tag.to_owned();
        match self.find_group(&wanted) {
            Some(i) => {
                let group = &self.entries[i].entries;
                let ghost all = entry_views(group@);
                let ghost pred = visibility(submitted_by@);
                assert(all == self@.entries_under(tag@));
                assert(entry_views(filtered_entries@) =~= all.subrange(0, 0).filter(pred));
                let mut k: usize = 0;
                while k < group.len()
                    invariant
                        k <= group@.len(),
                        all == entry_views(group@),
                        pred == visibility(submitted_by@),
                        entry_views(filtered_entries@) == all.subrange(0, k as int).filter(pred),
                    decreases group@.len() - k,
                {
                    let ghost before = entry_views(filtered_entries@);
                    proof {
                        lemma_filter_step(all, k as int, pred);
                    }
                    if group[k].submitted_by.same_as(&submitted_by)
                        || group[k].submitted_by.is_anonymous() {
                        filtered_entries.push(group[k].clone());
                        assert(entry_views(filtered_entries@) =~= before.push(all[k as int]));
                    }
                    k += 1;
                }
                assert(all.subrange(0, k as int) == all);
            },
            None => {
                assert(entry_views(filtered_entries@) =~= Seq::<EntryView>::empty());
            },
        }
        filtered_entries
    }

    /// Every stored entry, whoever wrote it: tag after tag in the order in
    /// which the tags first came, each tag's entries oldest first.
    pub fn list_all_entries(&self) -> (listed: Vec<BucketEntry>)
        ensures
            entry_views(listed@) == self@.all_entries(),
    {
        let mut all_entries: Vec<BucketEntry> = Vec::new();
        let mut i: usize = 0;
        assert(entry_views(all_entries@) =~= concat_groups(self@.groups.subrange(0, 0)));
        while i < self.entries.len()
            invariant
                i <= self.entries@.len(),
                entry_views(all_entries@) == concat_groups(self@.groups.subrange(0, i as int)),
            decreases self.entries@.len() - i,
        {
            let group = &self.entries[i].entries;
            let ghost done = entry_views(all_entries@);
            let ghost all = entry_views(group@);
            let mut k: usize = 0;
            assert(entry_views(all_entries@) =~= done + all.subrange(0, 0));
            while k < group.len()
                invariant
                    k <= group@.len(),
                    all == entry_views(group@),
                    entry_views(all_entries@) == done + all.subrange(0, k as int),
                decreases group@.len() - k,
            {
                let ghost before = entry_views(all_entries@);
                all_entries.push(group[k].clone());
                assert(entry_views(all_entries@) =~= before.push(all[k as int]));
                assert(entry_views(all_entries@) =~= done + all.subrange(0, k + 1));
                k += 1;
            }
            proof {
                let next = self@.groups.subrange(0, i + 1);
                assert(all.subrange(0, k as int) == all);
                assert(next.drop_last() =~= self@.groups.subrange(0, i as int));
                assert(next.last().entries == all);
            }
            i += 1;
        }
        assert(self@.groups.subrange(0, i as int) == self@.groups);
        all_entries
    }

    /// The summary of this store: its tags, its counter and its ceiling.
    pub fn create_bucket_index(&self) -> (index: EffectiveIndex)
        ensures
            index@ == self@.summary(),
    {
        let mut all_keys: Vec<String> = Vec::new();
        let mut i: usize = 0;
        while i < self.entries.len()
            invariant
                i <= self.entries@.len(),
                all_keys@.len() == i,
                forall|j: int| 0 <= j < i ==> all_keys@[j]@ == self@.groups[j].tag,
            decreases self.entries@.len() - i,
        {
            all_keys.push(self.entries[i].tag.clone());
            i += 1;
        }
        let index = EffectiveIndex {
            tags: all_keys,
            current_entries: self.current_entries,
            bucket_max_entries: self.bucket_max_entries,
        };
        assert(index@.tags =~= self@.tags());
        index
    }

    /// Adds `moderator` to the moderators.
    pub fn add_content_moderator(&mut self, moderator: Identity)
        ensures
            final(self)@ == (StoreView {
                moderators: old(self)@.moderators.push(moderator@),
                ..old(self)@
            }),
    {
        self.content_moderators.push(moderator);
        assert(self@.moderators =~= old(self)@.moderators.push(moderator@));
    }

    /// Replaces the moderators by `moderators`.
    pub fn add_content_moderators(&mut self, moderators: Vec<Identity>)
        ensures
            final(self)@ == (StoreView {
                moderators: identity_views(moderators@),
                ..old(self)@
            }),
    {
        self.content_moderators = moderators;
    }

    /// The moderators.
    pub fn get_content_moderators(&self) -> (moderators: Vec<Identity>)
        ensures
            identity_views(moderators@) == self@.moderators,
    {
        clone_identities(&self.content_moderators)
    }
}

/// Where the publishing of a summary stands.
#[derive(Clone, Copy, Debug, PartialEq, Eq, Structural)]
pub enum IndexState {
    /// No attempt is under way.
    New,
    /// An attempt is under way; it drew this lock token.
    InSync(u32),
    /// The last attempt was acknowledged.
    Synced,
}

impl Default for IndexState {
    fn default() -> (state: IndexState)
        ensures
            state == IndexState::New,
    {
        IndexState::New
    }
}

impl IndexState {
    /// The state after the attempt that drew `lock` came back. A failure
    /// always makes room for a new attempt. A success commits only an attempt
    /// that is still the one under way, and changes nothing otherwise.
    pub open spec fn after_completion(self, lock: u32, succeeded: bool) -> IndexState {
        if !succeeded {
            IndexState::New
        } else if self == IndexState::InSync(lock) {
            IndexState::Synced
        } else {
            self
        }
    }

    /// An attempt whose token is not the one under way never commits: the
    /// state is `Synced` afterwards only if it was before or if the token
    /// matched.
    pub proof fn lemma_stale_completion_never_commits(self, lock: u32, succeeded: bool)
        requires
            self != IndexState::InSync(lock),
        ensures
            self.after_completion(lock, succeeded) == IndexState::Synced ==> self
                == IndexState::Synced && succeeded,
            succeeded ==> self.after_completion(lock, succeeded) == self,
    {
    }
}

/// A published summary as mathematical values.
pub struct BucketIndexView {
    pub effective_index: SummaryView,
    pub index_state: IndexState,
    pub last_updated: TimestampMillis,
}

/// The summary that the shard last made of itself, and how far its publishing
/// has come.
#[derive(Debug)]
pub struct BucketIndex {
    pub effective_index: EffectiveIndex,
    pub index_state: IndexState,
    pub last_updated: TimestampMillis,
}

impl View for BucketIndex {
    type V = BucketIndexView;

    open spec fn view(&self) -> BucketIndexView {
        BucketIndexView {
            effective_index: self.effective_index@,
            index_state: self.index_state,
            last_updated: self.last_updated,
        }
    }
}

impl Clone for BucketIndex {
    fn clone(&self) -> (copy: BucketIndex)
        ensures
            copy@ == self@,
    {
        BucketIndex {
            effective_index: self.effective_index.clone(),
            index_state: self.index_state,
            last_updated: self.last_updated,
        }
    }
}

impl BucketIndex {
    /// The index that `default` makes: an empty summary that was never
    /// made nor published.
    pub open spec fn default_view() -> BucketIndexView {
        BucketIndexView {
            effective_index: SummaryView { tags: Seq::empty(), current_entries: 0, max_entries: 0 },
            index_state: IndexState::New,
            last_updated: 0,
        }
    }
}

impl Default for BucketIndex {
    fn default() -> (index: BucketIndex)
        ensures
            index@ == BucketIndex::default_view(),
    {
        BucketIndex {
            effective_index: EffectiveIndex::default(),
            index_state: IndexState::New,
            last_updated: 0,
        }
    }
}

/// What a shard reports of itself to its operators.
#[derive(Debug)]
pub struct BucketMetrics {
    pub canister_id: Identity,
    pub cycles_balance: u128,
    pub controllers: Vec<Identity>,
    pub moderators: Vec<Identity>,
    pub index_canister_id: Identity,
    pub max_entries: u64,
    pub current_entries: u64,
    pub memory_used: u64,
}

} // verus!
