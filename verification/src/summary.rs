//! The summary that a shard publishes and the coordinator indexes.

use vstd::prelude::*;

verus! {

/// The views of the strings in `strings`, in order.
pub open spec fn string_views(strings: Seq<String>) -> Seq<Seq<char>> {
    Seq::new(strings.len(), |i: int| strings[i]@)
}

/// A copy of `strings`.
pub fn clone_strings(strings: &Vec<String>) -> (copy: Vec<String>)
    ensures
        string_views(copy@) == string_views(strings@),
{
    let mut copy: Vec<String> = Vec::new();
    let mut i: usize = 0;
    while i < strings.len()
        invariant
            i <= strings@.len(),
            copy@.len() == i,
            forall|j: int| 0 <= j < i ==> copy@[j]@ == strings@[j]@,
        decreases strings@.len() - i,
    {
        copy.push(strings[i].clone());
        i += 1;
    }
    assert(string_views(copy@) =~= string_views(strings@));
    copy
}

/// A summary as mathematical values.
pub struct SummaryView {
    pub tags: Seq<Seq<char>>,
    pub current_entries: u64,
    pub max_entries: u64,
}

impl SummaryView {
    /// Whether the shard still takes entries.
    pub open spec fn has_room(self) -> bool {
        self.current_entries < self.max_entries
    }

    /// The entries that the shard can still take.
    pub open spec fn free_slots(self) -> nat {
        if self.current_entries <= self.max_entries {
            (self.max_entries - self.current_entries) as nat
        } else {
            0
        }
    }
}

/// What a shard tells of itself: the tags it holds, how many entries it
/// counts and how many it takes at most.
#[derive(Debug, PartialEq, Eq)]
pub struct EffectiveIndex {
    pub tags: Vec<String>,
    pub current_entries: u64,
    pub bucket_max_entries: u64,
}

impl View for EffectiveIndex {
    type V = SummaryView;

    open spec fn view(&self) -> SummaryView {
        SummaryView {
            tags: string_views(self.tags@),
            current_entries: self.current_entries,
            max_entries: self.bucket_max_entries,
        }
    }
}

impl Clone for EffectiveIndex {
    fn clone(&self) -> (copy: EffectiveIndex)
        ensures
            copy@ == self@,
    {
        EffectiveIndex {
            tags: clone_strings(&self.tags),
            current_entries: self.current_entries,
            bucket_max_entries: self.bucket_max_entries,
        }
    }
}

impl Default for EffectiveIndex {
    /// The summary of a shard that holds nothing and takes nothing.
    fn default() -> (index: EffectiveIndex)
        ensures
            index@ == (SummaryView { tags: Seq::empty(), current_entries: 0, max_entries: 0 }),
    {
        let index = EffectiveIndex { tags: Vec::new(), current_entries: 0, bucket_max_entries: 0 };
        assert(string_views(index.tags@) =~= Seq::empty());
        index
    }
}

} // verus!
