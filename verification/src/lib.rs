//! A self-scaling, sharded content store: bounded shard stores that publish
//! capacity summaries, and a coordinator that indexes them, ranks shards for
//! new writes and plans new shards when free capacity runs low.

pub mod bucket;
pub mod identity;
pub mod index;
pub mod seq_lemmas;
pub mod summary;

use vstd::prelude::*;

verus! {

/// A point in time, as the host's clock reports it.
pub type TimestampMillis = u64;

} // verus!
