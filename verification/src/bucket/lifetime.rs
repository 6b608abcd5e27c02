//! The summary agent: what a shard does on each tick of the host, and when
//! the push that a tick started comes back.

use crate::bucket::businesslogic::{BucketIndex, BucketIndexView, IndexState};
use crate::bucket::Data;
use crate::identity::Identity;
use crate::summary::EffectiveIndex;
use crate::TimestampMillis;
use vstd::prelude::*;

verus! {

/// A push that the host has to make: this summary, to this coordinator. The
/// lock token comes back with the outcome.
#[derive(Debug)]
pub struct IndexPush {
    pub lock: u32,
    pub effective_index: EffectiveIndex,
    pub index_canister_id: Identity,
}

/// Whether at `now` a summary is due again that was last made at `last`.
pub open spec fn reindex_due(
    now: TimestampMillis,
    last: TimestampMillis,
    interval: TimestampMillis,
) -> bool {
    now - last >= interval
}

/// Whether a new attempt to publish may start: none is under way.
pub open spec fn may_publish(state: IndexState) -> bool {
    !(state is InSync)
}

/// Makes a new summary of the store if one is due at `now`, and says whether
/// it did. The state of publishing is left alone.
pub fn generate_bucket_index(data: &mut Data, now: TimestampMillis) -> (regenerated: bool)
    ensures
        regenerated == reindex_due(
            now,
            old(data).bucket_index.last_updated,
            old(data).canister_settings.reindex_interval,
        ),
        regenerated ==> final(data).bucket_index@ == (BucketIndexView {
            effective_index: old(data).business_state@.summary(),
            index_state: old(data).bucket_index.index_state,
            last_updated: now,
        }),
        !regenerated ==> final(data).bucket_index == old(data).bucket_index,
        final(data).business_state == old(data).business_state,
        final(data).canister_settings == old(data).canister_settings,
{
    if now >= data.bucket_index.last_updated && now - data.bucket_index.last_updated
        >= data.canister_settings.reindex_interval {
        let effective_index = data.business_state.create_bucket_index();
        data.bucket_index = BucketIndex {
            effective_index,
            index_state: data.bucket_index.index_state,
            last_updated: now,
        };
        true
    } else {
        false
    }
}

/// Starts an attempt to publish the current summary under `lock`, unless one
/// is under way. The host makes the push that is returned.
pub fn send_index(data: &mut Data, lock: u32) -> (push: Option<IndexPush>)
    requires
        old(data).canister_settings.index_canister_id.is_some(),
    ensures
        push.is_some() == may_publish(old(data).bucket_index.index_state),
        push matches Some(order) ==> {
            &&& order.lock == lock
            &&& order.effective_index@ == old(data).bucket_index.effective_index@
            &&& order.index_canister_id@ == old(
                data,
            ).canister_settings.index_canister_id.unwrap()@
            &&& final(data).bucket_index@ == (BucketIndexView {
                index_state: IndexState::InSync(lock),
                ..old(data).bucket_index@
            })
        },
        push.is_none() ==> final(data).bucket_index == old(data).bucket_index,
        final(data).business_state == old(data).business_state,
        final(data).canister_settings == old(data).canister_settings,
{
    match data.bucket_index.index_state {
        IndexState::InSync(_) => None,
        _ => {
            let index_canister_id = match &data.canister_settings.index_canister_id {
                Some(id) => id.clone(),
                None => Identity::anonymous(),
            };
            data.bucket_index.index_state = IndexState::InSync(lock);
            Some(
                IndexPush {
                    lock,
                    effective_index: data.bucket_index.effective_index.clone(),
                    index_canister_id,
                },
            )
        },
    }
}

/// Records how the attempt that drew `lock` ended.
pub fn send_index_completed(data: &mut Data, lock: u32, succeeded: bool)
    ensures
        final(data).bucket_index@ == (BucketIndexView {
            index_state: old(data).bucket_index.index_state.after_completion(lock, succeeded),
            ..old(data).bucket_index@
        }),
        final(data).business_state == old(data).business_state,
        final(data).canister_settings == old(data).canister_settings,
{
    if !succeeded {
        data.bucket_index.index_state = IndexState::New;
    } else {
        match data.bucket_index.index_state {
            IndexState::InSync(current) => {
                if current == lock {
                    data.bucket_index.index_state = IndexState::Synced;
                }
            },
            _ => {},
        }
    }
}

/// One tick of a shard: nothing while no summary is due; else a new summary,
/// and an attempt to publish it under `lock` unless one is under way.
pub fn heartbeat(data: &mut Data, now: TimestampMillis, lock: u32) -> (push: Option<IndexPush>)
    requires
        old(data).canister_settings.index_canister_id.is_some(),
    ensures
        push.is_some() == (reindex_due(
            now,
            old(data).bucket_index.last_updated,
            old(data).canister_settings.reindex_interval,
        ) && may_publish(old(data).bucket_index.index_state)),
        push matches Some(order) ==> {
            &&& order.lock == lock
            &&& order.effective_index@ == old(data).business_state@.summary()
            &&& order.index_canister_id@ == old(
                data,
            ).canister_settings.index_canister_id.unwrap()@
        },
        final(data).bucket_index@ == if !reindex_due(
            now,
            old(data).bucket_index.last_updated,
            old(data).canister_settings.reindex_interval,
        ) {
            old(data).bucket_index@
        } else {
            BucketIndexView {
                effective_index: old(data).business_state@.summary(),
                index_state: if may_publish(old(data).bucket_index.index_state) {
                    IndexState::InSync(lock)
                } else {
                    old(data).bucket_index.index_state
                },
                last_updated: now,
            }
        },
        final(data).business_state == old(data).business_state,
        final(data).canister_settings == old(data).canister_settings,
{
    if generate_bucket_index(data, now) {
        send_index(data, lock)
    } else {
        None
    }
}

} // verus!
