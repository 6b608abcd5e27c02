use quickstart_scaling::bucket::businesslogic::{BucketIndex, IndexState};
use quickstart_scaling::bucket::lifetime::{
    generate_bucket_index, heartbeat, send_index, send_index_completed,
};
use quickstart_scaling::bucket::{
    add_content_moderators_impl, get_all_impl, get_bucket_index_impl, get_by_tag_impl,
    get_metrics_impl, init, is_content_moderator, is_controller, post_content_impl,
    BucketCanisterSettings, Data,
};
use quickstart_scaling::identity::Identity;
use quickstart_scaling::summary::EffectiveIndex;

fn shard() -> Data {
    init(Identity::from_slice(&[100]), &vec![Identity::from_slice(&[101])])
}

#[test]
fn init_makes_the_caller_coordinator_and_controller() {
    let data = shard();
    assert_eq!(
        data.canister_settings.controllers,
        vec![Identity::from_slice(&[100]), Identity::from_slice(&[101])]
    );
    assert_eq!(data.canister_settings.index_canister_id, Some(Identity::from_slice(&[100])));
    assert_eq!(data.canister_settings.reindex_interval, 5_000_000_000);
    assert_eq!(data.business_state.max_entries(), 20);
    assert_eq!(data.bucket_index.index_state, IndexState::New);
    assert_eq!(data.bucket_index.last_updated, 0);
    assert_eq!(data.bucket_index.effective_index, EffectiveIndex::default());

    let settings = BucketCanisterSettings::default();
    assert!(settings.controllers.is_empty());
    assert_eq!(settings.index_canister_id, None);
    assert_eq!(IndexState::default(), IndexState::New);
    assert_eq!(BucketIndex::default().last_updated, 0);
}

#[test]
fn guards_let_members_pass() {
    let mut data = shard();
    assert_eq!(is_controller(&Identity::from_slice(&[100]), &data), Ok(()));
    assert_eq!(is_controller(&Identity::from_slice(&[101]), &data), Ok(()));
    assert_eq!(
        is_controller(&Identity::from_slice(&[1]), &data),
        Err("You are not a controller".to_string())
    );
    assert_eq!(
        is_content_moderator(&Identity::from_slice(&[100]), &data),
        Err("You are not a moderator".to_string())
    );
    add_content_moderators_impl(vec![Identity::from_slice(&[5])], &mut data);
    assert_eq!(is_content_moderator(&Identity::from_slice(&[5]), &data), Ok(()));
    assert_eq!(
        is_content_moderator(&Identity::anonymous(), &data),
        Err("You are not a moderator".to_string())
    );
}

#[test]
fn posted_content_is_stamped_and_listed() {
    let mut data = shard();
    data.business_state.set_max_entries(2);
    let alice = Identity::from_slice(&[1]);
    assert!(post_content_impl("#a".to_string(), "one".to_string(), 11, alice.clone(), &mut data));
    assert!(post_content_impl(
        "#a".to_string(),
        "two".to_string(),
        12,
        Identity::anonymous(),
        &mut data
    ));
    assert!(!post_content_impl("#a".to_string(), "three".to_string(), 13, alice.clone(), &mut data));

    let mine = get_by_tag_impl("#a".to_string(), alice.clone(), &data);
    assert_eq!(mine.len(), 2);
    assert_eq!(mine[0].submitted_at, 11);
    assert_eq!(mine[0].submitted_by, alice);
    assert_eq!(mine[1].body, "two");
    assert_eq!(get_by_tag_impl("#a".to_string(), Identity::from_slice(&[2]), &data).len(), 1);
    assert_eq!(get_all_impl(&data).len(), 2);

    let metrics = get_metrics_impl(Identity::from_slice(&[50]), 1_000, 4096, &data);
    assert_eq!(metrics.canister_id, Identity::from_slice(&[50]));
    assert_eq!(metrics.cycles_balance, 1_000);
    assert_eq!(metrics.memory_used, 4096);
    assert_eq!(metrics.index_canister_id, Identity::from_slice(&[100]));
    assert_eq!(metrics.controllers.len(), 2);
    assert_eq!(metrics.moderators.len(), 0);
    assert_eq!(metrics.max_entries, 2);
    assert_eq!(metrics.current_entries, 2);
}

#[test]
fn summary_is_regenerated_once_the_interval_has_passed() {
    let mut data = shard();
    let who = Identity::from_slice(&[1]);
    assert!(post_content_impl("#a".to_string(), "one".to_string(), 1, who.clone(), &mut data));

    assert!(!generate_bucket_index(&mut data, 4_999_999_999));
    assert_eq!(get_bucket_index_impl(&data), EffectiveIndex::default());

    assert!(generate_bucket_index(&mut data, 5_000_000_000));
    let index = get_bucket_index_impl(&data);
    assert_eq!(index.tags, vec!["#a".to_string()]);
    assert_eq!(index.current_entries, 1);
    assert_eq!(index.bucket_max_entries, 20);
    assert_eq!(data.bucket_index.last_updated, 5_000_000_000);
    assert_eq!(data.bucket_index.index_state, IndexState::New);

    assert!(post_content_impl("#b".to_string(), "two".to_string(), 2, who, &mut data));
    assert!(!generate_bucket_index(&mut data, 9_999_999_999));
    assert!(!generate_bucket_index(&mut data, 3));
    assert_eq!(get_bucket_index_impl(&data).current_entries, 1);
    assert!(generate_bucket_index(&mut data, 10_000_000_000));
    assert_eq!(get_bucket_index_impl(&data).tags, vec!["#a".to_string(), "#b".to_string()]);
}

#[test]
fn only_one_push_is_under_way() {
    let mut data = shard();
    let push = send_index(&mut data, 41).unwrap();
    assert_eq!(push.lock, 41);
    assert_eq!(push.index_canister_id, Identity::from_slice(&[100]));
    assert_eq!(push.effective_index, EffectiveIndex::default());
    assert_eq!(data.bucket_index.index_state, IndexState::InSync(41));

    assert!(send_index(&mut data, 42).is_none());
    assert_eq!(data.bucket_index.index_state, IndexState::InSync(41));

    send_index_completed(&mut data, 41, true);
    assert_eq!(data.bucket_index.index_state, IndexState::Synced);

    assert!(send_index(&mut data, 43).is_some());
    assert_eq!(data.bucket_index.index_state, IndexState::InSync(43));
}

#[test]
fn stale_success_does_not_commit() {
    let mut data = shard();
    assert!(send_index(&mut data, 1).is_some());
    send_index_completed(&mut data, 2, true);
    assert_eq!(data.bucket_index.index_state, IndexState::InSync(1));

    send_index_completed(&mut data, 1, false);
    assert_eq!(data.bucket_index.index_state, IndexState::New);
    send_index_completed(&mut data, 1, true);
    assert_eq!(data.bucket_index.index_state, IndexState::New);

    assert!(send_index(&mut data, 3).is_some());
    send_index_completed(&mut data, 1, true);
    assert_eq!(data.bucket_index.index_state, IndexState::InSync(3));
    send_index_completed(&mut data, 3, true);
    assert_eq!(data.bucket_index.index_state, IndexState::Synced);
    send_index_completed(&mut data, 9, true);
    assert_eq!(data.bucket_index.index_state, IndexState::Synced);
}

#[test]
fn failure_always_makes_room_for_a_retry() {
    let mut data = shard();
    assert!(send_index(&mut data, 1).is_some());
    send_index_completed(&mut data, 7, false);
    assert_eq!(data.bucket_index.index_state, IndexState::New);
    assert!(send_index(&mut data, 2).is_some());
    send_index_completed(&mut data, 2, true);
    send_index_completed(&mut data, 2, false);
    assert_eq!(data.bucket_index.index_state, IndexState::New);
}

#[test]
fn ticks_debounce_and_do_not_overlap() {
    let mut data = shard();
    assert!(heartbeat(&mut data, 4_999_999_999, 1).is_none());
    assert_eq!(data.bucket_index.index_state, IndexState::New);

    assert!(post_content_impl(
        "#a".to_string(),
        "one".to_string(),
        1,
        Identity::anonymous(),
        &mut data
    ));
    let push = heartbeat(&mut data, 5_000_000_000, 2).unwrap();
    assert_eq!(push.lock, 2);
    assert_eq!(push.effective_index.tags, vec!["#a".to_string()]);
    assert_eq!(push.effective_index.current_entries, 1);
    assert_eq!(data.bucket_index.index_state, IndexState::InSync(2));
    assert_eq!(data.bucket_index.last_updated, 5_000_000_000);

    assert!(heartbeat(&mut data, 5_000_000_001, 3).is_none());
    assert_eq!(data.bucket_index.last_updated, 5_000_000_000);

    assert!(heartbeat(&mut data, 10_000_000_000, 4).is_none());
    assert_eq!(data.bucket_index.index_state, IndexState::InSync(2));
    assert_eq!(data.bucket_index.last_updated, 10_000_000_000);

    send_index_completed(&mut data, 2, false);
    assert!(heartbeat(&mut data, 10_000_000_001, 5).is_none());
    assert_eq!(data.bucket_index.index_state, IndexState::New);
    let push = heartbeat(&mut data, 15_000_000_000, 6).unwrap();
    assert_eq!(push.lock, 6);
    send_index_completed(&mut data, 6, true);
    assert_eq!(data.bucket_index.index_state, IndexState::Synced);
    assert!(heartbeat(&mut data, 20_000_000_000, 7).is_some());
    assert_eq!(data.bucket_index.index_state, IndexState::InSync(7));
}
