use quickstart_scaling::bucket::businesslogic::{BucketEntry, BusinessState};
use quickstart_scaling::identity::Identity;

fn rabbit(body: &str, submitted_by: Identity) -> BucketEntry {
    BucketEntry {
        tag: "#rabbit".to_string(),
        body: body.to_string(),
        submitted_at: 0,
        submitted_by,
    }
}

#[test]
fn default_state() {
    let mut business_state = BusinessState::default();

    println!("{:?}", business_state);
    assert_eq!(business_state.max_entries(), 20);
    assert_eq!(business_state.entries_count(), 0);

    business_state.set_max_entries(40);
    assert_eq!(business_state.max_entries(), 40);
}

#[test]
fn test_insert() {
    let mut business_state = BusinessState::default();
    business_state.set_max_entries(10);

    let entry = BucketEntry {
        tag: "#rabbit".to_string(),
        body: "Rabbits are fluffy animals".to_string(),
        submitted_at: 0,
        submitted_by: Identity::anonymous(),
    };

    let res = business_state.add_entry(entry.clone());
    assert_eq!(res, true);
    assert_eq!(business_state.entries_count(), 1);

    let res = business_state.add_entry(entry.clone());
    assert_eq!(res, true);
    assert_eq!(business_state.entries_count(), 2);
}

#[test]
fn test_capacity() {
    let mut business_state = BusinessState::default();

    let entry = BucketEntry {
        tag: "#rabbit".to_string(),
        body: "Rabbits are fluffy animals".to_string(),
        submitted_at: 0,
        submitted_by: Identity::anonymous(),
    };

    business_state.set_max_entries(3);

    let res = business_state.add_entry(entry.clone());
    assert_eq!(res, true);
    let res = business_state.add_entry(entry.clone());
    assert_eq!(res, true);
    let res = business_state.add_entry(entry.clone());
    assert_eq!(res, true);
    let res = business_state.add_entry(entry.clone());
    assert_eq!(res, false);

    assert_eq!(business_state.entries_count(), 3);
    assert_eq!(business_state.list_all_entries().len(), 3);
}

#[test]
fn test_filter() {
    let user1: Identity = Identity::from_slice(&[1]);
    let user2: Identity = Identity::from_slice(&[2]);

    let mut business_state = BusinessState::default();
    business_state.set_max_entries(10);

    let entry = BucketEntry {
        tag: "#rabbit".to_string(),
        body: "Rabbits are fluffy animals".to_string(),
        submitted_at: 0,
        submitted_by: user1.clone(),
    };

    let _res = business_state.add_entry(entry.clone());

    let entry = BucketEntry {
        tag: "#rabbit".to_string(),
        body: "Rabbits are fluffy animals".to_string(),
        submitted_at: 0,
        submitted_by: user2.clone(),
    };

    let _res = business_state.add_entry(entry.clone());

    assert_eq!(business_state.list_all_entries().len(), 2);
    assert_eq!(business_state.list_entries("#rabbit", user1.clone()).len(), 1);
    assert_eq!(business_state.list_entries("#rabbit", user2.clone()).len(), 1);

    assert_eq!(business_state.list_entries("#dog", user1).len(), 0);
    assert_eq!(business_state.list_entries("#fox", user2).len(), 0);
}

#[test]
fn test_print() {
    let mut business_state = BusinessState::default();

    business_state.set_max_entries(3);

    let entry = BucketEntry {
        tag: "#rabbit".to_string(),
        body: "Rabbits are fluffy animals".to_string(),
        submitted_at: 0,
        submitted_by: Identity::anonymous(),
    };

    let _res = business_state.add_entry(entry.clone());

    let entry = BucketEntry {
        tag: "#rabbit".to_string(),
        body: "Rabbits are cute animals".to_string(),
        submitted_at: 0,
        submitted_by: Identity::anonymous(),
    };
    let _res = business_state.add_entry(entry.clone());

    let entry = BucketEntry {
        tag: "#rabbit".to_string(),
        body: "Rabbits are cute and fluffy animals".to_string(),
        submitted_at: 0,
        submitted_by: Identity::anonymous(),
    };
    let _res = business_state.add_entry(entry.clone());

    let all_entries = business_state.list_all_entries();

    println!("{:?}", all_entries);
}

#[test]
fn full_store_is_left_alone() {
    let mut business_state = BusinessState::default();
    business_state.set_max_entries(1);
    assert!(business_state.add_entry(rabbit("first", Identity::anonymous())));
    assert!(!business_state.add_entry(rabbit("second", Identity::anonymous())));
    assert!(!business_state.add_entry(BucketEntry {
        tag: "#dog".to_string(),
        body: "third".to_string(),
        submitted_at: 7,
        submitted_by: Identity::from_slice(&[9]),
    }));
    let all = business_state.list_all_entries();
    assert_eq!(all.len(), 1);
    assert_eq!(all[0].body, "first");
    assert_eq!(business_state.create_bucket_index().tags, vec!["#rabbit".to_string()]);
    assert_eq!(business_state.entries_count(), 1);
}

#[test]
fn zero_capacity_takes_nothing() {
    let mut business_state = BusinessState::default();
    business_state.set_max_entries(0);
    assert!(!business_state.add_entry(rabbit("first", Identity::anonymous())));
    assert_eq!(business_state.entries_count(), 0);
    assert_eq!(business_state.list_all_entries().len(), 0);
}

#[test]
fn counter_follows_every_insert() {
    let mut business_state = BusinessState::default();
    business_state.set_max_entries(5);
    let mut accepted: u64 = 0;
    for i in 0..9u8 {
        let tag = if i % 2 == 0 { "#even" } else { "#odd" };
        let ok = business_state.add_entry(BucketEntry {
            tag: tag.to_string(),
            body: format!("entry {}", i),
            submitted_at: i as u64,
            submitted_by: Identity::from_slice(&[i]),
        });
        assert_eq!(ok, i < 5);
        if ok {
            accepted += 1;
        }
        assert_eq!(business_state.entries_count(), accepted);
        assert_eq!(business_state.list_all_entries().len() as u64, accepted);
    }
    assert_eq!(accepted, 5);
}

#[test]
fn listing_shows_own_and_anonymous_entries_only() {
    let alice = Identity::from_slice(&[1, 1]);
    let bob = Identity::from_slice(&[2, 2]);
    let mut business_state = BusinessState::default();
    assert!(business_state.add_entry(rabbit("by alice", alice.clone())));
    assert!(business_state.add_entry(rabbit("by nobody", Identity::anonymous())));
    assert!(business_state.add_entry(rabbit("by bob", bob.clone())));
    assert!(business_state.add_entry(BucketEntry {
        tag: "#dog".to_string(),
        body: "dog by alice".to_string(),
        submitted_at: 3,
        submitted_by: alice.clone(),
    }));
    assert!(business_state.add_entry(rabbit("more by alice", alice.clone())));

    let seen: Vec<String> =
        business_state.list_entries("#rabbit", alice.clone()).into_iter().map(|e| e.body).collect();
    assert_eq!(seen, vec!["by alice", "by nobody", "more by alice"]);

    let seen: Vec<String> =
        business_state.list_entries("#rabbit", bob.clone()).into_iter().map(|e| e.body).collect();
    assert_eq!(seen, vec!["by nobody", "by bob"]);

    let stranger = Identity::from_slice(&[3]);
    let seen: Vec<String> =
        business_state.list_entries("#rabbit", stranger.clone()).into_iter().map(|e| e.body).collect();
    assert_eq!(seen, vec!["by nobody"]);
    assert_eq!(business_state.list_entries("#dog", stranger).len(), 0);

    let seen: Vec<String> = business_state
        .list_entries("#rabbit", Identity::anonymous())
        .into_iter()
        .map(|e| e.body)
        .collect();
    assert_eq!(seen, vec!["by nobody"]);
}

#[test]
fn list_all_goes_tag_by_tag() {
    let mut business_state = BusinessState::default();
    let who = Identity::from_slice(&[5]);
    for (tag, body) in [("#a", "1"), ("#b", "2"), ("#a", "3"), ("#c", "4"), ("#b", "5")] {
        assert!(business_state.add_entry(BucketEntry {
            tag: tag.to_string(),
            body: body.to_string(),
            submitted_at: 1,
            submitted_by: who.clone(),
        }));
    }
    let bodies: Vec<String> =
        business_state.list_all_entries().into_iter().map(|e| e.body).collect();
    assert_eq!(bodies, vec!["1", "3", "2", "5", "4"]);
    let index = business_state.create_bucket_index();
    assert_eq!(index.tags, vec!["#a".to_string(), "#b".to_string(), "#c".to_string()]);
    assert_eq!(index.current_entries, 5);
    assert_eq!(index.bucket_max_entries, 20);
}

#[test]
fn counter_can_be_overwritten() {
    let mut business_state = BusinessState::default();
    business_state.update_entries_count(20);
    assert_eq!(business_state.entries_count(), 20);
    assert!(!business_state.add_entry(rabbit("late", Identity::anonymous())));
    business_state.update_entries_count(19);
    assert!(business_state.add_entry(rabbit("in time", Identity::anonymous())));
    assert_eq!(business_state.entries_count(), 20);
}

#[test]
fn moderators_are_added_and_replaced() {
    let mut business_state = BusinessState::default();
    assert_eq!(business_state.get_content_moderators().len(), 0);
    business_state.add_content_moderator(Identity::from_slice(&[1]));
    business_state.add_content_moderator(Identity::from_slice(&[2]));
    assert_eq!(
        business_state.get_content_moderators(),
        vec![Identity::from_slice(&[1]), Identity::from_slice(&[2])]
    );
    business_state.add_content_moderators(vec![Identity::from_slice(&[7])]);
    assert_eq!(business_state.get_content_moderators(), vec![Identity::from_slice(&[7])]);
}

#[test]
fn default_entry_is_empty_and_anonymous() {
    let entry = BucketEntry::default();
    assert_eq!(entry.tag, "");
    assert_eq!(entry.body, "");
    assert_eq!(entry.submitted_at, 0);
    assert!(entry.submitted_by.is_anonymous());
}

#[test]
fn store_snapshot_round_trip() {
    let mut business_state = BusinessState::default();
    business_state.set_max_entries(7);
    let who = Identity::from_slice(&[5]);
    for (tag, body) in [("#a", "1"), ("#b", "2"), ("#a", "3")] {
        assert!(business_state.add_entry(BucketEntry {
            tag: tag.to_string(),
            body: body.to_string(),
            submitted_at: 1,
            submitted_by: who.clone(),
        }));
    }
    business_state.add_content_moderator(Identity::from_slice(&[8]));

    let snapshot = business_state.snapshot();
    assert_eq!(snapshot.entries.len(), 2);
    assert_eq!(snapshot.entries[0].tag, "#a");
    assert_eq!(snapshot.entries[0].entries.len(), 2);
    assert_eq!(snapshot.current_entries, 3);
    assert_eq!(snapshot.bucket_max_entries, 7);

    let restored = BusinessState::restore(snapshot).unwrap();
    assert_eq!(restored.entries_count(), 3);
    assert_eq!(restored.max_entries(), 7);
    let bodies: Vec<String> = restored.list_all_entries().into_iter().map(|e| e.body).collect();
    assert_eq!(bodies, vec!["1", "3", "2"]);
    assert_eq!(restored.list_entries("#a", who).len(), 2);
    assert_eq!(restored.get_content_moderators(), vec![Identity::from_slice(&[8])]);
}

#[test]
fn inconsistent_store_snapshots_are_refused() {
    let mut business_state = BusinessState::default();
    assert!(business_state.add_entry(rabbit("one", Identity::anonymous())));
    assert!(BusinessState::restore(business_state.snapshot()).is_some());

    let mut snapshot = business_state.snapshot();
    snapshot.entries[0].tag = "#fox".to_string();
    assert!(BusinessState::restore(snapshot).is_none());

    let mut snapshot = business_state.snapshot();
    snapshot.entries[0].entries.clear();
    assert!(BusinessState::restore(snapshot).is_none());

    let mut snapshot = business_state.snapshot();
    let twin = business_state.snapshot().entries.remove(0);
    snapshot.entries.push(twin);
    assert!(BusinessState::restore(snapshot).is_none());

    let mut snapshot = business_state.snapshot();
    snapshot.current_entries = 40;
    let restored = BusinessState::restore(snapshot).unwrap();
    assert_eq!(restored.entries_count(), 40);
}
