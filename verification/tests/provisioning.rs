use quickstart_scaling::identity::Identity;
use quickstart_scaling::index::businesslogic::{
    moderators_pushed, prep_lock_bucket, prep_push_moderators, push_moderators,
    should_spawn_buckets, spawn_bucket_loop, update_planned_bucket, BusinessState,
    PlannedBucketCanister, SpawnAction, SpawnEvent, SpawnStatus,
};
use quickstart_scaling::index::lifetime::{heartbeat, plan_bucket};
use quickstart_scaling::index::management::{
    create_args_for, install_args_for, operator, prep_canister_create,
};
use quickstart_scaling::index::{add_content_moderator_impl, Data, IndexCanisterSettings};
use quickstart_scaling::summary::EffectiveIndex;

const OPERATOR: &str = "l6s27-7ndcl-nowe5-xeyf7-ymdnq-dkemz-jkhfw-zr5wu-jvf2p-aupzq-2qe";

fn statuses(state: &BusinessState) -> Vec<SpawnStatus> {
    state.get_planned_buckets().iter().map(|p| p.spawn_status).collect()
}

fn with_free_slots(free: u64) -> Data {
    let mut data = Data::default();
    data.business_state.add_bucket_index(
        Identity::from_slice(&[1]),
        EffectiveIndex { tags: vec![], current_entries: 0, bucket_max_entries: free },
    );
    data
}

#[test]
fn default_settings() {
    let settings = IndexCanisterSettings::default();
    assert_eq!(settings.reindex_interval, 5_000_000_000);
    assert_eq!(settings.desired_free_slots, 60);
    let planned = PlannedBucketCanister::default();
    assert_eq!(planned.spawn_status, SpawnStatus::New);
    assert_eq!(planned.bucket_max_entries, 20);
    assert_eq!(SpawnStatus::default(), SpawnStatus::New);
}

#[test]
fn planner_counts_planned_capacity_as_reserved() {
    let mut data = with_free_slots(40);
    assert_eq!(data.business_state.get_free_slots(), 40);
    assert_eq!(data.business_state.get_planned_slots(), 0);
    assert!(should_spawn_buckets(&data));
    assert!(plan_bucket(&mut data));
    assert_eq!(statuses(&data.business_state), vec![SpawnStatus::New]);
    assert_eq!(data.business_state.get_planned_slots(), 20);

    assert!(!should_spawn_buckets(&data));
    assert!(!plan_bucket(&mut data));
    assert_eq!(statuses(&data.business_state), vec![SpawnStatus::New]);
}

#[test]
fn planner_plans_one_shard_a_tick_until_capacity_suffices() {
    let mut data = Data::default();
    assert!(plan_bucket(&mut data));
    assert!(plan_bucket(&mut data));
    assert_eq!(data.business_state.get_planned_slots(), 40);
    assert!(plan_bucket(&mut data));
    assert_eq!(data.business_state.get_planned_slots(), 60);
    assert!(!plan_bucket(&mut data));
    assert_eq!(data.business_state.get_planned_buckets().len(), 3);

    data.canister_settings.desired_free_slots = 61;
    assert!(plan_bucket(&mut data));
    data.canister_settings.desired_free_slots = 0;
    assert!(!plan_bucket(&mut data));
    data.canister_settings.desired_free_slots = u128::MAX;
    assert!(plan_bucket(&mut data));
}

#[test]
fn only_one_planned_shard_is_in_work() {
    let mut state = BusinessState::default();
    assert_eq!(prep_lock_bucket(&mut state, 11), None);
    state.add_planned_bucket();
    state.add_planned_bucket();
    assert_eq!(prep_lock_bucket(&mut state, 11), Some(11));
    assert_eq!(statuses(&state), vec![SpawnStatus::InWork(11), SpawnStatus::New]);
    assert_eq!(prep_lock_bucket(&mut state, 12), None);
    assert_eq!(statuses(&state), vec![SpawnStatus::InWork(11), SpawnStatus::New]);

    update_planned_bucket(true, 12, &mut state);
    assert_eq!(statuses(&state), vec![SpawnStatus::InWork(11), SpawnStatus::New]);
    update_planned_bucket(true, 11, &mut state);
    assert_eq!(statuses(&state), vec![SpawnStatus::Installed, SpawnStatus::New]);
    assert_eq!(state.get_planned_slots(), 20);
    assert_eq!(state.get_planned_buckets()[0].bucket_max_entries, 0);

    assert_eq!(prep_lock_bucket(&mut state, 0), Some(0));
    assert_eq!(statuses(&state), vec![SpawnStatus::Installed, SpawnStatus::InWork(0)]);
    update_planned_bucket(false, 0, &mut state);
    assert_eq!(statuses(&state), vec![SpawnStatus::Installed, SpawnStatus::New]);
    assert_eq!(state.get_planned_slots(), 20);
}

#[test]
fn failed_provisioning_lets_the_shard_wait_again() {
    let mut state = BusinessState::default();
    state.add_planned_bucket();
    let controller = Identity::from_slice(&[9, 9]);

    let action = spawn_bucket_loop(
        &mut state,
        SpawnEvent::Tick { lock: 5, controller_id: controller.clone() },
    );
    let lock = match action {
        SpawnAction::Create { lock, args } => {
            assert_eq!(args.cycles, 100_000_000_000);
            assert_eq!(
                args.settings.controllers,
                Some(vec![controller.clone(), Identity::from_text(OPERATOR).unwrap()])
            );
            assert!(args.settings.compute_allocation.is_none());
            assert!(args.settings.memory_allocation.is_none());
            assert!(args.settings.freezing_threshold.is_none());
            lock
        }
        other => panic!("unexpected {:?}", other),
    };
    assert_eq!(lock, 5);
    assert_eq!(statuses(&state), vec![SpawnStatus::InWork(5)]);

    let action = spawn_bucket_loop(
        &mut state,
        SpawnEvent::Created { lock, canister_id: Identity::anonymous() },
    );
    assert!(matches!(action, SpawnAction::Nothing));
    assert_eq!(statuses(&state), vec![SpawnStatus::New]);
    assert_eq!(state.get_planned_slots(), 20);

    let action =
        spawn_bucket_loop(&mut state, SpawnEvent::Tick { lock: 6, controller_id: controller });
    assert!(matches!(action, SpawnAction::Create { lock: 6, .. }));
    assert_eq!(statuses(&state), vec![SpawnStatus::InWork(6)]);

    let created = Identity::from_slice(&[1, 2, 3]);
    let action =
        spawn_bucket_loop(&mut state, SpawnEvent::Created { lock: 6, canister_id: created.clone() });
    match action {
        SpawnAction::Install { lock, canister_id, arg } => {
            assert_eq!(lock, 6);
            assert_eq!(canister_id, created);
            assert_eq!(arg.greet, "Hello from Index");
            assert_eq!(arg.controllers, vec![Identity::from_text(OPERATOR).unwrap()]);
        }
        other => panic!("unexpected {:?}", other),
    }
    assert_eq!(statuses(&state), vec![SpawnStatus::InWork(6)]);

    let action =
        spawn_bucket_loop(&mut state, SpawnEvent::InstallFinished { lock: 6, installed: false });
    assert!(matches!(action, SpawnAction::Nothing));
    assert_eq!(statuses(&state), vec![SpawnStatus::New]);
}

#[test]
fn stale_completion_resolves_nothing() {
    let mut state = BusinessState::default();
    state.add_planned_bucket();
    let controller = Identity::from_slice(&[9]);
    spawn_bucket_loop(&mut state, SpawnEvent::Tick { lock: 1, controller_id: controller.clone() });
    spawn_bucket_loop(&mut state, SpawnEvent::InstallFinished { lock: 1, installed: false });
    spawn_bucket_loop(&mut state, SpawnEvent::Tick { lock: 2, controller_id: controller });
    assert_eq!(statuses(&state), vec![SpawnStatus::InWork(2)]);

    spawn_bucket_loop(&mut state, SpawnEvent::InstallFinished { lock: 1, installed: true });
    assert_eq!(statuses(&state), vec![SpawnStatus::InWork(2)]);
    assert_eq!(state.get_planned_slots(), 20);

    spawn_bucket_loop(&mut state, SpawnEvent::InstallFinished { lock: 2, installed: true });
    assert_eq!(statuses(&state), vec![SpawnStatus::Installed]);
    assert_eq!(state.get_planned_slots(), 0);
}

#[test]
fn a_tick_with_nothing_planned_asks_for_nothing() {
    let mut state = BusinessState::default();
    let action = spawn_bucket_loop(
        &mut state,
        SpawnEvent::Tick { lock: 3, controller_id: Identity::from_slice(&[9]) },
    );
    assert!(matches!(action, SpawnAction::Nothing));
    assert_eq!(statuses(&state), Vec::<SpawnStatus>::new());
}

#[test]
fn heartbeat_rebuilds_plans_and_claims() {
    let mut data = with_free_slots(40);
    let me = Identity::from_slice(&[7]);
    let action = heartbeat(&mut data, 5_000_000_001, 77, me.clone());
    assert!(matches!(action, SpawnAction::Create { lock: 77, .. }));
    assert_eq!(statuses(&data.business_state), vec![SpawnStatus::InWork(77)]);
    assert_eq!(data.business_state.get_global_index().last_updated, 5_000_000_001);

    let action = heartbeat(&mut data, 5_000_000_002, 78, me.clone());
    assert!(matches!(action, SpawnAction::Nothing));
    assert_eq!(statuses(&data.business_state), vec![SpawnStatus::InWork(77)]);
    assert_eq!(data.business_state.get_global_index().last_updated, 5_000_000_001);

    spawn_bucket_loop(
        &mut data.business_state,
        SpawnEvent::InstallFinished { lock: 77, installed: true },
    );
    let action = heartbeat(&mut data, 5_000_000_003, 79, me);
    assert!(matches!(action, SpawnAction::Create { lock: 79, .. }));
    assert_eq!(
        statuses(&data.business_state),
        vec![SpawnStatus::Installed, SpawnStatus::InWork(79)]
    );
}

#[test]
fn requests_name_the_coordinator_and_the_operator() {
    let me = Identity::from_slice(&[7]);
    let op = operator().unwrap();
    assert_eq!(op.to_text(), OPERATOR);
    let args = prep_canister_create(me.clone()).unwrap();
    assert_eq!(args.cycles, 100_000_000_000);
    assert_eq!(args.settings.controllers, Some(vec![me.clone(), op.clone()]));
    let args = create_args_for(me.clone(), Identity::from_slice(&[1]));
    assert_eq!(args.settings.controllers, Some(vec![me, Identity::from_slice(&[1])]));
    let arg = install_args_for(op.clone());
    assert_eq!(arg.greet, "Hello from Index");
    assert_eq!(arg.controllers, vec![op]);
}

#[test]
fn moderators_are_pushed_while_the_flag_is_up() {
    let mut data = with_free_slots(1);
    assert!(push_moderators(&data.business_state).is_none());
    add_content_moderator_impl(Identity::from_slice(&[8]), &mut data);
    let (buckets, moderators) = push_moderators(&data.business_state).unwrap();
    assert_eq!(buckets, vec![Identity::from_slice(&[1])]);
    assert_eq!(moderators, vec![Identity::from_slice(&[8])]);
    assert_eq!(prep_push_moderators(&data.business_state), (buckets, moderators));
    assert!(push_moderators(&data.business_state).is_some());
    moderators_pushed(&mut data.business_state);
    assert!(push_moderators(&data.business_state).is_none());
    assert_eq!(data.business_state.get_content_moderators(), vec![Identity::from_slice(&[8])]);
}
