use blockstore::block::BlockPtr;
use blockstore::cancel::CancelHandle;
use blockstore::deployment::{DeploymentState, FirehoseCursor, GraftPoint};
use blockstore::entity::{Entity, EntityKey, EntityModification, Value};
use blockstore::error::{ConstraintViolation, StoreError};
use blockstore::prune::{check_prune, PruneOutcome};
use blockstore::state::Deployment;

fn pr_key(id: &str) -> EntityKey {
    EntityKey::new("Token".to_string(), id.to_string())
}

fn pr_entity(name: &str) -> Entity {
    let mut entity = Entity::new();
    entity.add("name".to_string(), Value::String(name.to_string()));
    entity
}

fn pr_name(entity: &Entity) -> String {
    match entity.get("name") {
        Some(Value::String(name)) => name.clone(),
        other => panic!("no name: {:?}", other),
    }
}

fn pr_ptr(number: i32) -> BlockPtr {
    BlockPtr::new(vec![1, 2, 3], number)
}

fn pr_state(latest: i32, earliest: i32) -> DeploymentState {
    DeploymentState {
        id: "QmPrune".to_string(),
        latest_block: pr_ptr(latest),
        earliest_block_number: earliest,
    }
}

fn pr_deployment(graft: Option<i32>) -> Deployment {
    let graft = graft.map(|n| GraftPoint { base: "QmBase".to_string(), block: pr_ptr(n) });
    let mut dep = Deployment::new(
        "QmPrune".to_string(),
        "sgd3".to_string(),
        vec![],
        vec![],
        "0.0.4".to_string(),
        graft,
        None,
    );
    for number in [10, 20, 30, 40, 50, 60, 70, 80, 90, 100] {
        let name = format!("v{}", number);
        let mods = vec![
            EntityModification::Overwrite { key: pr_key("often"), data: pr_entity(&name) },
            if number == 10 {
                EntityModification::Insert { key: pr_key("once"), data: pr_entity("only") }
            } else if number == 40 {
                EntityModification::Insert { key: pr_key("short"), data: pr_entity("lived") }
            } else if number == 50 {
                EntityModification::Remove { key: pr_key("short") }
            } else {
                EntityModification::Remove { key: pr_key("never") }
            },
        ];
        dep.transact(
            &vec![],
            &pr_ptr(number),
            &FirehoseCursor::none(),
            &mods,
            &vec![],
            &vec![],
            &vec![],
        )
        .unwrap();
    }
    dep
}

fn pr_snapshot(dep: &Deployment) -> String {
    format!("{:?}", dep)
}

#[test]
fn check_prune_goes_through_the_conditions_in_order() {
    // Not enough history: nothing to do, whatever else is wrong.
    assert_eq!(check_prune(&pr_state(100, 60), Some(70), 50, 100), Ok(None));
    assert_eq!(check_prune(&pr_state(100, 60), None, 50, 250), Ok(None));
    // The earliest block must not move back.
    assert_eq!(
        check_prune(&pr_state(100, 60), Some(70), 50, 99),
        Err(ConstraintViolation::EarliestBlockMovesBack { from: 60, to: 50 })
    );
    // There must be a block between it and the last final block.
    assert_eq!(
        check_prune(&pr_state(100, 60), Some(95), 90, 10),
        Err(ConstraintViolation::TooCloseToHead { earliest: 90, reorg_threshold: 10, latest: 100 })
    );
    assert_eq!(
        check_prune(&pr_state(100, 60), None, 95, 10),
        Err(ConstraintViolation::TooCloseToHead { earliest: 95, reorg_threshold: 10, latest: 100 })
    );
    // It must not pass the graft point.
    assert_eq!(
        check_prune(&pr_state(100, 60), Some(69), 70, 10),
        Err(ConstraintViolation::PastGraftPoint { earliest: 70, graft: 69 })
    );
    assert_eq!(
        check_prune(&pr_state(100, 60), Some(0), 89, 10),
        Err(ConstraintViolation::PastGraftPoint { earliest: 89, graft: 0 })
    );
    // Else the last final block is the head less the threshold.
    assert_eq!(check_prune(&pr_state(100, 60), Some(70), 70, 10), Ok(Some(90)));
    assert_eq!(check_prune(&pr_state(100, 60), Some(80), 70, 10), Ok(Some(90)));
    assert_eq!(check_prune(&pr_state(100, 60), None, 60, 10), Ok(Some(90)));
    assert_eq!(check_prune(&pr_state(100, 60), None, 89, 10), Ok(Some(90)));
    assert_eq!(check_prune(&pr_state(100, 0), None, 0, 0), Ok(Some(100)));
}

#[test]
fn prune_below_the_floor_is_a_constraint_violation() {
    let mut dep = pr_deployment(None);
    dep.set_earliest_block(60);
    let before = pr_snapshot(&dep);
    let res = dep.prune(&CancelHandle::new(), 50, 10);
    match res {
        Err(StoreError::ConstraintViolation(ConstraintViolation::EarliestBlockMovesBack {
            from,
            to,
        })) => assert_eq!((from, to), (60, 50)),
        other => panic!("unexpected: {:?}", other),
    }
    assert!(res.unwrap_err().is_constraint_violation());
    assert_eq!(pr_snapshot(&dep), before);
    assert_eq!(dep.earliest_block_number, 60);
}

#[test]
fn prune_keeps_what_later_blocks_see() {
    let mut dep = pr_deployment(None);
    let rows_before = dep.table.rows.len();
    assert_eq!(rows_before, 12);
    let mut seen = Vec::new();
    for block in 55..=100 {
        for id in ["often", "once", "short", "never"] {
            seen.push(dep.get(&pr_key(id), block).map(pr_name));
        }
    }
    let count = dep.entity_count;
    assert_eq!(
        dep.prune(&CancelHandle::new(), 55, 30).unwrap(),
        PruneOutcome::Pruned { final_block: 70 }
    );
    assert_eq!(dep.earliest_block_number, 55);
    assert_eq!(dep.entity_count, count);
    // Versions that ended at block 50 or before are gone.
    assert_eq!(dep.table.rows.len(), 7);
    assert!(dep.table.rows.iter().all(|row| row.end.map_or(true, |end| end > 55)));
    let mut after = Vec::new();
    for block in 55..=100 {
        for id in ["often", "once", "short", "never"] {
            after.push(dep.get(&pr_key(id), block).map(pr_name));
        }
    }
    assert_eq!(seen, after);
    assert_eq!(dep.get(&pr_key("often"), 55).map(pr_name), Some("v50".to_string()));
    assert_eq!(dep.get(&pr_key("often"), 45).map(pr_name), None);
}

#[test]
fn earliest_block_never_decreases() {
    let mut dep = pr_deployment(None);
    let requests = [(20, 10), (10, 10), (50, 10), (50, 200), (45, 10), (95, 10), (60, 10), (55, 0)];
    let mut floor = dep.earliest_block_number;
    for (earliest, threshold) in requests {
        let res = dep.prune(&CancelHandle::new(), earliest, threshold);
        assert!(dep.earliest_block_number >= floor);
        if earliest < floor && threshold < 100 {
            assert!(matches!(res, Err(StoreError::ConstraintViolation(_))));
            assert_eq!(dep.earliest_block_number, floor);
        }
        floor = dep.earliest_block_number;
    }
    assert_eq!(floor, 60);
}

#[test]
fn prune_within_the_reorg_threshold_does_nothing() {
    let mut dep = pr_deployment(None);
    dep.set_earliest_block(60);
    let before = pr_snapshot(&dep);
    assert_eq!(dep.prune(&CancelHandle::new(), 50, 100).unwrap(), PruneOutcome::Skipped);
    assert_eq!(pr_snapshot(&dep), before);
}

#[test]
fn prune_stops_at_the_graft_point() {
    let mut dep = pr_deployment(Some(40));
    let before = pr_snapshot(&dep);
    match dep.prune(&CancelHandle::new(), 41, 10) {
        Err(StoreError::ConstraintViolation(ConstraintViolation::PastGraftPoint {
            earliest,
            graft,
        })) => assert_eq!((earliest, graft), (41, 40)),
        other => panic!("unexpected: {:?}", other),
    }
    assert_eq!(pr_snapshot(&dep), before);
    assert_eq!(
        dep.prune(&CancelHandle::new(), 40, 10).unwrap(),
        PruneOutcome::Pruned { final_block: 90 }
    );
    assert_eq!(dep.earliest_block_number, 40);
}

#[test]
fn prune_goes_step_by_step() {
    let mut dep = pr_deployment(Some(70));
    let before = pr_snapshot(&dep);
    // The first step: the check, unless a stop was asked for.
    assert!(matches!(dep.prune_checked(true, 55, 30), Err(StoreError::Canceled)));
    assert_eq!(dep.prune_checked(false, 55, 30).unwrap(), Some(70));
    assert_eq!(dep.prune_checked(false, 55, 100).unwrap(), None);
    assert!(matches!(
        dep.prune_checked(false, 71, 10),
        Err(StoreError::ConstraintViolation(ConstraintViolation::PastGraftPoint {
            earliest: 71,
            graft: 70
        }))
    ));
    assert!(matches!(dep.prune_checked(true, 71, 10), Err(StoreError::Canceled)));
    assert_eq!(pr_snapshot(&dep), before);
    // The second step: the earliest block.
    assert!(matches!(dep.persist_floor(true, 55), Err(StoreError::Canceled)));
    assert_eq!(pr_snapshot(&dep), before);
    dep.persist_floor(false, 55).unwrap();
    assert_eq!(dep.earliest_block_number, 55);
    assert_eq!(dep.table.rows.len(), 12);
    // The third step: the history.
    assert!(matches!(dep.reclaim_history(true, 55), Err(StoreError::Canceled)));
    assert_eq!(dep.table.rows.len(), 12);
    dep.reclaim_history(false, 55).unwrap();
    assert_eq!(dep.table.rows.len(), 7);
    // All in one gives the same.
    let mut whole = pr_deployment(Some(70));
    whole.prune(&CancelHandle::new(), 55, 30).unwrap();
    assert_eq!(pr_snapshot(&dep), pr_snapshot(&whole));
    let fresh = Deployment::new(
        "QmFresh".to_string(),
        "sgd14".to_string(),
        vec![],
        vec![],
        "0.0.4".to_string(),
        None,
        None,
    );
    assert!(matches!(fresh.prune_checked(false, 5, 1), Err(StoreError::NotStarted(_))));
    assert!(matches!(fresh.prune_checked(true, 5, 1), Err(StoreError::Canceled)));
}

#[test]
fn cancelled_prune_changes_nothing() {
    let mut dep = pr_deployment(None);
    let before = pr_snapshot(&dep);
    let cancel = CancelHandle::new();
    let shared = cancel.clone();
    assert!(!cancel.is_canceled());
    shared.cancel();
    assert!(cancel.is_canceled());
    assert!(matches!(dep.prune(&cancel, 55, 30), Err(StoreError::Canceled)));
    assert_eq!(pr_snapshot(&dep), before);
    assert!(matches!(dep.prune_by_copying(55, &cancel), Err(StoreError::Canceled)));
    assert_eq!(pr_snapshot(&dep), before);
    assert!(matches!(cancel.check_cancel(), Err(StoreError::Canceled)));
    assert!(CancelHandle::new().check_cancel().is_ok());
}

#[test]
fn prune_needs_a_head() {
    let mut dep = Deployment::new(
        "QmNew".to_string(),
        "sgd4".to_string(),
        vec![],
        vec![],
        "0.0.4".to_string(),
        None,
        None,
    );
    match dep.prune(&CancelHandle::new(), 5, 1) {
        Err(StoreError::NotStarted(id)) => assert_eq!(id, "QmNew"),
        other => panic!("unexpected: {:?}", other),
    }
    assert!(dep.state().is_err());
}
