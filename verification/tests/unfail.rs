use blockstore::block::BlockPtr;
use blockstore::deployment::{
    BlockRange, FirehoseCursor, SubgraphError, SubgraphHealth, UnfailOutcome,
};
use blockstore::entity::{Entity, EntityKey, EntityModification, Value};
use blockstore::error::StoreError;
use blockstore::state::Deployment;
use blockstore::store::DeploymentStore;

fn uf_ptr(number: i32) -> BlockPtr {
    BlockPtr::new(format!("H{}", number).into_bytes(), number)
}

fn uf_entity(name: &str) -> Entity {
    let mut entity = Entity::new();
    entity.add("name".to_string(), Value::String(name.to_string()));
    entity
}

fn uf_error(id: &str, deterministic: bool, block: i32) -> SubgraphError {
    SubgraphError {
        id: id.to_string(),
        message: "failed".to_string(),
        deterministic,
        block_hash: Some(format!("H{}", block).into_bytes()),
        block_range: BlockRange { start: Some(block), end: None },
    }
}

fn uf_deployment(head: i32) -> Deployment {
    let mut dep = Deployment::new(
        "QmUnfail".to_string(),
        "sgd5".to_string(),
        vec![],
        vec![],
        "0.0.4".to_string(),
        None,
        None,
    );
    for number in [head - 1, head] {
        dep.transact(
            &vec![],
            &uf_ptr(number),
            &FirehoseCursor::at("cursor".to_string()),
            &vec![EntityModification::Overwrite {
                key: EntityKey::new("Token".to_string(), "1".to_string()),
                data: uf_entity(&format!("at {}", number)),
            }],
            &vec![],
            &vec![],
            &vec![],
        )
        .unwrap();
    }
    dep
}

#[test]
fn deterministic_error_at_head_is_unfailed_by_reverting() {
    let mut dep = uf_deployment(100);
    dep.fail_subgraph(uf_error("fatal", true, 100));
    assert_eq!(dep.health(), SubgraphHealth::Failed);
    assert_eq!(dep.fatal().unwrap().id, "fatal");
    let outcome = dep.unfail_deterministic_error(None, &uf_ptr(100), &uf_ptr(99)).unwrap();
    assert_eq!(outcome, UnfailOutcome::Unfailed);
    let head = dep.block_ptr().unwrap();
    assert_eq!(head.number, 99);
    assert_eq!(head.hash, b"H99".to_vec());
    assert!(dep.fatal().is_none());
    assert_eq!(dep.fatal_error, None);
    assert_eq!(dep.health(), SubgraphHealth::Healthy);
    assert_eq!(dep.error_count(), 0);
    assert_eq!(dep.block_cursor().position, None);
    assert_eq!(dep.table.rows.len(), 1);
    assert_eq!(dep.table.rows[0].end, None);
}

#[test]
fn parent_with_deterministic_errors_stays_unhealthy() {
    let mut dep = uf_deployment(100);
    dep.transact(
        &vec![],
        &uf_ptr(101),
        &FirehoseCursor::none(),
        &vec![],
        &vec![],
        &vec![uf_error("earlier", true, 0)],
        &vec![],
    )
    .unwrap();
    dep.transact(
        &vec![],
        &uf_ptr(102),
        &FirehoseCursor::none(),
        &vec![],
        &vec![],
        &vec![],
        &vec![],
    )
    .unwrap();
    dep.fail_subgraph(uf_error("fatal", true, 102));
    let outcome = dep.unfail_deterministic_error(None, &uf_ptr(102), &uf_ptr(101)).unwrap();
    assert_eq!(outcome, UnfailOutcome::Unfailed);
    assert_eq!(dep.health(), SubgraphHealth::Unhealthy);
    assert_eq!(dep.fatal_error, None);
    assert_eq!(dep.error_count(), 1);
    assert_eq!(dep.errors[0].id, "earlier");
    assert_eq!(dep.block_ptr().unwrap().number, 101);
}

#[test]
fn unfail_deterministic_leaves_other_deployments_alone() {
    // No fatal error.
    let mut dep = uf_deployment(100);
    assert_eq!(
        dep.unfail_deterministic_error(None, &uf_ptr(100), &uf_ptr(99)).unwrap(),
        UnfailOutcome::Noop
    );
    assert_eq!(dep.block_ptr().unwrap().number, 100);
    // A fatal error that is not deterministic.
    dep.fail_subgraph(uf_error("flaky", false, 100));
    assert_eq!(
        dep.unfail_deterministic_error(None, &uf_ptr(100), &uf_ptr(99)).unwrap(),
        UnfailOutcome::Noop
    );
    assert_eq!(dep.health(), SubgraphHealth::Failed);
    assert_eq!(dep.block_ptr().unwrap().number, 100);
    // A deterministic error of another block.
    let mut dep = uf_deployment(100);
    dep.fail_subgraph(uf_error("fatal", true, 98));
    assert_eq!(
        dep.unfail_deterministic_error(None, &uf_ptr(100), &uf_ptr(99)).unwrap(),
        UnfailOutcome::Noop
    );
    assert_eq!(dep.fatal().unwrap().id, "fatal");
    assert_eq!(dep.block_ptr().unwrap().number, 100);
    // A deterministic error without a block hash.
    let mut dep = uf_deployment(100);
    let mut error = uf_error("fatal", true, 100);
    error.block_hash = None;
    dep.fail_subgraph(error);
    assert_eq!(
        dep.unfail_deterministic_error(None, &uf_ptr(100), &uf_ptr(99)).unwrap(),
        UnfailOutcome::Noop
    );
    assert_eq!(dep.health(), SubgraphHealth::Failed);
}

#[test]
fn unfail_deterministic_respects_the_graft_point() {
    let mut dep = uf_deployment(100);
    dep.fail_subgraph(uf_error("fatal", true, 100));
    let res = dep.unfail_deterministic_error(Some(100), &uf_ptr(100), &uf_ptr(99));
    assert!(matches!(res, Err(StoreError::RevertPastGraft { target: 99, graft: 100 })));
    assert_eq!(dep.block_ptr().unwrap().number, 100);
    assert_eq!(dep.health(), SubgraphHealth::Failed);
    assert_eq!(dep.fatal().unwrap().id, "fatal");
}

#[test]
fn non_deterministic_error_is_unfailed_once_the_head_catches_up() {
    let mut dep = uf_deployment(100);
    dep.fail_subgraph(uf_error("flaky", false, 101));
    assert_eq!(dep.unfail_non_deterministic_error(&uf_ptr(100)).unwrap(), UnfailOutcome::Noop);
    assert_eq!(dep.health(), SubgraphHealth::Failed);
    assert_eq!(dep.error_count(), 1);
    assert_eq!(dep.unfail_non_deterministic_error(&uf_ptr(101)).unwrap(), UnfailOutcome::Unfailed);
    assert_eq!(dep.health(), SubgraphHealth::Healthy);
    assert_eq!(dep.fatal_error, None);
    assert_eq!(dep.error_count(), 0);
    assert_eq!(dep.block_ptr().unwrap().number, 100);
    // Nothing is left to unfail.
    assert_eq!(dep.unfail_non_deterministic_error(&uf_ptr(102)).unwrap(), UnfailOutcome::Noop);
}

#[test]
fn unfail_non_deterministic_ignores_deterministic_errors() {
    let mut dep = uf_deployment(100);
    dep.fail_subgraph(uf_error("fatal", true, 100));
    assert_eq!(dep.unfail_non_deterministic_error(&uf_ptr(200)).unwrap(), UnfailOutcome::Noop);
    assert_eq!(dep.health(), SubgraphHealth::Failed);
    assert_eq!(dep.error_count(), 1);
    // An error without a first block is never caught up with.
    let mut dep = uf_deployment(100);
    let mut error = uf_error("flaky", false, 100);
    error.block_range = BlockRange { start: None, end: None };
    dep.fail_subgraph(error);
    assert_eq!(dep.unfail_non_deterministic_error(&uf_ptr(200)).unwrap(), UnfailOutcome::Noop);
}

#[test]
fn store_unfails_with_the_facts_of_the_deployment() {
    let mut store = DeploymentStore::new(1, vec![1, 1]).unwrap();
    let mut dep = uf_deployment(100);
    assert_eq!(store.error_count(&dep).unwrap(), 0);
    dep.fail_subgraph(uf_error("fatal", true, 100));
    assert_eq!(store.error_count(&dep).unwrap(), 1);
    let outcome = store.unfail_deterministic_error(&mut dep, &uf_ptr(100), &uf_ptr(99)).unwrap();
    assert_eq!(outcome, UnfailOutcome::Unfailed);
    assert_eq!(dep.block_ptr().unwrap().number, 99);
    assert_eq!(store.error_count(&dep).unwrap(), 0);
    assert_eq!(
        store.unfail_deterministic_error(&mut dep, &uf_ptr(99), &uf_ptr(98)).unwrap(),
        UnfailOutcome::Noop
    );
}
