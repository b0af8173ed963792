use blockstore::block::BlockPtr;
use blockstore::deployment::{
    BlockRange, FirehoseCursor, Interface, StoredDynamicDataSource, SubgraphError,
};
use blockstore::entity::{Entity, EntityKey, EntityModification, Value};
use blockstore::error::StoreError;
use blockstore::state::Deployment;
use blockstore::store::DeploymentStore;

fn tx_key(entity_type: &str, id: &str) -> EntityKey {
    EntityKey::new(entity_type.to_string(), id.to_string())
}

fn tx_entity(name: &str) -> Entity {
    let mut entity = Entity::new();
    entity.add("name".to_string(), Value::String(name.to_string()));
    entity
}

fn tx_name(entity: &Entity) -> String {
    match entity.get("name") {
        Some(Value::String(name)) => name.clone(),
        other => panic!("no name: {:?}", other),
    }
}

fn tx_ptr(number: i32) -> BlockPtr {
    BlockPtr::new(vec![number as u8, 0xab], number)
}

fn tx_deployment(interfaces: Vec<Interface>) -> Deployment {
    Deployment::new(
        "QmTransact".to_string(),
        "sgd1".to_string(),
        vec![],
        interfaces,
        "0.0.4".to_string(),
        None,
        None,
    )
}

fn tx_source(manifest_idx: u32, param: u8) -> StoredDynamicDataSource {
    StoredDynamicDataSource {
        manifest_idx,
        param: Some(vec![param]),
        context: None,
        creation_block: None,
    }
}

fn tx_apply(
    dep: &mut Deployment,
    number: i32,
    mods: Vec<EntityModification>,
) -> Result<Vec<String>, StoreError> {
    dep.transact(
        &vec![],
        &tx_ptr(number),
        &FirehoseCursor::none(),
        &mods,
        &vec![],
        &vec![],
        &vec![],
    )
    .map(|event| event.entity_types)
}

#[test]
fn insert_is_visible_from_its_block_on() {
    let mut dep = tx_deployment(vec![]);
    tx_apply(
        &mut dep,
        5,
        vec![EntityModification::Insert { key: tx_key("Token", "1"), data: tx_entity("a") }],
    )
    .unwrap();
    assert!(dep.get(&tx_key("Token", "1"), 4).is_none());
    assert_eq!(tx_name(dep.get(&tx_key("Token", "1"), 5).unwrap()), "a");
    assert_eq!(tx_name(dep.get(&tx_key("Token", "1"), 1000).unwrap()), "a");
    assert_eq!(dep.entity_count, 1);
    assert_eq!(dep.block_ptr().unwrap().number, 5);
    assert_eq!(dep.table.rows.len(), 1);
    assert_eq!(dep.table.rows[0].start, 5);
    assert_eq!(dep.table.rows[0].end, None);
}

#[test]
fn overwrite_closes_the_old_version_at_the_block() {
    let mut dep = tx_deployment(vec![]);
    tx_apply(
        &mut dep,
        5,
        vec![EntityModification::Insert { key: tx_key("Token", "1"), data: tx_entity("a") }],
    )
    .unwrap();
    tx_apply(
        &mut dep,
        8,
        vec![EntityModification::Overwrite { key: tx_key("Token", "1"), data: tx_entity("b") }],
    )
    .unwrap();
    assert_eq!(dep.table.rows.len(), 2);
    assert_eq!((dep.table.rows[0].start, dep.table.rows[0].end), (5, Some(8)));
    assert_eq!((dep.table.rows[1].start, dep.table.rows[1].end), (8, None));
    assert_eq!(tx_name(dep.get(&tx_key("Token", "1"), 7).unwrap()), "a");
    assert_eq!(tx_name(dep.get(&tx_key("Token", "1"), 8).unwrap()), "b");
    assert_eq!(dep.entity_count, 1);
}

#[test]
fn remove_leaves_no_current_version() {
    let mut dep = tx_deployment(vec![]);
    tx_apply(
        &mut dep,
        5,
        vec![
            EntityModification::Insert { key: tx_key("Token", "1"), data: tx_entity("a") },
            EntityModification::Insert { key: tx_key("Token", "2"), data: tx_entity("b") },
        ],
    )
    .unwrap();
    assert_eq!(dep.entity_count, 2);
    tx_apply(&mut dep, 6, vec![EntityModification::Remove { key: tx_key("Token", "1") }]).unwrap();
    assert_eq!(dep.entity_count, 1);
    assert_eq!(tx_name(dep.get(&tx_key("Token", "1"), 5).unwrap()), "a");
    assert!(dep.get(&tx_key("Token", "1"), 6).is_none());
    assert_eq!(tx_name(dep.get(&tx_key("Token", "2"), 6).unwrap()), "b");
    assert!(!dep.table.has_open_version(&tx_key("Token", "1")));
    assert!(dep.table.has_open_version(&tx_key("Token", "2")));
}

#[test]
fn overwrite_of_a_missing_entity_inserts_it() {
    let mut dep = tx_deployment(vec![]);
    tx_apply(
        &mut dep,
        3,
        vec![EntityModification::Overwrite { key: tx_key("Token", "9"), data: tx_entity("z") }],
    )
    .unwrap();
    assert_eq!(tx_name(dep.get(&tx_key("Token", "9"), 3).unwrap()), "z");
    assert_eq!(dep.entity_count, 1);
}

#[test]
fn at_most_one_version_is_valid_at_every_block() {
    let mut dep = tx_deployment(vec![]);
    let key = tx_key("Token", "1");
    tx_apply(
        &mut dep,
        1,
        vec![EntityModification::Insert { key: tx_key("Token", "1"), data: tx_entity("v1") }],
    )
    .unwrap();
    tx_apply(
        &mut dep,
        3,
        vec![EntityModification::Overwrite { key: tx_key("Token", "1"), data: tx_entity("v3") }],
    )
    .unwrap();
    tx_apply(&mut dep, 5, vec![EntityModification::Remove { key: tx_key("Token", "1") }]).unwrap();
    tx_apply(
        &mut dep,
        7,
        vec![EntityModification::Insert { key: tx_key("Token", "1"), data: tx_entity("v7") }],
    )
    .unwrap();
    dep.rewind_with_conn(None, tx_ptr(6), &FirehoseCursor::none()).unwrap();
    tx_apply(
        &mut dep,
        7,
        vec![EntityModification::Insert { key: tx_key("Token", "1"), data: tx_entity("w7") }],
    )
    .unwrap();
    let expected = [None, Some("v1"), Some("v1"), Some("v3"), Some("v3"), None, None, Some("w7")];
    for block in 0..8 {
        let valid = dep
            .table
            .rows
            .iter()
            .filter(|row| {
                row.key.same(&key) && row.start <= block && row.end.map_or(true, |end| block < end)
            })
            .count();
        assert!(valid <= 1);
        let found = dep.get(&key, block).map(tx_name);
        assert_eq!(found.as_deref(), expected[block as usize]);
        assert_eq!(valid == 1, found.is_some());
    }
}

#[test]
fn duplicate_insert_rejects_the_whole_batch() {
    let mut dep = tx_deployment(vec![]);
    tx_apply(
        &mut dep,
        5,
        vec![EntityModification::Insert { key: tx_key("Token", "1"), data: tx_entity("a") }],
    )
    .unwrap();
    let res = tx_apply(
        &mut dep,
        6,
        vec![
            EntityModification::Insert { key: tx_key("Token", "2"), data: tx_entity("b") },
            EntityModification::Insert { key: tx_key("Token", "1"), data: tx_entity("c") },
        ],
    );
    match res {
        Err(StoreError::DuplicateEntity(entity_type, id)) => {
            assert_eq!((entity_type.as_str(), id.as_str()), ("Token", "1"));
        }
        other => panic!("unexpected: {:?}", other),
    }
    assert_eq!(dep.table.rows.len(), 1);
    assert_eq!(dep.entity_count, 1);
    assert_eq!(dep.block_ptr().unwrap().number, 5);
    assert!(dep.get(&tx_key("Token", "2"), 6).is_none());
}

#[test]
fn block_at_or_before_head_is_rejected() {
    let mut dep = tx_deployment(vec![]);
    tx_apply(&mut dep, 5, vec![]).unwrap();
    for number in [5, 4] {
        let res = tx_apply(
            &mut dep,
            number,
            vec![EntityModification::Insert { key: tx_key("Token", "1"), data: tx_entity("a") }],
        );
        match res {
            Err(StoreError::DuplicateBlockProcessing(id, block)) => {
                assert_eq!(id, "QmTransact");
                assert_eq!(block, number);
            }
            other => panic!("unexpected: {:?}", other),
        }
        assert_eq!(dep.table.rows.len(), 0);
        assert_eq!(dep.block_ptr().unwrap().number, 5);
    }
}

#[test]
fn shared_interface_with_same_id_conflicts() {
    let pets = vec![Interface {
        name: "Pet".to_string(),
        types: vec!["Dog".to_string(), "Cat".to_string()],
    }];
    let mut dep = tx_deployment(vec![]);
    dep.transact(
        &pets,
        &tx_ptr(1),
        &FirehoseCursor::none(),
        &vec![EntityModification::Insert { key: tx_key("Dog", "Fred"), data: tx_entity("d") }],
        &vec![],
        &vec![],
        &vec![],
    )
    .unwrap();
    let res = dep.transact(
        &pets,
        &tx_ptr(2),
        &FirehoseCursor::none(),
        &vec![EntityModification::Insert { key: tx_key("Cat", "Fred"), data: tx_entity("c") }],
        &vec![],
        &vec![],
        &vec![],
    );
    match res {
        Err(StoreError::ConflictingId(entity_type, id, other)) => {
            assert_eq!(
                (entity_type.as_str(), id.as_str(), other.as_str()),
                ("Cat", "Fred", "Dog")
            );
        }
        other => panic!("unexpected: {:?}", other),
    }
    assert_eq!(dep.block_ptr().unwrap().number, 1);
    // Another id, or a type outside the interface, is no conflict.
    dep.transact(
        &pets,
        &tx_ptr(2),
        &FirehoseCursor::none(),
        &vec![
            EntityModification::Insert { key: tx_key("Cat", "Tom"), data: tx_entity("c") },
            EntityModification::Insert { key: tx_key("Fish", "Fred"), data: tx_entity("f") },
            EntityModification::Overwrite { key: tx_key("Dog", "Fred"), data: tx_entity("d2") },
        ],
        &vec![],
        &vec![],
        &vec![],
    )
    .unwrap();
    assert_eq!(dep.entity_count, 3);
    // Once the dog is gone, the cat can take the id.
    dep.transact(
        &pets,
        &tx_ptr(3),
        &FirehoseCursor::none(),
        &vec![
            EntityModification::Remove { key: tx_key("Dog", "Fred") },
            EntityModification::Insert { key: tx_key("Cat", "Fred"), data: tx_entity("c") },
        ],
        &vec![],
        &vec![],
        &vec![],
    )
    .unwrap();
    assert_eq!(dep.entity_count, 3);
}

#[test]
fn event_names_each_changed_type_once() {
    let mut dep = tx_deployment(vec![]);
    let types = tx_apply(
        &mut dep,
        1,
        vec![
            EntityModification::Insert { key: tx_key("Token", "1"), data: tx_entity("a") },
            EntityModification::Insert { key: tx_key("Account", "1"), data: tx_entity("b") },
            EntityModification::Remove { key: tx_key("Token", "2") },
        ],
    )
    .unwrap();
    assert_eq!(types, vec!["Token".to_string(), "Account".to_string()]);
}

#[test]
fn side_effects_are_applied_with_the_batch() {
    let mut dep = tx_deployment(vec![]);
    let error = SubgraphError {
        id: "e1".to_string(),
        message: "boom".to_string(),
        deterministic: true,
        block_hash: Some(vec![7, 0xab]),
        block_range: BlockRange { start: None, end: None },
    };
    dep.transact(
        &vec![],
        &tx_ptr(7),
        &FirehoseCursor::at("cursor-7".to_string()),
        &vec![],
        &vec![tx_source(0, 1), tx_source(1, 2)],
        &vec![error],
        &vec![],
    )
    .unwrap();
    assert_eq!(dep.data_sources.len(), 2);
    assert_eq!(dep.data_sources[0].creation_block, Some(7));
    assert_eq!(dep.data_sources[1].creation_block, Some(7));
    assert_eq!(dep.error_count(), 1);
    assert_eq!(dep.errors[0].block_range, BlockRange { start: Some(7), end: None });
    assert_eq!(dep.block_cursor().position, Some("cursor-7".to_string()));
    assert_eq!(dep.load_dynamic_data_sources(6).len(), 0);
    assert_eq!(dep.load_dynamic_data_sources(7).len(), 2);

    let mut gone = tx_source(0, 1);
    gone.creation_block = Some(7);
    dep.transact(
        &vec![],
        &tx_ptr(8),
        &FirehoseCursor::none(),
        &vec![],
        &vec![],
        &vec![],
        &vec![gone],
    )
    .unwrap();
    assert_eq!(dep.data_sources.len(), 1);
    assert_eq!(dep.data_sources[0].manifest_idx, 1);
    assert_eq!(dep.block_cursor().position, None);
}

#[test]
fn ambiguous_removal_rejects_the_batch() {
    let mut dep = tx_deployment(vec![]);
    dep.transact(
        &vec![],
        &tx_ptr(7),
        &FirehoseCursor::none(),
        &vec![],
        &vec![tx_source(3, 1), tx_source(3, 1)],
        &vec![],
        &vec![],
    )
    .unwrap();
    let mut gone = tx_source(3, 1);
    gone.creation_block = Some(7);
    let res = dep.transact(
        &vec![],
        &tx_ptr(8),
        &FirehoseCursor::none(),
        &vec![EntityModification::Insert { key: tx_key("Token", "1"), data: tx_entity("a") }],
        &vec![],
        &vec![],
        &vec![gone],
    );
    assert!(matches!(res, Err(StoreError::AmbiguousDataSource(3))));
    assert_eq!(dep.data_sources.len(), 2);
    assert_eq!(dep.table.rows.len(), 0);
    assert_eq!(dep.block_ptr().unwrap().number, 7);
}

#[test]
fn store_checks_interfaces_of_the_deployment() {
    let mut store = DeploymentStore::new(0, vec![]).unwrap();
    let mut dep = tx_deployment(vec![Interface {
        name: "Pet".to_string(),
        types: vec!["Dog".to_string(), "Cat".to_string()],
    }]);
    store
        .transact_block_operations(
            &mut dep,
            &tx_ptr(1),
            &FirehoseCursor::none(),
            &vec![EntityModification::Insert { key: tx_key("Dog", "Fred"), data: tx_entity("d") }],
            &vec![],
            &vec![],
            &vec![],
        )
        .unwrap();
    let res = store.transact_block_operations(
        &mut dep,
        &tx_ptr(2),
        &FirehoseCursor::none(),
        &vec![EntityModification::Overwrite { key: tx_key("Cat", "Fred"), data: tx_entity("c") }],
        &vec![],
        &vec![],
        &vec![],
    );
    assert!(matches!(res, Err(StoreError::ConflictingId(_, _, _))));
    assert_eq!(dep.entity_count, 1);
}

#[test]
fn store_refuses_a_manifest_without_a_version() {
    let mut store = DeploymentStore::new(0, vec![]).unwrap();
    let mut dep = tx_deployment(vec![]);
    dep.spec_version = "not a version".to_string();
    let res = store.transact_block_operations(
        &mut dep,
        &tx_ptr(1),
        &FirehoseCursor::none(),
        &vec![],
        &vec![],
        &vec![],
        &vec![],
    );
    match res {
        Err(StoreError::InvalidSpecVersion(text)) => assert_eq!(text, "not a version"),
        other => panic!("unexpected: {:?}", other),
    }
    assert!(dep.block_ptr().is_none());
}
