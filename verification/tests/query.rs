use blockstore::block::{bytes_eq, copy_bytes, BlockPtr};
use blockstore::deployment::{
    BlockRange, FirehoseCursor, StoredDynamicDataSource, SubgraphHealth,
};
use blockstore::entity::{str_eq, Entity, EntityKey, EntityModification, Value};
use blockstore::state::Deployment;
use blockstore::versions::VersionedTable;

fn qu_key(id: &str) -> EntityKey {
    EntityKey::new("Token".to_string(), id.to_string())
}

fn qu_entity(name: &str) -> Entity {
    let mut entity = Entity::new();
    entity.add("name".to_string(), Value::String(name.to_string()));
    entity
}

fn qu_names(entities: &[Entity]) -> Vec<String> {
    entities
        .iter()
        .map(|entity| match entity.get("name") {
            Some(Value::String(name)) => name.clone(),
            other => panic!("no name: {:?}", other),
        })
        .collect()
}

fn qu_deployment() -> Deployment {
    let mut dep = Deployment::new(
        "QmQuery".to_string(),
        "sgd12".to_string(),
        vec![],
        vec![],
        "0.0.4".to_string(),
        None,
        None,
    );
    for number in 1..=3 {
        dep.transact(
            &vec![],
            &BlockPtr::new(vec![number as u8], number),
            &FirehoseCursor::at(format!("c{}", number)),
            &vec![
                EntityModification::Overwrite {
                    key: qu_key("a"),
                    data: qu_entity(&format!("a{}", number)),
                },
                EntityModification::Overwrite {
                    key: qu_key(&format!("only{}", number)),
                    data: qu_entity(&format!("o{}", number)),
                },
            ],
            &vec![StoredDynamicDataSource {
                manifest_idx: number as u32,
                param: Some(vec![number as u8]),
                context: Some(vec![0]),
                creation_block: None,
            }],
            &vec![],
            &vec![],
        )
        .unwrap();
    }
    dep
}

#[test]
fn new_deployment_is_empty_and_healthy() {
    let dep = Deployment::new(
        "QmNew".to_string(),
        "sgd13".to_string(),
        vec![],
        vec![],
        "0.0.4".to_string(),
        None,
        None,
    );
    assert!(dep.block_ptr().is_none());
    assert_eq!(dep.block_cursor().position, None);
    assert_eq!(dep.health(), SubgraphHealth::Healthy);
    assert_eq!(dep.entity_count, 0);
    assert_eq!(dep.earliest_block_number, 0);
    assert_eq!(dep.error_count(), 0);
    assert!(dep.fatal().is_none());
    assert!(dep.graft_pending().is_none());
    assert!(dep.get(&qu_key("a"), 0).is_none());
    assert_eq!(dep.table.count_current(), 0);
}

#[test]
fn many_entities_are_found_in_the_order_of_the_keys() {
    let dep = qu_deployment();
    let keys = vec![qu_key("only2"), qu_key("missing"), qu_key("a"), qu_key("only3"), qu_key("a")];
    assert_eq!(qu_names(&dep.get_many(&keys, 2)), vec!["o2", "a2", "a2"]);
    assert_eq!(qu_names(&dep.get_many(&keys, 3)), vec!["o2", "a3", "o3", "a3"]);
    assert_eq!(qu_names(&dep.get_many(&keys, 0)), Vec::<String>::new());
    assert_eq!(qu_names(&dep.get_many(&vec![], 3)), Vec::<String>::new());
}

#[test]
fn state_names_head_and_floor() {
    let mut dep = qu_deployment();
    dep.set_earliest_block(2);
    let state = dep.state().unwrap();
    assert_eq!(state.id, "QmQuery");
    assert_eq!(state.latest_block.number, 3);
    assert_eq!(state.latest_block.hash, vec![3u8]);
    assert_eq!(state.earliest_block_number, 2);
    assert_eq!(dep.block_cursor().position, Some("c3".to_string()));
}

#[test]
fn data_sources_are_loaded_as_of_a_block() {
    let dep = qu_deployment();
    let idx = |block: i32| -> Vec<u32> {
        dep.load_dynamic_data_sources(block).iter().map(|s| s.manifest_idx).collect()
    };
    assert_eq!(idx(0), Vec::<u32>::new());
    assert_eq!(idx(1), vec![1]);
    assert_eq!(idx(2), vec![1, 2]);
    assert_eq!(idx(3), vec![1, 2, 3]);
    assert_eq!(idx(i32::MAX), vec![1, 2, 3]);
    assert_eq!(idx(i32::MIN), Vec::<u32>::new());
    let loaded = dep.load_dynamic_data_sources(1);
    assert!(loaded[0].same(&dep.data_sources[0]));
    assert!(!loaded[0].same(&dep.data_sources[1]));
    assert_eq!(loaded[0].creation_block, Some(1));
    assert_eq!(loaded[0].param, Some(vec![1u8]));
}

#[test]
fn table_counts_and_reverts() {
    let mut table = VersionedTable::new();
    table.open_version(qu_key("a"), qu_entity("a1"), 1);
    table.open_version(qu_key("b"), qu_entity("b1"), 1);
    table.close_version(&qu_key("a"), 2);
    table.open_version(qu_key("a"), qu_entity("a2"), 2);
    table.close_version(&qu_key("missing"), 2);
    assert_eq!(table.count_current(), 2);
    assert_eq!(table.rows.len(), 3);
    let copy = table.clone();
    let types = table.revert_block(2);
    assert_eq!(types, vec!["Token".to_string()]);
    assert_eq!(table.rows.len(), 2);
    assert!(table.rows.iter().all(|row| row.start == 1 && row.end.is_none()));
    assert_eq!(copy.rows.len(), 3);
    assert_eq!(copy.copy_upto(1).rows.len(), 2);
    let mut pruned = copy.clone();
    pruned.reclaim(2);
    assert_eq!(pruned.rows.len(), 2);
    assert!(table.revert_block(5).is_empty());
}

#[test]
fn small_helpers() {
    assert!(bytes_eq(&vec![1, 2], &vec![1, 2]));
    assert!(!bytes_eq(&vec![1, 2], &vec![1, 3]));
    assert!(!bytes_eq(&vec![1, 2], &vec![1]));
    assert_eq!(copy_bytes(&vec![9, 8, 7]), vec![9, 8, 7]);
    assert!(str_eq("Poi$", "Poi$"));
    assert!(!str_eq("Poi$", "poi$"));
    assert!(BlockPtr::new(vec![1], 5).same(&BlockPtr::new(vec![1], 5)));
    assert!(!BlockPtr::new(vec![1], 5).same(&BlockPtr::new(vec![2], 5)));
    assert!(!BlockPtr::new(vec![1], 5).same(&BlockPtr::new(vec![1], 6)));
    assert_eq!(BlockPtr::new(vec![1], 5).block_number(), 5);
    let range = BlockRange { start: Some(3), end: Some(6) };
    assert!(!range.includes(2) && range.includes(3) && range.includes(5) && !range.includes(6));
    assert!(BlockRange::from_block(4).includes(i32::MAX));
    assert!(!BlockRange::from_block(4).includes(3));
    assert!(BlockRange { start: None, end: None }.includes(i32::MIN));
    let key = qu_key("a");
    assert!(key.same(&key.clone()));
    assert!(!key.same(&qu_key("b")));
    assert!(!key.same(&EntityKey::new("Other".to_string(), "a".to_string())));
    let entity = qu_entity("x");
    assert!(entity.get("missing").is_none());
    assert_eq!(entity.text("name"), Some("x".to_string()));
    assert_eq!(entity.text("missing"), None);
}
