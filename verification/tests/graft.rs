use blockstore::block::BlockPtr;
use blockstore::cancel::CancelHandle;
use blockstore::deployment::{
    BlockRange, FirehoseCursor, GraftPoint, StoredDynamicDataSource, SubgraphError,
};
use blockstore::entity::{Entity, EntityKey, EntityModification, Value};
use blockstore::error::StoreError;
use blockstore::graft::{GraftPhase, Status, GRAFT_PHASES};
use blockstore::state::Deployment;

fn gr_ptr(number: i32) -> BlockPtr {
    BlockPtr::new(vec![0xee, number as u8], number)
}

fn gr_entity(name: &str) -> Entity {
    let mut entity = Entity::new();
    entity.add("name".to_string(), Value::String(name.to_string()));
    entity
}

fn gr_key(id: &str) -> EntityKey {
    EntityKey::new("Token".to_string(), id.to_string())
}

fn gr_source() -> Deployment {
    let mut src = Deployment::new(
        "QmSource".to_string(),
        "sgd6".to_string(),
        vec![],
        vec![],
        "0.0.4".to_string(),
        None,
        None,
    );
    for number in 1..=6 {
        let mut mods = vec![EntityModification::Overwrite {
            key: gr_key("a"),
            data: gr_entity(&format!("a{}", number)),
        }];
        if number == 2 {
            mods.push(EntityModification::Insert { key: gr_key("b"), data: gr_entity("b") });
        }
        if number == 5 {
            mods.push(EntityModification::Remove { key: gr_key("b") });
            mods.push(EntityModification::Insert { key: gr_key("late"), data: gr_entity("l") });
        }
        src.transact(
            &vec![],
            &gr_ptr(number),
            &FirehoseCursor::none(),
            &mods,
            &vec![StoredDynamicDataSource {
                manifest_idx: number as u32,
                param: None,
                context: None,
                creation_block: None,
            }],
            &vec![SubgraphError {
                id: format!("e{}", number),
                message: String::new(),
                deterministic: true,
                block_hash: None,
                block_range: BlockRange { start: None, end: None },
            }],
            &vec![],
        )
        .unwrap();
    }
    src.account_like = vec!["token".to_string()];
    src
}

fn gr_destination() -> Deployment {
    Deployment::new(
        "QmDest".to_string(),
        "sgd7".to_string(),
        vec![],
        vec![],
        "0.0.4".to_string(),
        Some(GraftPoint { base: "QmSource".to_string(), block: gr_ptr(4) }),
        Some(gr_ptr(0)),
    )
}

#[test]
fn graft_copies_the_source_as_of_the_block() {
    let src = gr_source();
    let mut dst = gr_destination();
    assert_eq!(dst.graft_pending().map(|g| g.block.number), Some(4));
    dst.start_subgraph(Some((&src, gr_ptr(4))), &CancelHandle::new()).unwrap();
    assert!(dst.graft_pending().is_none());
    assert_eq!(dst.block_ptr().unwrap().number, 4);
    assert_eq!(dst.entity_count, 2);
    // The versions of the source up to block 4; what ended later is current.
    let rows: Vec<_> = dst
        .table
        .rows
        .iter()
        .map(|row| (row.key.entity_id.as_str(), row.start, row.end))
        .collect();
    assert_eq!(
        rows,
        vec![
            ("a", 1, Some(2)),
            ("a", 2, Some(3)),
            ("b", 2, None),
            ("a", 3, Some(4)),
            ("a", 4, None),
        ]
    );
    assert_eq!(dst.data_sources.len(), 4);
    assert_eq!(dst.error_count(), 4);
    assert_eq!(dst.account_like, vec!["token".to_string()]);
    assert!(dst.get(&gr_key("late"), 5).is_none());
    // The source is as it was.
    assert_eq!(src.block_ptr().unwrap().number, 6);
    assert_eq!(src.table.rows.len(), 8);
}

#[test]
fn interrupted_graft_ends_like_an_uninterrupted_one() {
    let src = gr_source();
    let mut whole = gr_destination();
    whole.start_subgraph(Some((&src, gr_ptr(4))), &CancelHandle::new()).unwrap();
    let expected = format!("{:?}", whole);
    for done in 0..=GRAFT_PHASES {
        let mut dst = gr_destination();
        for index in 0..done {
            dst.graft_step(&src, &gr_ptr(4), GraftPhase::at(index).unwrap());
        }
        if done < GRAFT_PHASES {
            // The head is set last, so the graft is still to be done.
            assert!(dst.graft_pending().is_some());
        }
        dst.start_subgraph(Some((&src, gr_ptr(4))), &CancelHandle::new()).unwrap();
        assert_eq!(format!("{:?}", dst), expected);
        assert_eq!(dst.entity_count, whole.entity_count);
        assert_eq!(dst.block_ptr().unwrap().number, 4);
    }
    assert!(GraftPhase::at(GRAFT_PHASES).is_none());
}

#[test]
fn cancelled_graft_is_no_error_of_the_copy() {
    let src = gr_source();
    let mut dst = gr_destination();
    let cancel = CancelHandle::new();
    cancel.cancel();
    assert_eq!(dst.copy_and_initialize(&src, &gr_ptr(4), &cancel), Status::Cancelled);
    assert!(dst.block_ptr().is_none());
    assert_eq!(dst.table.rows.len(), 0);
    assert!(matches!(
        dst.start_subgraph(Some((&src, gr_ptr(4))), &cancel),
        Err(StoreError::Canceled)
    ));
    assert!(dst.block_ptr().is_none());
    assert!(dst.graft_pending().is_some());
    assert_eq!(dst.copy_and_initialize(&src, &gr_ptr(4), &CancelHandle::new()), Status::Finished);
    assert_eq!(dst.block_ptr().unwrap().number, 4);
}

#[test]
fn start_without_graft_sets_the_start_block() {
    let mut dst = gr_destination();
    dst.start_subgraph(None, &CancelHandle::new()).unwrap();
    assert_eq!(dst.block_ptr().unwrap().number, 0);
    // A deployment that has a head keeps it.
    let mut src = gr_source();
    src.start_block = Some(gr_ptr(1));
    src.start_subgraph(None, &CancelHandle::new()).unwrap();
    assert_eq!(src.block_ptr().unwrap().number, 6);
}

#[test]
fn graft_runs_unless_a_stop_was_seen() {
    let src = gr_source();
    let mut stopped = gr_destination();
    let before = format!("{:?}", stopped);
    assert_eq!(stopped.initialize_from(&src, &gr_ptr(4), true), Status::Cancelled);
    assert_eq!(format!("{:?}", stopped), before);
    let mut done = gr_destination();
    assert_eq!(done.initialize_from(&src, &gr_ptr(4), false), Status::Finished);
    assert_eq!(done.block_ptr().unwrap().number, 4);
    assert_eq!(done.entity_count, 2);
    let mut whole = gr_destination();
    assert_eq!(whole.copy_and_initialize(&src, &gr_ptr(4), &CancelHandle::new()), Status::Finished);
    assert_eq!(format!("{:?}", done), format!("{:?}", whole));
}
