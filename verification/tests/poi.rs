use blockstore::block::BlockPtr;
use blockstore::deployment::FirehoseCursor;
use blockstore::entity::{Entity, EntityKey, EntityModification, Value};
use blockstore::error::StoreError;
use blockstore::info::ProofOfIndexingVersion;
use blockstore::layout::{Column, Table};
use blockstore::poi::{add_causality_region, read_region_digest, RegionDigest};
use blockstore::state::Deployment;
use blockstore::store::DeploymentStore;

fn po_ptr(number: i32) -> BlockPtr {
    BlockPtr::new(vec![9, number as u8], number)
}

fn po_digest(region: &str, digest: &[u8]) -> Entity {
    let mut entity = Entity::new();
    entity.add("id".to_string(), Value::String(region.to_string()));
    entity.add("digest".to_string(), Value::Bytes(digest.to_vec()));
    entity
}

fn po_tables(with_poi: bool) -> Vec<Table> {
    let columns = || vec![Column { field: "id".to_string(), name: "id".to_string() }];
    let mut tables =
        vec![Table { object: "Token".to_string(), name: "token".to_string(), columns: columns() }];
    if with_poi {
        tables.push(Table {
            object: "Poi$".to_string(),
            name: "poi2$".to_string(),
            columns: columns(),
        });
    }
    tables
}

fn po_deployment(id: &str, with_poi: bool, spec_version: &str) -> Deployment {
    let mut dep = Deployment::new(
        id.to_string(),
        "sgd10".to_string(),
        po_tables(with_poi),
        vec![],
        spec_version.to_string(),
        None,
        None,
    );
    let poi = |region: &str| EntityKey::new("Poi$".to_string(), region.to_string());
    let batches = vec![
        vec![
            EntityModification::Insert { key: poi("main"), data: po_digest("main", &[1]) },
            EntityModification::Insert {
                key: EntityKey::new("Token".to_string(), "t".to_string()),
                data: po_digest("token", &[0xff]),
            },
        ],
        vec![
            EntityModification::Overwrite { key: poi("main"), data: po_digest("main", &[2]) },
            EntityModification::Insert { key: poi("ipfs"), data: po_digest("ipfs", &[7, 7]) },
        ],
        vec![EntityModification::Overwrite { key: poi("main"), data: po_digest("main", &[3]) }],
    ];
    for (i, mods) in batches.into_iter().enumerate() {
        dep.transact(
            &vec![],
            &po_ptr(i as i32 + 1),
            &FirehoseCursor::none(),
            &mods,
            &vec![],
            &vec![],
            &vec![],
        )
        .unwrap();
    }
    dep
}

fn po_regions(regions: &[RegionDigest]) -> Vec<(String, Vec<u8>)> {
    regions.iter().map(|r| (r.region.clone(), r.digest.clone())).collect()
}

#[test]
fn inputs_hold_the_digests_as_of_the_block() {
    let mut store = DeploymentStore::new(0, vec![]).unwrap();
    let dep = po_deployment("QmPoi", true, "0.0.6");
    let indexer = Some([0x11u8; 20]);
    let inputs = store.get_proof_of_indexing(&dep, &indexer, po_ptr(2)).unwrap().unwrap();
    assert_eq!(inputs.block.number, 2);
    assert_eq!(inputs.block.hash, vec![9, 2]);
    assert_eq!(inputs.deployment, "QmPoi");
    assert_eq!(inputs.indexer, indexer);
    assert_eq!(inputs.version, ProofOfIndexingVersion::Fast);
    assert_eq!(
        po_regions(&inputs.regions),
        vec![("main".to_string(), vec![2]), ("ipfs".to_string(), vec![7, 7])]
    );
    let first = store.get_proof_of_indexing(&dep, &None, po_ptr(1)).unwrap().unwrap();
    assert_eq!(po_regions(&first.regions), vec![("main".to_string(), vec![1])]);
    assert_eq!(first.indexer, None);
    let head = store.get_proof_of_indexing(&dep, &None, po_ptr(3)).unwrap().unwrap();
    assert_eq!(
        po_regions(&head.regions),
        vec![("ipfs".to_string(), vec![7, 7]), ("main".to_string(), vec![3])]
    );
}

#[test]
fn inputs_are_the_same_at_every_call() {
    let mut store = DeploymentStore::new(0, vec![]).unwrap();
    let dep = po_deployment("QmPoi", true, "0.0.5");
    let indexer = Some([0x22u8; 20]);
    let first = store.get_proof_of_indexing(&dep, &indexer, po_ptr(2)).unwrap().unwrap();
    let second = store.get_proof_of_indexing(&dep, &indexer, po_ptr(2)).unwrap().unwrap();
    assert_eq!(format!("{:?}", first), format!("{:?}", second));
    assert_eq!(first.version, ProofOfIndexingVersion::Legacy);
    let mut fresh = DeploymentStore::new(3, vec![2, 2]).unwrap();
    let third = fresh.get_proof_of_indexing(&dep, &indexer, po_ptr(2)).unwrap().unwrap();
    assert_eq!(format!("{:?}", first), format!("{:?}", third));
    // Another indexer or another block gives other inputs.
    let other = store.get_proof_of_indexing(&dep, &Some([0x23u8; 20]), po_ptr(2)).unwrap().unwrap();
    assert_ne!(format!("{:?}", first), format!("{:?}", other));
    let later = store.get_proof_of_indexing(&dep, &indexer, po_ptr(3)).unwrap().unwrap();
    assert_ne!(format!("{:?}", first), format!("{:?}", later));
}

#[test]
fn no_inputs_without_digests_or_beyond_the_head() {
    let mut store = DeploymentStore::new(0, vec![]).unwrap();
    let without = po_deployment("QmNoPoi", false, "0.0.6");
    assert!(store.get_proof_of_indexing(&without, &None, po_ptr(2)).unwrap().is_none());
    let dep = po_deployment("QmPoi", true, "0.0.6");
    assert!(store.get_proof_of_indexing(&dep, &None, po_ptr(4)).unwrap().is_none());
    assert!(store.get_proof_of_indexing(&dep, &None, po_ptr(3)).unwrap().is_some());
    // The hash of the block is not compared with the chain of the head.
    let elsewhere = BlockPtr::new(vec![0xde, 0xad], 3);
    assert!(store.get_proof_of_indexing(&dep, &None, elsewhere).unwrap().is_some());
    let empty = Deployment::new(
        "QmEmpty".to_string(),
        "sgd11".to_string(),
        po_tables(true),
        vec![],
        "0.0.6".to_string(),
        None,
        None,
    );
    assert!(store.get_proof_of_indexing(&empty, &None, po_ptr(0)).unwrap().is_none());
    assert!(empty.digests_for(true, &po_ptr(0)).unwrap().is_none());
    assert!(dep.digests_for(false, &po_ptr(1)).unwrap().is_none());
}

#[test]
fn digest_entities_must_be_well_formed() {
    let mut no_id = Entity::new();
    no_id.add("digest".to_string(), Value::Bytes(vec![1]));
    assert!(matches!(read_region_digest(&no_id), Err(StoreError::DigestWithoutRegion)));
    let mut bad_id = Entity::new();
    bad_id.add("id".to_string(), Value::Int(5));
    bad_id.add("digest".to_string(), Value::Bytes(vec![1]));
    assert!(matches!(read_region_digest(&bad_id), Err(StoreError::DigestWithoutRegion)));
    let mut bad_digest = Entity::new();
    bad_digest.add("id".to_string(), Value::String("main".to_string()));
    bad_digest.add("digest".to_string(), Value::String("0x01".to_string()));
    match read_region_digest(&bad_digest) {
        Err(StoreError::DigestNotBytes(region)) => assert_eq!(region, "main"),
        other => panic!("unexpected: {:?}", other),
    }
    let mut no_digest = Entity::new();
    no_digest.add("id".to_string(), Value::String("main".to_string()));
    assert!(matches!(read_region_digest(&no_digest), Err(StoreError::DigestNotBytes(_))));
    let good = read_region_digest(&po_digest("main", &[1, 2])).unwrap();
    assert_eq!((good.region.as_str(), good.digest.as_slice()), ("main", &[1u8, 2][..]));

    let mut store = DeploymentStore::new(0, vec![]).unwrap();
    let mut dep = po_deployment("QmPoi", true, "0.0.6");
    dep.transact(
        &vec![],
        &po_ptr(4),
        &FirehoseCursor::none(),
        &vec![EntityModification::Insert {
            key: EntityKey::new("Poi$".to_string(), "broken".to_string()),
            data: bad_digest,
        }],
        &vec![],
        &vec![],
        &vec![],
    )
    .unwrap();
    assert!(matches!(
        store.get_proof_of_indexing(&dep, &None, po_ptr(4)),
        Err(StoreError::DigestNotBytes(_))
    ));
    assert!(store.get_proof_of_indexing(&dep, &None, po_ptr(3)).unwrap().is_some());
}

#[test]
fn a_region_has_one_digest() {
    let mut regions = Vec::new();
    add_causality_region(&mut regions, RegionDigest { region: "a".to_string(), digest: vec![1] });
    add_causality_region(&mut regions, RegionDigest { region: "b".to_string(), digest: vec![2] });
    add_causality_region(&mut regions, RegionDigest { region: "a".to_string(), digest: vec![3] });
    assert_eq!(
        po_regions(&regions),
        vec![("a".to_string(), vec![3]), ("b".to_string(), vec![2])]
    );
}
