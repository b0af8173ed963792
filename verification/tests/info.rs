use blockstore::block::BlockPtr;
use blockstore::deployment::{GraftPoint, Interface};
use blockstore::error::StoreError;
use blockstore::info::{poi_version_of, ProofOfIndexingVersion, SpecVersion};
use blockstore::layout::{Column, Table};
use blockstore::state::Deployment;
use blockstore::store::DeploymentStore;

fn in_deployment(id: &str, spec_version: &str) -> Deployment {
    Deployment::new(
        id.to_string(),
        "sgd8".to_string(),
        vec![Table {
            object: "Token".to_string(),
            name: "token".to_string(),
            columns: vec![Column { field: "id".to_string(), name: "id".to_string() }],
        }],
        vec![Interface { name: "Asset".to_string(), types: vec!["Token".to_string()] }],
        spec_version.to_string(),
        Some(GraftPoint { base: "QmBase".to_string(), block: BlockPtr::new(vec![1], 42) }),
        None,
    )
}

fn in_version(store: &mut DeploymentStore, spec_version: &str) -> ProofOfIndexingVersion {
    let dep = in_deployment(&format!("Qm{}", spec_version), spec_version);
    store.subgraph_info(&dep).unwrap().poi_version
}

#[test]
fn poi_version_follows_the_spec_version() {
    let mut store = DeploymentStore::new(0, vec![]).unwrap();
    assert_eq!(in_version(&mut store, "0.0.5"), ProofOfIndexingVersion::Legacy);
    assert_eq!(in_version(&mut store, "0.0.6"), ProofOfIndexingVersion::Fast);
    assert_eq!(in_version(&mut store, "0.0.7"), ProofOfIndexingVersion::Fast);
    assert_eq!(in_version(&mut store, "0.1.0"), ProofOfIndexingVersion::Fast);
    assert_eq!(in_version(&mut store, "1.0.0"), ProofOfIndexingVersion::Fast);
    assert_eq!(in_version(&mut store, "0.0.4"), ProofOfIndexingVersion::Legacy);
    assert_eq!(in_version(&mut store, "0.0.0"), ProofOfIndexingVersion::Legacy);
    // A pre-release comes before its release; build metadata does not count.
    assert_eq!(in_version(&mut store, "0.0.6-alpha"), ProofOfIndexingVersion::Legacy);
    assert_eq!(in_version(&mut store, "0.0.7-alpha"), ProofOfIndexingVersion::Fast);
    assert_eq!(in_version(&mut store, "0.0.6+build5"), ProofOfIndexingVersion::Fast);
}

#[test]
fn threshold_of_the_fast_algorithm() {
    let version = |major, minor, patch, release: bool| SpecVersion {
        major,
        minor,
        patch,
        pre: if release { String::new() } else { "rc.1".to_string() },
    };
    assert!(version(0, 0, 6, true).is_at_least(0, 0, 6));
    assert!(!version(0, 0, 6, false).is_at_least(0, 0, 6));
    assert!(!version(0, 0, 5, true).is_at_least(0, 0, 6));
    assert!(version(0, 1, 0, false).is_at_least(0, 0, 6));
    assert!(version(1, 0, 0, true).is_at_least(0, 9, 9));
    assert!(!version(1, 2, 3, true).is_at_least(1, 3, 0));
    assert_eq!(poi_version_of(&version(0, 0, 6, true)), ProofOfIndexingVersion::Fast);
    assert_eq!(poi_version_of(&version(0, 0, 5, true)), ProofOfIndexingVersion::Legacy);
}

#[test]
fn info_holds_the_facts_of_the_deployment() {
    let mut store = DeploymentStore::new(0, vec![]).unwrap();
    let mut dep = in_deployment("QmFacts", "0.0.6");
    dep.debug_fork = Some("QmFork".to_string());
    let info = store.subgraph_info_with_conn(&dep).unwrap();
    assert_eq!(info.graft_block, Some(42));
    assert_eq!(info.debug_fork, Some("QmFork".to_string()));
    assert_eq!(info.interfaces.len(), 1);
    assert_eq!(info.interfaces[0].name, "Asset");
    assert_eq!(info.interfaces[0].types, vec!["Token".to_string()]);
    assert_eq!(info.poi_version, ProofOfIndexingVersion::Fast);
}

#[test]
fn invalid_spec_version_is_an_error_and_is_not_cached() {
    let mut store = DeploymentStore::new(0, vec![]).unwrap();
    let mut dep = in_deployment("QmBroken", "1.0");
    match store.subgraph_info(&dep) {
        Err(StoreError::InvalidSpecVersion(text)) => assert_eq!(text, "1.0"),
        other => panic!("unexpected: {:?}", other),
    }
    dep.spec_version = "1.0.0".to_string();
    assert_eq!(store.subgraph_info(&dep).unwrap().poi_version, ProofOfIndexingVersion::Fast);
}

#[test]
fn facts_come_from_the_cache_until_they_are_evicted() {
    let mut store = DeploymentStore::new(0, vec![]).unwrap();
    let mut dep = in_deployment("QmFirst", "0.0.5");
    assert_eq!(store.subgraph_info(&dep).unwrap().poi_version, ProofOfIndexingVersion::Legacy);
    // The cache answers, whatever has become of the deployment.
    dep.spec_version = "0.0.6".to_string();
    assert_eq!(store.subgraph_info(&dep).unwrap().poi_version, ProofOfIndexingVersion::Legacy);
    // Ninety-nine other deployments fill the cache; the first one stays.
    for i in 0..99 {
        let other = in_deployment(&format!("QmOther{}", i), "0.0.4");
        store.subgraph_info(&other).unwrap();
    }
    assert_eq!(store.subgraph_info(&dep).unwrap().poi_version, ProofOfIndexingVersion::Legacy);
    // That lookup made it the entry used last: one more deployment evicts
    // the first of the others, not this one.
    let one_more = in_deployment("QmOneMore", "0.0.4");
    store.subgraph_info(&one_more).unwrap();
    assert_eq!(store.subgraph_info(&dep).unwrap().poi_version, ProofOfIndexingVersion::Legacy);
    let mut changed = in_deployment("QmOther0", "0.0.9");
    assert_eq!(store.subgraph_info(&changed).unwrap().poi_version, ProofOfIndexingVersion::Fast);
    changed.spec_version = "0.0.4".to_string();
    assert_eq!(store.subgraph_info(&changed).unwrap().poi_version, ProofOfIndexingVersion::Fast);
    // A hundred others push the first one out: its facts are derived anew.
    for i in 0..100 {
        let other = in_deployment(&format!("QmThird{}", i), "0.0.4");
        store.subgraph_info(&other).unwrap();
    }
    assert_eq!(store.subgraph_info(&dep).unwrap().poi_version, ProofOfIndexingVersion::Fast);
}
