use blockstore::error::StoreError;
use blockstore::layout::{
    join, manual_index, manual_index_outcome, resolve_column_names, resolve_table_name, Column,
    Layout, LayoutCache, Table,
};
use blockstore::state::Deployment;
use blockstore::store::DeploymentStore;

fn ly_table(object: &str, name: &str, columns: &[(&str, &str)]) -> Table {
    Table {
        object: object.to_string(),
        name: name.to_string(),
        columns: columns
            .iter()
            .map(|(field, name)| Column { field: field.to_string(), name: name.to_string() })
            .collect(),
    }
}

fn ly_tables() -> Vec<Table> {
    vec![
        ly_table(
            "TokenTransfer",
            "token_transfer",
            &[("id", "id"), ("fromAccount", "from_account"), ("toAccount", "to_account")],
        ),
        ly_table("Account", "account", &[("id", "id"), ("balance", "balance")]),
    ]
}

fn ly_layout() -> Layout {
    Layout { deployment: "QmLayout".to_string(), namespace: "sgd9".to_string(), tables: ly_tables() }
}

fn ly_deployment(id: &str, tables: Vec<Table>) -> Deployment {
    Deployment::new(
        id.to_string(),
        "sgd9".to_string(),
        tables,
        vec![],
        "0.0.4".to_string(),
        None,
        None,
    )
}

#[test]
fn tables_are_found_by_entity_type_or_by_sql_name() {
    let layout = ly_layout();
    assert_eq!(resolve_table_name(&layout, "TokenTransfer").unwrap().name, "token_transfer");
    assert_eq!(resolve_table_name(&layout, "token_transfer").unwrap().object, "TokenTransfer");
    assert_eq!(resolve_table_name(&layout, "tokenTransfer").unwrap().object, "TokenTransfer");
    assert_eq!(resolve_table_name(&layout, "Account").unwrap().name, "account");
    assert_eq!(resolve_table_name(&layout, "account").unwrap().name, "account");
    match resolve_table_name(&layout, "Missing") {
        Err(StoreError::UnknownTable(name)) => assert_eq!(name, "Missing"),
        other => panic!("unexpected: {:?}", other),
    }
}

#[test]
fn columns_are_found_by_attribute_or_by_sql_name() {
    let layout = ly_layout();
    let table = resolve_table_name(&layout, "TokenTransfer").unwrap();
    let names = resolve_column_names(
        table,
        &vec!["toAccount".to_string(), "id".to_string(), "from_account".to_string()],
    )
    .unwrap();
    assert_eq!(names, vec!["to_account", "id", "from_account"]);
    assert_eq!(resolve_column_names(table, &vec![]).unwrap(), Vec::<String>::new());
    match resolve_column_names(
        table,
        &vec!["id".to_string(), "nope".to_string(), "neither".to_string()],
    ) {
        Err(StoreError::UnknownField(name)) => assert_eq!(name, "nope"),
        other => panic!("unexpected: {:?}", other),
    }
}

#[test]
fn manual_index_statements() {
    let layout = ly_layout();
    let index = manual_index(
        &layout,
        "TokenTransfer",
        &vec!["fromAccount".to_string(), "toAccount".to_string()],
        "btree",
    )
    .unwrap();
    assert_eq!(index.index_name, "manual_token_transfer_from_account_to_account");
    assert_eq!(
        index.create_sql,
        "create index concurrently if not exists manual_token_transfer_from_account_to_account \
         on sgd9.token_transfer using btree (from_account, to_account)"
    );
    assert_eq!(
        index.drop_sql,
        "drop index concurrently if exists sgd9.manual_token_transfer_from_account_to_account"
    );
    let single = manual_index(&layout, "account", &vec!["balance".to_string()], "hash").unwrap();
    assert_eq!(
        single.create_sql,
        "create index concurrently if not exists manual_account_balance \
         on sgd9.account using hash (balance)"
    );
    assert!(matches!(
        manual_index(&layout, "Nope", &vec!["id".to_string()], "btree"),
        Err(StoreError::UnknownTable(_))
    ));
    assert!(matches!(
        manual_index(&layout, "Account", &vec!["nope".to_string()], "btree"),
        Err(StoreError::UnknownField(_))
    ));
    assert!(manual_index_outcome(true).is_ok());
    assert!(matches!(manual_index_outcome(false), Err(StoreError::Canceled)));
}

#[test]
fn join_puts_the_separator_between_names() {
    assert_eq!(join(&vec![], ", "), "");
    assert_eq!(join(&vec!["a".to_string()], ", "), "a");
    assert_eq!(join(&vec!["a".to_string(), "b".to_string(), "c".to_string()], "_"), "a_b_c");
}

#[test]
fn layout_is_cached_unless_a_migration_is_pending() {
    let mut store = DeploymentStore::new(0, vec![]).unwrap();
    let mut dep = ly_deployment("QmCached", ly_tables());
    assert_eq!(store.layout(&dep).tables.len(), 2);
    // The layout comes from the cache now, whatever the tables are.
    dep.tables.pop();
    assert_eq!(store.layout(&dep).tables.len(), 2);
    assert_eq!(store.find_layout(&dep).tables.len(), 2);

    let mut migrating = ly_deployment("QmMigrating", ly_tables());
    migrating.pending_migration = true;
    assert_eq!(store.layout(&migrating).tables.len(), 2);
    migrating.tables.pop();
    assert_eq!(store.layout(&migrating).tables.len(), 1);
    migrating.tables.pop();
    assert_eq!(store.find_layout(&migrating).tables.len(), 0);
    // Once the migration is done, the layout is kept.
    migrating.pending_migration = false;
    migrating.tables = ly_tables();
    assert_eq!(store.layout(&migrating).tables.len(), 2);
    migrating.tables.pop();
    assert_eq!(store.layout(&migrating).tables.len(), 2);
}

#[test]
fn layout_cache_finds_by_deployment() {
    let mut cache = LayoutCache::new();
    assert!(cache.find(&"QmLayout".to_string()).is_none());
    cache.cache(ly_layout());
    assert_eq!(cache.find(&"QmLayout".to_string()).unwrap().namespace, "sgd9");
    assert!(cache.find(&"QmOther".to_string()).is_none());
}

#[test]
fn proof_of_indexing_needs_its_table() {
    assert!(!ly_layout().supports_proof_of_indexing());
    let mut layout = ly_layout();
    layout.tables.push(ly_table("Poi$", "poi2$", &[("id", "id"), ("digest", "digest")]));
    assert!(layout.supports_proof_of_indexing());
}

#[test]
fn account_like_marks_are_set_by_table_name() {
    let layout = ly_layout();
    let mut dep = ly_deployment("QmMarks", ly_tables());
    dep.set_account_like(&layout, "TokenTransfer", true).unwrap();
    dep.set_account_like(&layout, "account", true).unwrap();
    dep.set_account_like(&layout, "token_transfer", true).unwrap();
    assert_eq!(dep.account_like, vec!["token_transfer", "account"]);
    dep.set_account_like(&layout, "tokenTransfer", false).unwrap();
    assert_eq!(dep.account_like, vec!["account"]);
    assert!(matches!(
        dep.set_account_like(&layout, "Missing", true),
        Err(StoreError::UnknownTable(_))
    ));
    assert_eq!(dep.account_like, vec!["account"]);
}

#[test]
fn pending_migration_reads_the_layout_anew() {
    let mut store = DeploymentStore::new(0, vec![]).unwrap();
    let mut dep = ly_deployment("QmStale", ly_tables());
    assert_eq!(store.layout(&dep).tables.len(), 2);
    // A migration begins and takes a table away: the layout that the store
    // kept is no longer handed out.
    dep.pending_migration = true;
    dep.tables.pop();
    assert_eq!(store.layout(&dep).tables.len(), 1);
    assert_eq!(store.find_layout(&dep).tables.len(), 1);
    // The migration is done: the new layout is kept from the next call on.
    dep.pending_migration = false;
    assert_eq!(store.find_layout(&dep).tables.len(), 1);
    dep.tables.pop();
    assert_eq!(store.layout(&dep).tables.len(), 1);
    let mut cache = LayoutCache::new();
    cache.cache(ly_layout());
    cache.cache(Layout {
        deployment: "QmOther".to_string(),
        namespace: "sgd15".to_string(),
        tables: vec![],
    });
    cache.remove(&"QmLayout".to_string());
    assert!(cache.find(&"QmLayout".to_string()).is_none());
    assert!(cache.find(&"QmOther".to_string()).is_some());
}
