//! The state of one deployment, and what each operation of the store makes
//! of it, as mathematical functions on that state.

use vstd::prelude::*;
use crate::block::{texts, BlockNumber, BlockPtr, BlockPtrView};
use crate::deployment::{
    errors_view, interfaces_view, opt_graft, opt_ptr, opt_text, sources_view, BlockRange,
    DataSourceView, FirehoseCursor, GraftPoint, GraftPointView, Interface, InterfaceView,
    StoredDynamicDataSource, SubgraphError, SubgraphErrorView, SubgraphHealth,
};
use crate::entity::{EntityKeyView, ModificationView};
use crate::layout::{tables_view, Table, TableView};
use crate::error::StoreErrorView;
use crate::versions::{
    close_open, count_open, fresh_version, has_open, noted, versions_wf, VersionView,
    VersionedTable,
};

verus! {

/// Everything the store keeps of one deployment.
#[derive(Debug)]
pub struct Deployment {
    /// The hash that identifies the deployment.
    pub id: String,
    /// The name of the database schema that holds the data.
    pub namespace: String,
    /// The tables of that schema.
    pub tables: Vec<Table>,
    /// Whether the tables are about to be changed by a migration.
    pub pending_migration: bool,
    /// The interfaces of the schema, with the types that implement them.
    pub interfaces: Vec<Interface>,
    /// The version of the manifest format.
    pub spec_version: String,
    /// Where the deployment was grafted onto another one.
    pub graft: Option<GraftPoint>,
    /// The deployment whose store is queried when debugging.
    pub debug_fork: Option<String>,
    /// The block before the first one that the deployment indexes.
    pub start_block: Option<BlockPtr>,
    /// The versions of the entities.
    pub table: VersionedTable,
    /// The last block that was processed.
    pub latest_block: Option<BlockPtr>,
    pub cursor: FirehoseCursor,
    /// The earliest block for which history is kept.
    pub earliest_block_number: BlockNumber,
    /// The number of entities that have a current version.
    pub entity_count: usize,
    pub health: SubgraphHealth,
    /// The id of the error that stopped the deployment.
    pub fatal_error: Option<String>,
    pub errors: Vec<SubgraphError>,
    pub data_sources: Vec<StoredDynamicDataSource>,
    /// The entity types whose tables are marked as account-like.
    pub account_like: Vec<String>,
}

/// The mathematical value of a `Deployment`.
pub struct DeploymentView {
    pub id: Seq<char>,
    pub namespace: Seq<char>,
    pub tables: Seq<TableView>,
    pub pending_migration: bool,
    pub interfaces: Seq<InterfaceView>,
    pub spec_version: Seq<char>,
    pub graft: Option<GraftPointView>,
    pub debug_fork: Option<Seq<char>>,
    pub start_block: Option<BlockPtrView>,
    pub rows: Seq<VersionView>,
    pub head: Option<BlockPtrView>,
    pub cursor: Option<Seq<char>>,
    pub earliest_block: BlockNumber,
    pub entity_count: nat,
    pub health: SubgraphHealth,
    pub fatal_error: Option<Seq<char>>,
    pub errors: Seq<SubgraphErrorView>,
    pub data_sources: Seq<DataSourceView>,
    pub account_like: Seq<Seq<char>>,
}

impl View for Deployment {
    type V = DeploymentView;

    open spec fn view(&self) -> DeploymentView {
        DeploymentView {
            id: self.id@,
            namespace: self.namespace@,
            tables: tables_view(self.tables@),
            pending_migration: self.pending_migration,
            interfaces: interfaces_view(self.interfaces@),
            spec_version: self.spec_version@,
            graft: opt_graft(self.graft),
            debug_fork: opt_text(self.debug_fork),
            start_block: opt_ptr(self.start_block),
            rows: self.table@,
            head: opt_ptr(self.latest_block),
            cursor: self.cursor@,
            earliest_block: self.earliest_block_number,
            entity_count: self.entity_count as nat,
            health: self.health,
            fatal_error: opt_text(self.fatal_error),
            errors: errors_view(self.errors@),
            data_sources: sources_view(self.data_sources@),
            account_like: texts(self.account_like@),
        }
    }
}

/// A deployment as it is when it has just been created.
pub open spec fn created(
    id: Seq<char>,
    namespace: Seq<char>,
    tables: Seq<TableView>,
    interfaces: Seq<InterfaceView>,
    spec_version: Seq<char>,
    graft: Option<GraftPointView>,
    start_block: Option<BlockPtrView>,
) -> DeploymentView {
    DeploymentView {
        id,
        namespace,
        tables,
        pending_migration: false,
        interfaces,
        spec_version,
        graft,
        debug_fork: None,
        start_block,
        rows: Seq::empty(),
        head: None,
        cursor: None,
        earliest_block: 0,
        entity_count: 0,
        health: SubgraphHealth::Healthy,
        fatal_error: None,
        errors: Seq::empty(),
        data_sources: Seq::empty(),
        account_like: Seq::empty(),
    }
}

impl Deployment {
    /// A new deployment: it has no entities, no head, no errors and no
    /// data sources, keeps history from block 0 on, and is healthy. It is
    /// consistent unless it has a graft point and so has yet to be grafted.
    pub fn new(
        id: String,
        namespace: String,
        tables: Vec<Table>,
        interfaces: Vec<Interface>,
        spec_version: String,
        graft: Option<GraftPoint>,
        start_block: Option<BlockPtr>,
    ) -> (deployment: Self)
        ensures
            deployment@ == created(
                id@,
                namespace@,
                tables_view(tables@),
                interfaces_view(interfaces@),
                spec_version@,
                opt_graft(graft),
                opt_ptr(start_block),
            ),
            graft is None ==> deployment@.wf(),
    {
        let deployment = Deployment {
            id,
            namespace,
            tables,
            pending_migration: false,
            interfaces,
            spec_version,
            graft,
            debug_fork: None,
            start_block,
            table: VersionedTable::new(),
            latest_block: None,
            cursor: FirehoseCursor::none(),
            earliest_block_number: 0,
            entity_count: 0,
            health: SubgraphHealth::Healthy,
            fatal_error: None,
            errors: Vec::new(),
            data_sources: Vec::new(),
            account_like: Vec::new(),
        };
        assert(deployment@.errors =~= Seq::empty());
        assert(deployment@.data_sources =~= Seq::empty());
        assert(deployment@.account_like =~= Seq::empty());
        deployment
    }
}

/// The block up to which a deployment with head `head` may hold versions;
/// below every block number when it has no head.
pub open spec fn head_bound(head: Option<BlockPtrView>) -> int {
    match head {
        Some(ptr) => ptr.number as int,
        None => i32::MIN - 1,
    }
}

impl DeploymentView {
    /// The state is consistent: the versions are well formed for the head,
    /// the entity count is the number of current versions, and the head is
    /// not before the graft point. A deployment that still has to be
    /// grafted is not yet consistent: the graft makes it so.
    pub open spec fn wf(self) -> bool {
        &&& versions_wf(self.rows, head_bound(self.head))
        &&& self.entity_count == count_open(self.rows)
        &&& self.graft matches Some(graft) ==> graft.block.number <= head_bound(self.head)
    }
}

/// Whether some interface is implemented by both entity types.
pub open spec fn shares_interface(interfaces: Seq<InterfaceView>, a: Seq<char>, b: Seq<char>)
    -> bool {
    exists|i: int|
        0 <= i < interfaces.len() && (#[trigger] interfaces[i]).types.contains(a)
            && interfaces[i].types.contains(b)
}

/// Whether the version stands in the way of writing `key`: it is the
/// current version of an entity with the same id whose type is another one
/// that shares an interface with the type of `key`.
pub open spec fn conflicts_with(interfaces: Seq<InterfaceView>, key: EntityKeyView, row: VersionView)
    -> bool {
    &&& row.is_open()
    &&& row.key.entity_id == key.entity_id
    &&& row.key.entity_type != key.entity_type
    &&& shares_interface(interfaces, key.entity_type, row.key.entity_type)
}

/// The entity type of the first version, at or after position `from`, that
/// stands in the way of writing `key`.
pub open spec fn conflict_from(
    rows: Seq<VersionView>,
    interfaces: Seq<InterfaceView>,
    key: EntityKeyView,
    from: int,
) -> Option<Seq<char>>
    decreases rows.len() - from,
{
    if from < 0 || from >= rows.len() {
        None
    } else if conflicts_with(interfaces, key, rows[from]) {
        Some(rows[from].key.entity_type)
    } else {
        conflict_from(rows, interfaces, key, from + 1)
    }
}

/// The entity type of the first version that stands in the way of writing
/// `key`, if there is one.
pub open spec fn conflicting_entity(
    rows: Seq<VersionView>,
    interfaces: Seq<InterfaceView>,
    key: EntityKeyView,
) -> Option<Seq<char>> {
    conflict_from(rows, interfaces, key, 0)
}

/// The versions after one change of block `block`, or the error that the
/// change meets.
pub open spec fn apply_one(
    rows: Seq<VersionView>,
    interfaces: Seq<InterfaceView>,
    change: ModificationView,
    block: BlockNumber,
) -> Result<Seq<VersionView>, StoreErrorView> {
    match change {
        ModificationView::Insert { key, data } => match conflicting_entity(rows, interfaces, key) {
            Some(other) => Err(
                StoreErrorView::ConflictingId(key.entity_type, key.entity_id, other),
            ),
            None => if has_open(rows, key) {
                Err(StoreErrorView::DuplicateEntity(key.entity_type, key.entity_id))
            } else {
                Ok(rows.push(fresh_version(key, data, block)))
            },
        },
        ModificationView::Overwrite { key, data } => match conflicting_entity(
            rows,
            interfaces,
            key,
        ) {
            Some(other) => Err(
                StoreErrorView::ConflictingId(key.entity_type, key.entity_id, other),
            ),
            None => Ok(close_open(rows, key, block).push(fresh_version(key, data, block))),
        },
        ModificationView::Remove { key } => Ok(close_open(rows, key, block)),
    }
}

/// The versions after the first `n` changes of a batch, applied in order,
/// or the first error that one of them meets.
pub open spec fn apply_batch(
    rows: Seq<VersionView>,
    interfaces: Seq<InterfaceView>,
    changes: Seq<ModificationView>,
    block: BlockNumber,
    n: int,
) -> Result<Seq<VersionView>, StoreErrorView>
    decreases n,
{
    if n <= 0 {
        Ok(rows)
    } else {
        match apply_batch(rows, interfaces, changes, block, n - 1) {
            Ok(before) => apply_one(before, interfaces, changes[n - 1], block),
            Err(e) => Err(e),
        }
    }
}

/// The entity types that the first `n` changes of a batch are about, each
/// once, in the order in which the batch first names them.
pub open spec fn changed_types(changes: Seq<ModificationView>, n: int) -> Seq<Seq<char>>
    decreases n,
{
    if n <= 0 {
        Seq::empty()
    } else {
        noted(changed_types(changes, n - 1), changes[n - 1].key().entity_type)
    }
}

/// The data source, recorded as created at `block`.
pub open spec fn created_at(source: DataSourceView, block: BlockNumber) -> DataSourceView {
    DataSourceView { creation_block: Some(block), ..source }
}

/// The stored data sources after those of `new` were added, each recorded
/// as created at `block`.
pub open spec fn add_sources(
    stored: Seq<DataSourceView>,
    new: Seq<DataSourceView>,
    block: BlockNumber,
) -> Seq<DataSourceView> {
    stored + new.map_values(|s: DataSourceView| created_at(s, block))
}

/// How many of the first `n` stored data sources equal `target`.
pub open spec fn count_source(stored: Seq<DataSourceView>, target: DataSourceView, n: int) -> nat
    decreases n,
{
    if n <= 0 {
        0
    } else {
        count_source(stored, target, n - 1) + if stored[n - 1] == target {
            1nat
        } else {
            0nat
        }
    }
}

/// The first `n` stored data sources without those that equal `target`.
pub open spec fn without_source(stored: Seq<DataSourceView>, target: DataSourceView, n: int) -> Seq<
    DataSourceView,
>
    decreases n,
{
    if n <= 0 {
        Seq::empty()
    } else if stored[n - 1] == target {
        without_source(stored, target, n - 1)
    } else {
        without_source(stored, target, n - 1).push(stored[n - 1])
    }
}

/// The stored data sources after the first `n` of `targets` were removed,
/// or the error when one of them matches more than one stored data source.
pub open spec fn remove_sources(
    stored: Seq<DataSourceView>,
    targets: Seq<DataSourceView>,
    n: int,
) -> Result<Seq<DataSourceView>, StoreErrorView>
    decreases n,
{
    if n <= 0 {
        Ok(stored)
    } else {
        match remove_sources(stored, targets, n - 1) {
            Ok(left) => if count_source(left, targets[n - 1], left.len() as int) > 1 {
                Err(StoreErrorView::AmbiguousDataSource(targets[n - 1].manifest_idx))
            } else {
                Ok(without_source(left, targets[n - 1], left.len() as int))
            },
            Err(e) => Err(e),
        }
    }
}

/// The error, put on record from `block` on.
pub open spec fn recorded_at(error: SubgraphErrorView, block: BlockNumber) -> SubgraphErrorView {
    SubgraphErrorView { block_range: BlockRange { start: Some(block), end: None }, ..error }
}

/// The errors on record after those of `new` were added for `block`.
pub open spec fn record_errors(
    recorded: Seq<SubgraphErrorView>,
    new: Seq<SubgraphErrorView>,
    block: BlockNumber,
) -> Seq<SubgraphErrorView> {
    recorded + new.map_values(|e: SubgraphErrorView| recorded_at(e, block))
}

/// The deployment after the batch of block `block` was applied with its
/// side effects, or the error that made the store reject the batch.
pub open spec fn transacted(
    d: DeploymentView,
    interfaces: Seq<InterfaceView>,
    block: BlockPtrView,
    cursor: Option<Seq<char>>,
    changes: Seq<ModificationView>,
    sources: Seq<DataSourceView>,
    errors: Seq<SubgraphErrorView>,
    offchain: Seq<DataSourceView>,
) -> Result<DeploymentView, StoreErrorView> {
    match apply_batch(d.rows, interfaces, changes, block.number, changes.len() as int) {
        Err(e) => Err(e),
        Ok(rows) => match remove_sources(
            add_sources(d.data_sources, sources, block.number),
            offchain,
            offchain.len() as int,
        ) {
            Err(e) => Err(e),
            Ok(data_sources) => if d.head matches Some(head) && block.number <= head.number {
                Err(StoreErrorView::DuplicateBlockProcessing(d.id, block.number))
            } else {
                Ok(
                    DeploymentView {
                        rows,
                        data_sources,
                        errors: record_errors(d.errors, errors, block.number),
                        head: Some(block),
                        cursor,
                        entity_count: count_open(rows),
                        ..d
                    },
                )
            },
        },
    }
}

/// Whether the data source was created before block `boundary`, or at no
/// recorded block.
pub open spec fn source_before(source: DataSourceView, boundary: int) -> bool {
    match source.creation_block {
        Some(block) => block < boundary,
        None => true,
    }
}

/// The first `n` stored data sources without those created at block
/// `boundary` or later.
pub open spec fn sources_before(stored: Seq<DataSourceView>, boundary: int, n: int) -> Seq<
    DataSourceView,
>
    decreases n,
{
    if n <= 0 {
        Seq::empty()
    } else if source_before(stored[n - 1], boundary) {
        sources_before(stored, boundary, n - 1).push(stored[n - 1])
    } else {
        sources_before(stored, boundary, n - 1)
    }
}

/// Whether the error was put on record before block `boundary`, or with a
/// range that has no first block.
pub open spec fn error_before(error: SubgraphErrorView, boundary: int) -> bool {
    match error.block_range.start {
        Some(block) => block < boundary,
        None => true,
    }
}

/// The first `n` errors on record without those recorded at block
/// `boundary` or later.
pub open spec fn errors_before(recorded: Seq<SubgraphErrorView>, boundary: int, n: int) -> Seq<
    SubgraphErrorView,
>
    decreases n,
{
    if n <= 0 {
        Seq::empty()
    } else if error_before(recorded[n - 1], boundary) {
        errors_before(recorded, boundary, n - 1).push(recorded[n - 1])
    } else {
        errors_before(recorded, boundary, n - 1)
    }
}

/// The deployment after it was reverted to block `target`: versions, data
/// sources and errors of later blocks are undone, the entity count is
/// taken anew, and the head stands at `target` with the cursor `cursor`.
/// A deployment that was grafted after `target` is not reverted.
pub open spec fn reverted_to(
    d: DeploymentView,
    graft_block: Option<BlockNumber>,
    target: BlockPtrView,
    cursor: Option<Seq<char>>,
) -> Result<DeploymentView, StoreErrorView> {
    match graft_block {
        Some(graft) if graft > target.number => Err(
            StoreErrorView::RevertPastGraft { target: target.number, graft },
        ),
        _ => {
            let boundary = target.number + 1;
            let rows = crate::versions::revert_rows(d.rows, boundary);
            Ok(
                DeploymentView {
                    rows,
                    head: Some(target),
                    cursor,
                    data_sources: sources_before(
                        d.data_sources,
                        boundary,
                        d.data_sources.len() as int,
                    ),
                    errors: errors_before(d.errors, boundary, d.errors.len() as int),
                    entity_count: count_open(rows),
                    ..d
                },
            )
        },
    }
}

} // verus!
