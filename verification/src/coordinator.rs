//! Applying the changes of one block: the batch of entity changes, the new
//! and removed data sources, the errors of the block, and the move of the
//! head, all of them or none.

use vstd::prelude::*;
use crate::block::{texts, BlockNumber, BlockPtr};
use crate::deployment::{
    copy_sources, errors_view, interfaces_view, sources_view, BlockRange, DataSourceView,
    FirehoseCursor, Interface, StoreEvent, StoredDynamicDataSource, SubgraphError,
};
use crate::entity::{batch_view, EntityKey, EntityModification};
use crate::error::StoreError;
use crate::state::{
    add_sources, apply_batch, apply_one, changed_types, conflict_from, conflicting_entity,
    count_source, created_at, record_errors, recorded_at, remove_sources, shares_interface,
    transacted, without_source, Deployment,
};
use crate::versions::{note_type, VersionedTable};

verus! {

/// Whether the list holds the name.
pub fn contains_text(names: &Vec<String>, name: &String) -> (res: bool)
    ensures
        res == texts(names@).contains(name@),
{
    let mut i: usize = 0;
    while i < names.len()
        invariant
            i <= names.len(),
            forall|j: int| 0 <= j < i ==> texts(names@)[j] != name@,
        decreases names.len() - i,
    {
        if names[i] == *name {
            assert(texts(names@)[i as int] == name@);
            return true;
        }
        i = i + 1;
    }
    false
}

/// Whether some interface is implemented by both entity types.
pub fn types_share_interface(interfaces: &Vec<Interface>, a: &String, b: &String) -> (res: bool)
    ensures
        res == shares_interface(interfaces_view(interfaces@), a@, b@),
{
    let mut i: usize = 0;
    while i < interfaces.len()
        invariant
            i <= interfaces.len(),
            forall|j: int|
                0 <= j < i ==> !((#[trigger] interfaces_view(interfaces@)[j]).types.contains(a@)
                    && interfaces_view(interfaces@)[j].types.contains(b@)),
        decreases interfaces.len() - i,
    {
        if contains_text(&interfaces[i].types, a) && contains_text(&interfaces[i].types, b) {
            assert(interfaces_view(interfaces@)[i as int].types.contains(a@));
            return true;
        }
        assert(interfaces_view(interfaces@)[i as int].types == texts(interfaces@[i as int].types@));
        i = i + 1;
    }
    false
}

/// Looks for an entity that makes a write of `key` ambiguous: a current
/// entity with the same id whose type shares an interface with the type of
/// `key`. Returns the type of the first such entity.
pub fn check_interface_entity_uniqueness(
    table: &VersionedTable,
    interfaces: &Vec<Interface>,
    key: &EntityKey,
) -> (res: Result<(), StoreError>)
    ensures
        match res {
            Ok(_) => conflicting_entity(table@, interfaces_view(interfaces@), key@) is None,
            Err(e) => conflicting_entity(table@, interfaces_view(interfaces@), key@) matches Some(
                other,
            ) && e@ == crate::error::StoreErrorView::ConflictingId(
                key@.entity_type,
                key@.entity_id,
                other,
            ),
        },
{
    let mut i: usize = 0;
    while i < table.rows.len()
        invariant
            i <= table.rows.len(),
            conflicting_entity(table@, interfaces_view(interfaces@), key@) == conflict_from(
                table@,
                interfaces_view(interfaces@),
                key@,
                i as int,
            ),
        decreases table.rows.len() - i,
    {
        let row = &table.rows[i];
        assert(table@[i as int] == row@);
        if row.end.is_none() && row.key.entity_id == key.entity_id && row.key.entity_type
            != key.entity_type && types_share_interface(
            interfaces,
            &key.entity_type,
            &row.key.entity_type,
        ) {
            return Err(
                StoreError::ConflictingId(
                    key.entity_type.clone(),
                    key.entity_id.clone(),
                    row.key.entity_type.clone(),
                ),
            );
        }
        i = i + 1;
    }
    Ok(())
}

/// The notice for a batch of changes: the entity types that it is about.
pub fn event_from_mods(deployment: &String, mods: &Vec<EntityModification>) -> (event: StoreEvent)
    ensures
        event@.deployment == deployment@,
        event@.entity_types == changed_types(batch_view(mods@), mods@.len() as int),
{
    let mut types: Vec<String> = Vec::new();
    let mut i: usize = 0;
    assert(texts(types@) =~= Seq::<Seq<char>>::empty());
    while i < mods.len()
        invariant
            i <= mods.len(),
            texts(types@) == changed_types(batch_view(mods@), i as int),
        decreases mods.len() - i,
    {
        assert(batch_view(mods@)[i as int] == mods@[i as int]@);
        note_type(&mut types, &mods[i].entity_key().entity_type);
        i = i + 1;
    }
    StoreEvent { deployment: deployment.clone(), entity_types: types }
}

/// Applies one change of block `block` to the table, unless the change
/// meets an error; the table is then as it was.
pub fn apply_modification(
    table: &mut VersionedTable,
    interfaces: &Vec<Interface>,
    change: &EntityModification,
    block: BlockNumber,
) -> (res: Result<(), StoreError>)
    ensures
        match res {
            Ok(_) => apply_one(old(table)@, interfaces_view(interfaces@), change@, block) == Ok::<
                _,
                crate::error::StoreErrorView,
            >(final(table)@),
            Err(e) => apply_one(old(table)@, interfaces_view(interfaces@), change@, block) == Err::<
                Seq<crate::versions::VersionView>,
                _,
            >(e@) && final(table)@ == old(table)@,
        },
{
    match change {
        EntityModification::Insert { key, data } => {
            check_interface_entity_uniqueness(table, interfaces, key)?;
            if table.has_open_version(key) {
                return Err(
                    StoreError::DuplicateEntity(key.entity_type.clone(), key.entity_id.clone()),
                );
            }
            table.open_version(key.clone(), data.clone(), block);
            Ok(())
        },
        EntityModification::Overwrite { key, data } => {
            check_interface_entity_uniqueness(table, interfaces, key)?;
            table.close_version(key, block);
            table.open_version(key.clone(), data.clone(), block);
            Ok(())
        },
        EntityModification::Remove { key } => {
            table.close_version(key, block);
            Ok(())
        },
    }
}

/// Applies the changes of block `block` to the table, in order, up to the
/// first one that meets an error.
pub fn apply_entity_modifications(
    table: &mut VersionedTable,
    interfaces: &Vec<Interface>,
    mods: &Vec<EntityModification>,
    block: BlockNumber,
) -> (res: Result<(), StoreError>)
    ensures
        match res {
            Ok(_) => apply_batch(
                old(table)@,
                interfaces_view(interfaces@),
                batch_view(mods@),
                block,
                mods@.len() as int,
            ) == Ok::<_, crate::error::StoreErrorView>(final(table)@),
            Err(e) => apply_batch(
                old(table)@,
                interfaces_view(interfaces@),
                batch_view(mods@),
                block,
                mods@.len() as int,
            ) == Err::<Seq<crate::versions::VersionView>, _>(e@),
        },
{
    let mut i: usize = 0;
    while i < mods.len()
        invariant
            i <= mods.len(),
            apply_batch(
                old(table)@,
                interfaces_view(interfaces@),
                batch_view(mods@),
                block,
                i as int,
            ) == Ok::<_, crate::error::StoreErrorView>(table@),
        decreases mods.len() - i,
    {
        assert(batch_view(mods@)[i as int] == mods@[i as int]@);
        match apply_modification(table, interfaces, &mods[i], block) {
            Ok(_) => {},
            Err(e) => {
                proof {
                    lemma_batch_error_stays(
                        old(table)@,
                        interfaces_view(interfaces@),
                        batch_view(mods@),
                        block,
                        i + 1,
                        mods@.len() as int,
                    );
                }
                return Err(e);
            },
        }
        i = i + 1;
    }
    Ok(())
}

/// Once a change of a batch has met an error, the batch ends in that error
/// however many changes follow.
pub proof fn lemma_batch_error_stays(
    rows: Seq<crate::versions::VersionView>,
    interfaces: Seq<crate::deployment::InterfaceView>,
    changes: Seq<crate::entity::ModificationView>,
    block: BlockNumber,
    k: int,
    n: int,
)
    requires
        k <= n,
        apply_batch(rows, interfaces, changes, block, k) is Err,
    ensures
        apply_batch(rows, interfaces, changes, block, n) == apply_batch(
            rows,
            interfaces,
            changes,
            block,
            k,
        ),
    decreases n - k,
{
    if k < n {
        lemma_batch_error_stays(rows, interfaces, changes, block, k, n - 1);
    }
}

/// Adds the data sources of `new` to the stored ones, each recorded as
/// created at `block`.
pub fn insert_data_sources(
    stored: &mut Vec<StoredDynamicDataSource>,
    new: &Vec<StoredDynamicDataSource>,
    block: BlockNumber,
)
    ensures
        sources_view(final(stored)@) == add_sources(
            sources_view(old(stored)@),
            sources_view(new@),
            block,
        ),
{
    let ghost before = sources_view(stored@);
    let mut i: usize = 0;
    while i < new.len()
        invariant
            i <= new.len(),
            stored@.len() == before.len() + i,
            forall|j: int| 0 <= j < before.len() ==> stored@[j]@ == before[j],
            forall|j: int| 0 <= j < i ==> stored@[before.len() + j]@ == created_at(new@[j]@, block),
        decreases new.len() - i,
    {
        let mut source = new[i].clone();
        source.creation_block = Some(block);
        stored.push(source);
        i = i + 1;
    }
    assert(sources_view(stored@) =~= add_sources(before, sources_view(new@), block));
}

/// Removes the stored data sources that equal `target`, unless more than
/// one does.
pub fn remove_data_source(
    stored: &mut Vec<StoredDynamicDataSource>,
    target: &StoredDynamicDataSource,
) -> (res: Result<(), StoreError>)
    ensures
        match res {
            Ok(_) => count_source(sources_view(old(stored)@), target@, old(stored)@.len() as int)
                <= 1 && sources_view(final(stored)@) == without_source(
                sources_view(old(stored)@),
                target@,
                old(stored)@.len() as int,
            ),
            Err(e) => count_source(sources_view(old(stored)@), target@, old(stored)@.len() as int)
                > 1 && e@ == crate::error::StoreErrorView::AmbiguousDataSource(
                target@.manifest_idx,
            ) && sources_view(final(stored)@) == sources_view(old(stored)@),
        },
{
    let ghost before = sources_view(stored@);
    let mut count: usize = 0;
    let mut i: usize = 0;
    while i < stored.len()
        invariant
            i <= stored.len(),
            count <= i,
            count == count_source(before, target@, i as int),
            sources_view(stored@) == before,
        decreases stored.len() - i,
    {
        assert(before[i as int] == stored@[i as int]@);
        if stored[i].same(target) {
            count = count + 1;
        }
        i = i + 1;
    }
    if count > 1 {
        return Err(StoreError::AmbiguousDataSource(target.manifest_idx));
    }
    let mut kept: Vec<StoredDynamicDataSource> = Vec::new();
    let mut k: usize = 0;
    assert(sources_view(kept@) =~= without_source(before, target@, 0));
    while k < stored.len()
        invariant
            k <= stored.len(),
            sources_view(stored@) == before,
            sources_view(kept@) == without_source(before, target@, k as int),
        decreases stored.len() - k,
    {
        assert(before[k as int] == stored@[k as int]@);
        if !stored[k].same(target) {
            let ghost prev = sources_view(kept@);
            kept.push(stored[k].clone());
            assert(sources_view(kept@) =~= prev.push(before[k as int]));
        }
        k = k + 1;
    }
    *stored = kept;
    Ok(())
}

/// Removes from the stored data sources each one of `targets`, in order,
/// up to the first that matches more than one stored data source.
pub fn remove_offchain(
    stored: &mut Vec<StoredDynamicDataSource>,
    targets: &Vec<StoredDynamicDataSource>,
) -> (res: Result<(), StoreError>)
    ensures
        match res {
            Ok(_) => remove_sources(
                sources_view(old(stored)@),
                sources_view(targets@),
                targets@.len() as int,
            ) == Ok::<_, crate::error::StoreErrorView>(sources_view(final(stored)@)),
            Err(e) => remove_sources(
                sources_view(old(stored)@),
                sources_view(targets@),
                targets@.len() as int,
            ) == Err::<Seq<DataSourceView>, _>(e@),
        },
{
    let mut i: usize = 0;
    while i < targets.len()
        invariant
            i <= targets.len(),
            remove_sources(sources_view(old(stored)@), sources_view(targets@), i as int) == Ok::<
                _,
                crate::error::StoreErrorView,
            >(sources_view(stored@)),
        decreases targets.len() - i,
    {
        assert(sources_view(targets@)[i as int] == targets@[i as int]@);
        assert(sources_view(stored@).len() == stored@.len());
        match remove_data_source(stored, &targets[i]) {
            Ok(_) => {},
            Err(e) => {
                proof {
                    lemma_removal_error_stays(
                        sources_view(old(stored)@),
                        sources_view(targets@),
                        i + 1,
                        targets@.len() as int,
                    );
                }
                return Err(e);
            },
        }
        i = i + 1;
    }
    Ok(())
}

/// Once a removal has met an error, the removals end in that error however
/// many follow.
pub proof fn lemma_removal_error_stays(
    stored: Seq<DataSourceView>,
    targets: Seq<DataSourceView>,
    k: int,
    n: int,
)
    requires
        k <= n,
        remove_sources(stored, targets, k) is Err,
    ensures
        remove_sources(stored, targets, n) == remove_sources(stored, targets, k),
    decreases n - k,
{
    if k < n {
        lemma_removal_error_stays(stored, targets, k, n - 1);
    }
}

/// Puts the errors of `new` on record from `block` on.
pub fn insert_subgraph_errors(
    recorded: &mut Vec<SubgraphError>,
    new: &Vec<SubgraphError>,
    block: BlockNumber,
)
    ensures
        errors_view(final(recorded)@) == record_errors(
            errors_view(old(recorded)@),
            errors_view(new@),
            block,
        ),
{
    let ghost before = errors_view(recorded@);
    let mut i: usize = 0;
    while i < new.len()
        invariant
            i <= new.len(),
            recorded@.len() == before.len() + i,
            forall|j: int| 0 <= j < before.len() ==> recorded@[j]@ == before[j],
            forall|j: int|
                0 <= j < i ==> recorded@[before.len() + j]@ == recorded_at(new@[j]@, block),
        decreases new.len() - i,
    {
        let mut error = new[i].clone();
        error.block_range = BlockRange::from_block(block);
        recorded.push(error);
        i = i + 1;
    }
    assert(errors_view(recorded@) =~= record_errors(before, errors_view(new@), block));
}

impl Deployment {
    /// Applies the batch of block `block_ptr_to` with its side effects and
    /// moves the head there, or rejects all of it: the entity changes, in
    /// order, each checked against the entities that share an interface
    /// with it; the new data sources and the removal of the off-chain ones;
    /// the deterministic errors of the block; the head, the cursor and the
    /// entity count. Returns the notice of the changes.
    pub fn transact(
        &mut self,
        interfaces: &Vec<Interface>,
        block_ptr_to: &BlockPtr,
        firehose_cursor: &FirehoseCursor,
        mods: &Vec<EntityModification>,
        data_sources: &Vec<StoredDynamicDataSource>,
        deterministic_errors: &Vec<SubgraphError>,
        offchain_to_remove: &Vec<StoredDynamicDataSource>,
    ) -> (res: Result<StoreEvent, StoreError>)
        ensures
            match res {
                Ok(event) => transacted(
                    old(self)@,
                    interfaces_view(interfaces@),
                    block_ptr_to@,
                    firehose_cursor@,
                    batch_view(mods@),
                    sources_view(data_sources@),
                    errors_view(deterministic_errors@),
                    sources_view(offchain_to_remove@),
                ) == Ok::<_, crate::error::StoreErrorView>(final(self)@) && event@.deployment
                    == old(self)@.id && event@.entity_types == changed_types(
                    batch_view(mods@),
                    mods@.len() as int,
                ),
                Err(e) => transacted(
                    old(self)@,
                    interfaces_view(interfaces@),
                    block_ptr_to@,
                    firehose_cursor@,
                    batch_view(mods@),
                    sources_view(data_sources@),
                    errors_view(deterministic_errors@),
                    sources_view(offchain_to_remove@),
                ) == Err::<crate::state::DeploymentView, _>(e@) && final(self)@ == old(self)@,
            },
            old(self)@.wf() ==> final(self)@.wf(),
    {
        proof {
            if old(self)@.wf() && transacted(
                old(self)@,
                interfaces_view(interfaces@),
                block_ptr_to@,
                firehose_cursor@,
                batch_view(mods@),
                sources_view(data_sources@),
                errors_view(deterministic_errors@),
                sources_view(offchain_to_remove@),
            ) is Ok {
                crate::laws::lemma_transact_keeps_wf(
                    old(self)@,
                    interfaces_view(interfaces@),
                    block_ptr_to@,
                    firehose_cursor@,
                    batch_view(mods@),
                    sources_view(data_sources@),
                    errors_view(deterministic_errors@),
                    sources_view(offchain_to_remove@),
                );
            }
        }
        let event = event_from_mods(&self.id, mods);
        let mut table = self.table.clone();
        apply_entity_modifications(&mut table, interfaces, mods, block_ptr_to.number)?;
        let mut sources = copy_sources(&self.data_sources);
        insert_data_sources(&mut sources, data_sources, block_ptr_to.number);
        remove_offchain(&mut sources, offchain_to_remove)?;
        let behind = match &self.latest_block {
            Some(head) => block_ptr_to.number <= head.number,
            None => false,
        };
        if behind {
            return Err(StoreError::DuplicateBlockProcessing(self.id.clone(), block_ptr_to.number));
        }
        insert_subgraph_errors(&mut self.errors, deterministic_errors, block_ptr_to.number);
        self.entity_count = table.count_current();
        self.table = table;
        self.data_sources = sources;
        self.latest_block = Some(block_ptr_to.clone());
        self.cursor = firehose_cursor.clone();
        Ok(event)
    }
}

} // verus!
