//! Reading from a deployment: entities as of a block, the block pointer
//! and the cursor, and the data sources that exist at a block.

use vstd::prelude::*;
use crate::block::{texts, BlockNumber, BlockPtr};
use crate::deployment::{
    copy_opt_ptr, copy_sources, opt_ptr, sources_view, FirehoseCursor, StoredDynamicDataSource,
    SubgraphHealth,
};
use crate::entity::{Entity, EntityKey};
use crate::layout::{resolve_table_name, Layout};
use crate::error::{StoreError, StoreErrorView};
use crate::revert::revert_data_sources;
use crate::state::{sources_before, Deployment, DeploymentView};
use crate::versions::{find_at, noted};

verus! {

/// The names of `names` without `name`, from its first `n` names.
pub open spec fn without_name(names: Seq<Seq<char>>, name: Seq<char>, n: int) -> Seq<Seq<char>>
    decreases n,
{
    if n <= 0 {
        Seq::empty()
    } else if names[n - 1] == name {
        without_name(names, name, n - 1)
    } else {
        without_name(names, name, n - 1).push(names[n - 1])
    }
}

/// The entities that the first `n` of `keys` have as of block `block`, in the
/// order of the keys; a key without an entity at that block adds nothing.
pub open spec fn found_many(
    rows: Seq<crate::versions::VersionView>,
    keys: Seq<crate::entity::EntityKeyView>,
    block: int,
    n: int,
) -> Seq<Seq<crate::entity::AttributeView>>
    decreases n,
{
    if n <= 0 {
        Seq::empty()
    } else {
        match find_at(rows, keys[n - 1], block) {
            Some(entity) => found_many(rows, keys, block, n - 1).push(entity),
            None => found_many(rows, keys, block, n - 1),
        }
    }
}

/// The mathematical values of a list of keys.
pub open spec fn keys_view(keys: Seq<EntityKey>) -> Seq<crate::entity::EntityKeyView> {
    keys.map_values(|k: EntityKey| k@)
}

/// The mathematical values of a list of entities.
pub open spec fn data_view(entities: Seq<Entity>) -> Seq<Seq<crate::entity::AttributeView>> {
    entities.map_values(|e: Entity| e@)
}

/// Every data source was created before the block after the last one.
proof fn lemma_all_sources_before(stored: Seq<crate::deployment::DataSourceView>, n: int)
    requires
        0 <= n <= stored.len(),
    ensures
        sources_before(stored, i32::MAX + 1, n) == stored.take(n),
    decreases n,
{
    if n > 0 {
        lemma_all_sources_before(stored, n - 1);
        assert(stored.take(n) =~= stored.take(n - 1).push(stored[n - 1]));
    } else {
        assert(stored.take(0) =~= Seq::<crate::deployment::DataSourceView>::empty());
    }
}

impl Deployment {
    /// The entities that `keys` have as of block `block`, in the order of
    /// the keys.
    pub fn get_many(&self, keys: &Vec<EntityKey>, block: BlockNumber) -> (res: Vec<Entity>)
        ensures
            data_view(res@) == found_many(
                self@.rows,
                keys_view(keys@),
                block as int,
                keys@.len() as int,
            ),
    {
        let mut res: Vec<Entity> = Vec::new();
        let mut i: usize = 0;
        assert(data_view(res@) =~= Seq::<Seq<crate::entity::AttributeView>>::empty());
        while i < keys.len()
            invariant
                i <= keys.len(),
                data_view(res@) == found_many(self@.rows, keys_view(keys@), block as int, i as int),
            decreases keys.len() - i,
        {
            assert(keys_view(keys@)[i as int] == keys@[i as int]@);
            if let Some(entity) = self.table.find(&keys[i], block) {
                let ghost before = data_view(res@);
                res.push(entity.clone());
                assert(data_view(res@) =~= before.push(entity@));
            }
            i = i + 1;
        }
        res
    }

    /// The entity `key` as of block `block`.
    pub fn get(&self, key: &EntityKey, block: BlockNumber) -> (res: Option<&Entity>)
        ensures
            match res {
                Some(entity) => find_at(self@.rows, key@, block as int) == Some(entity@),
                None => find_at(self@.rows, key@, block as int) is None,
            },
    {
        self.table.find(key, block)
    }

    /// The last block that the deployment has processed.
    pub fn block_ptr(&self) -> (res: Option<BlockPtr>)
        ensures
            opt_ptr(res) == self@.head,
    {
        copy_opt_ptr(&self.latest_block)
    }

    /// The position in the block stream from which the indexer resumes.
    pub fn block_cursor(&self) -> (res: FirehoseCursor)
        ensures
            res@ == self@.cursor,
    {
        self.cursor.clone()
    }

    /// The health of the deployment.
    pub fn health(&self) -> (res: SubgraphHealth)
        ensures
            res == self@.health,
    {
        self.health
    }

    /// The data sources that were created at block `block` or before it.
    pub fn load_dynamic_data_sources(&self, block: BlockNumber) -> (res: Vec<
        StoredDynamicDataSource,
    >)
        ensures
            sources_view(res@) == sources_before(
                self@.data_sources,
                block + 1,
                self@.data_sources.len() as int,
            ),
    {
        let mut sources = copy_sources(&self.data_sources);
        if block < i32::MAX {
            revert_data_sources(&mut sources, block + 1);
        } else {
            proof {
                lemma_all_sources_before(self@.data_sources, self@.data_sources.len() as int);
            }
        }
        sources
    }

    /// Marks the table that `table` means as account-like, or takes the
    /// mark off it. A name that means no table of the layout is reported as
    /// unknown, and nothing is changed.
    pub fn set_account_like(&mut self, layout: &Layout, table: &str, is_account_like: bool) -> (res:
        Result<(), StoreError>)
        ensures
            match res {
                Ok(_) => {
                    let at = crate::layout::resolved_table(layout@.tables, table@);
                    &&& at < layout@.tables.len()
                    &&& final(self)@ == (DeploymentView {
                        account_like: if is_account_like {
                            noted(old(self)@.account_like, layout@.tables[at].name)
                        } else {
                            without_name(
                                old(self)@.account_like,
                                layout@.tables[at].name,
                                old(self)@.account_like.len() as int,
                            )
                        },
                        ..old(self)@
                    })
                },
                Err(e) => crate::layout::resolved_table(layout@.tables, table@)
                    >= layout@.tables.len() && e@ == StoreErrorView::UnknownTable(table@)
                    && final(self)@ == old(self)@,
            },
    {
        let name = resolve_table_name(layout, table)?.name.clone();
        if is_account_like {
            crate::versions::note_type(&mut self.account_like, &name);
        } else {
            let mut kept: Vec<String> = Vec::new();
            let mut i: usize = 0;
            let ghost before = texts(self.account_like@);
            assert(texts(kept@) =~= without_name(before, name@, 0));
            while i < self.account_like.len()
                invariant
                    i <= self.account_like.len(),
                    texts(self.account_like@) == before,
                    texts(kept@) == without_name(before, name@, i as int),
                decreases self.account_like.len() - i,
            {
                assert(before[i as int] == self.account_like@[i as int]@);
                if self.account_like[i] != name {
                    let ghost prev = texts(kept@);
                    kept.push(self.account_like[i].clone());
                    assert(texts(kept@) =~= prev.push(before[i as int]));
                }
                i = i + 1;
            }
            self.account_like = kept;
        }
        Ok(())
    }
}

} // verus!
