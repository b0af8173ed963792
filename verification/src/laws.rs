//! What holds of the store whatever the sequence of operations.

use vstd::prelude::*;
use crate::block::{BlockNumber, BlockPtrView};
use crate::deployment::{graft_block_of, DataSourceView, InterfaceView, SubgraphErrorView};
use crate::entity::{EntityKeyView, ModificationView};
use crate::error::{ConstraintViolation, StoreErrorView};
use crate::graft::{graft_upto, grafted, rows_upto, GRAFT_PHASES};
use crate::prune::{prune_check, pruned, reclaim_prefix, reclaimed, seen_from};
use crate::state::{apply_batch, apply_one, head_bound, reverted_to, transacted, DeploymentView};
use crate::versions::{
    close_open, count_open, count_open_in, find_at, lemma_close_keeps_wf, lemma_find_none,
    lemma_one_version_per_block, lemma_open_keeps_wf, lemma_revert_keeps_wf, lemma_wf_widen,
    revert_prefix, revert_rows, versions_wf, VersionView,
};

verus! {

proof fn lemma_apply_one_keeps_wf(
    rows: Seq<VersionView>,
    interfaces: Seq<InterfaceView>,
    change: ModificationView,
    block: BlockNumber,
)
    requires
        versions_wf(rows, block as int),
        apply_one(rows, interfaces, change, block) is Ok,
    ensures
        versions_wf(apply_one(rows, interfaces, change, block)->Ok_0, block as int),
{
    match change {
        ModificationView::Insert { key, data } => {
            lemma_open_keeps_wf(rows, key, data, block);
        },
        ModificationView::Overwrite { key, data } => {
            lemma_close_keeps_wf(rows, key, block);
            lemma_open_keeps_wf(close_open(rows, key, block), key, data, block);
        },
        ModificationView::Remove { key } => {
            lemma_close_keeps_wf(rows, key, block);
        },
    }
}

proof fn lemma_apply_batch_keeps_wf(
    rows: Seq<VersionView>,
    interfaces: Seq<InterfaceView>,
    changes: Seq<ModificationView>,
    block: BlockNumber,
    n: int,
)
    requires
        versions_wf(rows, block as int),
        apply_batch(rows, interfaces, changes, block, n) is Ok,
    ensures
        versions_wf(apply_batch(rows, interfaces, changes, block, n)->Ok_0, block as int),
    decreases n,
{
    if n > 0 {
        lemma_apply_batch_keeps_wf(rows, interfaces, changes, block, n - 1);
        lemma_apply_one_keeps_wf(
            apply_batch(rows, interfaces, changes, block, n - 1)->Ok_0,
            interfaces,
            changes[n - 1],
            block,
        );
    }
}

/// Temporal integrity, kept by a transaction: a consistent deployment is
/// consistent again after a batch was applied, so at every block at most
/// one version of an entity is valid (see `lemma_one_version_per_block`).
pub proof fn lemma_transact_keeps_wf(
    d: DeploymentView,
    interfaces: Seq<InterfaceView>,
    block: BlockPtrView,
    cursor: Option<Seq<char>>,
    changes: Seq<ModificationView>,
    sources: Seq<DataSourceView>,
    errors: Seq<SubgraphErrorView>,
    offchain: Seq<DataSourceView>,
)
    requires
        d.wf(),
        transacted(d, interfaces, block, cursor, changes, sources, errors, offchain) is Ok,
    ensures
        transacted(d, interfaces, block, cursor, changes, sources, errors, offchain)->Ok_0.wf(),
{
    lemma_wf_widen(d.rows, head_bound(d.head), block.number as int);
    lemma_apply_batch_keeps_wf(d.rows, interfaces, changes, block.number, changes.len() as int);
}

/// Temporal integrity, kept by a revert: a consistent deployment is
/// consistent again after it was reverted to any block, where the revert
/// was held to the graft point of the deployment.
pub proof fn lemma_revert_keeps_deployment_wf(
    d: DeploymentView,
    graft_block: Option<BlockNumber>,
    target: BlockPtrView,
    cursor: Option<Seq<char>>,
)
    requires
        d.wf(),
        graft_block == graft_block_of(d.graft),
        reverted_to(d, graft_block, target, cursor) is Ok,
    ensures
        reverted_to(d, graft_block, target, cursor)->Ok_0.wf(),
{
    lemma_revert_keeps_wf(d.rows, head_bound(d.head), target.number + 1);
}

/// Whether `later` is what a batch of block `block` can have made of
/// `rows`: the versions of `rows`, some current ones ended at `block`,
/// followed by versions that begin at `block`.
spec fn grown_from(rows: Seq<VersionView>, later: Seq<VersionView>, block: BlockNumber) -> bool {
    &&& rows.len() <= later.len()
    &&& forall|i: int|
        0 <= i < rows.len() ==> #[trigger] later[i] == rows[i] || (rows[i].is_open() && later[i]
            == rows[i].closed_at(block))
    &&& forall|i: int| rows.len() <= i < later.len() ==> (#[trigger] later[i]).start == block
}

proof fn lemma_apply_one_grows(
    rows: Seq<VersionView>,
    later: Seq<VersionView>,
    interfaces: Seq<InterfaceView>,
    change: ModificationView,
    block: BlockNumber,
)
    requires
        grown_from(rows, later, block),
        apply_one(later, interfaces, change, block) is Ok,
    ensures
        grown_from(rows, apply_one(later, interfaces, change, block)->Ok_0, block),
{
    let after = apply_one(later, interfaces, change, block)->Ok_0;
    assert forall|i: int| 0 <= i < rows.len() implies #[trigger] after[i] == rows[i] || (
    rows[i].is_open() && after[i] == rows[i].closed_at(block)) by {
        assert(later[i] == rows[i] || (rows[i].is_open() && later[i] == rows[i].closed_at(block)));
    }
    assert forall|i: int| rows.len() <= i < after.len() implies (#[trigger] after[i]).start
        == block by {
        if i < later.len() {
            assert(later[i].start == block);
        }
    }
}

proof fn lemma_apply_batch_grows(
    rows: Seq<VersionView>,
    interfaces: Seq<InterfaceView>,
    changes: Seq<ModificationView>,
    block: BlockNumber,
    n: int,
)
    requires
        apply_batch(rows, interfaces, changes, block, n) is Ok,
    ensures
        grown_from(rows, apply_batch(rows, interfaces, changes, block, n)->Ok_0, block),
    decreases n,
{
    if n > 0 {
        lemma_apply_batch_grows(rows, interfaces, changes, block, n - 1);
        lemma_apply_one_grows(
            rows,
            apply_batch(rows, interfaces, changes, block, n - 1)->Ok_0,
            interfaces,
            changes[n - 1],
            block,
        );
    }
}

proof fn lemma_revert_undoes_growth(
    rows: Seq<VersionView>,
    later: Seq<VersionView>,
    head: int,
    block: BlockNumber,
    n: int,
)
    requires
        versions_wf(rows, head),
        head < block,
        grown_from(rows, later, block),
        0 <= n <= later.len(),
    ensures
        revert_prefix(later, block as int, n) == (if n <= rows.len() {
            rows.take(n)
        } else {
            rows
        }),
    decreases n,
{
    if n > 0 {
        lemma_revert_undoes_growth(rows, later, head, block, n - 1);
        if n <= rows.len() {
            assert(rows[n - 1].within(head));
            assert(later[n - 1] == rows[n - 1] || (rows[n - 1].is_open() && later[n - 1] == rows[n
                - 1].closed_at(block)));
            assert(later[n - 1].reverted(block as int) == rows[n - 1]);
            assert(rows.take(n) =~= rows.take(n - 1).push(rows[n - 1]));
        } else {
            assert(later[n - 1].start == block);
            assert(rows.take(rows.len() as int) =~= rows);
        }
    } else {
        assert(rows.take(0) =~= Seq::<VersionView>::empty());
    }
}

/// A revert undoes a batch: when a batch was applied for block `block` and
/// a revert to the block before it succeeds, the versions of the entities
/// and the entity count are what they were before the batch, whatever the
/// batch held and whatever graft block the revert was held to.
pub proof fn lemma_revert_undoes_batch(
    d: DeploymentView,
    interfaces: Seq<InterfaceView>,
    block: BlockPtrView,
    cursor: Option<Seq<char>>,
    changes: Seq<ModificationView>,
    sources: Seq<DataSourceView>,
    errors: Seq<SubgraphErrorView>,
    offchain: Seq<DataSourceView>,
    graft_block: Option<BlockNumber>,
    target: BlockPtrView,
    target_cursor: Option<Seq<char>>,
)
    requires
        versions_wf(d.rows, head_bound(d.head)),
        d.entity_count == count_open(d.rows),
        target.number == block.number - 1,
        transacted(d, interfaces, block, cursor, changes, sources, errors, offchain) is Ok,
        reverted_to(
            transacted(d, interfaces, block, cursor, changes, sources, errors, offchain)->Ok_0,
            graft_block,
            target,
            target_cursor,
        ) is Ok,
    ensures
        ({
            let after = reverted_to(
                transacted(d, interfaces, block, cursor, changes, sources, errors, offchain)->Ok_0,
                graft_block,
                target,
                target_cursor,
            )->Ok_0;
            &&& after.rows == d.rows
            &&& after.entity_count == d.entity_count
            &&& after.head == Some(target)
        }),
{
    let applied = apply_batch(d.rows, interfaces, changes, block.number, changes.len() as int)->Ok_0;
    lemma_apply_batch_grows(d.rows, interfaces, changes, block.number, changes.len() as int);
    lemma_revert_undoes_growth(
        d.rows,
        applied,
        head_bound(d.head),
        block.number,
        applied.len() as int,
    );
    assert(d.rows.take(d.rows.len() as int) =~= d.rows);
}

/// Rewind inverse: when a batch was applied to a consistent deployment for
/// block `block`, a revert to the block before it, held to the graft point
/// of the deployment, succeeds, and the versions of the entities, every
/// lookup at every block and the entity count are what they were before
/// the batch, whatever the batch held. The head is at the target.
pub proof fn lemma_rewind_inverse(
    d: DeploymentView,
    interfaces: Seq<InterfaceView>,
    block: BlockPtrView,
    cursor: Option<Seq<char>>,
    changes: Seq<ModificationView>,
    sources: Seq<DataSourceView>,
    errors: Seq<SubgraphErrorView>,
    offchain: Seq<DataSourceView>,
    target: BlockPtrView,
    target_cursor: Option<Seq<char>>,
)
    requires
        d.wf(),
        target.number == block.number - 1,
        transacted(d, interfaces, block, cursor, changes, sources, errors, offchain) is Ok,
    ensures
        ({
            let reverted = reverted_to(
                transacted(d, interfaces, block, cursor, changes, sources, errors, offchain)->Ok_0,
                graft_block_of(d.graft),
                target,
                target_cursor,
            );
            &&& reverted is Ok
            &&& reverted->Ok_0.rows == d.rows
            &&& reverted->Ok_0.entity_count == d.entity_count
            &&& reverted->Ok_0.head == Some(target)
            &&& forall|key: EntityKeyView, at: int|
                find_at(reverted->Ok_0.rows, key, at) == find_at(d.rows, key, at)
        }),
{
    lemma_revert_undoes_batch(
        d,
        interfaces,
        block,
        cursor,
        changes,
        sources,
        errors,
        offchain,
        graft_block_of(d.graft),
        target,
        target_cursor,
    );
}

/// Pruning monotonicity: while the head is beyond the reorg threshold, a
/// request to move the earliest block back is a constraint violation.
pub proof fn lemma_floor_never_moves_back(
    latest: BlockNumber,
    floor: BlockNumber,
    graft_block: Option<BlockNumber>,
    earliest_block: BlockNumber,
    reorg_threshold: BlockNumber,
)
    requires
        earliest_block < floor,
        latest > reorg_threshold,
    ensures
        prune_check(latest, floor, graft_block, earliest_block, reorg_threshold) == Err::<
            Option<BlockNumber>,
            _,
        >(ConstraintViolation::EarliestBlockMovesBack { from: floor, to: earliest_block }),
{
}

/// Pruning monotonicity: a request to prune that passes the check does not
/// lower the earliest block, leaves a block between it and the last final
/// block, and does not pass the graft point.
pub proof fn lemma_prune_raises_floor(
    latest: BlockNumber,
    floor: BlockNumber,
    graft_block: Option<BlockNumber>,
    earliest_block: BlockNumber,
    reorg_threshold: BlockNumber,
)
    requires
        prune_check(latest, floor, graft_block, earliest_block, reorg_threshold) matches Ok(
            Some(_),
        ),
    ensures
        floor <= earliest_block < latest - reorg_threshold,
        graft_block matches Some(graft) ==> earliest_block <= graft,
{
}

/// Whether `row` is one of the first `n` versions and can be seen from
/// `earliest_block` on.
spec fn kept_by_reclaim(rows: Seq<VersionView>, earliest_block: int, n: int, row: VersionView)
    -> bool {
    exists|m: int| 0 <= m < n && #[trigger] rows[m] == row && seen_from(row, earliest_block)
}

proof fn lemma_reclaim_prefix(rows: Seq<VersionView>, head: int, earliest_block: int, n: int)
    requires
        versions_wf(rows, head),
        0 <= n <= rows.len(),
    ensures
        versions_wf(reclaim_prefix(rows, earliest_block, n), head),
        forall|p: int|
            0 <= p < reclaim_prefix(rows, earliest_block, n).len() ==> kept_by_reclaim(
                rows,
                earliest_block,
                n,
                #[trigger] reclaim_prefix(rows, earliest_block, n)[p],
            ),
        forall|m: int|
            0 <= m < n && seen_from(#[trigger] rows[m], earliest_block) ==> reclaim_prefix(
                rows,
                earliest_block,
                n,
            ).contains(rows[m]),
        count_open(reclaim_prefix(rows, earliest_block, n)) == count_open_in(rows, n),
    decreases n,
{
    if n > 0 {
        lemma_reclaim_prefix(rows, head, earliest_block, n - 1);
        let init = reclaim_prefix(rows, earliest_block, n - 1);
        let after = reclaim_prefix(rows, earliest_block, n);
        assert forall|p: int| 0 <= p < after.len() implies kept_by_reclaim(
            rows,
            earliest_block,
            n,
            #[trigger] after[p],
        ) by {
            if p < init.len() {
                assert(kept_by_reclaim(rows, earliest_block, n - 1, init[p]));
                let m = choose|m: int|
                    0 <= m < n - 1 && #[trigger] rows[m] == init[p] && seen_from(
                        init[p],
                        earliest_block,
                    );
                assert(0 <= m < n && rows[m] == after[p]);
            } else {
                assert(rows[n - 1] == after[p]);
            }
        }
        assert forall|m: int|
            0 <= m < n && seen_from(#[trigger] rows[m], earliest_block) implies after.contains(
            rows[m],
        ) by {
            if m < n - 1 {
                assert(init.contains(rows[m]));
                let p = choose|p: int| 0 <= p < init.len() && init[p] == rows[m];
                assert(after[p] == rows[m]);
            } else {
                assert(after[after.len() - 1] == rows[m]);
            }
        }
        if seen_from(rows[n - 1], earliest_block) {
            assert(after.drop_last() =~= init);
            assert(rows[n - 1].within(head));
            assert forall|i: int| 0 <= i < after.len() implies (#[trigger] after[i]).within(
                head,
            ) by {
                if i < init.len() {
                    assert(init[i].within(head));
                }
            }
            assert forall|i: int, j: int|
                #![trigger after[i], after[j]]
                0 <= i < j < after.len() && after[i].key == after[j].key implies after[i].apart_from(
                after[j],
            ) by {
                if j < init.len() {
                    assert(init[i].apart_from(init[j]));
                } else {
                    assert(kept_by_reclaim(rows, earliest_block, n - 1, init[i]));
                    let m = choose|m: int|
                        0 <= m < n - 1 && #[trigger] rows[m] == init[i] && seen_from(
                            init[i],
                            earliest_block,
                        );
                    assert(rows[m].apart_from(rows[n - 1]));
                }
            }
            lemma_count_open_push(init, rows[n - 1]);
        }
    }
}

proof fn lemma_count_open_prefix(rows: Seq<VersionView>, longer: Seq<VersionView>, n: int)
    requires
        0 <= n <= rows.len() <= longer.len(),
        forall|i: int| 0 <= i < rows.len() ==> rows[i] == longer[i],
    ensures
        count_open_in(rows, n) == count_open_in(longer, n),
    decreases n,
{
    if n > 0 {
        lemma_count_open_prefix(rows, longer, n - 1);
    }
}

proof fn lemma_count_open_push(rows: Seq<VersionView>, row: VersionView)
    ensures
        count_open(rows.push(row)) == count_open(rows) + if row.is_open() {
            1nat
        } else {
            0nat
        },
{
    lemma_count_open_prefix(rows, rows.push(row), rows.len() as int);
}

/// Pruning keeps what can be seen: for every block at or after the
/// earliest block, a lookup finds after the reclamation what it found before
/// it. The versions stay well formed, and no current version is lost.
pub proof fn lemma_prune_keeps_history(
    rows: Seq<VersionView>,
    head: int,
    earliest_block: int,
    key: EntityKeyView,
    block: int,
)
    requires
        versions_wf(rows, head),
        block >= earliest_block,
    ensures
        find_at(reclaimed(rows, earliest_block), key, block) == find_at(rows, key, block),
        versions_wf(reclaimed(rows, earliest_block), head),
        count_open(reclaimed(rows, earliest_block)) == count_open(rows),
{
    let after = reclaimed(rows, earliest_block);
    lemma_reclaim_prefix(rows, head, earliest_block, rows.len() as int);
    lemma_find_none(rows, key, block);
    lemma_find_none(after, key, block);
    if exists|i: int| 0 <= i < rows.len() && (#[trigger] rows[i]).key == key && rows[i].valid_at(block) {
        let i = choose|i: int|
            0 <= i < rows.len() && (#[trigger] rows[i]).key == key && rows[i].valid_at(block);
        lemma_one_version_per_block(rows, head, key, block, i);
        assert(seen_from(rows[i], earliest_block));
        assert(after.contains(rows[i]));
        let p = choose|p: int| 0 <= p < after.len() && after[p] == rows[i];
        lemma_one_version_per_block(after, head, key, block, p);
    } else {
        assert forall|p: int| 0 <= p < after.len() implies !((#[trigger] after[p]).key == key
            && after[p].valid_at(block)) by {
            assert(kept_by_reclaim(rows, earliest_block, rows.len() as int, after[p]));
            let m = choose|m: int|
                0 <= m < rows.len() && #[trigger] rows[m] == after[p] && seen_from(
                    after[p],
                    earliest_block,
                );
            assert(!(rows[m].key == key && rows[m].valid_at(block)));
        }
    }
}

/// A consistent deployment is consistent again after it was pruned.
pub proof fn lemma_prune_keeps_wf(d: DeploymentView, earliest_block: BlockNumber)
    requires
        d.wf(),
    ensures
        pruned(d, earliest_block).wf(),
{
    let key = EntityKeyView { entity_type: Seq::empty(), entity_id: Seq::empty() };
    lemma_prune_keeps_history(
        d.rows,
        head_bound(d.head),
        earliest_block as int,
        key,
        earliest_block as int,
    );
}

/// Graft idempotence: a graft that runs through all its phases ends in the
/// same state of the destination whether it starts from the destination as
/// it was, or from what an earlier run of the same graft left of it when it
/// was interrupted after any number of phases, or when it ran to its end.
pub proof fn lemma_graft_idempotent(
    d: DeploymentView,
    src: DeploymentView,
    block: BlockPtrView,
    phases_done: int,
)
    requires
        0 <= phases_done <= GRAFT_PHASES,
    ensures
        grafted(graft_upto(d, src, block, phases_done), src, block) == grafted(d, src, block),
{
    reveal_with_fuel(graft_upto, 8);
}

/// The entities, their count and the head that a graft ends with depend on
/// the source and the graft block alone.
pub proof fn lemma_graft_result(d: DeploymentView, src: DeploymentView, block: BlockPtrView)
    ensures
        grafted(d, src, block).rows == revert_rows(
            rows_upto(src.rows, block.number as int, src.rows.len() as int),
            block.number + 1,
        ),
        grafted(d, src, block).entity_count == count_open(grafted(d, src, block).rows),
        grafted(d, src, block).head == Some(block),
        grafted(d, src, block).graft == d.graft,
{
    reveal_with_fuel(graft_upto, 8);
}

proof fn lemma_rows_upto_wf(rows: Seq<VersionView>, head: int, block: int, n: int)
    requires
        versions_wf(rows, head),
        0 <= n <= rows.len(),
    ensures
        versions_wf(rows_upto(rows, block, n), head),
        forall|p: int|
            0 <= p < rows_upto(rows, block, n).len() ==> exists|m: int|
                0 <= m < n && #[trigger] rows[m] == (#[trigger] rows_upto(rows, block, n)[p]),
    decreases n,
{
    if n > 0 {
        lemma_rows_upto_wf(rows, head, block, n - 1);
        let init = rows_upto(rows, block, n - 1);
        let after = rows_upto(rows, block, n);
        assert forall|p: int| 0 <= p < after.len() implies exists|m: int|
            0 <= m < n && #[trigger] rows[m] == (#[trigger] after[p]) by {
            if p < init.len() {
                let m = choose|m: int| 0 <= m < n - 1 && #[trigger] rows[m] == init[p];
                assert(0 <= m < n && rows[m] == after[p]);
            } else {
                assert(rows[n - 1] == after[p]);
            }
        }
        if rows[n - 1].start <= block {
            assert(rows[n - 1].within(head));
            assert forall|i: int| 0 <= i < after.len() implies (#[trigger] after[i]).within(
                head,
            ) by {
                if i < init.len() {
                    assert(init[i].within(head));
                }
            }
            assert forall|i: int, j: int|
                #![trigger after[i], after[j]]
                0 <= i < j < after.len() && after[i].key == after[j].key implies after[i].apart_from(
                after[j],
            ) by {
                if j < init.len() {
                    assert(init[i].apart_from(init[j]));
                } else {
                    let m = choose|m: int| 0 <= m < n - 1 && #[trigger] rows[m] == init[i];
                    assert(rows[m].apart_from(rows[n - 1]));
                }
            }
        }
    }
}

/// A graft from a consistent source, at a block that is not before the
/// graft point of the destination, leaves the destination consistent,
/// whatever the destination was.
pub proof fn lemma_graft_keeps_wf(d: DeploymentView, src: DeploymentView, block: BlockPtrView)
    requires
        src.wf(),
        d.graft matches Some(graft) ==> graft.block.number <= block.number,
    ensures
        grafted(d, src, block).wf(),
{
    lemma_graft_result(d, src, block);
    lemma_rows_upto_wf(src.rows, head_bound(src.head), block.number as int, src.rows.len() as int);
    lemma_revert_keeps_wf(
        rows_upto(src.rows, block.number as int, src.rows.len() as int),
        head_bound(src.head),
        block.number + 1,
    );
}

/// Whether some version among `rows` is of `key`, valid at `block`, and
/// holds `data`.
pub open spec fn shows(
    rows: Seq<VersionView>,
    key: EntityKeyView,
    block: int,
    data: Seq<crate::entity::AttributeView>,
) -> bool {
    exists|i: int|
        0 <= i < rows.len() && (#[trigger] rows[i]).key == key && rows[i].valid_at(block)
            && rows[i].data == data
}

/// Two well-formed lists of versions that show the same data for an entity
/// at a block give the same answer to a lookup of it at that block.
pub proof fn lemma_same_lookup(
    rows: Seq<VersionView>,
    head: int,
    other: Seq<VersionView>,
    other_head: int,
    key: EntityKeyView,
    block: int,
)
    requires
        versions_wf(rows, head),
        versions_wf(other, other_head),
        forall|data: Seq<crate::entity::AttributeView>|
            shows(rows, key, block, data) == shows(other, key, block, data),
    ensures
        find_at(other, key, block) == find_at(rows, key, block),
{
    lemma_find_none(rows, key, block);
    lemma_find_none(other, key, block);
    if exists|i: int| 0 <= i < rows.len() && (#[trigger] rows[i]).key == key && rows[i].valid_at(block) {
        let i = choose|i: int|
            0 <= i < rows.len() && (#[trigger] rows[i]).key == key && rows[i].valid_at(block);
        lemma_one_version_per_block(rows, head, key, block, i);
        assert(shows(rows, key, block, rows[i].data));
        assert(shows(other, key, block, rows[i].data));
        let p = choose|p: int|
            0 <= p < other.len() && (#[trigger] other[p]).key == key && other[p].valid_at(block)
                && other[p].data == rows[i].data;
        lemma_one_version_per_block(other, other_head, key, block, p);
    } else {
        assert forall|p: int| 0 <= p < other.len() implies !((#[trigger] other[p]).key == key
            && other[p].valid_at(block)) by {
            if other[p].key == key && other[p].valid_at(block) {
                assert(shows(other, key, block, other[p].data));
                assert(shows(rows, key, block, other[p].data));
            }
        }
    }
}

/// History is immutable under a transaction: what a lookup found at a
/// block before the block of a batch, it finds after the batch was applied.
pub proof fn lemma_transact_keeps_history(
    rows: Seq<VersionView>,
    head: int,
    interfaces: Seq<InterfaceView>,
    changes: Seq<ModificationView>,
    block: BlockNumber,
    key: EntityKeyView,
    earlier: int,
)
    requires
        versions_wf(rows, head),
        head < block,
        earlier < block,
        apply_batch(rows, interfaces, changes, block, changes.len() as int) is Ok,
    ensures
        find_at(
            apply_batch(rows, interfaces, changes, block, changes.len() as int)->Ok_0,
            key,
            earlier,
        ) == find_at(rows, key, earlier),
{
    let after = apply_batch(rows, interfaces, changes, block, changes.len() as int)->Ok_0;
    lemma_apply_batch_grows(rows, interfaces, changes, block, changes.len() as int);
    lemma_wf_widen(rows, head, block as int);
    lemma_apply_batch_keeps_wf(rows, interfaces, changes, block, changes.len() as int);
    assert forall|data: Seq<crate::entity::AttributeView>|
        shows(rows, key, earlier, data) == shows(after, key, earlier, data) by {
        if shows(rows, key, earlier, data) {
            let i = choose|i: int|
                0 <= i < rows.len() && (#[trigger] rows[i]).key == key && rows[i].valid_at(earlier)
                    && rows[i].data == data;
            assert(after[i] == rows[i] || (rows[i].is_open() && after[i] == rows[i].closed_at(
                block,
            )));
            assert(after[i].key == key && after[i].valid_at(earlier) && after[i].data == data);
        }
        if shows(after, key, earlier, data) {
            let p = choose|p: int|
                0 <= p < after.len() && (#[trigger] after[p]).key == key && after[p].valid_at(
                    earlier,
                ) && after[p].data == data;
            if p < rows.len() {
                assert(after[p] == rows[p] || (rows[p].is_open() && after[p] == rows[p].closed_at(
                    block,
                )));
                assert(rows[p].key == key && rows[p].valid_at(earlier) && rows[p].data == data);
            } else {
                assert(after[p].start == block);
            }
        }
    }
    lemma_same_lookup(rows, block as int, after, block as int, key, earlier);
}

proof fn lemma_revert_prefix_keeps(rows: Seq<VersionView>, boundary: int, n: int)
    requires
        0 <= n <= rows.len(),
    ensures
        forall|m: int|
            0 <= m < n && (#[trigger] rows[m]).start < boundary ==> revert_prefix(
                rows,
                boundary,
                n,
            ).contains(rows[m].reverted(boundary)),
    decreases n,
{
    if n > 0 {
        lemma_revert_prefix_keeps(rows, boundary, n - 1);
        let init = revert_prefix(rows, boundary, n - 1);
        let after = revert_prefix(rows, boundary, n);
        assert forall|m: int| 0 <= m < n && (#[trigger] rows[m]).start < boundary implies after.contains(
            rows[m].reverted(boundary),
        ) by {
            if m < n - 1 {
                assert(init.contains(rows[m].reverted(boundary)));
                let p = choose|p: int| 0 <= p < init.len() && init[p] == rows[m].reverted(boundary);
                assert(after[p] == rows[m].reverted(boundary));
            } else {
                assert(after[after.len() - 1] == rows[m].reverted(boundary));
            }
        }
    }
}

/// History is immutable under a revert: what a lookup found at a block
/// before the boundary of a revert, it finds after the revert.
pub proof fn lemma_revert_keeps_history(
    rows: Seq<VersionView>,
    head: int,
    boundary: int,
    key: EntityKeyView,
    earlier: int,
)
    requires
        versions_wf(rows, head),
        earlier < boundary,
    ensures
        find_at(revert_rows(rows, boundary), key, earlier) == find_at(rows, key, earlier),
{
    let after = revert_rows(rows, boundary);
    lemma_revert_keeps_wf(rows, head, boundary);
    lemma_revert_prefix_keeps(rows, boundary, rows.len() as int);
    crate::versions::lemma_revert_leaves(rows, head, boundary);
    assert forall|data: Seq<crate::entity::AttributeView>|
        shows(rows, key, earlier, data) == shows(after, key, earlier, data) by {
        if shows(rows, key, earlier, data) {
            let i = choose|i: int|
                0 <= i < rows.len() && (#[trigger] rows[i]).key == key && rows[i].valid_at(earlier)
                    && rows[i].data == data;
            assert(rows[i].within(head));
            assert(after.contains(rows[i].reverted(boundary)));
            let p = choose|p: int| 0 <= p < after.len() && after[p] == rows[i].reverted(boundary);
            assert(after[p].key == key && after[p].valid_at(earlier) && after[p].data == data);
        }
        if shows(after, key, earlier, data) {
            let p = choose|p: int|
                0 <= p < after.len() && (#[trigger] after[p]).key == key && after[p].valid_at(
                    earlier,
                ) && after[p].data == data;
            assert(crate::versions::left_by_revert(rows, boundary, rows.len() as int, after[p]));
            let m = choose|m: int|
                0 <= m < rows.len() && (#[trigger] rows[m]).start < boundary && after[p]
                    == rows[m].reverted(boundary);
            assert(rows[m].within(head));
            assert(rows[m].key == key && rows[m].valid_at(earlier) && rows[m].data == data);
        }
    }
    lemma_same_lookup(rows, head, after, boundary - 1, key, earlier);
}

/// A write is read: from the block of an insert or an overwrite on, a
/// lookup of the entity finds what was written, as long as nothing later
/// changes it.
pub proof fn lemma_write_is_read(
    rows: Seq<VersionView>,
    interfaces: Seq<InterfaceView>,
    change: ModificationView,
    block: BlockNumber,
    later: int,
)
    requires
        versions_wf(rows, block as int),
        apply_one(rows, interfaces, change, block) is Ok,
        !(change is Remove),
        later >= block,
    ensures
        find_at(apply_one(rows, interfaces, change, block)->Ok_0, change.key(), later) == Some(
            match change {
                ModificationView::Insert { data, .. } => data,
                ModificationView::Overwrite { data, .. } => data,
                ModificationView::Remove { .. } => Seq::empty(),
            },
        ),
{
    let after = apply_one(rows, interfaces, change, block)->Ok_0;
    lemma_apply_one_keeps_wf(rows, interfaces, change, block);
    lemma_one_version_per_block(after, block as int, change.key(), later, after.len() - 1);
}

/// A removed entity is gone: from the block of its removal on, a lookup of
/// it finds nothing, as long as nothing later writes it.
pub proof fn lemma_removed_is_gone(
    rows: Seq<VersionView>,
    interfaces: Seq<InterfaceView>,
    key: EntityKeyView,
    block: BlockNumber,
    later: int,
)
    requires
        versions_wf(rows, block as int),
        later >= block,
    ensures
        find_at(close_open(rows, key, block), key, later) is None,
        apply_one(rows, interfaces, ModificationView::Remove { key }, block) == Ok::<
            _,
            StoreErrorView,
        >(close_open(rows, key, block)),
{
    let after = close_open(rows, key, block);
    lemma_find_none(after, key, later);
    assert forall|j: int| 0 <= j < after.len() implies !((#[trigger] after[j]).key == key
        && after[j].valid_at(later)) by {
        assert(rows[j].within(block as int));
    }
}

proof fn lemma_rows_upto_keeps(rows: Seq<VersionView>, block: int, n: int)
    requires
        0 <= n <= rows.len(),
    ensures
        forall|m: int|
            0 <= m < n && (#[trigger] rows[m]).start <= block ==> rows_upto(rows, block, n).contains(
                rows[m],
            ),
    decreases n,
{
    if n > 0 {
        lemma_rows_upto_keeps(rows, block, n - 1);
        let init = rows_upto(rows, block, n - 1);
        let after = rows_upto(rows, block, n);
        assert forall|m: int| 0 <= m < n && (#[trigger] rows[m]).start <= block implies after.contains(
            rows[m],
        ) by {
            if m < n - 1 {
                assert(init.contains(rows[m]));
                let p = choose|p: int| 0 <= p < init.len() && init[p] == rows[m];
                assert(after[p] == rows[m]);
            } else {
                assert(after[after.len() - 1] == rows[m]);
            }
        }
    }
}

/// A graft preserves the state at the graft point: at every block up to
/// the graft block, a lookup in the destination finds what a lookup in the
/// source finds.
pub proof fn lemma_graft_shows_source(
    d: DeploymentView,
    src: DeploymentView,
    block: BlockPtrView,
    key: EntityKeyView,
    earlier: int,
)
    requires
        src.wf(),
        earlier <= block.number,
    ensures
        find_at(grafted(d, src, block).rows, key, earlier) == find_at(src.rows, key, earlier),
{
    let head = head_bound(src.head);
    let copied = rows_upto(src.rows, block.number as int, src.rows.len() as int);
    lemma_graft_result(d, src, block);
    lemma_rows_upto_wf(src.rows, head, block.number as int, src.rows.len() as int);
    lemma_rows_upto_keeps(src.rows, block.number as int, src.rows.len() as int);
    assert forall|data: Seq<crate::entity::AttributeView>|
        shows(src.rows, key, earlier, data) == shows(copied, key, earlier, data) by {
        if shows(src.rows, key, earlier, data) {
            let i = choose|i: int|
                0 <= i < src.rows.len() && (#[trigger] src.rows[i]).key == key
                    && src.rows[i].valid_at(earlier) && src.rows[i].data == data;
            assert(copied.contains(src.rows[i]));
            let p = choose|p: int| 0 <= p < copied.len() && copied[p] == src.rows[i];
            assert(copied[p].key == key && copied[p].valid_at(earlier) && copied[p].data == data);
        }
        if shows(copied, key, earlier, data) {
            let p = choose|p: int|
                0 <= p < copied.len() && (#[trigger] copied[p]).key == key && copied[p].valid_at(
                    earlier,
                ) && copied[p].data == data;
            let m = choose|m: int| 0 <= m < src.rows.len() && #[trigger] src.rows[m] == copied[p];
            assert(src.rows[m].key == key && src.rows[m].valid_at(earlier) && src.rows[m].data
                == data);
        }
    }
    lemma_same_lookup(src.rows, head, copied, head, key, earlier);
    lemma_revert_keeps_history(copied, head, block.number + 1, key, earlier);
}

/// The head only moves forward under a transaction, and the earliest block
/// stays where it is.
pub proof fn lemma_transact_moves_head_forward(
    d: DeploymentView,
    interfaces: Seq<InterfaceView>,
    block: BlockPtrView,
    cursor: Option<Seq<char>>,
    changes: Seq<ModificationView>,
    sources: Seq<DataSourceView>,
    errors: Seq<SubgraphErrorView>,
    offchain: Seq<DataSourceView>,
)
    requires
        transacted(d, interfaces, block, cursor, changes, sources, errors, offchain) is Ok,
    ensures
        ({
            let after = transacted(
                d,
                interfaces,
                block,
                cursor,
                changes,
                sources,
                errors,
                offchain,
            )->Ok_0;
            &&& after.head == Some(block)
            &&& head_bound(d.head) < block.number
            &&& after.earliest_block == d.earliest_block
            &&& after.graft == d.graft
        }),
{
}

/// A revert moves the head to its target and leaves the earliest block
/// where it is; it never goes below the graft block.
pub proof fn lemma_revert_moves_head_to_target(
    d: DeploymentView,
    graft_block: Option<BlockNumber>,
    target: BlockPtrView,
    cursor: Option<Seq<char>>,
)
    requires
        reverted_to(d, graft_block, target, cursor) is Ok,
    ensures
        reverted_to(d, graft_block, target, cursor)->Ok_0.head == Some(target),
        reverted_to(d, graft_block, target, cursor)->Ok_0.earliest_block == d.earliest_block,
        graft_block matches Some(graft) ==> graft <= target.number,
{
}

/// The last of the first `n` changes of a batch that is about `key`.
pub open spec fn last_change(changes: Seq<ModificationView>, key: EntityKeyView, n: int) -> Option<
    ModificationView,
>
    decreases n,
{
    if n <= 0 {
        None
    } else if changes[n - 1].key() == key {
        Some(changes[n - 1])
    } else {
        last_change(changes, key, n - 1)
    }
}

/// What a lookup of `key` finds at a block from the block of a batch on,
/// once the first `n` changes of the batch were applied to `rows`: what the
/// last change about the entity wrote; nothing, where that change removed
/// the entity; and what it found before, where no change is about the
/// entity.
pub open spec fn read_after(
    rows: Seq<VersionView>,
    changes: Seq<ModificationView>,
    key: EntityKeyView,
    later: int,
    n: int,
) -> Option<Seq<crate::entity::AttributeView>> {
    match last_change(changes, key, n) {
        Some(ModificationView::Insert { data, .. }) => Some(data),
        Some(ModificationView::Overwrite { data, .. }) => Some(data),
        Some(ModificationView::Remove { .. }) => None,
        None => find_at(rows, key, later),
    }
}

/// Whether `rows` hold a current version of `key` that begins at `block`
/// and holds `data`.
pub open spec fn current_from(
    rows: Seq<VersionView>,
    key: EntityKeyView,
    block: BlockNumber,
    data: Seq<crate::entity::AttributeView>,
) -> bool {
    exists|i: int|
        0 <= i < rows.len() && #[trigger] rows[i] == crate::versions::fresh_version(
            key,
            data,
            block,
        )
}

/// A change leaves the other entities alone: a lookup of an entity that
/// the change is not about finds, at every block, what it found before.
pub proof fn lemma_change_leaves_others(
    rows: Seq<VersionView>,
    interfaces: Seq<InterfaceView>,
    change: ModificationView,
    block: BlockNumber,
    key: EntityKeyView,
    at: int,
)
    requires
        versions_wf(rows, block as int),
        apply_one(rows, interfaces, change, block) is Ok,
        change.key() != key,
    ensures
        find_at(apply_one(rows, interfaces, change, block)->Ok_0, key, at) == find_at(rows, key, at),
        forall|data: Seq<crate::entity::AttributeView>|
            current_from(rows, key, block, data) ==> current_from(
                apply_one(rows, interfaces, change, block)->Ok_0,
                key,
                block,
                data,
            ),
{
    let after = apply_one(rows, interfaces, change, block)->Ok_0;
    lemma_apply_one_keeps_wf(rows, interfaces, change, block);
    assert forall|i: int| 0 <= i < rows.len() && (#[trigger] rows[i]).key == key implies after[i]
        == rows[i] by {}
    assert forall|data: Seq<crate::entity::AttributeView>|
        shows(rows, key, at, data) == shows(after, key, at, data) by {
        if shows(rows, key, at, data) {
            let i = choose|i: int|
                0 <= i < rows.len() && (#[trigger] rows[i]).key == key && rows[i].valid_at(at)
                    && rows[i].data == data;
            assert(after[i] == rows[i]);
        }
        if shows(after, key, at, data) {
            let p = choose|p: int|
                0 <= p < after.len() && (#[trigger] after[p]).key == key && after[p].valid_at(at)
                    && after[p].data == data;
            if p < rows.len() {
                assert(after[p].key == rows[p].key);
                assert(after[p] == rows[p]);
            }
        }
    }
    lemma_same_lookup(rows, block as int, after, block as int, key, at);
    assert forall|data: Seq<crate::entity::AttributeView>|
        current_from(rows, key, block, data) implies current_from(after, key, block, data) by {
        let i = choose|i: int|
            0 <= i < rows.len() && #[trigger] rows[i] == crate::versions::fresh_version(
                key,
                data,
                block,
            );
        assert(after[i] == rows[i]);
    }
}

/// A batch is read: once the first `n` changes of the batch of block
/// `block` were applied, a lookup of an entity at that block or a later one
/// finds what the last change about the entity made of it, and what it
/// found before where no change is about it. What was written is a current
/// version that begins at `block`.
pub proof fn lemma_batch_is_read(
    rows: Seq<VersionView>,
    head: int,
    interfaces: Seq<InterfaceView>,
    changes: Seq<ModificationView>,
    block: BlockNumber,
    key: EntityKeyView,
    later: int,
    n: int,
)
    requires
        versions_wf(rows, head),
        head < block,
        0 <= n <= changes.len(),
        apply_batch(rows, interfaces, changes, block, n) is Ok,
        later >= block,
    ensures
        find_at(apply_batch(rows, interfaces, changes, block, n)->Ok_0, key, later) == read_after(
            rows,
            changes,
            key,
            later,
            n,
        ),
        last_change(changes, key, n) matches Some(change) && !(change is Remove) ==> current_from(
            apply_batch(rows, interfaces, changes, block, n)->Ok_0,
            key,
            block,
            read_after(rows, changes, key, later, n)->0,
        ),
    decreases n,
{
    if n > 0 {
        let before = apply_batch(rows, interfaces, changes, block, n - 1)->Ok_0;
        let after = apply_batch(rows, interfaces, changes, block, n)->Ok_0;
        let change = changes[n - 1];
        lemma_wf_widen(rows, head, block as int);
        lemma_apply_batch_keeps_wf(rows, interfaces, changes, block, n - 1);
        lemma_batch_is_read(rows, head, interfaces, changes, block, key, later, n - 1);
        if change.key() == key {
            if change is Remove {
                lemma_removed_is_gone(before, interfaces, key, block, later);
            } else {
                lemma_write_is_read(before, interfaces, change, block, later);
                assert(after[after.len() - 1] == crate::versions::fresh_version(
                    key,
                    read_after(rows, changes, key, later, n)->0,
                    block,
                ));
            }
        } else {
            lemma_change_leaves_others(before, interfaces, change, block, key, later);
        }
    }
}

/// Temporal integrity over a transaction: after a batch was applied to a
/// consistent deployment, a lookup of any entity at a block before the
/// block of the batch finds what it found before, and a lookup at that
/// block or a later one finds what the last change about the entity made of
/// it. Entities that the batch does not name are found as before at every
/// block.
pub proof fn lemma_transact_is_read(
    d: DeploymentView,
    interfaces: Seq<InterfaceView>,
    block: BlockPtrView,
    cursor: Option<Seq<char>>,
    changes: Seq<ModificationView>,
    sources: Seq<DataSourceView>,
    errors: Seq<SubgraphErrorView>,
    offchain: Seq<DataSourceView>,
    key: EntityKeyView,
    at: int,
)
    requires
        d.wf(),
        transacted(d, interfaces, block, cursor, changes, sources, errors, offchain) is Ok,
    ensures
        find_at(
            transacted(d, interfaces, block, cursor, changes, sources, errors, offchain)->Ok_0.rows,
            key,
            at,
        ) == (if at < block.number {
            find_at(d.rows, key, at)
        } else {
            read_after(d.rows, changes, key, at, changes.len() as int)
        }),
{
    if at < block.number {
        lemma_transact_keeps_history(
            d.rows,
            head_bound(d.head),
            interfaces,
            changes,
            block.number,
            key,
            at,
        );
    } else {
        lemma_batch_is_read(
            d.rows,
            head_bound(d.head),
            interfaces,
            changes,
            block.number,
            key,
            at,
            changes.len() as int,
        );
    }
}

} // verus!
