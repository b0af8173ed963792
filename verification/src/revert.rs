//! Reverting a deployment to an earlier block, for an operator's rewind and
//! for a reorganisation of the chain.

use vstd::prelude::*;
use crate::block::{BlockNumber, BlockPtr};
use crate::deployment::{
    graft_block_of,
    errors_view, sources_view, FirehoseCursor, StoreEvent, StoredDynamicDataSource, SubgraphError,
};
use crate::error::{ConstraintViolation, StoreError, StoreErrorView};
use crate::state::{errors_before, reverted_to, sources_before, Deployment, DeploymentView};
use crate::versions::reverted_types;

verus! {

/// Removes the data sources created at block `boundary` or later.
pub fn revert_data_sources(stored: &mut Vec<StoredDynamicDataSource>, boundary: BlockNumber)
    ensures
        sources_view(final(stored)@) == sources_before(
            sources_view(old(stored)@),
            boundary as int,
            old(stored)@.len() as int,
        ),
{
    let ghost before = sources_view(stored@);
    let mut kept: Vec<StoredDynamicDataSource> = Vec::new();
    let mut i: usize = 0;
    assert(sources_view(kept@) =~= sources_before(before, boundary as int, 0));
    while i < stored.len()
        invariant
            i <= stored.len(),
            sources_view(stored@) == before,
            sources_view(kept@) == sources_before(before, boundary as int, i as int),
        decreases stored.len() - i,
    {
        assert(before[i as int] == stored@[i as int]@);
        let keep = match stored[i].creation_block {
            Some(block) => block < boundary,
            None => true,
        };
        if keep {
            let ghost prev = sources_view(kept@);
            kept.push(stored[i].clone());
            assert(sources_view(kept@) =~= prev.push(before[i as int]));
        }
        i = i + 1;
    }
    *stored = kept;
}

/// Removes the errors put on record at block `boundary` or later.
pub fn revert_subgraph_errors(recorded: &mut Vec<SubgraphError>, boundary: BlockNumber)
    ensures
        errors_view(final(recorded)@) == errors_before(
            errors_view(old(recorded)@),
            boundary as int,
            old(recorded)@.len() as int,
        ),
{
    let ghost before = errors_view(recorded@);
    let mut kept: Vec<SubgraphError> = Vec::new();
    let mut i: usize = 0;
    assert(errors_view(kept@) =~= errors_before(before, boundary as int, 0));
    while i < recorded.len()
        invariant
            i <= recorded.len(),
            errors_view(recorded@) == before,
            errors_view(kept@) == errors_before(before, boundary as int, i as int),
        decreases recorded.len() - i,
    {
        assert(before[i as int] == recorded@[i as int]@);
        let keep = match recorded[i].block_range.start {
            Some(block) => block < boundary,
            None => true,
        };
        if keep {
            let ghost prev = errors_view(kept@);
            kept.push(recorded[i].clone());
            assert(errors_view(kept@) =~= prev.push(before[i as int]));
        }
        i = i + 1;
    }
    *recorded = kept;
}

impl Deployment {
    /// Reverts the deployment to block `block_ptr_to`, whatever the reason
    /// for the revert: the one routine behind `rewind` and
    /// `revert_block_operations`. A deployment that was grafted at
    /// `graft_block`, after the target, is left as it is. Returns the
    /// notice of the entity types whose versions the revert changed.
    pub fn rewind_with_conn(
        &mut self,
        graft_block: Option<BlockNumber>,
        block_ptr_to: BlockPtr,
        firehose_cursor: &FirehoseCursor,
    ) -> (res: Result<StoreEvent, StoreError>)
        requires
            block_ptr_to@.number < i32::MAX,
        ensures
            match res {
                Ok(event) => reverted_to(old(self)@, graft_block, block_ptr_to@, firehose_cursor@)
                    == Ok::<_, StoreErrorView>(final(self)@) && event@.deployment == old(self)@.id
                    && event@.entity_types == reverted_types(
                    old(self)@.rows,
                    block_ptr_to@.number + 1,
                    old(self)@.rows.len() as int,
                ),
                Err(e) => reverted_to(old(self)@, graft_block, block_ptr_to@, firehose_cursor@)
                    == Err::<DeploymentView, _>(e@) && final(self)@ == old(self)@,
            },
            old(self)@.wf() && graft_block == graft_block_of(old(self)@.graft) ==> final(self)@.wf(),
    {
        proof {
            if old(self)@.wf() && graft_block == graft_block_of(old(self)@.graft) && reverted_to(
                old(self)@,
                graft_block,
                block_ptr_to@,
                firehose_cursor@,
            ) is Ok {
                crate::laws::lemma_revert_keeps_deployment_wf(
                    old(self)@,
                    graft_block,
                    block_ptr_to@,
                    firehose_cursor@,
                );
            }
        }
        if let Some(graft) = graft_block {
            if graft > block_ptr_to.number {
                return Err(StoreError::RevertPastGraft { target: block_ptr_to.number, graft });
            }
        }
        // The first block that the revert gets rid of.
        let block: BlockNumber = block_ptr_to.number + 1;
        let entity_types = self.table.revert_block(block);
        revert_data_sources(&mut self.data_sources, block);
        revert_subgraph_errors(&mut self.errors, block);
        self.entity_count = self.table.count_current();
        self.latest_block = Some(block_ptr_to);
        self.cursor = firehose_cursor.clone();
        Ok(StoreEvent { deployment: self.id.clone(), entity_types })
    }

    /// Rewinds the deployment to the earlier block `block_ptr_to` at an
    /// operator's request, and resets the cursor, so that the indexer
    /// resumes from the block pointer. A target that is not before the head
    /// is a constraint violation.
    pub fn rewind(&mut self, graft_block: Option<BlockNumber>, block_ptr_to: BlockPtr) -> (res:
        Result<StoreEvent, StoreError>)
        requires
            old(self)@.head is Some,
        ensures
            match res {
                Ok(event) => block_ptr_to@.number < old(self)@.head->0.number && reverted_to(
                    old(self)@,
                    graft_block,
                    block_ptr_to@,
                    None,
                ) == Ok::<_, StoreErrorView>(final(self)@) && event@.deployment == old(self)@.id
                    && event@.entity_types == reverted_types(
                    old(self)@.rows,
                    block_ptr_to@.number + 1,
                    old(self)@.rows.len() as int,
                ),
                Err(e) => final(self)@ == old(self)@ && if block_ptr_to@.number >= old(
                    self,
                )@.head->0.number {
                    e@ == StoreErrorView::ConstraintViolation(
                        ConstraintViolation::RewindForward {
                            from: old(self)@.head->0.number,
                            to: block_ptr_to@.number,
                        },
                    )
                } else {
                    reverted_to(old(self)@, graft_block, block_ptr_to@, None) == Err::<
                        DeploymentView,
                        _,
                    >(e@)
                },
            },
            old(self)@.wf() && graft_block == graft_block_of(old(self)@.graft) ==> final(self)@.wf(),
    {
        let from: BlockNumber = match &self.latest_block {
            Some(head) => head.number,
            None => 0,
        };
        if from <= block_ptr_to.number {
            return Err(
                StoreError::ConstraintViolation(
                    ConstraintViolation::RewindForward { from, to: block_ptr_to.number },
                ),
            );
        }
        let cursor = FirehoseCursor::none();
        self.rewind_with_conn(graft_block, block_ptr_to, &cursor)
    }

    /// Reverts the deployment to the earlier block `block_ptr_to` after a
    /// reorganisation of the chain, and stores the cursor of the caller.
    /// The target must be before the head.
    pub fn revert_block_operations(
        &mut self,
        graft_block: Option<BlockNumber>,
        block_ptr_to: BlockPtr,
        firehose_cursor: &FirehoseCursor,
    ) -> (res: Result<StoreEvent, StoreError>)
        requires
            old(self)@.head is Some,
            block_ptr_to@.number < old(self)@.head->0.number,
        ensures
            match res {
                Ok(event) => reverted_to(old(self)@, graft_block, block_ptr_to@, firehose_cursor@)
                    == Ok::<_, StoreErrorView>(final(self)@) && event@.deployment == old(self)@.id
                    && event@.entity_types == reverted_types(
                    old(self)@.rows,
                    block_ptr_to@.number + 1,
                    old(self)@.rows.len() as int,
                ),
                Err(e) => reverted_to(old(self)@, graft_block, block_ptr_to@, firehose_cursor@)
                    == Err::<DeploymentView, _>(e@) && final(self)@ == old(self)@,
            },
            old(self)@.wf() && graft_block == graft_block_of(old(self)@.graft) ==> final(self)@.wf(),
    {
        self.rewind_with_conn(graft_block, block_ptr_to, firehose_cursor)
    }
}

} // verus!
