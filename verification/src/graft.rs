//! Grafting: seeding a new deployment with the data of another one as of a
//! block, in phases that can be run again after an interruption.

use vstd::prelude::*;
use crate::block::{copy_strings, BlockNumber, BlockPtr, BlockPtrView};
use crate::cancel::CancelHandle;
use crate::error::{StoreError, StoreErrorView};
use crate::state::{errors_before, sources_before, Deployment, DeploymentView};
use crate::versions::{count_open, revert_rows, EntityVersion, VersionView, VersionedTable};

verus! {

/// The first `n` versions without those that begin after block `block`.
pub open spec fn rows_upto(rows: Seq<VersionView>, block: int, n: int) -> Seq<VersionView>
    decreases n,
{
    if n <= 0 {
        Seq::empty()
    } else if rows[n - 1].start <= block {
        rows_upto(rows, block, n - 1).push(rows[n - 1])
    } else {
        rows_upto(rows, block, n - 1)
    }
}

/// The phases of a graft, in the order in which they run.
#[derive(Copy, Clone, Debug, PartialEq, Eq, Structural)]
pub enum GraftPhase {
    /// Copy the versions of the source that began at the graft block or
    /// before it.
    CopyData,
    /// Copy the data sources of the source, unless the destination has some.
    CopyDataSources,
    /// Copy the errors of the source, unless the destination has some.
    CopyErrors,
    /// Copy the marks of account-like tables.
    CopyAccountLike,
    /// Undo what the copied versions hold of blocks after the graft block.
    Revert,
    /// Count the entities.
    CountEntities,
    /// Set the head to the graft block: the sign that the graft is done.
    SetBlockPtr,
}

/// The number of phases of a graft.
pub const GRAFT_PHASES: usize = 7;

impl GraftPhase {
    /// The position of the phase in the order of the phases.
    pub open spec fn index(self) -> int {
        match self {
            GraftPhase::CopyData => 0,
            GraftPhase::CopyDataSources => 1,
            GraftPhase::CopyErrors => 2,
            GraftPhase::CopyAccountLike => 3,
            GraftPhase::Revert => 4,
            GraftPhase::CountEntities => 5,
            GraftPhase::SetBlockPtr => 6,
        }
    }

    /// The phase at position `index`, if there is one.
    pub fn at(index: usize) -> (res: Option<GraftPhase>)
        ensures
            match res {
                Some(phase) => phase.index() == index,
                None => index >= GRAFT_PHASES,
            },
    {
        if index == 0 {
            Some(GraftPhase::CopyData)
        } else if index == 1 {
            Some(GraftPhase::CopyDataSources)
        } else if index == 2 {
            Some(GraftPhase::CopyErrors)
        } else if index == 3 {
            Some(GraftPhase::CopyAccountLike)
        } else if index == 4 {
            Some(GraftPhase::Revert)
        } else if index == 5 {
            Some(GraftPhase::CountEntities)
        } else if index == 6 {
            Some(GraftPhase::SetBlockPtr)
        } else {
            None
        }
    }
}

/// The destination `d` after one phase of a graft from `src` at `block`.
pub open spec fn after_phase(d: DeploymentView, src: DeploymentView, block: BlockPtrView, phase: int)
    -> DeploymentView {
    if phase == 0 {
        DeploymentView { rows: rows_upto(src.rows, block.number as int, src.rows.len() as int), ..d }
    } else if phase == 1 {
        if d.data_sources.len() == 0 {
            DeploymentView {
                data_sources: sources_before(
                    src.data_sources,
                    block.number + 1,
                    src.data_sources.len() as int,
                ),
                ..d
            }
        } else {
            d
        }
    } else if phase == 2 {
        if d.errors.len() == 0 {
            DeploymentView {
                errors: errors_before(src.errors, block.number + 1, src.errors.len() as int),
                ..d
            }
        } else {
            d
        }
    } else if phase == 3 {
        DeploymentView { account_like: src.account_like, ..d }
    } else if phase == 4 {
        DeploymentView { rows: revert_rows(d.rows, block.number + 1), ..d }
    } else if phase == 5 {
        DeploymentView { entity_count: count_open(d.rows), ..d }
    } else if phase == 6 {
        DeploymentView { head: Some(block), ..d }
    } else {
        d
    }
}

/// The destination after the first `n` phases of a graft.
pub open spec fn graft_upto(d: DeploymentView, src: DeploymentView, block: BlockPtrView, n: int)
    -> DeploymentView
    decreases n,
{
    if n <= 0 {
        d
    } else {
        after_phase(graft_upto(d, src, block, n - 1), src, block, n - 1)
    }
}

/// The destination after a graft that ran through all its phases.
pub open spec fn grafted(d: DeploymentView, src: DeploymentView, block: BlockPtrView)
    -> DeploymentView {
    graft_upto(d, src, block, GRAFT_PHASES as int)
}

/// The deployment with its head at the start block of its manifest, where
/// it has no head yet.
pub open spec fn with_block_ptr(d: DeploymentView) -> DeploymentView {
    if d.head is None {
        DeploymentView { head: d.start_block, ..d }
    } else {
        d
    }
}

/// The graft that a deployment still has to do: its graft point, as long
/// as it has no head.
pub open spec fn pending_graft(d: DeploymentView) -> Option<crate::deployment::GraftPointView> {
    if d.head is None {
        d.graft
    } else {
        None
    }
}

/// Whether a graft at `block` takes the deployment to its graft point or
/// beyond it.
pub open spec fn graft_reached(d: DeploymentView, block: BlockPtrView) -> bool {
    d.graft matches Some(graft) ==> graft.block.number <= block.number
}

/// How the copy of the data of a graft ended.
#[derive(Copy, Clone, Debug, PartialEq, Eq, Structural)]
pub enum Status {
    Finished,
    Cancelled,
}

impl VersionedTable {
    /// A table with copies of the versions that began at block `block` or
    /// before it.
    pub fn copy_upto(&self, block: BlockNumber) -> (res: VersionedTable)
        ensures
            res@ == rows_upto(self@, block as int, self@.len() as int),
    {
        let mut kept: Vec<EntityVersion> = Vec::new();
        let mut i: usize = 0;
        let ghost mut kept_view: Seq<VersionView> = Seq::empty();
        while i < self.rows.len()
            invariant
                i <= self.rows.len(),
                kept@.len() == kept_view.len(),
                forall|j: int| 0 <= j < kept@.len() ==> kept@[j]@ == kept_view[j],
                kept_view == rows_upto(self@, block as int, i as int),
            decreases self.rows.len() - i,
        {
            assert(self@[i as int] == self.rows@[i as int]@);
            if self.rows[i].start <= block {
                kept.push(self.rows[i].clone());
                proof {
                    kept_view = kept_view.push(self@[i as int]);
                }
            }
            i = i + 1;
        }
        let res = VersionedTable { rows: kept };
        assert(res@ =~= kept_view);
        res
    }
}

impl Deployment {
    /// Runs one phase of a graft of this deployment from `src` at `block`.
    pub fn graft_step(&mut self, src: &Deployment, block: &BlockPtr, phase: GraftPhase)
        requires
            block@.number < i32::MAX,
        ensures
            final(self)@ == after_phase(old(self)@, src@, block@, phase.index()),
    {
        match phase {
            GraftPhase::CopyData => {
                self.table = src.table.copy_upto(block.number);
            },
            GraftPhase::CopyDataSources => {
                if self.data_sources.len() == 0 {
                    let mut sources = crate::deployment::copy_sources(&src.data_sources);
                    crate::revert::revert_data_sources(&mut sources, block.number + 1);
                    self.data_sources = sources;
                }
            },
            GraftPhase::CopyErrors => {
                if self.errors.len() == 0 {
                    let mut errors = crate::deployment::copy_errors(&src.errors);
                    crate::revert::revert_subgraph_errors(&mut errors, block.number + 1);
                    self.errors = errors;
                }
            },
            GraftPhase::CopyAccountLike => {
                self.account_like = copy_strings(&src.account_like);
            },
            GraftPhase::Revert => {
                let _ = self.table.revert_block(block.number + 1);
            },
            GraftPhase::CountEntities => {
                self.entity_count = self.table.count_current();
            },
            GraftPhase::SetBlockPtr => {
                self.latest_block = Some(block.clone());
            },
        }
    }

    /// Seeds this deployment with the data of `src` as of `block`. The
    /// phases run from the first one whatever an earlier, interrupted run
    /// has left; the head is set last. When a stop was asked for before the
    /// data is copied, nothing is done and the status says so.
    pub fn copy_and_initialize(&mut self, src: &Deployment, block: &BlockPtr, cancel: &CancelHandle)
        -> (status: Status)
        requires
            block@.number < i32::MAX,
        ensures
            match status {
                Status::Finished => final(self)@ == grafted(old(self)@, src@, block@),
                Status::Cancelled => final(self)@ == old(self)@,
            },
            src@.wf() && status == Status::Finished && graft_reached(old(self)@, block@) ==> final(self)@.wf(),
    {
        self.initialize_from(src, block, cancel.is_canceled())
    }

    /// What `copy_and_initialize` does once the flag of its handle was read
    /// as `canceled`: nothing, where a stop was asked for; else all phases
    /// of the graft from `src` at `block`, from the first one, whatever an
    /// earlier run has left.
    pub fn initialize_from(&mut self, src: &Deployment, block: &BlockPtr, canceled: bool) -> (status:
        Status)
        requires
            block@.number < i32::MAX,
        ensures
            canceled ==> status == Status::Cancelled && final(self)@ == old(self)@,
            !canceled ==> status == Status::Finished && final(self)@ == grafted(
                old(self)@,
                src@,
                block@,
            ),
            src@.wf() && !canceled && graft_reached(old(self)@, block@) ==> final(self)@.wf(),
    {
        proof {
            if src@.wf() && graft_reached(old(self)@, block@) {
                crate::laws::lemma_graft_keeps_wf(old(self)@, src@, block@);
            }
        }
        if canceled {
            return Status::Cancelled;
        }
        let mut i: usize = 0;
        while i < GRAFT_PHASES
            invariant
                i <= GRAFT_PHASES,
                block@.number < i32::MAX,
                self@ == graft_upto(old(self)@, src@, block@, i as int),
            decreases GRAFT_PHASES - i,
        {
            match GraftPhase::at(i) {
                Some(phase) => {
                    self.graft_step(src, block, phase);
                },
                None => {},
            }
            i = i + 1;
        }
        Status::Finished
    }

    /// The graft that the deployment still has to do: its graft point, as
    /// long as it has no head.
    pub fn graft_pending(&self) -> (res: Option<&crate::deployment::GraftPoint>)
        ensures
            crate::deployment::opt_graft_ref(res) == pending_graft(self@),
    {
        if self.latest_block.is_none() {
            self.graft.as_ref()
        } else {
            None
        }
    }

    /// Gives a deployment without a head the start block of its manifest as
    /// its head.
    pub fn initialize_block_ptr(&mut self)
        ensures
            final(self)@ == with_block_ptr(old(self)@),
    {
        if self.latest_block.is_none() {
            self.latest_block = crate::deployment::copy_opt_ptr(&self.start_block);
        }
    }

    /// Brings the deployment into a state from which indexing can start or
    /// resume. With a `graft_src`, the data of that deployment as of that
    /// block is copied first, whatever an interrupted run has left, and the
    /// head is set to the block; a stop during the copy ends the call with
    /// `Canceled`. A deployment that has no head after that gets the start
    /// block of its manifest.
    pub fn start_subgraph(&mut self, graft_src: Option<(&Deployment, BlockPtr)>, cancel: &CancelHandle)
        -> (res: Result<(), StoreError>)
        requires
            graft_src matches Some(pair) ==> pair.1@.number < i32::MAX,
        ensures
            match res {
                Ok(_) => final(self)@ == with_block_ptr(
                    match graft_src {
                        Some(pair) => grafted(old(self)@, pair.0@, pair.1@),
                        None => old(self)@,
                    },
                ),
                Err(e) => e@ == StoreErrorView::Canceled && graft_src is Some && final(self)@
                    == old(self)@,
            },
    {
        if let Some((src, block)) = graft_src {
            let status = self.copy_and_initialize(src, &block, cancel);
            if status == Status::Cancelled {
                return Err(StoreError::Canceled);
            }
        }
        self.initialize_block_ptr();
        Ok(())
    }
}

} // verus!
