//! Recovery from a fatal error: deciding, when a deployment starts or after
//! it has processed a block, whether the error that stopped it can be
//! cleared.

use vstd::prelude::*;
use crate::block::{bytes_eq, BlockNumber, BlockPtr, BlockPtrView};
use crate::deployment::{
    errors_view, FirehoseCursor, SubgraphError, SubgraphErrorView, SubgraphHealth, UnfailOutcome,
};
use crate::error::{StoreError, StoreErrorView};
use crate::state::{reverted_to, Deployment, DeploymentView};

verus! {

/// The first error on record, at or after position `from`, whose id is
/// `id`.
pub open spec fn error_from(errors: Seq<SubgraphErrorView>, id: Seq<char>, from: int) -> Option<
    SubgraphErrorView,
>
    decreases errors.len() - from,
{
    if from < 0 || from >= errors.len() {
        None
    } else if errors[from].id == id {
        Some(errors[from])
    } else {
        error_from(errors, id, from + 1)
    }
}

/// The fatal error of the deployment: the error on record that its status
/// points to, if it points to one that is on record.
pub open spec fn fatal_of(d: DeploymentView) -> Option<SubgraphErrorView> {
    match d.fatal_error {
        Some(id) => error_from(d.errors, id, 0),
        None => None,
    }
}

/// Whether a deterministic error is on record for block `block`.
pub open spec fn has_deterministic_errors(errors: Seq<SubgraphErrorView>, block: int) -> bool {
    exists|i: int|
        0 <= i < errors.len() && (#[trigger] errors[i]).deterministic
            && errors[i].block_range.contains(block)
}

/// The first `n` errors on record without those whose id is `id`.
pub open spec fn without_error(errors: Seq<SubgraphErrorView>, id: Seq<char>, n: int) -> Seq<
    SubgraphErrorView,
>
    decreases n,
{
    if n <= 0 {
        Seq::empty()
    } else if errors[n - 1].id == id {
        without_error(errors, id, n - 1)
    } else {
        without_error(errors, id, n - 1).push(errors[n - 1])
    }
}

/// The deployment with the health `health` and the fatal error `fatal`.
pub open spec fn status_updated(
    d: DeploymentView,
    health: SubgraphHealth,
    fatal: Option<Seq<char>>,
) -> DeploymentView {
    DeploymentView { health, fatal_error: fatal, ..d }
}

/// The deployment with `error` on record as the fatal error that stopped
/// it.
pub open spec fn failed_with(d: DeploymentView, error: SubgraphErrorView) -> DeploymentView {
    DeploymentView {
        health: SubgraphHealth::Failed,
        fatal_error: Some(error.id),
        errors: d.errors.push(error),
        ..d
    }
}

/// Whether the deployment stopped on a deterministic error at the block
/// with the hash of `current`, so that the block has to be reverted.
pub open spec fn failed_at(d: DeploymentView, current: BlockPtrView) -> bool {
    fatal_of(d) matches Some(error) && error.deterministic && error.block_hash == Some(
        current.hash,
    )
}

/// The health of a deployment whose head is at block `block`: unhealthy
/// when a deterministic error is on record for that block.
pub open spec fn health_at(errors: Seq<SubgraphErrorView>, block: int) -> SubgraphHealth {
    if has_deterministic_errors(errors, block) {
        SubgraphHealth::Unhealthy
    } else {
        SubgraphHealth::Healthy
    }
}

/// What `unfail_deterministic_error` does: nothing, unless the deployment
/// stopped on a deterministic error at `current`; it is then reverted to
/// `parent`, its fatal error is cleared, and its health is that of
/// `parent`.
pub open spec fn unfailed_deterministic(
    d: DeploymentView,
    graft_block: Option<BlockNumber>,
    current: BlockPtrView,
    parent: BlockPtrView,
) -> Result<(UnfailOutcome, DeploymentView), StoreErrorView> {
    if failed_at(d, current) {
        match reverted_to(d, graft_block, parent, None) {
            Ok(reverted) => Ok(
                (
                    UnfailOutcome::Unfailed,
                    status_updated(reverted, health_at(d.errors, parent.number as int), None),
                ),
            ),
            Err(e) => Err(e),
        }
    } else {
        Ok((UnfailOutcome::Noop, d))
    }
}

/// Whether the deployment stopped on an error that is not deterministic,
/// at a block that a head at block `current` has reached.
pub open spec fn recovered_at(d: DeploymentView, current: int) -> bool {
    fatal_of(d) matches Some(error) && !error.deterministic && (error.block_range.start matches Some(
        block,
    ) && current >= block)
}

/// What `unfail_non_deterministic_error` does: nothing, unless the
/// deployment stopped on an error that is not deterministic and the head has
/// reached the block of the error; the deployment is then healthy, and the
/// error is off the record.
pub open spec fn unfailed_non_deterministic(d: DeploymentView, current: BlockPtrView) -> (
    UnfailOutcome,
    DeploymentView,
) {
    if recovered_at(d, current.number as int) {
        (
            UnfailOutcome::Unfailed,
            DeploymentView {
                health: SubgraphHealth::Healthy,
                fatal_error: None,
                errors: without_error(d.errors, fatal_of(d)->0.id, d.errors.len() as int),
                ..d
            },
        )
    } else {
        (UnfailOutcome::Noop, d)
    }
}

/// Whether a deterministic error is on record for block `block`.
pub fn deterministic_errors_at(errors: &Vec<SubgraphError>, block: BlockNumber) -> (res: bool)
    ensures
        res == has_deterministic_errors(errors_view(errors@), block as int),
{
    let mut i: usize = 0;
    while i < errors.len()
        invariant
            i <= errors.len(),
            forall|j: int|
                0 <= j < i ==> !((#[trigger] errors_view(errors@)[j]).deterministic && errors_view(
                    errors@,
                )[j].block_range.contains(block as int)),
        decreases errors.len() - i,
    {
        assert(errors_view(errors@)[i as int] == errors@[i as int]@);
        if errors[i].deterministic && errors[i].block_range.includes(block) {
            return true;
        }
        i = i + 1;
    }
    false
}

/// Takes the errors with the id `id` off the record.
pub fn delete_error(errors: &mut Vec<SubgraphError>, id: &String)
    ensures
        errors_view(final(errors)@) == without_error(
            errors_view(old(errors)@),
            id@,
            old(errors)@.len() as int,
        ),
{
    let ghost before = errors_view(errors@);
    let mut kept: Vec<SubgraphError> = Vec::new();
    let mut i: usize = 0;
    assert(errors_view(kept@) =~= without_error(before, id@, 0));
    while i < errors.len()
        invariant
            i <= errors.len(),
            errors_view(errors@) == before,
            errors_view(kept@) == without_error(before, id@, i as int),
        decreases errors.len() - i,
    {
        assert(before[i as int] == errors@[i as int]@);
        if errors[i].id != *id {
            let ghost prev = errors_view(kept@);
            kept.push(errors[i].clone());
            assert(errors_view(kept@) =~= prev.push(before[i as int]));
        }
        i = i + 1;
    }
    *errors = kept;
}

impl Deployment {
    /// The fatal error of the deployment, if it has one.
    pub fn fatal(&self) -> (res: Option<&SubgraphError>)
        ensures
            match res {
                Some(error) => fatal_of(self@) == Some(error@),
                None => fatal_of(self@) is None,
            },
    {
        let id = match &self.fatal_error {
            Some(id) => id,
            None => {
                return None;
            },
        };
        let mut i: usize = 0;
        while i < self.errors.len()
            invariant
                i <= self.errors.len(),
                self@.fatal_error == Some(id@),
                fatal_of(self@) == error_from(self@.errors, id@, i as int),
            decreases self.errors.len() - i,
        {
            assert(self@.errors[i as int] == self.errors@[i as int]@);
            if self.errors[i].id == *id {
                return Some(&self.errors[i]);
            }
            i = i + 1;
        }
        None
    }

    /// Whether the deployment stopped on a deterministic error at the
    /// block with the hash of `current_ptr`.
    pub fn stopped_at(&self, current_ptr: &BlockPtr) -> (res: bool)
        ensures
            res == failed_at(self@, current_ptr@),
    {
        match self.fatal() {
            Some(error) => error.deterministic && match &error.block_hash {
                Some(hash) => bytes_eq(hash, &current_ptr.hash),
                None => false,
            },
            None => false,
        }
    }

    /// Sets the health and the fatal error of the deployment.
    pub fn update_deployment_status(&mut self, health: SubgraphHealth, fatal_error: Option<String>)
        ensures
            final(self)@ == status_updated(
                old(self)@,
                health,
                crate::deployment::opt_text(fatal_error),
            ),
    {
        self.health = health;
        self.fatal_error = fatal_error;
    }

    /// Puts `error` on record as the fatal error that stopped the
    /// deployment.
    pub fn fail_subgraph(&mut self, error: SubgraphError)
        ensures
            final(self)@ == failed_with(old(self)@, error@),
    {
        let id = error.id.clone();
        self.errors.push(error);
        self.health = SubgraphHealth::Failed;
        self.fatal_error = Some(id);
        assert(self@.errors =~= old(self)@.errors.push(error@));
    }

    /// The number of errors on record.
    pub fn error_count(&self) -> (n: usize)
        ensures
            n == self@.errors.len(),
    {
        self.errors.len()
    }

    /// Clears a deterministic fatal error that stopped the deployment at
    /// its head `current_ptr`, by going back to the block before it. A
    /// deployment without a fatal error, with one that is not
    /// deterministic, or with one of another block is left as it is. Where
    /// the block has to be reverted, the deployment must have its head after
    /// `parent_ptr`.
    pub fn unfail_deterministic_error(
        &mut self,
        graft_block: Option<BlockNumber>,
        current_ptr: &BlockPtr,
        parent_ptr: &BlockPtr,
    ) -> (res: Result<UnfailOutcome, StoreError>)
        requires
            failed_at(old(self)@, current_ptr@) ==> old(self)@.head is Some && parent_ptr@.number
                < old(self)@.head->0.number,
        ensures
            match res {
                Ok(outcome) => unfailed_deterministic(
                    old(self)@,
                    graft_block,
                    current_ptr@,
                    parent_ptr@,
                ) == Ok::<_, StoreErrorView>((outcome, final(self)@)),
                Err(e) => unfailed_deterministic(
                    old(self)@,
                    graft_block,
                    current_ptr@,
                    parent_ptr@,
                ) == Err::<(UnfailOutcome, DeploymentView), _>(e@) && final(self)@ == old(self)@,
            },
            old(self)@.wf() && graft_block == crate::deployment::graft_block_of(
                old(self)@.graft,
            ) ==> final(self)@.wf(),
    {
        // Only a deployment that stopped on a fatal error can be unfailed.
        let (deterministic, at_head) = match self.fatal() {
            Some(error) => (
                error.deterministic,
                match &error.block_hash {
                    Some(hash) => bytes_eq(hash, &current_ptr.hash),
                    None => false,
                },
            ),
            None => {
                return Ok(UnfailOutcome::Noop);
            },
        };
        if !deterministic || !at_head {
            return Ok(UnfailOutcome::Noop);
        }
        // The health that the deployment had at the parent block.
        let prev_health = if deterministic_errors_at(&self.errors, parent_ptr.number) {
            SubgraphHealth::Unhealthy
        } else {
            SubgraphHealth::Healthy
        };
        let cursor = FirehoseCursor::none();
        let _ = self.revert_block_operations(graft_block, parent_ptr.clone(), &cursor)?;
        self.update_deployment_status(prev_health, None);
        Ok(UnfailOutcome::Unfailed)
    }

    /// Clears a fatal error that is not deterministic once the head
    /// `current_ptr` has reached the block of the error: the deployment is
    /// healthy again and the error is taken off the record. A deployment
    /// without a fatal error, with a deterministic one, or with one of a
    /// later block is left as it is.
    pub fn unfail_non_deterministic_error(&mut self, current_ptr: &BlockPtr) -> (res: Result<
        UnfailOutcome,
        StoreError,
    >)
        ensures
            res matches Ok(outcome) && unfailed_non_deterministic(old(self)@, current_ptr@) == (
                outcome,
                final(self)@,
            ),
            old(self)@.wf() ==> final(self)@.wf(),
    {
        let (deterministic, reached, id) = match self.fatal() {
            Some(error) => (
                error.deterministic,
                match error.block_range.start {
                    Some(block) => current_ptr.number >= block,
                    None => false,
                },
                error.id.clone(),
            ),
            None => {
                return Ok(UnfailOutcome::Noop);
            },
        };
        if deterministic || !reached {
            return Ok(UnfailOutcome::Noop);
        }
        self.update_deployment_status(SubgraphHealth::Healthy, None);
        delete_error(&mut self.errors, &id);
        Ok(UnfailOutcome::Unfailed)
    }
}

} // verus!
