//! Pruning: raising the earliest block for which a deployment keeps history,
//! and reclaiming the versions that no block from there on can see.

use vstd::prelude::*;
use crate::block::BlockNumber;
use crate::cancel::CancelHandle;
use crate::deployment::DeploymentState;
use crate::error::{ConstraintViolation, StoreError, StoreErrorView};
use crate::state::{Deployment, DeploymentView};
use crate::versions::{EntityVersion, VersionView, VersionedTable};

verus! {

/// What a request to prune comes to once it is checked against the state
/// of the deployment: nothing to do (`Ok(None)`) while the head is within
/// the reorg threshold; else a violation when the earliest block would move
/// back, when no block lies between it and the last final block, or when it
/// would pass the graft point; else the last final block.
pub open spec fn prune_check(
    latest: BlockNumber,
    floor: BlockNumber,
    graft_block: Option<BlockNumber>,
    earliest_block: BlockNumber,
    reorg_threshold: BlockNumber,
) -> Result<Option<BlockNumber>, ConstraintViolation> {
    if latest <= reorg_threshold {
        Ok(None)
    } else if floor > earliest_block {
        Err(ConstraintViolation::EarliestBlockMovesBack { from: floor, to: earliest_block })
    } else if latest - reorg_threshold <= earliest_block {
        Err(
            ConstraintViolation::TooCloseToHead {
                earliest: earliest_block,
                reorg_threshold,
                latest,
            },
        )
    } else {
        match graft_block {
            Some(graft) if earliest_block > graft => Err(
                ConstraintViolation::PastGraftPoint { earliest: earliest_block, graft },
            ),
            _ => Ok(Some((latest - reorg_threshold) as BlockNumber)),
        }
    }
}

/// Checks a request to prune against the state of the deployment, in the
/// order in which `prune_check` lists the conditions.
pub fn check_prune(
    state: &DeploymentState,
    graft_block: Option<BlockNumber>,
    earliest_block: BlockNumber,
    reorg_threshold: BlockNumber,
) -> (res: Result<Option<BlockNumber>, ConstraintViolation>)
    requires
        reorg_threshold >= 0,
    ensures
        res == prune_check(
            state@.latest_block.number,
            state@.earliest_block_number,
            graft_block,
            earliest_block,
            reorg_threshold,
        ),
{
    let latest: BlockNumber = state.latest_block.number;
    if latest <= reorg_threshold {
        return Ok(None);
    }
    if state.earliest_block_number > earliest_block {
        return Err(
            ConstraintViolation::EarliestBlockMovesBack {
                from: state.earliest_block_number,
                to: earliest_block,
            },
        );
    }
    let final_block: BlockNumber = latest - reorg_threshold;
    if final_block <= earliest_block {
        return Err(
            ConstraintViolation::TooCloseToHead {
                earliest: earliest_block,
                reorg_threshold,
                latest,
            },
        );
    }
    if let Some(graft) = graft_block {
        if earliest_block > graft {
            return Err(ConstraintViolation::PastGraftPoint { earliest: earliest_block, graft });
        }
    }
    Ok(Some(final_block))
}

/// Whether a block at or after `earliest_block` can see the version.
pub open spec fn seen_from(row: VersionView, earliest_block: int) -> bool {
    match row.end {
        Some(end) => end > earliest_block,
        None => true,
    }
}

/// The first `n` versions without those that no block at or after
/// `earliest_block` can see.
pub open spec fn reclaim_prefix(rows: Seq<VersionView>, earliest_block: int, n: int) -> Seq<
    VersionView,
>
    decreases n,
{
    if n <= 0 {
        Seq::empty()
    } else if seen_from(rows[n - 1], earliest_block) {
        reclaim_prefix(rows, earliest_block, n - 1).push(rows[n - 1])
    } else {
        reclaim_prefix(rows, earliest_block, n - 1)
    }
}

/// The versions without those that no block at or after `earliest_block`
/// can see.
pub open spec fn reclaimed(rows: Seq<VersionView>, earliest_block: int) -> Seq<VersionView> {
    reclaim_prefix(rows, earliest_block, rows.len() as int)
}

/// The deployment with its earliest block at `earliest_block`.
pub open spec fn floor_set(d: DeploymentView, earliest_block: BlockNumber) -> DeploymentView {
    DeploymentView { earliest_block, ..d }
}

/// The deployment after it was pruned up to `earliest_block`.
pub open spec fn pruned(d: DeploymentView, earliest_block: BlockNumber) -> DeploymentView {
    DeploymentView {
        earliest_block,
        rows: reclaimed(d.rows, earliest_block as int),
        ..d
    }
}

/// What a call of `prune` did.
#[derive(Copy, Clone, Debug, PartialEq, Eq, Structural)]
pub enum PruneOutcome {
    /// The head is within the reorg threshold: nothing was pruned.
    Skipped,
    /// History before the earliest block was reclaimed; blocks after
    /// `final_block` can still be reorganised.
    Pruned { final_block: BlockNumber },
}

impl VersionedTable {
    /// Drops the versions that no block at or after `earliest_block` can
    /// see.
    pub fn reclaim(&mut self, earliest_block: BlockNumber)
        ensures
            final(self)@ == reclaimed(old(self)@, earliest_block as int),
    {
        let ghost before = self@;
        let mut kept: Vec<EntityVersion> = Vec::new();
        let mut i: usize = 0;
        let ghost mut kept_view: Seq<VersionView> = Seq::empty();
        while i < self.rows.len()
            invariant
                i <= self.rows.len(),
                self@ == before,
                kept@.len() == kept_view.len(),
                forall|j: int| 0 <= j < kept@.len() ==> kept@[j]@ == kept_view[j],
                kept_view == reclaim_prefix(before, earliest_block as int, i as int),
            decreases self.rows.len() - i,
        {
            assert(before[i as int] == self.rows@[i as int]@);
            let keep = match self.rows[i].end {
                Some(end) => end > earliest_block,
                None => true,
            };
            if keep {
                kept.push(self.rows[i].clone());
                proof {
                    kept_view = kept_view.push(before[i as int]);
                }
            }
            i = i + 1;
        }
        self.rows = kept;
        assert(self@ =~= kept_view);
    }
}

impl Deployment {
    /// The head and the earliest block of the deployment; an error while
    /// the deployment has no head.
    pub fn state(&self) -> (res: Result<DeploymentState, StoreError>)
        ensures
            match res {
                Ok(state) => self@.head == Some(state@.latest_block) && state@.id == self@.id
                    && state@.earliest_block_number == self@.earliest_block,
                Err(e) => self@.head is None && e@ == StoreErrorView::NotStarted(self@.id),
            },
    {
        match &self.latest_block {
            Some(head) => Ok(
                DeploymentState {
                    id: self.id.clone(),
                    latest_block: head.clone(),
                    earliest_block_number: self.earliest_block_number,
                },
            ),
            None => Err(StoreError::NotStarted(self.id.clone())),
        }
    }

    /// Records `earliest_block` as the earliest block of the deployment.
    pub fn set_earliest_block(&mut self, earliest_block: BlockNumber)
        ensures
            final(self)@ == floor_set(old(self)@, earliest_block),
    {
        self.earliest_block_number = earliest_block;
    }

    /// The first step of a prune, once the flag of its handle was read as
    /// `canceled`: the request is checked against the state of the
    /// deployment, unless a stop was asked for. A deployment without a head
    /// cannot be pruned. Returns the last final block, or nothing where the
    /// head is within the reorg threshold.
    pub fn prune_checked(
        &self,
        canceled: bool,
        earliest_block: BlockNumber,
        reorg_threshold: BlockNumber,
    ) -> (res: Result<Option<BlockNumber>, StoreError>)
        requires
            reorg_threshold >= 0,
        ensures
            canceled ==> (res matches Err(e) && e@ == StoreErrorView::Canceled),
            !canceled && self@.head is None ==> (res matches Err(e) && e@
                == StoreErrorView::NotStarted(self@.id)),
            !canceled && self@.head is Some ==> match requested(
                self@,
                earliest_block,
                reorg_threshold,
            ) {
                Ok(final_block) => res matches Ok(found) && found == final_block,
                Err(violation) => res matches Err(e) && e@ == StoreErrorView::ConstraintViolation(
                    violation,
                ),
            },
    {
        crate::cancel::checkpoint(canceled)?;
        let state = self.state()?;
        let graft_block = match &self.graft {
            Some(graft) => Some(graft.block.number),
            None => None,
        };
        match check_prune(&state, graft_block, earliest_block, reorg_threshold) {
            Ok(final_block) => Ok(final_block),
            Err(violation) => Err(StoreError::ConstraintViolation(violation)),
        }
    }

    /// The second step of a prune, once the flag was read as `canceled`:
    /// `earliest_block` is recorded as the earliest block of the
    /// deployment, unless a stop was asked for.
    pub fn persist_floor(&mut self, canceled: bool, earliest_block: BlockNumber) -> (res: Result<
        (),
        StoreError,
    >)
        ensures
            canceled ==> (res matches Err(e) && e@ == StoreErrorView::Canceled) && final(self)@
                == old(self)@,
            !canceled ==> res is Ok && final(self)@ == floor_set(old(self)@, earliest_block),
    {
        crate::cancel::checkpoint(canceled)?;
        self.set_earliest_block(earliest_block);
        Ok(())
    }

    /// The third step of a prune, once the flag was read as `canceled`:
    /// the versions that no block at or after `earliest_block` can see are
    /// reclaimed, all of them, unless a stop was asked for.
    pub fn reclaim_history(&mut self, canceled: bool, earliest_block: BlockNumber) -> (res: Result<
        (),
        StoreError,
    >)
        ensures
            canceled ==> (res matches Err(e) && e@ == StoreErrorView::Canceled) && final(self)@
                == old(self)@,
            !canceled ==> res is Ok && final(self)@ == (DeploymentView {
                rows: reclaimed(old(self)@.rows, earliest_block as int),
                ..old(self)@
            }),
    {
        crate::cancel::checkpoint(canceled)?;
        self.table.reclaim(earliest_block);
        Ok(())
    }

    /// Reclaims the versions that no block at or after `earliest_block` can
    /// see. The work is one step: it is done in full or, when a stop was
    /// asked for before it began, not at all.
    pub fn prune_by_copying(&mut self, earliest_block: BlockNumber, cancel: &CancelHandle) -> (res:
        Result<(), StoreError>)
        ensures
            match res {
                Ok(_) => final(self)@ == (DeploymentView {
                    rows: reclaimed(old(self)@.rows, earliest_block as int),
                    ..old(self)@
                }),
                Err(e) => e@ == StoreErrorView::Canceled && final(self)@ == old(self)@,
            },
    {
        self.reclaim_history(cancel.is_canceled(), earliest_block)
    }

    /// Prunes the history of the deployment before `earliest_block`, with
    /// `reorg_threshold` blocks below the head left alone. The request is
    /// checked as `prune_check` says; a request that passes first has its
    /// earliest block recorded, and its history reclaimed after that, so
    /// that a stop in between leaves the new earliest block in place. A
    /// stop can be asked for before the check, before the earliest block is
    /// recorded, and before the history is reclaimed: the three steps are
    /// `prune_checked`, `persist_floor` and `reclaim_history`, each with
    /// the flag as it was read before the step, and `prune_steps` says what
    /// they come to together.
    pub fn prune(
        &mut self,
        cancel: &CancelHandle,
        earliest_block: BlockNumber,
        reorg_threshold: BlockNumber,
    ) -> (res: Result<PruneOutcome, StoreError>)
        requires
            reorg_threshold >= 0,
        ensures
            final(self)@.earliest_block >= old(self)@.earliest_block,
            match res {
                Ok(PruneOutcome::Skipped) => final(self)@ == old(self)@ && old(self)@.head is Some
                    && requested(old(self)@, earliest_block, reorg_threshold) == Ok::<
                    _,
                    ConstraintViolation,
                >(None::<BlockNumber>),
                Ok(PruneOutcome::Pruned { final_block }) => final(self)@ == pruned(
                    old(self)@,
                    earliest_block,
                ) && old(self)@.head is Some && requested(
                    old(self)@,
                    earliest_block,
                    reorg_threshold,
                ) == Ok::<_, ConstraintViolation>(Some(final_block)),
                Err(e) => match e@ {
                    StoreErrorView::Canceled => final(self)@ == old(self)@ || (final(self)@
                        == floor_set(old(self)@, earliest_block) && old(self)@.head is Some
                        && requested(old(self)@, earliest_block, reorg_threshold) matches Ok(
                        Some(_),
                    )),
                    StoreErrorView::NotStarted(id) => final(self)@ == old(self)@ && old(
                        self,
                    )@.head is None && id == old(self)@.id,
                    StoreErrorView::ConstraintViolation(v) => final(self)@ == old(self)@ && old(
                        self,
                    )@.head is Some && requested(old(self)@, earliest_block, reorg_threshold)
                        == Err::<Option<BlockNumber>, _>(v),
                    _ => false,
                },
            },
            old(self)@.head is Some && requested(old(self)@, earliest_block, reorg_threshold)
                is Err ==> res is Err,
            old(self)@.wf() ==> final(self)@.wf(),
            exists|first: bool, second: bool, third: bool|
                (outcome_view(res), final(self)@) == prune_steps(
                    old(self)@,
                    first,
                    second,
                    third,
                    earliest_block,
                    reorg_threshold,
                ),
    {
        proof {
            if old(self)@.wf() {
                crate::laws::lemma_prune_keeps_wf(old(self)@, earliest_block);
            }
        }
        let first = cancel.is_canceled();
        let checked = self.prune_checked(first, earliest_block, reorg_threshold);
        let final_block = match checked {
            Ok(Some(final_block)) => final_block,
            Ok(None) => {
                assert((outcome_view(Ok(PruneOutcome::Skipped)), self@) == prune_steps(
                    old(self)@,
                    first,
                    false,
                    false,
                    earliest_block,
                    reorg_threshold,
                ));
                return Ok(PruneOutcome::Skipped);
            },
            Err(e) => {
                assert((outcome_view(Err(e)), self@) == prune_steps(
                    old(self)@,
                    first,
                    false,
                    false,
                    earliest_block,
                    reorg_threshold,
                ));
                return Err(e);
            },
        };
        let second = cancel.is_canceled();
        match self.persist_floor(second, earliest_block) {
            Ok(_) => {},
            Err(e) => {
                assert((outcome_view(Err(e)), self@) == prune_steps(
                    old(self)@,
                    first,
                    second,
                    false,
                    earliest_block,
                    reorg_threshold,
                ));
                return Err(e);
            },
        }
        let third = cancel.is_canceled();
        match self.reclaim_history(third, earliest_block) {
            Ok(_) => {},
            Err(e) => {
                assert((outcome_view(Err(e)), self@) == prune_steps(
                    old(self)@,
                    first,
                    second,
                    third,
                    earliest_block,
                    reorg_threshold,
                ));
                return Err(e);
            },
        }
        assert((outcome_view(Ok(PruneOutcome::Pruned { final_block })), self@) == prune_steps(
            old(self)@,
            first,
            second,
            third,
            earliest_block,
            reorg_threshold,
        ));
        Ok(PruneOutcome::Pruned { final_block })
    }
}

/// The mathematical value of the result of a prune.
pub open spec fn outcome_view(res: Result<PruneOutcome, StoreError>) -> Result<
    PruneOutcome,
    StoreErrorView,
> {
    match res {
        Ok(outcome) => Ok(outcome),
        Err(e) => Err(e@),
    }
}

/// What a prune returns and what it makes of the deployment, given what
/// the flag of its handle was read as before each of its three steps: a
/// stop before the check, the failure of the check, or a head within the
/// reorg threshold leave the deployment as it is; a stop before the second
/// step too; a stop before the third step leaves the earliest block
/// recorded; else the deployment is pruned.
pub open spec fn prune_steps(
    d: DeploymentView,
    first: bool,
    second: bool,
    third: bool,
    earliest_block: BlockNumber,
    reorg_threshold: BlockNumber,
) -> (Result<PruneOutcome, StoreErrorView>, DeploymentView) {
    if first {
        (Err(StoreErrorView::Canceled), d)
    } else if d.head is None {
        (Err(StoreErrorView::NotStarted(d.id)), d)
    } else {
        match requested(d, earliest_block, reorg_threshold) {
            Err(violation) => (Err(StoreErrorView::ConstraintViolation(violation)), d),
            Ok(None) => (Ok(PruneOutcome::Skipped), d),
            Ok(Some(final_block)) => if second {
                (Err(StoreErrorView::Canceled), d)
            } else if third {
                (Err(StoreErrorView::Canceled), floor_set(d, earliest_block))
            } else {
                (Ok(PruneOutcome::Pruned { final_block }), pruned(d, earliest_block))
            },
        }
    }
}

/// What a request to prune comes to for a deployment that has a head.
pub open spec fn requested(d: DeploymentView, earliest_block: BlockNumber, reorg_threshold: BlockNumber)
    -> Result<Option<BlockNumber>, ConstraintViolation>
    recommends
        d.head is Some,
{
    prune_check(
        d.head->0.number,
        d.earliest_block,
        crate::deployment::graft_block_of(d.graft),
        earliest_block,
        reorg_threshold,
    )
}

} // verus!
