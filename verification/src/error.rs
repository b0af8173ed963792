//! The errors of the store.

use vstd::prelude::*;
use crate::block::BlockNumber;

verus! {

/// An operation that would break an invariant of the store.
#[derive(Copy, Clone, Debug, PartialEq, Eq, Structural)]
pub enum ConstraintViolation {
    /// The earliest block would move back from `from` to `to`.
    EarliestBlockMovesBack { from: BlockNumber, to: BlockNumber },
    /// The earliest block is not at least `reorg_threshold` blocks before
    /// the latest block.
    TooCloseToHead { earliest: BlockNumber, reorg_threshold: BlockNumber, latest: BlockNumber },
    /// The earliest block would pass the graft point: history that was
    /// grafted is never pruned away.
    PastGraftPoint { earliest: BlockNumber, graft: BlockNumber },
    /// A rewind from block `from` to block `to` would not go backwards.
    RewindForward { from: BlockNumber, to: BlockNumber },
}

/// Why an operation of the store failed.
#[derive(Debug)]
pub enum StoreError {
    /// An entity of the type and id (first and second field) cannot be
    /// written because an entity of a type that shares an interface with it
    /// (third field) has the same id.
    ConflictingId(String, String, String),
    ConstraintViolation(ConstraintViolation),
    /// The operation was cancelled between two of its phases.
    Canceled,
    UnknownTable(String),
    UnknownField(String),
    /// The deployment has already processed the block, or a later one.
    DuplicateBlockProcessing(String, BlockNumber),
    /// An insert met a current version of the entity of this type and id.
    DuplicateEntity(String, String),
    /// More than one stored data source matches one that is to be removed.
    AmbiguousDataSource(u32),
    /// The deployment cannot be reverted to `target`: it was grafted at
    /// the later block `graft`.
    RevertPastGraft { target: BlockNumber, graft: BlockNumber },
    /// The deployment has no block pointer yet.
    NotStarted(String),
    /// The version of the manifest is not a semantic version.
    InvalidSpecVersion(String),
    /// The weights of the replicas are all zero: no replica is left to
    /// read from.
    NoReplica,
    /// An entity that should carry a digest has no id that is a string.
    DigestWithoutRegion,
    /// The digest of the causality region is not a byte string.
    DigestNotBytes(String),
}

/// The mathematical value of a `StoreError`.
pub enum StoreErrorView {
    ConflictingId(Seq<char>, Seq<char>, Seq<char>),
    ConstraintViolation(ConstraintViolation),
    Canceled,
    UnknownTable(Seq<char>),
    UnknownField(Seq<char>),
    DuplicateBlockProcessing(Seq<char>, BlockNumber),
    DuplicateEntity(Seq<char>, Seq<char>),
    AmbiguousDataSource(u32),
    RevertPastGraft { target: BlockNumber, graft: BlockNumber },
    NotStarted(Seq<char>),
    InvalidSpecVersion(Seq<char>),
    NoReplica,
    DigestWithoutRegion,
    DigestNotBytes(Seq<char>),
}

impl View for StoreError {
    type V = StoreErrorView;

    open spec fn view(&self) -> StoreErrorView {
        match self {
            StoreError::ConflictingId(t, i, o) => StoreErrorView::ConflictingId(t@, i@, o@),
            StoreError::ConstraintViolation(v) => StoreErrorView::ConstraintViolation(*v),
            StoreError::Canceled => StoreErrorView::Canceled,
            StoreError::UnknownTable(t) => StoreErrorView::UnknownTable(t@),
            StoreError::UnknownField(f) => StoreErrorView::UnknownField(f@),
            StoreError::DuplicateBlockProcessing(d, b) => StoreErrorView::DuplicateBlockProcessing(
                d@,
                *b,
            ),
            StoreError::DuplicateEntity(t, i) => StoreErrorView::DuplicateEntity(t@, i@),
            StoreError::AmbiguousDataSource(n) => StoreErrorView::AmbiguousDataSource(*n),
            StoreError::RevertPastGraft { target, graft } => StoreErrorView::RevertPastGraft {
                target: *target,
                graft: *graft,
            },
            StoreError::NotStarted(d) => StoreErrorView::NotStarted(d@),
            StoreError::InvalidSpecVersion(v) => StoreErrorView::InvalidSpecVersion(v@),
            StoreError::NoReplica => StoreErrorView::NoReplica,
            StoreError::DigestWithoutRegion => StoreErrorView::DigestWithoutRegion,
            StoreError::DigestNotBytes(r) => StoreErrorView::DigestNotBytes(r@),
        }
    }
}

impl StoreError {
    /// Whether the error is a breach of an invariant of the store.
    pub fn is_constraint_violation(&self) -> (res: bool)
        ensures
            res == (self@ is ConstraintViolation),
    {
        match self {
            StoreError::ConstraintViolation(_) => true,
            _ => false,
        }
    }
}

} // verus!
