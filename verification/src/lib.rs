//! A block-versioned entity store for a blockchain indexer.
//!
//! Every entity is kept as a sequence of versions, each valid over a half-open
//! range of blocks. The store applies one batch of changes per block, can be
//! reverted to an earlier block, pruned below a retention floor, and seeded
//! from another deployment at a graft point. The contracts of the executable
//! functions are stated over the mathematical views of these types.
//!
//! The modules, leaves first:
//!
//! - `block`, `entity`, `error`, `deployment`: the values that the store
//!   handles;
//! - `versions`: the versions of the entities of a deployment, and what it
//!   means for them to be well formed;
//! - `state`: the state of a deployment, and each operation as a function on
//!   it;
//! - `coordinator`, `revert`, `prune`, `graft`, `unfail`, `poi`, `query`: the
//!   operations on a deployment;
//! - `replica`, `info`, `layout`, `cancel`: what a store needs beside its
//!   deployments;
//! - `store`: the store itself;
//! - `mirror`, `nebula`, `text`: the projection of committed entities onto a
//!   graph store;
//! - `laws`: what holds whatever the sequence of operations.

pub mod block;
pub mod cancel;
pub mod coordinator;
pub mod deployment;
pub mod entity;
pub mod error;
pub mod graft;
pub mod info;
pub mod laws;
pub mod layout;
pub mod mirror;
pub mod nebula;
pub mod poi;
pub mod prune;
pub mod query;
pub mod replica;
pub mod revert;
pub mod state;
pub mod store;
pub mod text;
pub mod unfail;
pub mod versions;
