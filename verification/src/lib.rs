//! Synchronises a local collection of static assets with a remote
//! content-addressable store: gathering local descriptors, folding remote
//! state, diffing the two into mutating operations, grouping operations into
//! bounded batches, and driving the create-batch / upload-chunk / commit
//! protocol, including recovery from batch expiry.

pub mod model;
pub mod hashing;
pub mod gather;
pub mod remote;
pub mod differ;
pub mod assembler;
pub mod committer;
pub mod sync;
pub mod settings_digest;
pub mod install;
