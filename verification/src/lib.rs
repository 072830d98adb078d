//! A persistent sequence with constant-time append, concatenation and
//! deferred element transforms, and linear-time materialization.
//!
//! A [`Chunk`] records how a sequence was built and shares its operands by
//! reference counting. Its view, `chunk@`, is the sequence it stands for;
//! [`Chunk::as_vec`] turns the record into that sequence.
//!
//! - `chunk` holds the node type, the construction operators and the
//!   materialization.
//! - `deferred` holds what a transform node stores, and the conditions on
//!   the closures given to `transform` and `transform_flatten`.
//! - `laws` holds what is proved of the operators beyond their own
//!   contracts.

pub mod chunk;
pub mod deferred;
pub mod laws;

pub use chunk::Chunk;
