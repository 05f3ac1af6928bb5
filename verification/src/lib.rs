//! The data plane of a simulation that runs as a guest of a host renderer.
//!
//! Two things are done here, and both go by one rule: the layout of memory
//! is described once, and writer and reader both go by that description.
//!
//! - The output of a step: an [`arena`] of data, a queue of tagged messages
//!   that point into it, and an index that tells the host where both are
//!   ([`output`]). The host reads them in place, with a decoder whose source
//!   is generated from the records' own descriptions
//!   ([`output::protocol`]).
//! - The snapshot: the whole state as one run of bytes, and back
//!   ([`store`]), with the handles of the actors kept, so that a reference
//!   to an actor outlasts a reload ([`data::world`]).
//!
//! Floating point numbers are carried as their bit patterns. What is
//! computed with them is handed in by the caller.
//!
//! Beside these stand the stages of the simulation ([`state`]), and what a
//! server decides about the files of the host while the host is being
//! worked on ([`serving`]).

pub mod arena;
pub mod bytes;
pub mod client;
pub mod data;
pub mod entity;
pub mod error;
pub mod output;
pub mod record;
pub mod serving;
pub mod shared;
pub mod state;
pub mod store;
pub mod string_map;
