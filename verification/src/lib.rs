//! An accumulator that gathers immutable byte chunks into one contiguous
//! buffer, with machine-checked contracts over the bytes it holds.
//!
//! - [`collect`] holds the accumulator, [`BytesCollect`], and the contracts
//!   of its operations;
//! - [`concat`] defines what a sequence of chunks holds when laid end to
//!   end, which those contracts are stated over;
//! - [`laws`] proves what follows for the operations taken together;
//! - [`buffer`] declares the types and calls of the `bytes` crate that the
//!   accumulator is built on, with what is assumed of them.

pub mod buffer;
pub mod collect;
pub mod concat;
pub mod laws;

pub use collect::BytesCollect;
