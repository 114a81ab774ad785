//! Shorthands for `collect` on iterators, for the usual case in which the
//! container wanted is a `Vec`, a `HashMap` or a `HashSet`.
//!
//! `to_vec` drains any iterator into a `Vec`. `to_vec_result` does the same
//! for an iterator of `Result`s and stops at the first error, which it
//! returns. `to_map` and `to_set` work on iterators of references and clone
//! what they are handed.

pub mod source;
pub mod cloning;
pub mod list;
pub mod fallible;
pub mod assoc;
pub mod distinct;

pub use crate::list::ToVec;
pub use crate::fallible::ToVecResult;
pub use crate::assoc::ToMap;
pub use crate::distinct::ToSet;
