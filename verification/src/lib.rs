//! Keeps two remote copies of one repository in step.
//!
//! The crate holds the decisions of a synchronisation run and none of its
//! input or output. A [`fork::Fork`] says which operation of the object store
//! comes next and takes the store's answer; trees that the store has loaded
//! are compared and merged here, path by path.

pub mod diff;
pub mod fork;
pub mod merge;
pub mod object;
pub mod patch;
pub mod path;
pub mod protocol;
pub mod tree;
