//! A disjoint-access cell over an in-memory entity/component/resource store.
//!
//! The store (the *world*) holds entities, their components, and singleton
//! resources, together with the change-tick bookkeeping that lets consumers
//! detect what was written since they last ran.  The cell types grant either
//! read-only or read-write access to that store: a read-write cell may derive
//! write handles that record the current tick on every write, while a
//! read-only cell can never be escalated to a write.  Every accessor carries a
//! contract that pins down exactly which slot of the world it reads or
//! writes, when it succeeds, and which error it returns when it does not.

use vstd::prelude::*;

pub mod archetype;
pub mod cell;
pub mod change_detection;
pub mod component;
pub mod entity;
pub mod error;
pub mod laws;
pub mod query;
pub mod storage;
pub mod tick;
pub mod world;

verus! {

} // verus!
