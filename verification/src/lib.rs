//! A verified core for a spreadsheet-backed project-planning store.
//!
//! Records (projects, epics, sprints, backlog items, user stories) live as
//! rows inside fixed column bands of one backing sheet.  This crate holds the
//! pure logic: the address algebra that builds range strings, the identifier
//! allocator, the two-level delimiter codec that packs nested sub-record
//! lists into single cells, the column-band registry, and the per-entity
//! record operations.  All grid I/O is left to the caller.

pub mod addr;
pub mod codec;
pub mod grid;
pub mod model;
pub mod num;
pub mod registry;
pub mod service;
pub mod text;
pub mod util;
