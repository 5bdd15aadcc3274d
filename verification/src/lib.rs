//! Memos: a tiered memory-management library for AI applications.
//!
//! The library keeps memories (texts, code, files) in workspaces, moves them
//! through a lifecycle (Active, Cooling, Cold, Zombie), indexes their
//! metadata, filters and pages listings, and prepares training data.

pub mod client;
pub mod cold;
pub mod entry_table;
pub mod error;
pub mod facade;
pub mod floats;
pub mod fulltext;
pub mod hot;
pub mod lifecycle;
pub mod metadata_index;
pub mod model;
pub mod policy;
pub mod query;
pub mod scheduler;
pub mod set_map;
pub mod text;
pub mod tiers;
pub mod train;
pub mod types;
pub mod vector_index;
pub mod zombie;

use vstd::prelude::*;

verus! {

/// The library's version.
pub const VERSION: &'static str = "0.1.0";

} // verus!
