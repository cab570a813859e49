//! A query engine over a music-metadata catalogue of artists and areas.
//!
//! `registry` declares the object types and builds a schema; `query` holds a
//! client's selection tree and the depth and complexity limits checked before
//! anything is read; `fields` projects rows onto selected fields; `provider`
//! is an in-memory row source with point lookups, ordered pages and counts;
//! `engine` binds each root field to a plan, fetches it and assembles the
//! response.

use vstd::prelude::*;

pub mod engine;
pub mod entity;
pub mod fields;
pub mod provider;
pub mod query;
pub mod registry;

verus! {

} // verus!
