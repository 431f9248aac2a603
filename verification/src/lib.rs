//! A data-masking engine for a relational database.
//!
//! Security labels attached to roles, schemas, tables, columns, functions and
//! databases say how sensitive values are replaced. The engine resolves those
//! rules across the declared masking policies, checks that masking functions
//! can be trusted, builds the SQL that masks a column or a table, and rewrites
//! statement trees so that masked relations are read through generated
//! subqueries.
//!
//! The engine never talks to the database itself: it works on a snapshot of
//! the catalog and of the label store, and on its own statement trees.

pub mod catalog;
pub mod guc;
pub mod error;
pub mod text;
pub mod re;
pub mod label_providers;
pub mod masking;
pub mod sampling;
pub mod nodes;
pub mod input;
pub mod walker;
pub mod hooks;
pub mod static_masking;
pub mod random;
pub mod utils;
pub mod macros;
pub mod compat;

use vstd::prelude::*;

verus! {

/// The name of the engine's own schema.
pub const ANON: &'static str = "anon";

} // verus!
