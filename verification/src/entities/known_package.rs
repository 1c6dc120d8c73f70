//! A row of the `known_package` table.

use vstd::prelude::*;

verus! {

/// A package the user has seen or searched for.
#[derive(Clone, Debug, PartialEq, Eq)]
pub struct Model {
    pub id: i64,
    pub registry: String,
    pub repository: String,
    pub description: Option<String>,
    pub last_seen_at: String,
    pub created_at: String,
}

} // verus!
