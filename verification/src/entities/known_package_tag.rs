//! A row of the `known_package_tag` table.

use vstd::prelude::*;

verus! {

/// A tag of a known package, with the name of its tag type.
#[derive(Clone, Debug, PartialEq, Eq)]
pub struct Model {
    pub id: i64,
    pub known_package_id: i64,
    pub tag: String,
    pub tag_type: String,
    pub last_seen_at: String,
    pub created_at: String,
}

} // verus!
