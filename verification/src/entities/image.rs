//! A row of the `image` table.

use vstd::prelude::*;

verus! {

/// A stored OCI image reference with its manifest (as JSON) and size.
#[derive(Clone, Debug, PartialEq, Eq)]
pub struct Model {
    pub id: i64,
    pub ref_registry: String,
    pub ref_repository: String,
    pub ref_mirror_registry: Option<String>,
    pub ref_tag: Option<String>,
    pub ref_digest: Option<String>,
    pub manifest: String,
    pub size_on_disk: i64,
}

} // verus!
