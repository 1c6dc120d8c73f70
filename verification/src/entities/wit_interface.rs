//! A row of the `wit_interface` table.

use vstd::prelude::*;

verus! {

/// A WIT interface extracted from a WebAssembly component.
#[derive(Clone, Debug, PartialEq, Eq)]
pub struct Model {
    pub id: i64,
    pub wit_text: String,
    pub package_name: Option<String>,
    pub world_name: Option<String>,
    pub import_count: i32,
    pub export_count: i32,
    pub created_at: String,
}

} // verus!
