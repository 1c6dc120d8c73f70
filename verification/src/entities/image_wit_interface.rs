//! A row of the `image_wit_interface` table, linking images to WIT interfaces.

use vstd::prelude::*;

verus! {

/// The link between an image and a WIT interface.
#[derive(Clone, Debug, PartialEq, Eq, Structural)]
pub struct Model {
    pub image_id: i64,
    pub wit_interface_id: i64,
}

} // verus!
