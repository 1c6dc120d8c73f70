//! WIT interfaces extracted from WebAssembly components.

use vstd::prelude::*;

use crate::entities::wit_interface;
use crate::text::opt_view;

verus! {

/// What a WIT interface holds, as mathematical values.
pub struct WitInterfaceView {
    pub id: i64,
    pub package_name: Option<Seq<char>>,
    pub wit_text: Seq<char>,
    pub world_name: Option<Seq<char>>,
    pub import_count: i32,
    pub export_count: i32,
    pub created_at: Seq<char>,
}

/// A WIT interface extracted from a WebAssembly component.
#[derive(Debug, Clone)]
pub struct WitInterface {
    id: i64,
    /// The package name (e.g., "wasi:http@0.2.0")
    pub package_name: Option<String>,
    /// The full WIT text representation
    pub wit_text: String,
    /// The world name if available
    pub world_name: Option<String>,
    /// Number of imports
    pub import_count: i32,
    /// Number of exports
    pub export_count: i32,
    /// When this was created
    pub created_at: String,
}

impl View for WitInterface {
    type V = WitInterfaceView;

    closed spec fn view(&self) -> WitInterfaceView {
        WitInterfaceView {
            id: self.id,
            package_name: opt_view(self.package_name),
            wit_text: self.wit_text@,
            world_name: opt_view(self.world_name),
            import_count: self.import_count,
            export_count: self.export_count,
            created_at: self.created_at@,
        }
    }
}

impl WitInterface {
    /// Returns the ID of this WIT interface.
    pub fn id(&self) -> (res: i64)
        ensures
            res == self@.id,
    {
        self.id
    }

    /// Create a new WitInterface for testing purposes
    pub fn new_for_testing(
        id: i64,
        package_name: Option<String>,
        wit_text: String,
        world_name: Option<String>,
        import_count: i32,
        export_count: i32,
        created_at: String,
    ) -> (res: Self)
        ensures
            res@ == (WitInterfaceView {
                id,
                package_name: opt_view(package_name),
                wit_text: wit_text@,
                world_name: opt_view(world_name),
                import_count,
                export_count,
                created_at: created_at@,
            }),
    {
        WitInterface {
            id,
            package_name,
            wit_text,
            world_name,
            import_count,
            export_count,
            created_at,
        }
    }

    /// Builds a WIT interface from a stored row of the `wit_interface` table.
    pub fn from_model(model: wit_interface::Model) -> (res: Self)
        ensures
            res@ == (WitInterfaceView {
                id: model.id,
                package_name: opt_view(model.package_name),
                wit_text: model.wit_text@,
                world_name: opt_view(model.world_name),
                import_count: model.import_count,
                export_count: model.export_count,
                created_at: model.created_at@,
            }),
    {
        WitInterface {
            id: model.id,
            package_name: model.package_name,
            wit_text: model.wit_text,
            world_name: model.world_name,
            import_count: model.import_count,
            export_count: model.export_count,
            created_at: model.created_at,
        }
    }
}

} // verus!
