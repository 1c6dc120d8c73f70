//! The `sql` developer commands, which are being rewritten: each of them
//! reports where the migrations now live instead of acting.

use vstd::prelude::*;

verus! {

/// What every `sql` command reports.
pub const SQL_COMMAND_NOTE: &'static str = "`cargo xtask sql ...` is being rewritten as part of the SeaORM port (Phase 6). Migrations now live in `crates/component-package-manager-migration/`. Apply them programmatically via `component_package_manager_migration::Migrator::up`, or via `sea-orm-cli`.";

/// `cargo xtask sql install`: fails with the note.
pub fn install() -> (res: Result<(), &'static str>)
    ensures
        res matches Err(e) && e@ == SQL_COMMAND_NOTE@,
{
    Err(SQL_COMMAND_NOTE)
}

/// `cargo xtask sql migrate <name>`: fails with the note, whatever the name.
pub fn migrate(_name: &str) -> (res: Result<(), &'static str>)
    ensures
        res matches Err(e) && e@ == SQL_COMMAND_NOTE@,
{
    Err(SQL_COMMAND_NOTE)
}

/// `cargo xtask sql check`: fails with the note.
pub fn check() -> (res: Result<(), &'static str>)
    ensures
        res matches Err(e) && e@ == SQL_COMMAND_NOTE@,
{
    Err(SQL_COMMAND_NOTE)
}

} // verus!
