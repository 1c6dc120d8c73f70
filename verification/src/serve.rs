//! The decisions of the development server loop, which builds the frontend,
//! runs the meta-registry and `wasmtime serve`, and reacts to Ctrl-C, to
//! Enter, and to either server exiting.

use vstd::prelude::*;

verus! {

/// What the loop does on one turn, before looking at the servers.
#[derive(Debug, Clone, Copy, PartialEq, Eq, Structural)]
pub enum TickAction {
    /// Ctrl-C was pressed: stop both servers and leave.
    Shutdown,
    /// Enter was pressed: rebuild the frontend.
    Rebuild,
    /// Nothing was asked: look whether a server exited.
    PollServers,
}

/// What the loop does after a rebuild.
#[derive(Debug, Clone, Copy, PartialEq, Eq, Structural)]
pub enum RebuildAction {
    /// The build succeeded: restart both servers.
    RestartServers,
    /// The build failed: keep the running servers.
    KeepServers,
}

/// What the loop does after looking at the servers.
#[derive(Debug, Clone, Copy, PartialEq, Eq, Structural)]
pub enum PollAction {
    /// `wasmtime serve` exited on its own: stop and leave.
    WasmtimeExited,
    /// The meta-registry exited on its own: stop and leave.
    RegistryExited,
    /// Both run: wait a moment and take another turn.
    Wait,
}

/// A shutdown request wins over a reload request; with neither, the
/// servers are looked at.
pub fn tick_action(shutdown_requested: bool, reload_requested: bool) -> (res: TickAction)
    ensures
        res == if shutdown_requested {
            TickAction::Shutdown
        } else if reload_requested {
            TickAction::Rebuild
        } else {
            TickAction::PollServers
        },
{
    if shutdown_requested {
        TickAction::Shutdown
    } else if reload_requested {
        TickAction::Rebuild
    } else {
        TickAction::PollServers
    }
}

/// Servers are restarted only after a successful build.
pub fn rebuild_action(build_succeeded: bool) -> (res: RebuildAction)
    ensures
        res == if build_succeeded {
            RebuildAction::RestartServers
        } else {
            RebuildAction::KeepServers
        },
{
    if build_succeeded {
        RebuildAction::RestartServers
    } else {
        RebuildAction::KeepServers
    }
}

/// `wasmtime serve` is looked at first; the meta-registry is looked at only
/// when `wasmtime serve` still runs.
pub fn poll_action(wasmtime_exited: bool, registry_exited: bool) -> (res: PollAction)
    ensures
        res == if wasmtime_exited {
            PollAction::WasmtimeExited
        } else if registry_exited {
            PollAction::RegistryExited
        } else {
            PollAction::Wait
        },
{
    if wasmtime_exited {
        PollAction::WasmtimeExited
    } else if registry_exited {
        PollAction::RegistryExited
    } else {
        PollAction::Wait
    }
}

} // verus!
