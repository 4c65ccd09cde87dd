//! Pure navigation logic for a tiling window manager's workspaces.
//!
//! Given a snapshot of all workspaces (number, output, focus and visibility
//! flags) and a navigation action, the library computes the target workspace
//! number. All I/O — fetching the snapshot and issuing the focus/move
//! commands — is left to the caller.

pub mod nav;
pub mod snapshot;
