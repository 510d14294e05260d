//! The scheduling engine of a reminder application, verified: when each reminder fires
//! next (`timer`), the live timers with at most one per reminder (`registry`), what a fire
//! changes, and the versioned, migrating store of reminders and settings (`store`,
//! `migrate`, `commands`) over a JSON tree of its own (`json`).

use vstd::prelude::*;

pub mod instant;
pub mod json;
pub mod reminder;
pub mod store;
pub mod migrate;
pub mod registry;
pub mod timer;
pub mod commands;
pub mod notifications;
pub mod tray;
pub mod updater;
pub mod system_info;

verus! {

/// Format version written by this library.
pub const CURRENT_DATA_VERSION: u32 = 2;

/// The format version assumed for a document that states none.
pub fn default_version() -> (r: u32)
    ensures
        r == CURRENT_DATA_VERSION,
{
    CURRENT_DATA_VERSION
}

} // verus!
