//! Credential resolution, session provisioning and directory discovery for a
//! remote-desktop launcher.
//!
//! The crate holds the decisions. The platform (secret vault, file system,
//! directory protocol, document opener) is driven by the caller: every
//! operation that needs it is split into states, each of which names the
//! exchange it waits for and takes its outcome. For the secret store, the
//! connections directory, the inventory and the recent-connections log
//! the crate also holds owned images, against which the operations run
//! from end to end.

pub mod text;
pub mod identity;
pub mod wide;
pub mod credential;
pub mod vault_entry;
pub mod keyed;
pub mod secret_store;
pub mod resolver;
pub mod clock;
pub mod recent;
pub mod diagnostics;
pub mod inventory;
pub mod inventory_file;
pub mod scanner;
pub mod artifact;
pub mod launcher;
pub mod reset;
pub mod shell;
