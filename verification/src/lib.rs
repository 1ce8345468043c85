//! The operating system layer for the Windows machine that the program runs on: its processes,
//! its kernel modules, and the privilege it takes to see them all.
//!
//! Nothing here talks to the system. What the system answers comes in as plain values, and what
//! is to be asked next goes out as such.

pub mod args;
pub mod error;
pub mod laws;
pub mod modules;
pub mod os;
pub mod privilege;
pub mod query;
pub mod table;
pub mod text;
pub mod types;
pub mod walk;

pub use error::{conv_err, conv_ntstatus, ErrorKind, ErrorOrigin, NtStatus, OsError};
pub use modules::KernelModule;
pub use os::{ProcessEntry, WindowsOs};
pub use query::{KernelModuleQuery, QueryStep};
pub use types::{
    Address, ArchitectureIdent, ModuleInfo, OsInfo, Pid, ProcessInfo, ProcessState,
};
pub use walk::AddressWalk;
