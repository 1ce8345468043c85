//! What the operating system layer reports: addresses, processes, modules.

use vstd::prelude::*;

verus! {

/// An address on the target system, or what stands for one.
#[derive(Clone, Copy, Debug, PartialEq, Eq, Structural)]
pub struct Address(pub u64);

impl Address {
    /// The address zero.
    pub fn null() -> (address: Address)
        ensures
            address == Address(0),
    {
        Address(0)
    }

    /// The address with all bits set, which no object has.
    pub fn invalid() -> (address: Address)
        ensures
            address == Address(u64::MAX),
    {
        Address(u64::MAX)
    }
}

/// A processor architecture.
#[derive(Clone, Copy, Debug, PartialEq, Eq, Structural)]
pub enum ArchitectureIdent {
    /// An architecture that is known by a number only.
    Unknown(usize),
    /// x86 with its bitness, and whether address extensions are on.
    X86(u8, bool),
    /// 64-bit Arm with its page size.
    AArch64(usize),
}

/// Base, size and architecture of the operating system.
#[derive(Clone, Copy, Debug, PartialEq, Eq, Structural)]
pub struct OsInfo {
    pub base: Address,
    pub size: u64,
    pub arch: ArchitectureIdent,
}

/// A process identifier.
pub type Pid = u32;

/// The state of a process.
#[derive(Clone, Copy, Debug, PartialEq, Eq, Structural)]
pub enum ProcessState {
    Unknown,
    Alive,
    /// Ended, with an exit code.
    Dead(i32),
}

/// What is known of a process.
#[derive(Debug)]
pub struct ProcessInfo {
    pub address: Address,
    pub pid: Pid,
    pub state: ProcessState,
    pub name: String,
    pub path: String,
    pub command_line: String,
    pub sys_arch: ArchitectureIdent,
    pub proc_arch: ArchitectureIdent,
    pub dtb1: Address,
    pub dtb2: Address,
}

/// A `ProcessInfo` with its strings as sequences of characters.
pub struct ProcessInfoView {
    pub address: Address,
    pub pid: Pid,
    pub state: ProcessState,
    pub name: Seq<char>,
    pub path: Seq<char>,
    pub command_line: Seq<char>,
    pub sys_arch: ArchitectureIdent,
    pub proc_arch: ArchitectureIdent,
    pub dtb1: Address,
    pub dtb2: Address,
}

impl View for ProcessInfo {
    type V = ProcessInfoView;

    open spec fn view(&self) -> ProcessInfoView {
        ProcessInfoView {
            address: self.address,
            pid: self.pid,
            state: self.state,
            name: self.name@,
            path: self.path@,
            command_line: self.command_line@,
            sys_arch: self.sys_arch,
            proc_arch: self.proc_arch,
            dtb1: self.dtb1,
            dtb2: self.dtb2,
        }
    }
}

/// What is known of a module.
#[derive(Debug)]
pub struct ModuleInfo {
    pub address: Address,
    pub parent_process: Address,
    pub base: Address,
    pub size: u64,
    pub name: String,
    pub path: String,
    pub arch: ArchitectureIdent,
}

/// A `ModuleInfo` with its strings as sequences of characters.
pub struct ModuleInfoView {
    pub address: Address,
    pub parent_process: Address,
    pub base: Address,
    pub size: u64,
    pub name: Seq<char>,
    pub path: Seq<char>,
    pub arch: ArchitectureIdent,
}

impl View for ModuleInfo {
    type V = ModuleInfoView;

    open spec fn view(&self) -> ModuleInfoView {
        ModuleInfoView {
            address: self.address,
            parent_process: self.parent_process,
            base: self.base,
            size: self.size,
            name: self.name@,
            path: self.path@,
            arch: self.arch,
        }
    }
}

} // verus!
