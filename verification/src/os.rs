//! The operating system itself: its processes and its modules.

use vstd::prelude::*;
use vstd::slice::slice_subrange;

use crate::args::elevation_requested;
use crate::error::{conv_err, ErrorKind, ErrorOrigin, OsError};
use crate::modules::{KernelModule, KernelModuleView};
use crate::text::{after_backslash, decode_utf16_lossy};
use crate::types::{
    Address, ArchitectureIdent, ModuleInfo, ModuleInfoView, OsInfo, Pid, ProcessInfo,
    ProcessInfoView, ProcessState,
};
use crate::walk::AddressWalk;

verus! {

/// The Windows system that the program runs on.
pub struct WindowsOs {
    info: OsInfo,
}

impl View for WindowsOs {
    type V = OsInfo;

    closed spec fn view(&self) -> OsInfo {
        self.info
    }
}

/// What is known of the system: its architecture, and nothing of where its kernel is.
pub open spec fn default_info() -> OsInfo {
    OsInfo { base: Address(0), size: 0, arch: ArchitectureIdent::X86(64, false) }
}

impl Default for WindowsOs {
    fn default() -> (os: WindowsOs)
        ensures
            os@ == default_info(),
    {
        let info = OsInfo {
            base: Address::null(),
            size: 0,
            arch: ArchitectureIdent::X86(64, false),
        };
        WindowsOs { info }
    }
}

impl Clone for WindowsOs {
    fn clone(&self) -> (os: WindowsOs)
        ensures
            os@ == self@,
    {
        WindowsOs { info: self.info }
    }
}

/// A process as it stands in a snapshot of the system.
pub struct ProcessEntry {
    pub pid: Pid,
    /// The path or name of its executable file in UTF-16, up to the first zero.
    pub exe_file: [u16; 260],
}

/// The path of a process.
pub open spec fn exe_path(exe_file: Seq<u16>) -> Seq<char> {
    crate::text::utf16_lossy(crate::text::before_first(exe_file, 0u16))
}

/// The address that stands for a process: its identifier.
pub open spec fn process_address(pid: Pid) -> Address {
    Address(pid as u64)
}

/// The identifier of the process that an address stands for: its lower half.
pub open spec fn address_pid(address: Address) -> Pid {
    (address.0 % 0x1_0000_0000) as u32
}

/// The addresses of the processes in a snapshot.
pub open spec fn process_addresses(entries: Seq<ProcessEntry>) -> Seq<Address> {
    Seq::new(entries.len(), |i: int| process_address(entries[i].pid))
}

/// The first process of a snapshot with the identifier `pid`.
pub open spec fn first_with_pid(entries: Seq<ProcessEntry>, pid: Pid) -> Option<ProcessEntry>
    decreases entries.len(),
{
    if entries.len() == 0 {
        None
    } else if entries[0].pid == pid {
        Some(entries[0])
    } else {
        first_with_pid(entries.skip(1), pid)
    }
}

/// What is reported of a process that was looked up by `address`.
pub open spec fn process_info(info: OsInfo, address: Address, entry: ProcessEntry) -> ProcessInfoView {
    ProcessInfoView {
        address,
        pid: address_pid(address),
        state: ProcessState::Alive,
        name: crate::text::after_last(exe_path(entry.exe_file@), '\\'),
        path: exe_path(entry.exe_file@),
        command_line: seq![],
        sys_arch: info.arch,
        proc_arch: info.arch,
        dtb1: Address(u64::MAX),
        dtb2: Address(u64::MAX),
    }
}

/// The base addresses of modules.
pub open spec fn module_addresses(modules: Seq<KernelModuleView>) -> Seq<Address> {
    Seq::new(modules.len(), |i: int| modules[i].base)
}

/// The first module at the base address `address`.
pub open spec fn first_with_base(
    modules: Seq<KernelModuleView>,
    address: Address,
) -> Option<KernelModuleView>
    decreases modules.len(),
{
    if modules.len() == 0 {
        None
    } else if modules[0].base == address {
        Some(modules[0])
    } else {
        first_with_base(modules.skip(1), address)
    }
}

/// What is reported of a module.
pub open spec fn module_info(info: OsInfo, module: KernelModuleView) -> ModuleInfoView {
    ModuleInfoView {
        address: module.base,
        parent_process: Address(u64::MAX),
        base: module.base,
        size: module.size,
        name: module.name,
        path: module.path,
        arch: info.arch,
    }
}

/// Decodes the path of a process.
fn read_exe_path(exe_file: &[u16]) -> (path: String)
    ensures
        path@ == exe_path(exe_file@),
        !path@.contains('\0'),
{
    let mut len: usize = 0;
    while len < exe_file.len() && exe_file[len] != 0
        invariant
            len <= exe_file.len(),
            forall|j: int| 0 <= j < len ==> exe_file@[j] != 0,
        decreases exe_file.len() - len,
    {
        len += 1;
    }
    let units = slice_subrange(exe_file, 0, len);
    proof {
        crate::text::lemma_before_first(exe_file@, 0u16, len as int);
        assert(units@ =~= exe_file@.take(len as int));
        crate::text::law_utf16_without_nul(units@);
    }
    decode_utf16_lossy(units)
}

/// The index of the first process with the identifier `pid`.
fn find_process(entries: &[ProcessEntry], pid: Pid) -> (index: Option<usize>)
    ensures
        match index {
            Some(i) => i < entries.len() && first_with_pid(entries@, pid) == Some(
                entries@[i as int],
            ) && entries@[i as int].pid == pid,
            None => first_with_pid(entries@, pid) is None,
        },
{
    let mut i: usize = 0;
    proof {
        assert(entries@.skip(0) =~= entries@);
    }
    while i < entries.len()
        invariant
            i <= entries.len(),
            first_with_pid(entries@, pid) == first_with_pid(entries@.skip(i as int), pid),
        decreases entries.len() - i,
    {
        if entries[i].pid == pid {
            return Some(i);
        }
        proof {
            assert(entries@.skip(i as int).skip(1) =~= entries@.skip(i + 1));
        }
        i += 1;
    }
    None
}

/// The index of the first module at the base address `address`.
fn find_module(modules: &[KernelModule], address: Address) -> (index: Option<usize>)
    ensures
        match index {
            Some(i) => i < modules.len() && first_with_base(
                crate::modules::module_views(modules@),
                address,
            ) == Some(modules@[i as int]@) && modules@[i as int].base == address,
            None => first_with_base(crate::modules::module_views(modules@), address) is None,
        },
{
    let ghost views = crate::modules::module_views(modules@);
    let mut i: usize = 0;
    proof {
        assert(views.skip(0) =~= views);
    }
    while i < modules.len()
        invariant
            i <= modules.len(),
            views == crate::modules::module_views(modules@),
            first_with_base(views, address) == first_with_base(views.skip(i as int), address),
        decreases modules.len() - i,
    {
        proof {
            assert(views.skip(i as int)[0] == modules@[i as int]@);
        }
        if modules[i].base == address {
            return Some(i);
        }
        proof {
            assert(views.skip(i as int).skip(1) =~= views.skip(i + 1));
        }
        i += 1;
    }
    None
}

impl WindowsOs {
    /// Makes the layer. `elevation` is what came of enabling the debug privilege, and counts only
    /// where the arguments ask for that.
    pub fn new(args: &memflow::plugins::OsArgs, elevation: Result<(), OsError>) -> (res: Result<
        WindowsOs,
        OsError,
    >)
        ensures
            match res {
                Ok(os) => os@ == default_info() && (crate::args::elevation_wanted(
                    crate::args::elevate_token(*args),
                ) ==> elevation is Ok),
                Err(error) => elevation == Err::<(), OsError>(error)
                    && crate::args::elevation_wanted(crate::args::elevate_token(*args)),
            },
    {
        if elevation_requested(args) {
            match elevation {
                Ok(_) => {},
                Err(error) => {
                    return Err(error);
                },
            }
        }
        Ok(WindowsOs::default())
    }

    /// The addresses of the processes in a snapshot, if it could be taken.
    pub fn process_address_walk(
        snapshot: Result<Vec<ProcessEntry>, windows::core::Error>,
    ) -> (res: Result<AddressWalk, OsError>)
        ensures
            match snapshot {
                Ok(entries) => res is Ok && res->Ok_0@ == process_addresses(entries@),
                Err(_) => res is Err && res->Err_0 == crate::error::os_error(ErrorKind::Unknown),
            },
    {
        let entries = match snapshot {
            Ok(entries) => entries,
            Err(e) => {
                return Err(conv_err(e));
            },
        };
        let mut addresses: Vec<Address> = Vec::new();
        let mut i: usize = 0;
        while i < entries.len()
            invariant
                i <= entries.len(),
                addresses@.len() == i,
                forall|j: int|
                    0 <= j < i ==> addresses@[j] == process_address(entries@[j].pid),
            decreases entries.len() - i,
        {
            addresses.push(Address(entries[i].pid as u64));
            i += 1;
        }
        proof {
            assert(addresses@ =~= process_addresses(entries@));
        }
        Ok(AddressWalk::new(addresses.as_slice()))
    }

    /// The process that `address` stands for, out of a snapshot if it could be taken.
    pub fn process_info_by_address(
        &self,
        address: Address,
        snapshot: Result<Vec<ProcessEntry>, windows::core::Error>,
    ) -> (res: Result<ProcessInfo, OsError>)
        ensures
            match snapshot {
                Ok(entries) => match first_with_pid(entries@, address_pid(address)) {
                    Some(entry) => res is Ok && res->Ok_0@ == process_info(self@, address, entry),
                    None => res is Err && res->Err_0 == crate::error::os_error(
                        ErrorKind::NotFound,
                    ),
                },
                Err(_) => res is Err && res->Err_0 == crate::error::os_error(ErrorKind::Unknown),
            },
            res matches Ok(info) ==> !info.path@.contains('\0') && !info.name@.contains('\0'),
    {
        let entries = match snapshot {
            Ok(entries) => entries,
            Err(e) => {
                return Err(conv_err(e));
            },
        };
        let value: u64 = address.0;
        proof {
            assert(value as u32 == value % 0x1_0000_0000) by (bit_vector);
        }
        let pid: Pid = value as u32;
        match find_process(entries.as_slice(), pid) {
            Some(i) => {
                let path = read_exe_path(entries[i].exe_file.as_slice());
                let name = after_backslash(path.as_str()).to_owned();
                proof {
                    crate::text::lemma_after_last_without_nul(path@, '\\');
                }
                Ok(
                    ProcessInfo {
                        address,
                        pid,
                        state: ProcessState::Alive,
                        name,
                        path,
                        command_line: String::new(),
                        sys_arch: self.info.arch,
                        proc_arch: self.info.arch,
                        dtb1: Address::invalid(),
                        dtb2: Address::invalid(),
                    },
                )
            },
            None => Err(OsError(ErrorOrigin::OsLayer, ErrorKind::NotFound)),
        }
    }

    /// The base addresses of the kernel modules, if they could be asked for.
    pub fn module_address_walk(modules: Result<Vec<KernelModule>, OsError>) -> (res: Result<
        AddressWalk,
        OsError,
    >)
        ensures
            match modules {
                Ok(list) => res is Ok && res->Ok_0@ == module_addresses(
                    crate::modules::module_views(list@),
                ),
                Err(error) => res is Err && res->Err_0 == error,
            },
    {
        let modules = match modules {
            Ok(modules) => modules,
            Err(error) => {
                return Err(error);
            },
        };
        let mut addresses: Vec<Address> = Vec::new();
        let mut i: usize = 0;
        while i < modules.len()
            invariant
                i <= modules.len(),
                addresses@.len() == i,
                forall|j: int| 0 <= j < i ==> addresses@[j] == modules@[j].base,
            decreases modules.len() - i,
        {
            addresses.push(modules[i].base);
            i += 1;
        }
        proof {
            assert(addresses@ =~= module_addresses(crate::modules::module_views(modules@)));
        }
        Ok(AddressWalk::new(addresses.as_slice()))
    }

    /// The kernel module at the base address `address`, if the modules could be asked for.
    pub fn module_by_address(
        &self,
        address: Address,
        modules: Result<Vec<KernelModule>, OsError>,
    ) -> (res: Result<ModuleInfo, OsError>)
        ensures
            match modules {
                Ok(list) => match first_with_base(crate::modules::module_views(list@), address) {
                    Some(module) => res is Ok && res->Ok_0@ == module_info(self@, module),
                    None => res is Err && res->Err_0 == crate::error::os_error(
                        ErrorKind::NotFound,
                    ),
                },
                Err(error) => res is Err && res->Err_0 == error,
            },
    {
        let modules = match modules {
            Ok(modules) => modules,
            Err(error) => {
                return Err(error);
            },
        };
        match find_module(modules.as_slice(), address) {
            Some(i) => Ok(
                ModuleInfo {
                    address,
                    size: modules[i].size,
                    base: modules[i].base,
                    name: modules[i].name.clone(),
                    arch: self.info.arch,
                    path: modules[i].path.clone(),
                    parent_process: Address::invalid(),
                },
            ),
            None => Err(OsError(ErrorOrigin::OsLayer, ErrorKind::NotFound)),
        }
    }

    /// The name of the kernel's own module.
    pub fn primary_module_name() -> (name: &'static str)
        ensures
            name@ == "ntoskrnl.exe"@,
    {
        "ntoskrnl.exe"
    }

    /// The imports of a module, which are not read.
    pub fn module_import_list(&self) -> (res: Result<(), OsError>)
        ensures
            res == Err::<(), OsError>(crate::error::os_error(ErrorKind::NotImplemented)),
    {
        Err(OsError(ErrorOrigin::OsLayer, ErrorKind::NotImplemented))
    }

    /// The exports of a module, which are not read.
    pub fn module_export_list(&self) -> (res: Result<(), OsError>)
        ensures
            res == Err::<(), OsError>(crate::error::os_error(ErrorKind::NotImplemented)),
    {
        Err(OsError(ErrorOrigin::OsLayer, ErrorKind::NotImplemented))
    }

    /// The sections of a module, which are not read.
    pub fn module_section_list(&self) -> (res: Result<(), OsError>)
        ensures
            res == Err::<(), OsError>(crate::error::os_error(ErrorKind::NotImplemented)),
    {
        Err(OsError(ErrorOrigin::OsLayer, ErrorKind::NotImplemented))
    }

    /// What is known of the system.
    pub fn info(&self) -> (info: &OsInfo)
        ensures
            *info == self@,
    {
        &self.info
    }
}

/// The address of a process leads back to its identifier.
pub proof fn law_process_address_holds_pid(pid: Pid)
    ensures
        address_pid(process_address(pid)) == pid,
{
}

/// A path that was written in UTF-16 and ends at a zero, or fills its field, is read back.
pub proof fn law_exe_path_reads_back(path: Seq<char>, rest: Seq<u16>)
    requires
        !path.contains('\0'),
        rest.len() > 0 ==> rest[0] == 0,
    ensures
        exe_path(crate::text::utf16_units(path) + rest) == path,
{
    let units = crate::text::utf16_units(path);
    let field = units + rest;
    crate::text::lemma_utf16_units_without_zero(path);
    assert forall|j: int| 0 <= j < units.len() implies field[j] != 0u16 by {
        assert(field[j] == units[j]);
    }
    crate::text::lemma_before_first(field, 0u16, units.len() as int);
    assert(field.take(units.len() as int) =~= units);
    crate::text::law_utf16_reads_back(path);
}

/// A process is found exactly if the snapshot holds its identifier, and of several the first one.
pub proof fn law_first_process_is_found(entries: Seq<ProcessEntry>, pid: Pid)
    ensures
        match first_with_pid(entries, pid) {
            Some(entry) => exists|i: int|
                0 <= i < entries.len() && #[trigger] entries[i] == entry && entry.pid == pid
                    && forall|j: int| 0 <= j < i ==> (#[trigger] entries[j]).pid != pid,
            None => forall|j: int|
                0 <= j < entries.len() ==> (#[trigger] entries[j]).pid != pid,
        },
    decreases entries.len(),
{
    if entries.len() > 0 {
        let rest = entries.skip(1);
        law_first_process_is_found(rest, pid);
        if entries[0].pid == pid {
            assert(entries[0] == first_with_pid(entries, pid)->0);
        } else {
            assert forall|j: int| 1 <= j < entries.len() implies #[trigger] entries[j] == rest[j
                - 1] by {}
            if first_with_pid(rest, pid) is Some {
                let entry = first_with_pid(rest, pid)->0;
                let i = choose|i: int|
                    0 <= i < rest.len() && #[trigger] rest[i] == entry && entry.pid == pid
                        && forall|j: int| 0 <= j < i ==> (#[trigger] rest[j]).pid != pid;
                assert(entries[i + 1] == entry);
                assert forall|j: int| 0 <= j < i + 1 implies (#[trigger] entries[j]).pid
                    != pid by {
                    if j > 0 {
                        assert(rest[j - 1].pid != pid);
                    }
                }
            } else {
                assert forall|j: int| 0 <= j < entries.len() implies (#[trigger] entries[j]).pid
                    != pid by {
                    if j > 0 {
                        assert(rest[j - 1].pid != pid);
                    }
                }
            }
        }
    }
}

/// Every address of a walk over the processes of a snapshot is that of a process that is found
/// in this snapshot.
pub proof fn law_walked_processes_are_found(entries: Seq<ProcessEntry>, i: int)
    requires
        0 <= i < entries.len(),
    ensures
        first_with_pid(entries, address_pid(process_addresses(entries)[i])) is Some,
        first_with_pid(entries, address_pid(process_addresses(entries)[i]))->0.pid
            == entries[i].pid,
{
    let pid = address_pid(process_addresses(entries)[i]);
    law_process_address_holds_pid(entries[i].pid);
    law_first_process_is_found(entries, pid);
}

/// A module is found exactly at the addresses of a walk over the same modules, and of several at
/// one address the first one.
pub proof fn law_first_module_is_found(modules: Seq<KernelModuleView>, address: Address)
    ensures
        first_with_base(modules, address) is Some <==> module_addresses(modules).contains(address),
        first_with_base(modules, address) matches Some(module) ==> exists|i: int|
            0 <= i < modules.len() && #[trigger] modules[i] == module && module.base == address
                && forall|j: int| 0 <= j < i ==> (#[trigger] modules[j]).base != address,
    decreases modules.len(),
{
    let addresses = module_addresses(modules);
    if modules.len() > 0 {
        let rest = modules.skip(1);
        law_first_module_is_found(rest, address);
        if modules[0].base == address {
            assert(addresses[0] == address);
            assert(modules[0] == first_with_base(modules, address)->0);
        } else {
            assert(addresses.skip(1) =~= module_addresses(rest));
            if first_with_base(rest, address) is Some {
                let module = first_with_base(rest, address)->0;
                let i = choose|i: int|
                    0 <= i < rest.len() && #[trigger] rest[i] == module && module.base == address
                        && forall|j: int| 0 <= j < i ==> (#[trigger] rest[j]).base != address;
                assert(modules[i + 1] == module);
                assert(addresses[i + 1] == address);
                assert forall|j: int| 0 <= j < i + 1 implies (#[trigger] modules[j]).base
                    != address by {
                    if j > 0 {
                        assert(rest[j - 1].base != address);
                    }
                }
            } else {
                assert forall|j: int| 0 <= j < addresses.len() implies addresses[j] != address by {
                    if j > 0 {
                        assert(module_addresses(rest)[j - 1] == addresses[j]);
                    }
                }
            }
        }
    }
}

} // verus!
