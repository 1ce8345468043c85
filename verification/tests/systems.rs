use native_windows_os::args::{elevation_requested, wants_elevation};
use native_windows_os::privilege::{
    enable_debug_privilege, next_action, Luid, PrivilegeAction, PrivilegeEvent, Token,
    TokenPrivileges, SE_PRIVILEGE_ENABLED, TOKEN_ADJUST_PRIVILEGES,
};
use native_windows_os::{
    Address, AddressWalk, ArchitectureIdent, ErrorKind, ErrorOrigin, KernelModule, OsError,
    ProcessEntry, ProcessState, WindowsOs,
};
use memflow::plugins::{Args, OsArgs};

const UNKNOWN: OsError = OsError(ErrorOrigin::OsLayer, ErrorKind::Unknown);
const NOT_FOUND: OsError = OsError(ErrorOrigin::OsLayer, ErrorKind::NotFound);

fn win32_error() -> windows::core::Error {
    windows::core::Error::from_hresult(windows::core::HRESULT(-5))
}

fn process(pid: u32, path: &str) -> ProcessEntry {
    let mut exe_file = [0u16; 260];
    for (unit, value) in exe_file.iter_mut().zip(path.encode_utf16()) {
        *unit = value;
    }
    ProcessEntry { pid, exe_file }
}

fn module(base: u64, name: &str) -> KernelModule {
    KernelModule {
        base: Address(base),
        size: base / 2,
        path: format!("\\x\\{}", name),
        name: name.to_string(),
    }
}

fn collect(mut walk: AddressWalk, refuse: u64) -> Vec<u64> {
    let mut got = Vec::new();
    while let Some(address) = walk.next_address() {
        got.push(address.0);
        walk.reply(address.0 != refuse);
    }
    got
}

fn os_args(value: Option<&str>) -> OsArgs {
    let args = Args::new().insert("other", "off");
    OsArgs::new(
        None,
        match value {
            Some(value) => args.insert("elevate_token", value),
            None => args,
        },
    )
}

#[test]
fn default_system_is_x86_64() {
    let os = WindowsOs::default();
    let info = os.clone();
    let info = info.info();
    assert_eq!(info.base, Address(0));
    assert_eq!(info.size, 0);
    assert_eq!(info.arch, ArchitectureIdent::X86(64, false));
    assert_eq!(Address::null().0, memflow::types::Address::NULL.to_umem());
    assert_eq!(Address::invalid().0, memflow::types::Address::INVALID.to_umem());
}

#[test]
fn elevation_is_declined_by_six_values() {
    for value in ["off", "OFF", "Off", "n", "N", "0"] {
        assert!(!wants_elevation(Some(value)));
        assert!(!elevation_requested(&os_args(Some(value))));
    }
    for value in ["on", "oFF", "no", "", "1", "00", "false", "off "] {
        assert!(wants_elevation(Some(value)));
        assert!(elevation_requested(&os_args(Some(value))));
    }
    assert!(wants_elevation(None));
    assert!(elevation_requested(&os_args(None)));
}

#[test]
fn parsed_arguments_decide_on_elevation() {
    let args: OsArgs = ":elevate_token=off".parse().unwrap();
    assert!(!elevation_requested(&args));
    let args: OsArgs = ":elevate_token=yes".parse().unwrap();
    assert!(elevation_requested(&args));
    let args: OsArgs = "".parse().unwrap();
    assert!(elevation_requested(&args));
}

#[test]
fn failed_elevation_counts_only_where_it_is_wanted() {
    assert!(WindowsOs::new(&os_args(None), Ok(())).is_ok());
    assert_eq!(WindowsOs::new(&os_args(None), Err(UNKNOWN)).err(), Some(UNKNOWN));
    assert!(WindowsOs::new(&os_args(Some("0")), Err(UNKNOWN)).is_ok());
    assert!(WindowsOs::new(&os_args(Some("0")), Ok(())).is_ok());
}

#[test]
fn privilege_takes_three_actions() {
    assert!(matches!(
        enable_debug_privilege(),
        PrivilegeAction::OpenCurrentProcessToken(0x20)
    ));
    let token = match next_action(PrivilegeEvent::TokenOpened(Ok(Token(77)))) {
        PrivilegeAction::LookupPrivilege { token, system, name } => {
            assert_eq!(token, Token(77));
            assert_eq!(system, None);
            assert_eq!(name, "SeDebugPrivilege\0");
            token
        }
        other => panic!("{:?}", other),
    };
    let luid = Luid { low: 20, high: -1 };
    match next_action(PrivilegeEvent::PrivilegeFound { token, found: Ok(luid) }) {
        PrivilegeAction::AdjustPrivileges(adjustment) => {
            assert_eq!(adjustment.token, Token(77));
            assert!(!adjustment.disable_all);
            assert!(!adjustment.wants_previous_state);
            assert_eq!(
                adjustment.new_state,
                TokenPrivileges { privilege_count: 1, luid, attributes: 2 }
            );
        }
        other => panic!("{:?}", other),
    }
    assert!(matches!(
        next_action(PrivilegeEvent::PrivilegesAdjusted(Ok(()))),
        PrivilegeAction::Finish(Ok(()))
    ));
    assert_eq!(TOKEN_ADJUST_PRIVILEGES, windows::Win32::Security::TOKEN_ADJUST_PRIVILEGES.0);
    assert_eq!(SE_PRIVILEGE_ENABLED, windows::Win32::Security::SE_PRIVILEGE_ENABLED.0);
}

#[test]
fn privilege_fails_with_any_action() {
    let events = vec![
        PrivilegeEvent::TokenOpened(Err(win32_error())),
        PrivilegeEvent::PrivilegeFound { token: Token(1), found: Err(win32_error()) },
        PrivilegeEvent::PrivilegesAdjusted(Err(win32_error())),
    ];
    for event in events {
        match next_action(event) {
            PrivilegeAction::Finish(result) => assert_eq!(result, Err(UNKNOWN)),
            other => panic!("{:?}", other),
        }
    }
}

#[test]
fn walks_stop_at_a_refusal() {
    let addresses = [Address(3), Address(1), Address(2), Address(1)];
    assert_eq!(collect(AddressWalk::new(&addresses), 99), vec![3, 1, 2, 1]);
    assert_eq!(collect(AddressWalk::new(&addresses), 1), vec![3, 1]);
    assert_eq!(collect(AddressWalk::new(&addresses), 3), vec![3]);
    assert_eq!(collect(AddressWalk::new(&[]), 3), Vec::<u64>::new());
}

#[test]
fn processes_are_walked_in_order() {
    let snapshot = vec![process(4, "System"), process(0xFFFF_FFFF, "a"), process(4, "b")];
    let walk = WindowsOs::process_address_walk(Ok(snapshot)).ok().unwrap();
    assert_eq!(collect(walk, 0), vec![4, 0xFFFF_FFFF, 4]);
    let walk = WindowsOs::process_address_walk(Ok(vec![])).ok().unwrap();
    assert_eq!(collect(walk, 0), Vec::<u64>::new());
    assert_eq!(WindowsOs::process_address_walk(Err(win32_error())).err(), Some(UNKNOWN));
}

#[test]
fn first_process_with_the_identifier_is_found() {
    let os = WindowsOs::default();
    let snapshot =
        || vec![process(4, "System"), process(8, "C:\\x/y\\z/cmd.exe"), process(8, "later")];
    let info = os.process_info_by_address(Address(8), Ok(snapshot())).unwrap();
    assert_eq!(info.address, Address(8));
    assert_eq!(info.pid, 8);
    assert_eq!(info.state, ProcessState::Alive);
    assert_eq!(info.path, "C:\\x/y\\z/cmd.exe");
    assert_eq!(info.name, "z/cmd.exe");
    assert_eq!(info.command_line, "");
    assert_eq!(info.sys_arch, ArchitectureIdent::X86(64, false));
    assert_eq!(info.proc_arch, ArchitectureIdent::X86(64, false));
    assert_eq!(info.dtb1, Address(u64::MAX));
    assert_eq!(info.dtb2, Address(u64::MAX));
    let missing = os.process_info_by_address(Address(5), Ok(snapshot()));
    assert_eq!(missing.err(), Some(NOT_FOUND));
    let refused = os.process_info_by_address(Address(4), Err(win32_error()));
    assert_eq!(refused.err(), Some(UNKNOWN));
}

#[test]
fn upper_half_of_a_process_address_is_ignored() {
    let os = WindowsOs::default();
    let address = Address(0xABCD_0000_0004);
    let info = os.process_info_by_address(address, Ok(vec![process(4, "System")])).unwrap();
    assert_eq!(info.address, Address(0xABCD_0000_0004));
    assert_eq!(info.pid, 4);
    assert_eq!(info.name, "System");
}

#[test]
fn process_paths_end_at_a_zero_or_fill_their_field() {
    let os = WindowsOs::default();
    let mut entry = process(1, "a\\b");
    entry.exe_file[10] = 0x41;
    let info = os.process_info_by_address(Address(1), Ok(vec![entry])).unwrap();
    assert_eq!(info.path, "a\\b");
    assert_eq!(info.name, "b");
    let entry = process(1, &"y".repeat(300));
    let info = os.process_info_by_address(Address(1), Ok(vec![entry])).unwrap();
    assert_eq!(info.path, "y".repeat(260));
}

#[test]
fn walked_processes_are_found() {
    let os = WindowsOs::default();
    let snapshot = || vec![process(4, "a"), process(4_000_000_000, "b"), process(0, "c")];
    let walk = WindowsOs::process_address_walk(Ok(snapshot())).ok().unwrap();
    for address in collect(walk, 1) {
        let info = os.process_info_by_address(Address(address), Ok(snapshot())).unwrap();
        assert_eq!(info.pid as u64, address);
    }
}

#[test]
fn modules_are_walked_in_order() {
    let modules = vec![module(30, "c"), module(10, "a"), module(30, "d")];
    let walk = WindowsOs::module_address_walk(Ok(modules)).ok().unwrap();
    assert_eq!(collect(walk, 0), vec![30, 10, 30]);
    assert_eq!(WindowsOs::module_address_walk(Err(NOT_FOUND)).err(), Some(NOT_FOUND));
}

#[test]
fn first_module_at_the_base_is_found() {
    let os = WindowsOs::default();
    let modules = || vec![module(30, "c"), module(10, "a"), module(30, "d")];
    let info = os.module_by_address(Address(30), Ok(modules())).unwrap();
    assert_eq!(info.address, Address(30));
    assert_eq!(info.base, Address(30));
    assert_eq!(info.size, 15);
    assert_eq!(info.name, "c");
    assert_eq!(info.path, "\\x\\c");
    assert_eq!(info.arch, ArchitectureIdent::X86(64, false));
    assert_eq!(info.parent_process, Address(u64::MAX));
    assert_eq!(os.module_by_address(Address(11), Ok(modules())).err(), Some(NOT_FOUND));
    assert_eq!(os.module_by_address(Address(10), Err(UNKNOWN)).err(), Some(UNKNOWN));
}

#[test]
fn module_contents_are_not_listed() {
    let os = WindowsOs::default();
    let expected = Err(OsError(ErrorOrigin::OsLayer, ErrorKind::NotImplemented));
    assert_eq!(os.module_import_list(), expected);
    assert_eq!(os.module_export_list(), expected);
    assert_eq!(os.module_section_list(), expected);
    assert_eq!(WindowsOs::primary_module_name(), "ntoskrnl.exe");
}
