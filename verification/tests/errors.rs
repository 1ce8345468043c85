use native_windows_os::error::{
    STATUS_ACCESS_DENIED, STATUS_INFO_LENGTH_MISMATCH, STATUS_INSUFFICIENT_RESOURCES,
    STATUS_INVALID_HANDLE, STATUS_INVALID_INFO_CLASS, STATUS_INVALID_PARAMETER,
    STATUS_NOT_IMPLEMENTED, STATUS_NO_MEMORY, STATUS_PRIVILEGE_NOT_HELD,
};
use native_windows_os::{conv_err, conv_ntstatus, ErrorKind, ErrorOrigin, NtStatus, OsError};
use windows::Win32::Foundation;

fn kind_of(code: u32) -> ErrorKind {
    let OsError(origin, kind) = conv_ntstatus(NtStatus(code));
    assert_eq!(origin, ErrorOrigin::OsLayer);
    kind
}

#[test]
fn win32_errors_are_unknown() {
    let expected = OsError(ErrorOrigin::OsLayer, ErrorKind::Unknown);
    assert_eq!(conv_err(windows::core::Error::from_hresult(windows::core::HRESULT(0))), expected);
    assert_eq!(conv_err(windows::core::Error::from_hresult(windows::core::HRESULT(-1))), expected);
}

#[test]
fn statuses_have_their_kinds() {
    assert_eq!(kind_of(0xC000_0022), ErrorKind::NotSupported);
    assert_eq!(kind_of(0xC000_0061), ErrorKind::NotSupported);
    assert_eq!(kind_of(0xC000_000D), ErrorKind::ArgValidation);
    assert_eq!(kind_of(0xC000_0002), ErrorKind::NotSupported);
    assert_eq!(kind_of(0xC000_0003), ErrorKind::NotSupported);
    assert_eq!(kind_of(0xC000_009A), ErrorKind::Unknown);
    assert_eq!(kind_of(0xC000_0017), ErrorKind::Unknown);
    assert_eq!(kind_of(0xC000_0008), ErrorKind::ProcessNotFound);
    assert_eq!(kind_of(0xC000_0004), ErrorKind::Unknown);
    assert_eq!(kind_of(0), ErrorKind::Unknown);
    assert_eq!(kind_of(0xC000_0001), ErrorKind::Unknown);
}

#[test]
fn status_codes_are_those_of_the_system() {
    let pairs = [
        (STATUS_ACCESS_DENIED, Foundation::STATUS_ACCESS_DENIED),
        (STATUS_INFO_LENGTH_MISMATCH, Foundation::STATUS_INFO_LENGTH_MISMATCH),
        (STATUS_INSUFFICIENT_RESOURCES, Foundation::STATUS_INSUFFICIENT_RESOURCES),
        (STATUS_INVALID_HANDLE, Foundation::STATUS_INVALID_HANDLE),
        (STATUS_INVALID_INFO_CLASS, Foundation::STATUS_INVALID_INFO_CLASS),
        (STATUS_INVALID_PARAMETER, Foundation::STATUS_INVALID_PARAMETER),
        (STATUS_NOT_IMPLEMENTED, Foundation::STATUS_NOT_IMPLEMENTED),
        (STATUS_NO_MEMORY, Foundation::STATUS_NO_MEMORY),
        (STATUS_PRIVILEGE_NOT_HELD, Foundation::STATUS_PRIVILEGE_NOT_HELD),
    ];
    for (code, status) in pairs {
        assert_eq!(code, status.0 as u32);
    }
}

#[test]
fn only_the_highest_bit_makes_an_error() {
    assert!(!NtStatus(0).is_err());
    assert!(!NtStatus(0x103).is_err());
    assert!(!NtStatus(0x7FFF_FFFF).is_err());
    assert!(NtStatus(0x8000_0000).is_err());
    assert!(NtStatus(0xC000_0022).is_err());
    assert!(NtStatus(0xFFFF_FFFF).is_err());
}
