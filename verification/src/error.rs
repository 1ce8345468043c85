//! Errors of the operating system layer, and the status codes they come from.

use vstd::prelude::*;

verus! {

/// The layer that an error comes from.
#[derive(Clone, Copy, Debug, PartialEq, Eq, Structural)]
pub enum ErrorOrigin {
    OsLayer,
}

/// What went wrong.
#[derive(Clone, Copy, Debug, PartialEq, Eq, Structural)]
pub enum ErrorKind {
    ArgValidation,
    NotFound,
    NotImplemented,
    NotSupported,
    ProcessNotFound,
    Unknown,
}

#[derive(Clone, Copy, Debug, PartialEq, Eq, Structural)]
pub struct OsError(pub ErrorOrigin, pub ErrorKind);

/// Every error of this layer has the same origin.
pub open spec fn os_error(kind: ErrorKind) -> OsError {
    OsError(ErrorOrigin::OsLayer, kind)
}

/// `windows::core::Error`, the error of a failed Win32 call. Nothing is known of its contents.
#[verifier::external_type_specification]
#[verifier::external_body]
pub struct ExWindowsError(windows::core::Error);

/// The error of a failed Win32 call, whatever the reason of the failure was.
pub fn conv_err(_err: windows::core::Error) -> (error: OsError)
    ensures
        error == os_error(ErrorKind::Unknown),
{
    OsError(ErrorOrigin::OsLayer, ErrorKind::Unknown)
}

/// A status code of the NT kernel. The highest bit is set in warnings and errors.
#[derive(Clone, Copy, Debug, PartialEq, Eq, Structural)]
pub struct NtStatus(pub u32);

pub const STATUS_NOT_IMPLEMENTED: u32 = 0xC000_0002;

pub const STATUS_INVALID_INFO_CLASS: u32 = 0xC000_0003;

pub const STATUS_INFO_LENGTH_MISMATCH: u32 = 0xC000_0004;

pub const STATUS_INVALID_HANDLE: u32 = 0xC000_0008;

pub const STATUS_INVALID_PARAMETER: u32 = 0xC000_000D;

pub const STATUS_NO_MEMORY: u32 = 0xC000_0017;

pub const STATUS_ACCESS_DENIED: u32 = 0xC000_0022;

pub const STATUS_PRIVILEGE_NOT_HELD: u32 = 0xC000_0061;

pub const STATUS_INSUFFICIENT_RESOURCES: u32 = 0xC000_009A;

/// `windows::Win32::Foundation::NTSTATUS::is_err`: a status is an error if it is negative when
/// its bits are read as an `i32`, that is, if its highest bit is set.
#[verifier::external_body]
fn nt_status_is_err(code: u32) -> (failed: bool)
    ensures
        failed == (code >= 0x8000_0000),
{
    windows::Win32::Foundation::NTSTATUS(code as i32).is_err()
}

impl NtStatus {
    /// Whether the call that returned this status failed.
    pub open spec fn failed(self) -> bool {
        self.0 >= 0x8000_0000
    }

    pub fn is_err(self) -> (failed: bool)
        ensures
            failed == self.failed(),
    {
        nt_status_is_err(self.0)
    }
}

/// The kind of error that a status stands for.
pub open spec fn status_kind(status: NtStatus) -> ErrorKind {
    if status.0 == STATUS_ACCESS_DENIED || status.0 == STATUS_PRIVILEGE_NOT_HELD || status.0
        == STATUS_NOT_IMPLEMENTED || status.0 == STATUS_INVALID_INFO_CLASS {
        ErrorKind::NotSupported
    } else if status.0 == STATUS_INVALID_PARAMETER {
        ErrorKind::ArgValidation
    } else if status.0 == STATUS_INVALID_HANDLE {
        ErrorKind::ProcessNotFound
    } else {
        ErrorKind::Unknown
    }
}

/// The error of a call that returned `status`.
pub fn conv_ntstatus(status: NtStatus) -> (error: OsError)
    ensures
        error == os_error(status_kind(status)),
{
    let kind = match status.0 {
        STATUS_ACCESS_DENIED | STATUS_PRIVILEGE_NOT_HELD => ErrorKind::NotSupported,
        STATUS_INVALID_PARAMETER => ErrorKind::ArgValidation,
        STATUS_NOT_IMPLEMENTED | STATUS_INVALID_INFO_CLASS => ErrorKind::NotSupported,
        STATUS_INSUFFICIENT_RESOURCES | STATUS_NO_MEMORY => ErrorKind::Unknown,
        STATUS_INVALID_HANDLE => ErrorKind::ProcessNotFound,
        _ => ErrorKind::Unknown,
    };
    OsError(ErrorOrigin::OsLayer, kind)
}

} // verus!
