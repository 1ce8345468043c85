use native_windows_os::query::SYSTEM_MODULE_INFORMATION_CLASS;
use native_windows_os::{ErrorKind, ErrorOrigin, KernelModuleQuery, NtStatus, OsError, QueryStep};

const MISMATCH: NtStatus = NtStatus(0xC000_0004);
const SUCCESS: NtStatus = NtStatus(0);
const POINTER: usize = core::mem::size_of::<usize>();

fn failure(step: QueryStep) -> ErrorKind {
    match step {
        QueryStep::Finish(Err(OsError(ErrorOrigin::OsLayer, kind))) => kind,
        other => panic!("{:?}", other),
    }
}

fn write_table(buffer: &mut [u8], name: u8) -> u32 {
    let end = POINTER + 3 * POINTER + 16 + 256;
    buffer[..4].copy_from_slice(&1u32.to_le_bytes());
    buffer[3 * POINTER] = 0x42;
    buffer[4 * POINTER + 16] = name;
    end as u32
}

#[test]
fn starts_with_an_empty_buffer() {
    let mut query = KernelModuleQuery::new();
    assert_eq!(query.request_len(), 262_144);
    assert_eq!(query.buffer_mut().len(), 262_144);
    assert!(query.buffer_mut().iter().all(|b| *b == 0));
    assert_eq!(SYSTEM_MODULE_INFORMATION_CLASS, 11);
}

#[test]
fn reads_the_table_of_a_successful_reply() {
    let mut query = KernelModuleQuery::new();
    let len = write_table(query.buffer_mut(), b'm');
    match query.step(SUCCESS, len) {
        QueryStep::Finish(Ok(modules)) => {
            assert_eq!(modules.len(), 1);
            assert_eq!(modules[0].base.0, 0x42);
            assert_eq!(modules[0].name, "m");
        }
        other => panic!("{:?}", other),
    }
}

#[test]
fn reported_lengths_beyond_the_buffer_are_capped() {
    let mut query = KernelModuleQuery::new();
    write_table(query.buffer_mut(), b'm');
    assert!(matches!(query.step(SUCCESS, u32::MAX), QueryStep::Finish(Ok(_))));
}

#[test]
fn reported_lengths_cut_the_buffer() {
    let mut query = KernelModuleQuery::new();
    let len = write_table(query.buffer_mut(), b'm');
    assert_eq!(failure(query.step(SUCCESS, len - 1)), ErrorKind::ArgValidation);
    let mut query = KernelModuleQuery::new();
    assert_eq!(failure(query.step(SUCCESS, 3)), ErrorKind::Unknown);
}

#[test]
fn short_buffers_are_doubled() {
    let mut query = KernelModuleQuery::new();
    query.buffer_mut()[5] = 9;
    assert_eq!(query.longer_len(0), 524_288);
    assert!(matches!(query.step(MISMATCH, 0), QueryStep::Retry));
    assert_eq!(query.request_len(), 524_288);
    assert_eq!(query.buffer_mut()[5], 9);
    assert_eq!(query.buffer_mut()[300_000], 0);
}

#[test]
fn short_buffers_get_the_reported_length() {
    let mut query = KernelModuleQuery::new();
    assert_eq!(query.longer_len(1_000_000), 1_000_000 + POINTER);
    assert!(matches!(query.step(MISMATCH, 1_000_000), QueryStep::Retry));
    assert_eq!(query.request_len() as usize, 1_000_000 + POINTER);
}

#[test]
fn gives_up_after_the_sixth_request() {
    let mut query = KernelModuleQuery::new();
    for _ in 0..5 {
        assert!(matches!(query.step(MISMATCH, 0), QueryStep::Retry));
    }
    assert_eq!(query.request_len(), 32 * 262_144);
    assert_eq!(failure(query.step(MISMATCH, 0)), ErrorKind::Unknown);
}

#[test]
fn succeeds_with_the_sixth_request() {
    let mut query = KernelModuleQuery::new();
    for _ in 0..5 {
        assert!(matches!(query.step(MISMATCH, 0), QueryStep::Retry));
    }
    let len = write_table(query.buffer_mut(), b'z');
    assert!(matches!(query.step(SUCCESS, len), QueryStep::Finish(Ok(_))));
}

#[test]
fn other_errors_end_the_query() {
    let mut query = KernelModuleQuery::new();
    assert_eq!(failure(query.step(NtStatus(0xC000_0022), 0)), ErrorKind::NotSupported);
    assert_eq!(failure(query.step(NtStatus(0xC000_0008), 0)), ErrorKind::ProcessNotFound);
    assert_eq!(failure(query.step(NtStatus(0xC000_000D), 0)), ErrorKind::ArgValidation);
    assert_eq!(failure(query.step(NtStatus(0x8000_0005), 0)), ErrorKind::Unknown);
}
