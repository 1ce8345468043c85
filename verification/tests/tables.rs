use native_windows_os::modules::{choose_name, parse_module_path, parse_module_table};
use native_windows_os::table::RtlProcessModuleInformation;
use native_windows_os::{Address, ErrorKind, ErrorOrigin, OsError};

const POINTER: usize = core::mem::size_of::<usize>();

fn entry(base: usize, size: u32, offset: u16, path: &[u8]) -> Vec<u8> {
    let mut bytes = Vec::new();
    bytes.extend_from_slice(&7usize.to_le_bytes());
    bytes.extend_from_slice(&8usize.to_le_bytes());
    bytes.extend_from_slice(&base.to_le_bytes());
    bytes.extend_from_slice(&size.to_le_bytes());
    bytes.extend_from_slice(&0xAABB_CCDDu32.to_le_bytes());
    for short in [1u16, 2, 3, offset] {
        bytes.extend_from_slice(&short.to_le_bytes());
    }
    let mut field = [0u8; 256];
    field[..path.len()].copy_from_slice(path);
    bytes.extend_from_slice(&field);
    bytes
}

fn table(entries: &[Vec<u8>]) -> Vec<u8> {
    let mut bytes = vec![0xEEu8; POINTER];
    bytes[..4].copy_from_slice(&(entries.len() as u32).to_le_bytes());
    for e in entries {
        bytes.extend_from_slice(e);
    }
    bytes
}

fn info(offset: u16, path: &[u8]) -> RtlProcessModuleInformation {
    let mut field = [0u8; 256];
    field[..path.len()].copy_from_slice(path);
    RtlProcessModuleInformation {
        section: 0,
        mapped_base: 0,
        image_base: 0,
        image_size: 0,
        flags: 0,
        load_order_index: 0,
        init_order_index: 0,
        load_count: 0,
        offset_to_file_name: offset,
        full_path_name: field,
    }
}

fn parsed(offset: u16, path: &[u8]) -> (String, String) {
    parse_module_path(&info(offset, path))
}

fn pair(path: &str, name: &str) -> (String, String) {
    (path.to_string(), name.to_string())
}

fn fault(data: &[u8]) -> ErrorKind {
    let OsError(origin, kind) = parse_module_table(data).unwrap_err();
    assert_eq!(origin, ErrorOrigin::OsLayer);
    kind
}

#[test]
fn an_entry_has_296_bytes_with_eight_byte_pointers() {
    let size = if POINTER == 8 { 296 } else { 284 };
    let one = table(&[entry(0, 0, 0, b"")]);
    assert_eq!(one.len(), POINTER + size);
    assert!(parse_module_table(&one).is_ok());
    assert_eq!(fault(&one[..POINTER + size - 1]), ErrorKind::ArgValidation);
}

#[test]
fn name_starts_at_the_offset() {
    let path = b"\\SystemRoot\\system32\\ntoskrnl.exe";
    let text = "\\SystemRoot\\system32\\ntoskrnl.exe";
    assert_eq!(parsed(21, path), pair(text, "ntoskrnl.exe"));
    assert_eq!(parsed(0, path), pair(text, text));
    assert_eq!(parsed(32, path), pair(text, "e"));
}

#[test]
fn name_is_the_basename_without_an_offset_inside_the_path() {
    assert_eq!(parsed(7, b"\\a\\b.sys"), pair("\\a\\b.sys", "s"));
    assert_eq!(parsed(8, b"\\a\\b.sys"), pair("\\a\\b.sys", "b.sys"));
    assert_eq!(parsed(0xFFFF, b"\\a\\b.sys"), pair("\\a\\b.sys", "b.sys"));
    assert_eq!(parsed(100, b"a/b/c"), pair("a/b/c", "c"));
    assert_eq!(parsed(0, b""), pair("", ""));
}

#[test]
fn path_ends_at_the_first_zero() {
    assert_eq!(parsed(2, b"ab\0cd\\e"), pair("ab", "ab"));
    assert_eq!(parsed(1, b"ab\0cd\\e"), pair("ab", "b"));
}

#[test]
fn path_may_fill_its_field() {
    let path = [b'x'; 256];
    let (text, name) = parsed(255, &path);
    assert_eq!(text, "x".repeat(256));
    assert_eq!(name, "x");
    let (_, name) = parsed(256, &path);
    assert_eq!(name, "x".repeat(256));
}

#[test]
fn invalid_utf8_is_replaced() {
    assert_eq!(parsed(4, b"a\xFF\\b\xFFc"), pair("a\u{FFFD}\\b\u{FFFD}c", "\u{FFFD}c"));
    assert_eq!(parsed(9, b"a\xFF\\b\xFFc"), pair("a\u{FFFD}\\b\u{FFFD}c", "b\u{FFFD}c"));
    assert_eq!(parsed(1, "\u{e4}".as_bytes()), pair("\u{e4}", "\u{FFFD}"));
}

#[test]
fn utf8_paths_are_read_back() {
    let directory = "\\Tr\u{e4}ger\\";
    let name = "G\u{1F600}.sys";
    let path = format!("{}{}", directory, name);
    assert_eq!(parsed(directory.len() as u16, path.as_bytes()), pair(&path, name));
}

#[test]
fn utf8_paths_are_read_back_whatever_the_offset() {
    let path = "\\Tr\u{e4}ger\\G\u{1F600}.sys";
    let end = path.len() as u16;
    assert_eq!(parsed(end, path.as_bytes()), pair(path, "G\u{1F600}.sys"));
    assert_eq!(parsed(4, path.as_bytes()), pair(path, "\u{FFFD}ger\\G\u{1F600}.sys"));
    assert_eq!(parsed(3, path.as_bytes()), pair(path, "\u{e4}ger\\G\u{1F600}.sys"));
}

#[test]
fn an_offset_inside_the_path_always_gives_a_name() {
    for last in 1..=255u8 {
        let path = [b'a', b'\\', last];
        for offset in 0..3 {
            let (_, name) = parsed(offset, &path);
            assert_eq!(name, String::from_utf8_lossy(&path[offset as usize..]));
            assert!(!name.is_empty());
        }
    }
}

#[test]
fn empty_file_name_gives_way_to_the_basename() {
    assert_eq!(choose_name("a\\b", Some(String::new())), "b");
    assert_eq!(choose_name("a\\b", Some("c".to_string())), "c");
    assert_eq!(choose_name("a/b", None), "b");
}

#[test]
fn tables_are_read_back() {
    let data = table(&[
        entry(0x1234_5678, 0x9000, 3, b"\\a\\first.sys"),
        entry(usize::MAX, u32::MAX, 0xFFFF, b"\\b\\second.sys"),
        entry(0, 0, 0, b""),
    ]);
    let modules = parse_module_table(&data).unwrap();
    assert_eq!(modules.len(), 3);
    assert_eq!(modules[0].base, Address(0x1234_5678));
    assert_eq!(modules[0].size, 0x9000);
    assert_eq!(modules[0].path, "\\a\\first.sys");
    assert_eq!(modules[0].name, "first.sys");
    assert_eq!(modules[1].base, Address(usize::MAX as u64));
    assert_eq!(modules[1].size, 0xFFFF_FFFF);
    assert_eq!(modules[1].path, "\\b\\second.sys");
    assert_eq!(modules[1].name, "second.sys");
    assert_eq!(modules[2].base, Address(0));
    assert_eq!(modules[2].path, "");
    assert_eq!(modules[2].name, "");
}

#[test]
fn empty_table_has_no_modules() {
    assert_eq!(parse_module_table(&table(&[])).unwrap().len(), 0);
}

#[test]
fn what_follows_a_table_is_ignored() {
    let mut data = table(&[entry(0x1000, 1, 0, b"x")]);
    data.extend_from_slice(&[0xFF; 100]);
    let modules = parse_module_table(&data).unwrap();
    assert_eq!(modules.len(), 1);
    assert_eq!(modules[0].name, "x");
}

#[test]
fn cut_tables_are_refused() {
    let data = table(&[entry(0x1000, 1, 0, b"x"), entry(0x2000, 1, 0, b"y")]);
    for len in 0..data.len() {
        let expected = if len < POINTER { ErrorKind::Unknown } else { ErrorKind::ArgValidation };
        assert_eq!(fault(&data[..len]), expected);
    }
    assert!(parse_module_table(&data).is_ok());
}

#[test]
fn huge_counts_are_refused() {
    let mut data = table(&[entry(0x1000, 1, 0, b"x")]);
    data[..4].copy_from_slice(&[0xFF; 4]);
    let expected = if POINTER == 8 { ErrorKind::ArgValidation } else { ErrorKind::Unknown };
    assert_eq!(fault(&data), expected);
}
