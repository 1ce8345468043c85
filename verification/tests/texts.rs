use native_windows_os::text::{after_backslash, decode_utf16_lossy, split_basename};

#[test]
fn basename_follows_the_last_backslash() {
    assert_eq!(split_basename("\\SystemRoot\\system32\\ntoskrnl.exe"), "ntoskrnl.exe");
    assert_eq!(split_basename("C:\\a\\b.sys"), "b.sys");
    assert_eq!(split_basename("a\\"), "");
    assert_eq!(split_basename("\\"), "");
}

#[test]
fn basename_prefers_backslashes_to_slashes() {
    assert_eq!(split_basename("a/b\\c/d"), "c/d");
    assert_eq!(split_basename("a\\b/c"), "b/c");
    assert_eq!(split_basename("a/b/c.sys"), "c.sys");
    assert_eq!(split_basename("a/"), "");
}

#[test]
fn basename_of_a_plain_name_is_the_name() {
    assert_eq!(split_basename("ntoskrnl.exe"), "ntoskrnl.exe");
    assert_eq!(split_basename(""), "");
}

#[test]
fn basename_counts_characters_not_bytes() {
    assert_eq!(split_basename("\\Tr\u{e4}ger\\G\u{1F600}r\u{e4}t.sys"), "G\u{1F600}r\u{e4}t.sys");
}

#[test]
fn basename_of_a_join_is_the_joined_name() {
    for directory in ["", "\\", "a/b", "C:\\x"] {
        for name in ["", "n", "a/b", "x.y"] {
            let path = format!("{}\\{}", directory, name);
            assert_eq!(split_basename(&path), name);
            assert_eq!(after_backslash(&path), name);
        }
    }
}

#[test]
fn slashes_do_not_end_a_directory_of_a_process() {
    assert_eq!(after_backslash("a/b"), "a/b");
    assert_eq!(after_backslash("a\\b/c"), "b/c");
    assert_eq!(after_backslash("cmd.exe"), "cmd.exe");
}

#[test]
fn utf16_pairs_and_lone_surrogates() {
    let units = [0xD834, 0xDD1E, 0x006d, 0x0075, 0x0073, 0xDD1E, 0x0069, 0x0063, 0xD834];
    assert_eq!(decode_utf16_lossy(&units), "\u{1D11E}mus\u{FFFD}ic\u{FFFD}");
    assert_eq!(decode_utf16_lossy(&[]), "");
    assert_eq!(decode_utf16_lossy(&[0xD800, 0xD800, 0xDC00]), "\u{FFFD}\u{10000}");
    assert_eq!(decode_utf16_lossy(&[0xDBFF, 0xDFFF]), "\u{10FFFF}");
    assert_eq!(decode_utf16_lossy(&[0xD7FF, 0xE000, 0xFFFF]), "\u{D7FF}\u{E000}\u{FFFF}");
    assert_eq!(decode_utf16_lossy(&[0xD800, 0x41]), "\u{FFFD}A");
}

#[test]
fn utf16_agrees_with_the_standard_decoder() {
    let samples: [u16; 12] = [
        0, 0x41, 0xD7FF, 0xD800, 0xD801, 0xDBFF, 0xDC00, 0xDC01, 0xDFFF, 0xE000, 0xFFFD, 0xFFFF,
    ];
    for a in samples {
        for b in samples {
            for c in samples {
                let units = [a, b, c];
                assert_eq!(decode_utf16_lossy(&units), String::from_utf16_lossy(&units));
            }
        }
    }
}

#[test]
fn utf16_reads_back_what_was_encoded() {
    let text = "C:\\Gr\u{fc}\u{df}e\\\u{1F600}.exe";
    let units: Vec<u16> = text.encode_utf16().collect();
    assert_eq!(decode_utf16_lossy(&units), text);
}
