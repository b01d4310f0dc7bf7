use resolver_hook::error::Error;

#[test]
fn module_handle_message() {
    let e = Error::GetModuleHandle { name: b"server.dll".to_vec() };
    assert_eq!(e.message(), "Failed to get module handle for '\"server.dll\"'");
    assert_eq!(e.patch_address(), None);
}

#[test]
fn module_info_message() {
    let e = Error::GetModuleInfo { name: b"tier0.dll".to_vec() };
    assert_eq!(e.message(), "Failed to get module info for '\"tier0.dll\"'");
}

#[test]
fn proc_address_message_escapes() {
    let e = Error::GetProcAddress { name: b"a\t\"b'\\\n\r\x01\xff".to_vec() };
    assert_eq!(
        e.message(),
        "Failed to get proc address '\"a\\t\\\"b\\'\\\\\\n\\r\\x01\\xff\"'"
    );
}

#[test]
fn patch_message_hex() {
    let e = Error::Patch { module_name: b"server.dll".to_vec(), module_base: 0x1000_0000, offset: 0x43346C };
    assert_eq!(e.message(), "Failed to apply patch at \"server.dll\" + 0x43346C = 0x1043346C");
    assert_eq!(e.patch_address(), Some(0x1043_346C));
    let z = Error::Patch { module_name: Vec::new(), module_base: 0, offset: 0 };
    assert_eq!(z.message(), "Failed to apply patch at \"\" + 0x0 = 0x0");
    let f = Error::Patch { module_name: b"m".to_vec(), module_base: 0xABC, offset: 0xDEF };
    assert_eq!(f.message(), format!("Failed to apply patch at \"m\" + 0x{:X} = 0x{:X}", 0xDEF, 0xABC + 0xDEF));
}

#[test]
fn patch_address_overflow() {
    let e = Error::Patch { module_name: Vec::new(), module_base: usize::MAX, offset: 1 };
    assert_eq!(e.patch_address(), None);
}

#[test]
fn names_escape_like_escape_ascii() {
    for b in 0u8..=255 {
        let name = vec![b'x', b, b'y'];
        let expected = format!("Failed to get proc address '\"{}\"'", name.escape_ascii());
        let e = Error::GetProcAddress { name };
        assert_eq!(e.message(), expected);
    }
}

#[test]
fn hex_matches_format() {
    for n in [0usize, 1, 9, 10, 15, 16, 255, 256, 0xABCDEF, 0x7FFF_FFFF, usize::MAX / 2] {
        let e = Error::Patch { module_name: b"a".to_vec(), module_base: 0, offset: n };
        assert_eq!(e.message(), format!("Failed to apply patch at \"a\" + 0x{:X} = 0x{:X}", n, n));
    }
}
