use interception::installer::{upper_filters_with, upper_filters_without, DriverType};
use interception::registry::{
    from_bytes, multi_string_value_bytes, parse_multi_string, to_u16_units, win32_result, Value,
    ERROR_INVALID_DATA, ERROR_MAPPED_ALIGNMENT, ERROR_UNSUPPORTED_TYPE, REG_DWORD, REG_MULTI_SZ,
    REG_QWORD, REG_SZ,
};
use interception::sysinfo::{Architecture, Error as SysError, NTVersion, SystemInfo};
use interception::wcstr::{encode_utf16, encode_wide_nul, utf16_len, next_char, next_code_point, WCStr};

#[test]
fn test_windows_min_align() {
    // Verify that buffers of every even size split into whole wide units.
    for size in (2..=64).step_by(2) {
        let value = vec![0u8; size];
        match to_u16_units(&value) {
            Ok(units) => assert_eq!(units.len(), size / 2),
            Err(_) => {
                panic!("Value of size {} is not aligned", size);
            }
        }
    }
}

#[test]
fn test_multi_string_parsing() {
    let wide = [
        0x48, 0x65, 0x6C, 0x6C, 0x6F, 0, 0x57, 0x6F, 0x72, 0x6C, 0x64, 0, 0,
    ];
    let result = parse_multi_string(&wide).unwrap();
    assert_eq!(result.len(), 2);
    assert_eq!(result[0].char_len(), 5);
    assert_eq!(result[1].char_len(), 5);
    assert_eq!(result[0].as_slice(), &wide[..5]);
    assert_eq!(result[1].as_slice(), &wide[6..11]);
}

#[test]
fn multi_string_parsing_rejects_an_unterminated_buffer() {
    let unterminated = [0x41u16, 0x42];
    let err = parse_multi_string(&unterminated).unwrap_err();
    assert_eq!(err.code(), ERROR_INVALID_DATA);
    let empty: [u16; 0] = [];
    assert_eq!(parse_multi_string(&empty).unwrap_err().code(), ERROR_INVALID_DATA);
}

#[test]
fn multi_string_parsing_stops_at_an_empty_run() {
    let wide = [0x41u16, 0, 0, 0x42, 0, 0];
    let result = parse_multi_string(&wide).unwrap();
    assert_eq!(result.len(), 1);
    assert_eq!(result[0].as_slice(), &[0x41]);
}

#[test]
fn registry_values_parse_by_type_tag() {
    match from_bytes(REG_DWORD, &[0x78, 0x56, 0x34, 0x12]).unwrap() {
        Value::U32(x) => assert_eq!(x, 0x12345678),
        other => panic!("expected a 32-bit word, got {other:?}"),
    }
    assert_eq!(
        from_bytes(REG_DWORD, &[1, 2, 3]).unwrap_err().code(),
        ERROR_INVALID_DATA
    );

    match from_bytes(REG_QWORD, &[8, 7, 6, 5, 4, 3, 2, 1]).unwrap() {
        Value::U64(x) => assert_eq!(x, 0x0102030405060708),
        other => panic!("expected a 64-bit word, got {other:?}"),
    }

    // "ab" as a NUL-terminated wide string.
    match from_bytes(REG_SZ, &[0x61, 0, 0x62, 0, 0, 0]).unwrap() {
        Value::Sz(w) => {
            assert_eq!(w.char_len(), 2);
            assert_eq!(w.as_slice(), &[0x61, 0x62]);
        }
        other => panic!("expected a wide string, got {other:?}"),
    }
    assert_eq!(
        from_bytes(REG_SZ, &[0x61, 0, 0]).unwrap_err().code(),
        ERROR_MAPPED_ALIGNMENT
    );
    assert_eq!(
        from_bytes(REG_SZ, &[0x61, 0]).unwrap_err().code(),
        ERROR_INVALID_DATA
    );

    match from_bytes(REG_MULTI_SZ, &[0x41, 0, 0, 0, 0x42, 0, 0, 0, 0, 0]).unwrap() {
        Value::MultiSz(vs) => {
            assert_eq!(vs.len(), 2);
            assert_eq!(vs[0].as_slice(), &[0x41]);
            assert_eq!(vs[1].as_slice(), &[0x42]);
        }
        other => panic!("expected a multi-string, got {other:?}"),
    }

    assert_eq!(
        from_bytes(99, &[0, 0]).unwrap_err().code(),
        ERROR_UNSUPPORTED_TYPE
    );
}

#[test]
fn win32_status_classifies_success_and_failure() {
    assert!(win32_result(0).is_ok());
    assert_eq!(win32_result(5).unwrap_err().code(), 5);
}

#[test]
fn multi_strings_encode_with_doubled_and_final_nuls() {
    let a = WCStr::try_from_slice(&[0x41, 0]).unwrap();
    let b = WCStr::try_from_slice(&[0x42, 0x43, 0]).unwrap();
    let bytes = multi_string_value_bytes(&vec![a, b]);
    assert_eq!(
        bytes,
        vec![
            0x41, 0, 0, 0, 0, 0, // "A" with its NUL, plus one extra NUL unit
            0x42, 0, 0x43, 0, 0, 0, 0, 0, // "BC" with its NUL, plus one extra
            0, 0, // final NUL unit
        ]
    );
}

#[test]
fn wide_strings_demand_their_terminator() {
    let err = WCStr::try_from_slice(&[0x41, 0x42]).unwrap_err();
    let _ = err;
    let ok = WCStr::try_from_slice(&[0x41, 0x42, 0]).unwrap();
    assert_eq!(ok.char_len(), 2);
    assert!(!ok.is_empty());
    assert_eq!(ok.bytes_len(), 6);
    let empty = WCStr::try_from_slice(&[0]).unwrap();
    assert!(empty.is_empty());
    assert_eq!(empty.char_len(), 0);
}

#[test]
fn utf16_encoding_matches_the_standard_library() {
    for s in ["", "keyboard", "Keyboard Upper Filter Driver", "na\u{00EF}ve", "\u{20AC}5", "\u{1F600}!"] {
        let expected: Vec<u16> = s.encode_utf16().collect();
        assert_eq!(encode_utf16(s), expected);
        assert_eq!(utf16_len(s), expected.len());
    }
}

#[test]
fn wide_nul_encoding_appends_one_terminator() {
    let w = encode_wide_nul("mouse");
    assert_eq!(w.char_len(), 5);
    assert_eq!(w.as_slice(), &[0x6D, 0x6F, 0x75, 0x73, 0x65]);
}

#[test]
fn utf8_cursor_steps_through_each_width() {
    let s = "a\u{00E9}\u{20AC}\u{1F600}".as_bytes();
    let (cp1, next1) = next_code_point(s, 0).unwrap();
    assert_eq!((cp1, next1), (0x61, 1));
    let (cp2, next2) = next_code_point(s, next1).unwrap();
    assert_eq!((cp2, next2), (0xE9, 3));
    let (cp3, next3) = next_code_point(s, next2).unwrap();
    assert_eq!((cp3, next3), (0x20AC, 6));
    let (cp4, next4) = next_code_point(s, next3).unwrap();
    assert_eq!((cp4, next4), (0x1F600, 10));
    assert!(next_code_point(s, next4).is_none());

    let (c, _) = next_char(s, 6).unwrap();
    assert_eq!(c, '\u{1F600}');
    // A UTF-8-encoded surrogate is no Unicode scalar value.
    assert!(next_char(&[0xED, 0xA0, 0x80], 0).is_none());
    // A truncated multi-byte sequence yields nothing.
    assert!(next_code_point(&[0xE2, 0x82], 0).is_none());
}

#[test]
fn driver_services_keep_their_names() {
    assert_eq!(DriverType::Keyboard.service_name(), "keyboard");
    assert_eq!(DriverType::Mouse.service_name(), "mouse");
    assert_eq!(
        DriverType::Keyboard.display_name(),
        "Keyboard Upper Filter Driver"
    );
    assert_eq!(DriverType::Mouse.display_name(), "Mouse Upper Filter Driver");
}

#[test]
fn driver_binaries_are_selected_by_version_and_architecture() {
    let v61 = NTVersion { major: 6, minor: 1 };
    let v51 = NTVersion { major: 5, minor: 1 };
    let v70 = NTVersion { major: 7, minor: 0 };
    assert_eq!(
        DriverType::Keyboard.driver_binary_name(v61, Architecture::AMD64),
        Some("KBDNT61A64")
    );
    assert_eq!(
        DriverType::Mouse.driver_binary_name(v51, Architecture::X86),
        Some("MOUNT51X86")
    );
    assert_eq!(
        DriverType::Keyboard.driver_binary_name(v51, Architecture::AMD64),
        None
    );
    assert_eq!(
        DriverType::Mouse.driver_binary_name(v70, Architecture::AMD64),
        None
    );
}

#[test]
fn architectures_classify_from_raw_codes() {
    assert_eq!(Architecture::from_code(0).unwrap(), Architecture::X86);
    assert_eq!(Architecture::from_code(6).unwrap(), Architecture::IA64);
    assert_eq!(Architecture::from_code(9).unwrap(), Architecture::AMD64);
    assert_eq!(
        Architecture::from_code(5).unwrap_err(),
        SysError::UnsupportedArchitecture
    );
    let info = SystemInfo::from_raw(6, 1, 9).unwrap();
    assert_eq!(info.version, NTVersion { major: 6, minor: 1 });
    assert_eq!(info.architecture, Architecture::AMD64);
}

#[test]
fn class_filter_lists_grow_and_shrink_by_service() {
    let service = encode_wide_nul("keyboard");
    let other = encode_wide_nul("kbdclass");

    let grown = upper_filters_with(vec![other.duplicate()], &service);
    assert_eq!(grown.len(), 2);
    assert_eq!(grown[1].as_slice(), service.as_slice());

    // Adding an already-listed service changes nothing.
    let again = upper_filters_with(grown, &service);
    assert_eq!(again.len(), 2);

    let shrunk = upper_filters_without(again, &service);
    assert_eq!(shrunk.len(), 1);
    assert_eq!(shrunk[0].as_slice(), other.as_slice());

    let emptied = upper_filters_without(shrunk, &other);
    assert!(emptied.is_empty());
}
