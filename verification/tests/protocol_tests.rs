use interception::hwid::{decode_hardware_id, hex_dump};
use interception::protocol::{
    ctl_code, device_path, IOCTL_GET_FILTER, IOCTL_GET_HARDWARE_ID, IOCTL_GET_PRECEDENCE,
    IOCTL_READ, IOCTL_SET_EVENT, IOCTL_SET_FILTER, IOCTL_SET_PRECEDENCE, IOCTL_WRITE,
};
use interception::HardwareId;

#[test]
fn control_codes_follow_the_stable_formula() {
    assert_eq!(ctl_code(0x22, 0x801, 0, 0), IOCTL_SET_PRECEDENCE);
    assert_eq!(ctl_code(0x22, 0x802, 0, 0), IOCTL_GET_PRECEDENCE);
    assert_eq!(ctl_code(0x22, 0x804, 0, 0), IOCTL_SET_FILTER);
    assert_eq!(ctl_code(0x22, 0x808, 0, 0), IOCTL_GET_FILTER);
    assert_eq!(ctl_code(0x22, 0x810, 0, 0), IOCTL_SET_EVENT);
    assert_eq!(ctl_code(0x22, 0x820, 0, 0), IOCTL_WRITE);
    assert_eq!(ctl_code(0x22, 0x840, 0, 0), IOCTL_READ);
    assert_eq!(ctl_code(0x22, 0x880, 0, 0), IOCTL_GET_HARDWARE_ID);
    assert_eq!(IOCTL_SET_PRECEDENCE, 0x222004);
    assert_eq!(IOCTL_READ, 0x222100);
}

#[test]
fn device_paths_carry_two_digit_slot_numbers() {
    assert_eq!(device_path(0), r"\\.\interception00");
    assert_eq!(device_path(7), r"\\.\interception07");
    assert_eq!(device_path(13), r"\\.\interception13");
    assert_eq!(device_path(19), r"\\.\interception19");
}

#[test]
fn utf16_hardware_id_bytes_decode_as_trimmed_text() {
    // "HID" in little-endian UTF-16 with trailing NUL padding.
    let bytes = vec![0x48, 0x00, 0x49, 0x00, 0x44, 0x00, 0x00, 0x00, 0x00, 0x00];
    match decode_hardware_id(&bytes) {
        HardwareId::Text(units) => {
            assert_eq!(units, vec![0x48, 0x49, 0x44]);
            assert_eq!(String::from_utf16_lossy(&units), "HID");
        }
        HardwareId::Hex(_) => panic!("whole wide units must decode as text"),
    }
}

#[test]
fn hex_dumps_render_two_lowercase_digits_per_byte() {
    assert_eq!(hex_dump(&vec![]), "0x");
    assert_eq!(hex_dump(&vec![0x00]), "0x00");
    assert_eq!(hex_dump(&vec![0xAB, 0xCD, 0xEF]), "0xabcdef");
    assert_eq!(hex_dump(&vec![0x01, 0x9f]), "0x019f");
}

#[test]
fn stray_hardware_id_bytes_stay_an_opaque_dump() {
    let odd = vec![0xAB, 0xCD, 0xEF];
    match decode_hardware_id(&odd) {
        HardwareId::Hex(raw) => assert_eq!(raw, odd),
        HardwareId::Text(_) => panic!("an odd byte count is no run of wide units"),
    }
    match decode_hardware_id(&Vec::new()) {
        HardwareId::Hex(raw) => assert!(raw.is_empty()),
        HardwareId::Text(_) => panic!("an empty buffer is no text"),
    }
}
