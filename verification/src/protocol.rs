//! The driver's control protocol: operation codes and device paths.
//!
//! Every control operation is named by a numeric code built from a stable
//! formula over a device-class tag, an access tag, a function number and a
//! transfer-method tag; a client that talks to the live driver must
//! reproduce this encoding exactly. Each device slot is addressed by a
//! fixed path pattern parameterized only by its two-digit slot number.

use vstd::prelude::*;
use vstd::string::StringExecFns;

verus! {

/// Device-class tag of the control codes: an unclassified device.
pub const FILE_DEVICE_UNKNOWN: u32 = 0x22;

/// Transfer-method tag of the control codes: buffered transfer.
pub const METHOD_BUFFERED: u32 = 0;

/// Access tag of the control codes: no specific access demanded.
pub const FILE_ANY_ACCESS: u32 = 0;

/// Control code to set a device's precedence.
pub const IOCTL_SET_PRECEDENCE: u32 = 0x222004;

/// Control code to read a device's precedence.
pub const IOCTL_GET_PRECEDENCE: u32 = 0x222008;

/// Control code to set a device's event filter.
pub const IOCTL_SET_FILTER: u32 = 0x222010;

/// Control code to read a device's event filter.
pub const IOCTL_GET_FILTER: u32 = 0x222020;

/// Control code to bind a wait signal to a device.
pub const IOCTL_SET_EVENT: u32 = 0x222040;

/// Control code to write stroke records to a device.
pub const IOCTL_WRITE: u32 = 0x222080;

/// Control code to read stroke records from a device.
pub const IOCTL_READ: u32 = 0x222100;

/// Control code to read a device's hardware id.
pub const IOCTL_GET_HARDWARE_ID: u32 = 0x222200;

/// The control-code formula: device-class tag in bits 16 and up, access
/// tag in bits 14–15, function number in bits 2–13, method tag in bits
/// 0–1.
pub open spec fn spec_ctl_code(device_type: u32, function: u32, method: u32, access: u32) -> u32 {
    (device_type << 16) | (access << 14) | (function << 2) | method
}

/// Build a control code from its four parts.
pub fn ctl_code(device_type: u32, function: u32, method: u32, access: u32) -> (r: u32)
    ensures
        r == spec_ctl_code(device_type, function, method, access),
{
    (device_type << 16) | (access << 14) | (function << 2) | method
}

/// Every named control code equals the formula applied to its function
/// number, with the unclassified device class, buffered transfer, and any
/// access.
pub proof fn lemma_ioctl_codes()
    ensures
        IOCTL_SET_PRECEDENCE == spec_ctl_code(
            FILE_DEVICE_UNKNOWN,
            0x801,
            METHOD_BUFFERED,
            FILE_ANY_ACCESS,
        ),
        IOCTL_GET_PRECEDENCE == spec_ctl_code(
            FILE_DEVICE_UNKNOWN,
            0x802,
            METHOD_BUFFERED,
            FILE_ANY_ACCESS,
        ),
        IOCTL_SET_FILTER == spec_ctl_code(
            FILE_DEVICE_UNKNOWN,
            0x804,
            METHOD_BUFFERED,
            FILE_ANY_ACCESS,
        ),
        IOCTL_GET_FILTER == spec_ctl_code(
            FILE_DEVICE_UNKNOWN,
            0x808,
            METHOD_BUFFERED,
            FILE_ANY_ACCESS,
        ),
        IOCTL_SET_EVENT == spec_ctl_code(
            FILE_DEVICE_UNKNOWN,
            0x810,
            METHOD_BUFFERED,
            FILE_ANY_ACCESS,
        ),
        IOCTL_WRITE == spec_ctl_code(FILE_DEVICE_UNKNOWN, 0x820, METHOD_BUFFERED, FILE_ANY_ACCESS),
        IOCTL_READ == spec_ctl_code(FILE_DEVICE_UNKNOWN, 0x840, METHOD_BUFFERED, FILE_ANY_ACCESS),
        IOCTL_GET_HARDWARE_ID == spec_ctl_code(
            FILE_DEVICE_UNKNOWN,
            0x880,
            METHOD_BUFFERED,
            FILE_ANY_ACCESS,
        ),
{
    assert((0x22u32 << 16) | (0u32 << 14) | (0x801u32 << 2) | 0u32 == 0x222004u32) by (bit_vector);
    assert((0x22u32 << 16) | (0u32 << 14) | (0x802u32 << 2) | 0u32 == 0x222008u32) by (bit_vector);
    assert((0x22u32 << 16) | (0u32 << 14) | (0x804u32 << 2) | 0u32 == 0x222010u32) by (bit_vector);
    assert((0x22u32 << 16) | (0u32 << 14) | (0x808u32 << 2) | 0u32 == 0x222020u32) by (bit_vector);
    assert((0x22u32 << 16) | (0u32 << 14) | (0x810u32 << 2) | 0u32 == 0x222040u32) by (bit_vector);
    assert((0x22u32 << 16) | (0u32 << 14) | (0x820u32 << 2) | 0u32 == 0x222080u32) by (bit_vector);
    assert((0x22u32 << 16) | (0u32 << 14) | (0x840u32 << 2) | 0u32 == 0x222100u32) by (bit_vector);
    assert((0x22u32 << 16) | (0u32 << 14) | (0x880u32 << 2) | 0u32 == 0x222200u32) by (bit_vector);
}

/// The decimal digit character for `d`.
pub open spec fn digit_char(d: int) -> char {
    if d == 0 {
        '0'
    } else if d == 1 {
        '1'
    } else if d == 2 {
        '2'
    } else if d == 3 {
        '3'
    } else if d == 4 {
        '4'
    } else if d == 5 {
        '5'
    } else if d == 6 {
        '6'
    } else if d == 7 {
        '7'
    } else if d == 8 {
        '8'
    } else {
        '9'
    }
}

/// The one-character string for decimal digit `d`.
fn digit_str(d: usize) -> (r: &'static str)
    requires
        d < 10,
    ensures
        r@ =~= seq![digit_char(d as int)],
{
    proof {
        reveal_strlit("0");
        reveal_strlit("1");
        reveal_strlit("2");
        reveal_strlit("3");
        reveal_strlit("4");
        reveal_strlit("5");
        reveal_strlit("6");
        reveal_strlit("7");
        reveal_strlit("8");
        reveal_strlit("9");
    }
    match d {
        0 => "0",
        1 => "1",
        2 => "2",
        3 => "3",
        4 => "4",
        5 => "5",
        6 => "6",
        7 => "7",
        8 => "8",
        _ => "9",
    }
}

/// The OS path of device slot `index`: the fixed prefix followed by the
/// two-digit slot number.
pub open spec fn device_path_spec(index: int) -> Seq<char> {
    "\\\\.\\interception"@ + seq![digit_char(index / 10), digit_char(index % 10)]
}

/// Build the OS path addressing device slot `index`.
pub fn device_path(index: usize) -> (r: String)
    requires
        index < 100,
    ensures
        r@ == device_path_spec(index as int),
{
    let mut path = String::new();
    path.append("\\\\.\\interception");
    path.append(digit_str(index / 10));
    path.append(digit_str(index % 10));
    proof {
        assert(path@ =~= device_path_spec(index as int));
    }
    path
}

} // verus!
