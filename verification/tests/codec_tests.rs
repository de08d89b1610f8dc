use interception::codec::{
    decode_key_strokes, decode_mouse_strokes, encode_key_strokes, encode_mouse_strokes,
    KEY_STROKE_SIZE, MOUSE_STROKE_SIZE,
};
use interception::{KeyStroke, MouseStroke};

#[test]
fn key_stroke_encodes_to_exactly_twelve_bytes() {
    let strokes = vec![KeyStroke::with_info(0x1234, 0x5678, 0x9ABCDEF0)];
    let bytes = encode_key_strokes(&strokes);
    assert_eq!(bytes.len(), 12);
    assert_eq!(KEY_STROKE_SIZE, 12);
    // unit id at offset 0, code at 2, state at 4, reserved at 6,
    // information at 8, every field little-endian
    assert_eq!(
        bytes,
        vec![0x00, 0x00, 0x34, 0x12, 0x78, 0x56, 0x00, 0x00, 0xF0, 0xDE, 0xBC, 0x9A]
    );
}

#[test]
fn mouse_stroke_encodes_to_exactly_twenty_four_bytes() {
    let strokes = vec![MouseStroke::new(0x0001, 0x0400, -2, -1, 0x01020304, 0xA0B0C0D0)];
    let bytes = encode_mouse_strokes(&strokes);
    assert_eq!(bytes.len(), 24);
    assert_eq!(MOUSE_STROKE_SIZE, 24);
    // unit id at 0, flags at 2, state at 4, wheel delta at 6 (two's
    // complement), raw buttons at 8, x at 12, y at 16, information at 20
    assert_eq!(
        bytes,
        vec![
            0x00, 0x00, // unit id
            0x01, 0x00, // flags
            0x00, 0x04, // state
            0xFE, 0xFF, // rolling == -2
            0x00, 0x00, 0x00, 0x00, // raw buttons
            0xFF, 0xFF, 0xFF, 0xFF, // x == -1
            0x04, 0x03, 0x02, 0x01, // y
            0xD0, 0xC0, 0xB0, 0xA0, // information
        ]
    );
}

#[test]
fn key_strokes_survive_byte_round_trip() {
    let strokes = vec![
        KeyStroke::down(0x41),
        KeyStroke::up(0x41),
        KeyStroke::with_info(0xFFFF, 0x0037, u32::MAX),
    ];
    let bytes = encode_key_strokes(&strokes);
    let back = decode_key_strokes(&bytes);
    assert_eq!(back, strokes);
}

#[test]
fn mouse_strokes_survive_byte_round_trip() {
    let strokes = vec![
        MouseStroke::new(0x001, 0x001, 0, 100, 200, 0),
        MouseStroke::new(0x000, 0x400, i16::MIN, i32::MIN, i32::MAX, 7),
    ];
    let bytes = encode_mouse_strokes(&strokes);
    let back = decode_mouse_strokes(&bytes);
    assert_eq!(back, strokes);
}

#[test]
fn decoding_discards_a_trailing_partial_record() {
    let strokes = vec![KeyStroke::down(0x1C)];
    let mut bytes = encode_key_strokes(&strokes);
    bytes.push(0xAA); // a stray byte: less than one whole record
    let back = decode_key_strokes(&bytes);
    assert_eq!(back.len(), 1);
    assert_eq!(back[0], strokes[0]);
}

#[test]
fn decoding_an_empty_buffer_yields_no_records() {
    assert_eq!(decode_key_strokes(&Vec::new()).len(), 0);
    assert_eq!(decode_mouse_strokes(&Vec::new()).len(), 0);
}
