//! Byte codec for the fixed stroke records.
//!
//! The driver's wire format is platform-ABI-defined: a keyboard record is
//! exactly 12 bytes and a mouse record exactly 24, every field little-endian
//! at a fixed offset. The encoders and decoders here state that layout
//! explicitly, field by field, instead of relying on structure packing.

use vstd::prelude::*;

use crate::stroke::{KeyStroke, MouseStroke};

verus! {

/// Size in bytes of one keyboard wire record.
pub const KEY_STROKE_SIZE: usize = 12;

/// Size in bytes of one mouse wire record.
pub const MOUSE_STROKE_SIZE: usize = 24;

/// Little-endian image of a 16-bit word.
pub open spec fn u16_le(x: u16) -> Seq<u8> {
    seq![(x & 0xff) as u8, ((x >> 8) & 0xff) as u8]
}

/// 16-bit word read back from its little-endian image.
pub open spec fn u16_of_le(b0: u8, b1: u8) -> u16 {
    (b0 as u16) | ((b1 as u16) << 8)
}

/// Little-endian image of a 32-bit word.
pub open spec fn u32_le(x: u32) -> Seq<u8> {
    seq![
        (x & 0xff) as u8,
        ((x >> 8) & 0xff) as u8,
        ((x >> 16) & 0xff) as u8,
        ((x >> 24) & 0xff) as u8,
    ]
}

/// 32-bit word read back from its little-endian image.
pub open spec fn u32_of_le(b0: u8, b1: u8, b2: u8, b3: u8) -> u32 {
    (b0 as u32) | ((b1 as u32) << 8) | ((b2 as u32) << 16) | ((b3 as u32) << 24)
}

/// A 16-bit word survives its little-endian round trip.
pub proof fn lemma_u16_le_roundtrip(x: u16)
    ensures
        u16_of_le(u16_le(x)[0], u16_le(x)[1]) == x,
{
    let b0 = (x & 0xff) as u8;
    let b1 = ((x >> 8) & 0xff) as u8;
    assert((b0 as u16) | ((b1 as u16) << 8) == x) by (bit_vector)
        requires
            b0 == (x & 0xff) as u8,
            b1 == ((x >> 8) & 0xff) as u8,
    ;
}

/// A 32-bit word survives its little-endian round trip.
pub proof fn lemma_u32_le_roundtrip(x: u32)
    ensures
        u32_of_le(u32_le(x)[0], u32_le(x)[1], u32_le(x)[2], u32_le(x)[3]) == x,
{
    let b0 = (x & 0xff) as u8;
    let b1 = ((x >> 8) & 0xff) as u8;
    let b2 = ((x >> 16) & 0xff) as u8;
    let b3 = ((x >> 24) & 0xff) as u8;
    assert((b0 as u32) | ((b1 as u32) << 8) | ((b2 as u32) << 16) | ((b3 as u32) << 24) == x)
        by (bit_vector)
        requires
            b0 == (x & 0xff) as u8,
            b1 == ((x >> 8) & 0xff) as u8,
            b2 == ((x >> 16) & 0xff) as u8,
            b3 == ((x >> 24) & 0xff) as u8,
    ;
}

/// A signed 16-bit value survives the cast through its unsigned image.
pub proof fn lemma_i16_cast_roundtrip(x: i16)
    ensures
        ((x as u16) as i16) == x,
{
    assert(((x as u16) as i16) == x) by (bit_vector);
}

/// A signed 32-bit value survives the cast through its unsigned image.
pub proof fn lemma_i32_cast_roundtrip(x: i32)
    ensures
        ((x as u32) as i32) == x,
{
    assert(((x as u32) as i32) == x) by (bit_vector);
}

/// Append the little-endian image of a 16-bit word.
fn push_u16_le(out: &mut Vec<u8>, x: u16)
    ensures
        final(out)@ == old(out)@ + u16_le(x),
{
    out.push((x & 0xff) as u8);
    out.push(((x >> 8) & 0xff) as u8);
    assert(final(out)@ =~= old(out)@ + u16_le(x));
}

/// Append the little-endian image of a 32-bit word.
fn push_u32_le(out: &mut Vec<u8>, x: u32)
    ensures
        final(out)@ == old(out)@ + u32_le(x),
{
    out.push((x & 0xff) as u8);
    out.push(((x >> 8) & 0xff) as u8);
    out.push(((x >> 16) & 0xff) as u8);
    out.push(((x >> 24) & 0xff) as u8);
    assert(final(out)@ =~= old(out)@ + u32_le(x));
}

/// Read a 16-bit word at byte offset `i`.
fn read_u16_le(bytes: &Vec<u8>, i: usize) -> (r: u16)
    requires
        i + 2 <= bytes@.len(),
    ensures
        r == u16_of_le(bytes@[i as int], bytes@[i + 1]),
{
    let n = bytes.len();
    let b0 = bytes[i];
    let b1 = bytes[i + 1];
    (b0 as u16) | ((b1 as u16) << 8)
}

/// Read a 32-bit word at byte offset `i`.
fn read_u32_le(bytes: &Vec<u8>, i: usize) -> (r: u32)
    requires
        i + 4 <= bytes@.len(),
    ensures
        r == u32_of_le(bytes@[i as int], bytes@[i + 1], bytes@[i + 2], bytes@[i + 3]),
{
    let n = bytes.len();
    let b0 = bytes[i];
    let b1 = bytes[i + 1];
    let b2 = bytes[i + 2];
    let b3 = bytes[i + 3];
    (b0 as u32) | ((b1 as u32) << 8) | ((b2 as u32) << 16) | ((b3 as u32) << 24)
}

/// The 12-byte wire image of one keyboard record: unit id at offset 0,
/// key code at 2, state at 4, the reserved word at 6, information at 8.
pub open spec fn key_stroke_bytes(k: KeyStroke) -> Seq<u8> {
    u16_le(k.unit_id) + u16_le(k.code) + u16_le(k.state) + u16_le(k.reserved) + u32_le(
        k.information,
    )
}

/// The keyboard record read back from a 12-byte wire image.
pub open spec fn key_stroke_of_bytes(b: Seq<u8>) -> KeyStroke
    recommends
        b.len() == KEY_STROKE_SIZE,
{
    KeyStroke {
        unit_id: u16_of_le(b[0], b[1]),
        code: u16_of_le(b[2], b[3]),
        state: u16_of_le(b[4], b[5]),
        reserved: u16_of_le(b[6], b[7]),
        information: u32_of_le(b[8], b[9], b[10], b[11]),
    }
}

/// A keyboard record survives an encode-decode round trip.
pub proof fn lemma_key_stroke_roundtrip(k: KeyStroke)
    ensures
        key_stroke_bytes(k).len() == KEY_STROKE_SIZE,
        key_stroke_of_bytes(key_stroke_bytes(k)) == k,
{
    lemma_u16_le_roundtrip(k.unit_id);
    lemma_u16_le_roundtrip(k.code);
    lemma_u16_le_roundtrip(k.state);
    lemma_u16_le_roundtrip(k.reserved);
    lemma_u32_le_roundtrip(k.information);
}

/// The 24-byte wire image of one mouse record: unit id at offset 0, movement
/// flags at 2, button state at 4, wheel delta at 6, raw buttons at 8,
/// x at 12, y at 16, information at 20.
pub open spec fn mouse_stroke_bytes(m: MouseStroke) -> Seq<u8> {
    u16_le(m.unit_id) + u16_le(m.flags) + u16_le(m.state) + u16_le(m.rolling as u16) + u32_le(
        m.raw_buttons,
    ) + u32_le(m.x as u32) + u32_le(m.y as u32) + u32_le(m.information)
}

/// The mouse record read back from a 24-byte wire image.
pub open spec fn mouse_stroke_of_bytes(b: Seq<u8>) -> MouseStroke
    recommends
        b.len() == MOUSE_STROKE_SIZE,
{
    MouseStroke {
        unit_id: u16_of_le(b[0], b[1]),
        flags: u16_of_le(b[2], b[3]),
        state: u16_of_le(b[4], b[5]),
        rolling: u16_of_le(b[6], b[7]) as i16,
        raw_buttons: u32_of_le(b[8], b[9], b[10], b[11]),
        x: u32_of_le(b[12], b[13], b[14], b[15]) as i32,
        y: u32_of_le(b[16], b[17], b[18], b[19]) as i32,
        information: u32_of_le(b[20], b[21], b[22], b[23]),
    }
}

/// A mouse record survives an encode-decode round trip.
pub proof fn lemma_mouse_stroke_roundtrip(m: MouseStroke)
    ensures
        mouse_stroke_bytes(m).len() == MOUSE_STROKE_SIZE,
        mouse_stroke_of_bytes(mouse_stroke_bytes(m)) == m,
{
    lemma_u16_le_roundtrip(m.unit_id);
    lemma_u16_le_roundtrip(m.flags);
    lemma_u16_le_roundtrip(m.state);
    lemma_u16_le_roundtrip(m.rolling as u16);
    lemma_i16_cast_roundtrip(m.rolling);
    lemma_u32_le_roundtrip(m.raw_buttons);
    lemma_u32_le_roundtrip(m.x as u32);
    lemma_i32_cast_roundtrip(m.x);
    lemma_u32_le_roundtrip(m.y as u32);
    lemma_i32_cast_roundtrip(m.y);
    lemma_u32_le_roundtrip(m.information);
}

/// The wire image of a whole array of keyboard records, in order.
pub open spec fn key_strokes_bytes(ss: Seq<KeyStroke>) -> Seq<u8>
    decreases ss.len(),
{
    if ss.len() == 0 {
        Seq::empty()
    } else {
        key_stroke_bytes(ss[0]) + key_strokes_bytes(ss.drop_first())
    }
}

/// The records read back from a byte buffer, one per whole 12-byte slice;
/// a trailing partial record is discarded, never padded.
pub open spec fn key_strokes_of_bytes(b: Seq<u8>) -> Seq<KeyStroke>
    decreases b.len(),
{
    if b.len() < KEY_STROKE_SIZE {
        Seq::empty()
    } else {
        seq![key_stroke_of_bytes(b.take(KEY_STROKE_SIZE as int))] + key_strokes_of_bytes(
            b.skip(KEY_STROKE_SIZE as int),
        )
    }
}

/// The wire image of a whole array of mouse records, in order.
pub open spec fn mouse_strokes_bytes(ss: Seq<MouseStroke>) -> Seq<u8>
    decreases ss.len(),
{
    if ss.len() == 0 {
        Seq::empty()
    } else {
        mouse_stroke_bytes(ss[0]) + mouse_strokes_bytes(ss.drop_first())
    }
}

/// The records read back from a byte buffer, one per whole 24-byte slice;
/// a trailing partial record is discarded, never padded.
pub open spec fn mouse_strokes_of_bytes(b: Seq<u8>) -> Seq<MouseStroke>
    decreases b.len(),
{
    if b.len() < MOUSE_STROKE_SIZE {
        Seq::empty()
    } else {
        seq![mouse_stroke_of_bytes(b.take(MOUSE_STROKE_SIZE as int))] + mouse_strokes_of_bytes(
            b.skip(MOUSE_STROKE_SIZE as int),
        )
    }
}

/// Appending one record to an array appends its image to the array's image.
pub proof fn lemma_key_strokes_bytes_push(ss: Seq<KeyStroke>, k: KeyStroke)
    ensures
        key_strokes_bytes(ss.push(k)) == key_strokes_bytes(ss) + key_stroke_bytes(k),
    decreases ss.len(),
{
    if ss.len() == 0 {
        assert(ss.push(k)[0] == k);
        assert(ss.push(k).drop_first() =~= ss);
        assert(key_strokes_bytes(ss) =~= Seq::<u8>::empty());
        assert(key_strokes_bytes(ss.push(k)) =~= key_strokes_bytes(ss) + key_stroke_bytes(k));
    } else {
        assert(ss.push(k)[0] == ss[0]);
        assert(ss.push(k).drop_first() =~= ss.drop_first().push(k));
        lemma_key_strokes_bytes_push(ss.drop_first(), k);
        assert(key_strokes_bytes(ss.push(k)) =~= key_strokes_bytes(ss) + key_stroke_bytes(k));
    }
}

/// Appending one record to an array appends its image to the array's image.
pub proof fn lemma_mouse_strokes_bytes_push(ss: Seq<MouseStroke>, m: MouseStroke)
    ensures
        mouse_strokes_bytes(ss.push(m)) == mouse_strokes_bytes(ss) + mouse_stroke_bytes(m),
    decreases ss.len(),
{
    if ss.len() == 0 {
        assert(ss.push(m)[0] == m);
        assert(ss.push(m).drop_first() =~= ss);
        assert(mouse_strokes_bytes(ss) =~= Seq::<u8>::empty());
        assert(mouse_strokes_bytes(ss.push(m)) =~= mouse_strokes_bytes(ss) + mouse_stroke_bytes(m));
    } else {
        assert(ss.push(m)[0] == ss[0]);
        assert(ss.push(m).drop_first() =~= ss.drop_first().push(m));
        lemma_mouse_strokes_bytes_push(ss.drop_first(), m);
        assert(mouse_strokes_bytes(ss.push(m)) =~= mouse_strokes_bytes(ss) + mouse_stroke_bytes(m));
    }
}

/// The image of an array of keyboard records is 12 bytes per record.
pub proof fn lemma_key_strokes_bytes_len(ss: Seq<KeyStroke>)
    ensures
        key_strokes_bytes(ss).len() == KEY_STROKE_SIZE * ss.len(),
    decreases ss.len(),
{
    if ss.len() > 0 {
        lemma_key_strokes_bytes_len(ss.drop_first());
    }
}

/// The image of an array of mouse records is 24 bytes per record.
pub proof fn lemma_mouse_strokes_bytes_len(ss: Seq<MouseStroke>)
    ensures
        mouse_strokes_bytes(ss).len() == MOUSE_STROKE_SIZE * ss.len(),
    decreases ss.len(),
{
    if ss.len() > 0 {
        lemma_mouse_strokes_bytes_len(ss.drop_first());
    }
}

/// An array of keyboard records survives an encode-decode round trip:
/// decoding the exact image of the array yields records field-equal to the
/// originals, with none lost, duplicated, or invented.
#[verifier::rlimit(50)]
pub proof fn lemma_key_strokes_roundtrip(ss: Seq<KeyStroke>)
    ensures
        key_strokes_of_bytes(key_strokes_bytes(ss)) == ss,
    decreases ss.len(),
{
    if ss.len() == 0 {
        assert(key_strokes_of_bytes(key_strokes_bytes(ss)) =~= ss);
    } else {
        let b = key_strokes_bytes(ss);
        lemma_key_stroke_roundtrip(ss[0]);
        lemma_key_strokes_bytes_len(ss.drop_first());
        assert(b.take(KEY_STROKE_SIZE as int) =~= key_stroke_bytes(ss[0]));
        assert(b.skip(KEY_STROKE_SIZE as int) =~= key_strokes_bytes(ss.drop_first()));
        lemma_key_strokes_roundtrip(ss.drop_first());
        assert(key_strokes_of_bytes(b) =~= ss);
    }
}

/// An array of mouse records survives an encode-decode round trip.
#[verifier::rlimit(50)]
pub proof fn lemma_mouse_strokes_roundtrip(ss: Seq<MouseStroke>)
    ensures
        mouse_strokes_of_bytes(mouse_strokes_bytes(ss)) == ss,
    decreases ss.len(),
{
    if ss.len() == 0 {
        assert(mouse_strokes_of_bytes(mouse_strokes_bytes(ss)) =~= ss);
    } else {
        let b = mouse_strokes_bytes(ss);
        lemma_mouse_stroke_roundtrip(ss[0]);
        lemma_mouse_strokes_bytes_len(ss.drop_first());
        assert(b.take(MOUSE_STROKE_SIZE as int) =~= mouse_stroke_bytes(ss[0]));
        assert(b.skip(MOUSE_STROKE_SIZE as int) =~= mouse_strokes_bytes(ss.drop_first()));
        lemma_mouse_strokes_roundtrip(ss.drop_first());
        assert(mouse_strokes_of_bytes(b) =~= ss);
    }
}

/// Encode an array of keyboard records to its exact wire image.
pub fn encode_key_strokes(strokes: &Vec<KeyStroke>) -> (r: Vec<u8>)
    ensures
        r@ == key_strokes_bytes(strokes@),
        r@.len() == KEY_STROKE_SIZE * strokes@.len(),
{
    let mut out: Vec<u8> = Vec::new();
    assert(strokes@.take(0) =~= Seq::<KeyStroke>::empty());
    let n = strokes.len();
    let mut i: usize = 0;
    while i < n
        invariant
            n == strokes@.len(),
            i <= n,
            out@ == key_strokes_bytes(strokes@.take(i as int)),
            out@.len() == KEY_STROKE_SIZE * i,
        decreases n - i,
    {
        let k = &strokes[i];
        let ghost prefix = strokes@.take(i as int);
        push_u16_le(&mut out, k.unit_id);
        push_u16_le(&mut out, k.code);
        push_u16_le(&mut out, k.state);
        push_u16_le(&mut out, k.reserved);
        push_u32_le(&mut out, k.information);
        proof {
            lemma_key_strokes_bytes_push(prefix, strokes@[i as int]);
            assert(prefix.push(strokes@[i as int]) =~= strokes@.take(i + 1));
            assert(out@ =~= key_strokes_bytes(strokes@.take(i + 1)));
        }
        i = i + 1;
    }
    proof {
        assert(strokes@.take(n as int) =~= strokes@);
    }
    out
}

/// Encode an array of mouse records to its exact wire image.
pub fn encode_mouse_strokes(strokes: &Vec<MouseStroke>) -> (r: Vec<u8>)
    ensures
        r@ == mouse_strokes_bytes(strokes@),
        r@.len() == MOUSE_STROKE_SIZE * strokes@.len(),
{
    let mut out: Vec<u8> = Vec::new();
    assert(strokes@.take(0) =~= Seq::<MouseStroke>::empty());
    let n = strokes.len();
    let mut i: usize = 0;
    while i < n
        invariant
            n == strokes@.len(),
            i <= n,
            out@ == mouse_strokes_bytes(strokes@.take(i as int)),
            out@.len() == MOUSE_STROKE_SIZE * i,
        decreases n - i,
    {
        let m = &strokes[i];
        let ghost prefix = strokes@.take(i as int);
        push_u16_le(&mut out, m.unit_id);
        push_u16_le(&mut out, m.flags);
        push_u16_le(&mut out, m.state);
        push_u16_le(&mut out, m.rolling as u16);
        push_u32_le(&mut out, m.raw_buttons);
        push_u32_le(&mut out, m.x as u32);
        push_u32_le(&mut out, m.y as u32);
        push_u32_le(&mut out, m.information);
        proof {
            lemma_mouse_strokes_bytes_push(prefix, strokes@[i as int]);
            assert(prefix.push(strokes@[i as int]) =~= strokes@.take(i + 1));
            assert(out@ =~= mouse_strokes_bytes(strokes@.take(i + 1)));
        }
        i = i + 1;
    }
    proof {
        assert(strokes@.take(n as int) =~= strokes@);
    }
    out
}

/// Decode every whole keyboard record of a byte buffer, in order; the
/// record count is the byte count divided by the record size, never more.
pub fn decode_key_strokes(bytes: &Vec<u8>) -> (r: Vec<KeyStroke>)
    ensures
        r@ == key_strokes_of_bytes(bytes@),
        r@.len() == bytes@.len() as int / KEY_STROKE_SIZE as int,
{
    proof {
        lemma_key_strokes_of_bytes_shape(bytes@);
        vstd::arithmetic::div_mod::lemma_fundamental_div_mod(
            bytes@.len() as int,
            KEY_STROKE_SIZE as int,
        );
        vstd::arithmetic::div_mod::lemma_mod_bound(bytes@.len() as int, KEY_STROKE_SIZE as int);
    }
    let blen = bytes.len();
    let mut out: Vec<KeyStroke> = Vec::new();
    let n = blen / KEY_STROKE_SIZE;
    let mut i: usize = 0;
    while i < n
        invariant
            blen == bytes@.len(),
            n == bytes@.len() as int / KEY_STROKE_SIZE as int,
            KEY_STROKE_SIZE * n <= bytes@.len(),
            i <= n,
            out@.len() == i,
            forall|j: int|
                0 <= j < i ==> out@[j] == key_strokes_of_bytes(bytes@)[j],
            key_strokes_of_bytes(bytes@).len() == n,
        decreases n - i,
    {
        proof {
            assert(KEY_STROKE_SIZE * i + KEY_STROKE_SIZE <= KEY_STROKE_SIZE * n) by (nonlinear_arith)
                requires
                    i < n,
            ;
        }
        let base = i * KEY_STROKE_SIZE;
        let k = KeyStroke {
            unit_id: read_u16_le(bytes, base),
            code: read_u16_le(bytes, base + 2),
            state: read_u16_le(bytes, base + 4),
            reserved: read_u16_le(bytes, base + 6),
            information: read_u32_le(bytes, base + 8),
        };
        proof {
            lemma_key_strokes_of_bytes_index(bytes@, i as int);
            assert(k == key_strokes_of_bytes(bytes@)[i as int]);
        }
        out.push(k);
        i = i + 1;
    }
    proof {
        assert(out@ =~= key_strokes_of_bytes(bytes@));
    }
    out
}

/// Decode every whole mouse record of a byte buffer, in order.
pub fn decode_mouse_strokes(bytes: &Vec<u8>) -> (r: Vec<MouseStroke>)
    ensures
        r@ == mouse_strokes_of_bytes(bytes@),
        r@.len() == bytes@.len() as int / MOUSE_STROKE_SIZE as int,
{
    proof {
        lemma_mouse_strokes_of_bytes_shape(bytes@);
        vstd::arithmetic::div_mod::lemma_fundamental_div_mod(
            bytes@.len() as int,
            MOUSE_STROKE_SIZE as int,
        );
        vstd::arithmetic::div_mod::lemma_mod_bound(bytes@.len() as int, MOUSE_STROKE_SIZE as int);
    }
    let blen = bytes.len();
    let mut out: Vec<MouseStroke> = Vec::new();
    let n = blen / MOUSE_STROKE_SIZE;
    let mut i: usize = 0;
    while i < n
        invariant
            blen == bytes@.len(),
            n == bytes@.len() as int / MOUSE_STROKE_SIZE as int,
            MOUSE_STROKE_SIZE * n <= bytes@.len(),
            i <= n,
            out@.len() == i,
            forall|j: int|
                0 <= j < i ==> out@[j] == mouse_strokes_of_bytes(bytes@)[j],
            mouse_strokes_of_bytes(bytes@).len() == n,
        decreases n - i,
    {
        proof {
            assert(MOUSE_STROKE_SIZE * i + MOUSE_STROKE_SIZE <= MOUSE_STROKE_SIZE * n)
                by (nonlinear_arith)
                requires
                    i < n,
            ;
        }
        let base = i * MOUSE_STROKE_SIZE;
        let m = MouseStroke {
            unit_id: read_u16_le(bytes, base),
            flags: read_u16_le(bytes, base + 2),
            state: read_u16_le(bytes, base + 4),
            rolling: read_u16_le(bytes, base + 6) as i16,
            raw_buttons: read_u32_le(bytes, base + 8),
            x: read_u32_le(bytes, base + 12) as i32,
            y: read_u32_le(bytes, base + 16) as i32,
            information: read_u32_le(bytes, base + 20),
        };
        proof {
            lemma_mouse_strokes_of_bytes_index(bytes@, i as int);
            assert(m == mouse_strokes_of_bytes(bytes@)[i as int]);
        }
        out.push(m);
        i = i + 1;
    }
    proof {
        assert(out@ =~= mouse_strokes_of_bytes(bytes@));
    }
    out
}

/// Decoding a byte buffer yields exactly one record per whole record slice.
pub proof fn lemma_key_strokes_of_bytes_shape(b: Seq<u8>)
    ensures
        key_strokes_of_bytes(b).len() == b.len() as int / KEY_STROKE_SIZE as int,
    decreases b.len(),
{
    if b.len() >= KEY_STROKE_SIZE {
        lemma_key_strokes_of_bytes_shape(b.skip(KEY_STROKE_SIZE as int));
    }
}

/// Record `i` of a decoded buffer is read from bytes `12*i .. 12*i+12`.
pub proof fn lemma_key_strokes_of_bytes_index(b: Seq<u8>, i: int)
    requires
        0 <= i,
        KEY_STROKE_SIZE * i + KEY_STROKE_SIZE <= b.len(),
    ensures
        key_strokes_of_bytes(b)[i] == key_stroke_of_bytes(
            b.subrange(KEY_STROKE_SIZE * i, KEY_STROKE_SIZE * i + KEY_STROKE_SIZE),
        ),
    decreases i,
{
    lemma_key_strokes_of_bytes_shape(b);
    if i == 0 {
        assert(b.take(KEY_STROKE_SIZE as int) =~= b.subrange(0, KEY_STROKE_SIZE as int));
    } else {
        let rest = b.skip(KEY_STROKE_SIZE as int);
        lemma_key_strokes_of_bytes_index(rest, i - 1);
        assert(rest.subrange(
            KEY_STROKE_SIZE * (i - 1),
            KEY_STROKE_SIZE * (i - 1) + KEY_STROKE_SIZE,
        ) =~= b.subrange(KEY_STROKE_SIZE * i, KEY_STROKE_SIZE * i + KEY_STROKE_SIZE));
    }
}

/// Taking the first `k` whole record slices of a buffer decodes to the
/// first `k` decoded records.
pub proof fn lemma_key_strokes_take_records(b: Seq<u8>, k: int)
    requires
        0 <= k,
        KEY_STROKE_SIZE * k <= b.len(),
    ensures
        key_strokes_of_bytes(b.take(KEY_STROKE_SIZE * k)) == key_strokes_of_bytes(b).take(k),
    decreases k,
{
    lemma_key_strokes_of_bytes_shape(b);
    lemma_key_strokes_of_bytes_shape(b.take(KEY_STROKE_SIZE * k));
    if k == 0 {
        assert(key_strokes_of_bytes(b.take(0)) =~= key_strokes_of_bytes(b).take(0));
    } else {
        let rest = b.skip(KEY_STROKE_SIZE as int);
        lemma_key_strokes_take_records(rest, k - 1);
        assert(b.take(KEY_STROKE_SIZE * k).take(KEY_STROKE_SIZE as int) =~= b.take(
            KEY_STROKE_SIZE as int,
        ));
        assert(b.take(KEY_STROKE_SIZE * k).skip(KEY_STROKE_SIZE as int) =~= rest.take(
            KEY_STROKE_SIZE * (k - 1),
        ));
        assert(key_strokes_of_bytes(b.take(KEY_STROKE_SIZE * k)) =~= key_strokes_of_bytes(b).take(
            k,
        ));
    }
}

/// Skipping the first `k` whole record slices of a buffer decodes to the
/// decoded records after the first `k`.
pub proof fn lemma_key_strokes_skip_records(b: Seq<u8>, k: int)
    requires
        0 <= k,
        KEY_STROKE_SIZE * k <= b.len(),
    ensures
        key_strokes_of_bytes(b.skip(KEY_STROKE_SIZE * k)) == key_strokes_of_bytes(b).skip(k),
    decreases k,
{
    lemma_key_strokes_of_bytes_shape(b);
    if k == 0 {
        assert(b.skip(0) =~= b);
        assert(key_strokes_of_bytes(b).skip(0) =~= key_strokes_of_bytes(b));
    } else {
        let rest = b.skip(KEY_STROKE_SIZE as int);
        lemma_key_strokes_skip_records(rest, k - 1);
        assert(b.skip(KEY_STROKE_SIZE * k) =~= rest.skip(KEY_STROKE_SIZE * (k - 1)));
        assert(key_strokes_of_bytes(b).skip(k) =~= key_strokes_of_bytes(rest).skip(k - 1));
    }
}

/// Taking the first `k` whole record slices of a buffer decodes to the
/// first `k` decoded records.
pub proof fn lemma_mouse_strokes_take_records(b: Seq<u8>, k: int)
    requires
        0 <= k,
        MOUSE_STROKE_SIZE * k <= b.len(),
    ensures
        mouse_strokes_of_bytes(b.take(MOUSE_STROKE_SIZE * k)) == mouse_strokes_of_bytes(b).take(k),
    decreases k,
{
    lemma_mouse_strokes_of_bytes_shape(b);
    lemma_mouse_strokes_of_bytes_shape(b.take(MOUSE_STROKE_SIZE * k));
    if k == 0 {
        assert(mouse_strokes_of_bytes(b.take(0)) =~= mouse_strokes_of_bytes(b).take(0));
    } else {
        let rest = b.skip(MOUSE_STROKE_SIZE as int);
        lemma_mouse_strokes_take_records(rest, k - 1);
        assert(b.take(MOUSE_STROKE_SIZE * k).take(MOUSE_STROKE_SIZE as int) =~= b.take(
            MOUSE_STROKE_SIZE as int,
        ));
        assert(b.take(MOUSE_STROKE_SIZE * k).skip(MOUSE_STROKE_SIZE as int) =~= rest.take(
            MOUSE_STROKE_SIZE * (k - 1),
        ));
        assert(mouse_strokes_of_bytes(b.take(MOUSE_STROKE_SIZE * k)) =~= mouse_strokes_of_bytes(
            b,
        ).take(k));
    }
}

/// Skipping the first `k` whole record slices of a buffer decodes to the
/// decoded records after the first `k`.
pub proof fn lemma_mouse_strokes_skip_records(b: Seq<u8>, k: int)
    requires
        0 <= k,
        MOUSE_STROKE_SIZE * k <= b.len(),
    ensures
        mouse_strokes_of_bytes(b.skip(MOUSE_STROKE_SIZE * k)) == mouse_strokes_of_bytes(b).skip(k),
    decreases k,
{
    lemma_mouse_strokes_of_bytes_shape(b);
    if k == 0 {
        assert(b.skip(0) =~= b);
        assert(mouse_strokes_of_bytes(b).skip(0) =~= mouse_strokes_of_bytes(b));
    } else {
        let rest = b.skip(MOUSE_STROKE_SIZE as int);
        lemma_mouse_strokes_skip_records(rest, k - 1);
        assert(b.skip(MOUSE_STROKE_SIZE * k) =~= rest.skip(MOUSE_STROKE_SIZE * (k - 1)));
        assert(mouse_strokes_of_bytes(b).skip(k) =~= mouse_strokes_of_bytes(rest).skip(k - 1));
    }
}

/// Decoding a byte buffer yields exactly one record per whole record slice.
pub proof fn lemma_mouse_strokes_of_bytes_shape(b: Seq<u8>)
    ensures
        mouse_strokes_of_bytes(b).len() == b.len() as int / MOUSE_STROKE_SIZE as int,
    decreases b.len(),
{
    if b.len() >= MOUSE_STROKE_SIZE {
        lemma_mouse_strokes_of_bytes_shape(b.skip(MOUSE_STROKE_SIZE as int));
    }
}

/// Record `i` of a decoded buffer is read from bytes `24*i .. 24*i+24`.
pub proof fn lemma_mouse_strokes_of_bytes_index(b: Seq<u8>, i: int)
    requires
        0 <= i,
        MOUSE_STROKE_SIZE * i + MOUSE_STROKE_SIZE <= b.len(),
    ensures
        mouse_strokes_of_bytes(b)[i] == mouse_stroke_of_bytes(
            b.subrange(MOUSE_STROKE_SIZE * i, MOUSE_STROKE_SIZE * i + MOUSE_STROKE_SIZE),
        ),
    decreases i,
{
    lemma_mouse_strokes_of_bytes_shape(b);
    if i == 0 {
        assert(b.take(MOUSE_STROKE_SIZE as int) =~= b.subrange(0, MOUSE_STROKE_SIZE as int));
    } else {
        let rest = b.skip(MOUSE_STROKE_SIZE as int);
        lemma_mouse_strokes_of_bytes_index(rest, i - 1);
        assert(rest.subrange(
            MOUSE_STROKE_SIZE * (i - 1),
            MOUSE_STROKE_SIZE * (i - 1) + MOUSE_STROKE_SIZE,
        ) =~= b.subrange(MOUSE_STROKE_SIZE * i, MOUSE_STROKE_SIZE * i + MOUSE_STROKE_SIZE));
    }
}

} // verus!
