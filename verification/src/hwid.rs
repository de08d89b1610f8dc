//! Hardware-id decoding.
//!
//! A device reports its hardware id as a bounded byte buffer. When the
//! bytes form UTF-16 code units they are presented as text with the
//! trailing NUL padding removed; otherwise the raw bytes are kept for an
//! opaque hex dump. The two shapes are distinct variants so that callers
//! can never confuse text with a dump.

use vstd::prelude::*;
use vstd::string::StringExecFns;

use crate::codec::u16_of_le;

verus! {

/// A device's hardware id: decoded text or an opaque byte dump.
#[derive(Debug, Clone, PartialEq, Eq)]
pub enum HardwareId {
    /// UTF-16 code units of the id, trailing NULs removed.
    Text(Vec<u16>),
    /// Raw bytes of an id that does not form whole UTF-16 units.
    Hex(Vec<u8>),
}

/// The UTF-16 code units read from a byte buffer, little-endian, one per
/// whole byte pair.
pub open spec fn units_of_bytes(b: Seq<u8>) -> Seq<u16> {
    Seq::new((b.len() / 2) as nat, |i: int| u16_of_le(b[2 * i], b[2 * i + 1]))
}

/// The sequence with every trailing NUL unit removed.
pub open spec fn trim_trailing_nuls(s: Seq<u16>) -> Seq<u16>
    decreases s.len(),
{
    if s.len() > 0 && s.last() == 0u16 {
        trim_trailing_nuls(s.drop_last())
    } else {
        s
    }
}

/// The lowercase hex character for `d`.
pub open spec fn hex_digit_char(d: int) -> char {
    if d == 0 {
        '0'
    } else if d == 1 {
        '1'
    } else if d == 2 {
        '2'
    } else if d == 3 {
        '3'
    } else if d == 4 {
        '4'
    } else if d == 5 {
        '5'
    } else if d == 6 {
        '6'
    } else if d == 7 {
        '7'
    } else if d == 8 {
        '8'
    } else if d == 9 {
        '9'
    } else if d == 10 {
        'a'
    } else if d == 11 {
        'b'
    } else if d == 12 {
        'c'
    } else if d == 13 {
        'd'
    } else if d == 14 {
        'e'
    } else {
        'f'
    }
}

/// The hex characters of a byte buffer: two lowercase digits per byte,
/// high digit first.
pub open spec fn hex_chars(b: Seq<u8>) -> Seq<char> {
    Seq::new(
        2 * b.len(),
        |i: int|
            if i % 2 == 0 {
                hex_digit_char(b[i / 2] as int / 16)
            } else {
                hex_digit_char(b[i / 2] as int % 16)
            },
    )
}

/// The one-character string for hex digit `d`.
fn hex_digit_str(d: u8) -> (r: &'static str)
    requires
        d < 16,
    ensures
        r@ =~= seq![hex_digit_char(d as int)],
{
    proof {
        reveal_strlit("0");
        reveal_strlit("1");
        reveal_strlit("2");
        reveal_strlit("3");
        reveal_strlit("4");
        reveal_strlit("5");
        reveal_strlit("6");
        reveal_strlit("7");
        reveal_strlit("8");
        reveal_strlit("9");
        reveal_strlit("a");
        reveal_strlit("b");
        reveal_strlit("c");
        reveal_strlit("d");
        reveal_strlit("e");
        reveal_strlit("f");
    }
    match d {
        0 => "0",
        1 => "1",
        2 => "2",
        3 => "3",
        4 => "4",
        5 => "5",
        6 => "6",
        7 => "7",
        8 => "8",
        9 => "9",
        10 => "a",
        11 => "b",
        12 => "c",
        13 => "d",
        14 => "e",
        _ => "f",
    }
}

/// Render an opaque hardware-id dump: a `0x` prefix and two lowercase
/// hex digits for each byte, in order.
pub fn hex_dump(bytes: &Vec<u8>) -> (r: String)
    ensures
        r@ == "0x"@ + hex_chars(bytes@),
{
    let mut out = String::new();
    out.append("0x");
    let n = bytes.len();
    let mut i: usize = 0;
    proof {
        assert(out@ =~= "0x"@ + hex_chars(bytes@.take(0)));
    }
    while i < n
        invariant
            n == bytes@.len(),
            i <= n,
            out@ == "0x"@ + hex_chars(bytes@.take(i as int)),
        decreases n - i,
    {
        let b = bytes[i];
        out.append(hex_digit_str(b / 16));
        out.append(hex_digit_str(b % 16));
        proof {
            assert(out@ =~= "0x"@ + hex_chars(bytes@.take(i + 1)));
        }
        i = i + 1;
    }
    proof {
        assert(bytes@.take(n as int) =~= bytes@);
    }
    out
}

/// Decode a hardware-id buffer: at least one whole little-endian UTF-16
/// unit and no stray byte make it text, with trailing NUL units trimmed;
/// anything else is kept as the raw bytes of an opaque dump.
pub fn decode_hardware_id(buffer: &Vec<u8>) -> (r: HardwareId)
    ensures
        buffer@.len() >= 2 && buffer@.len() % 2 == 0 ==> (r matches HardwareId::Text(units)
            && units@ == trim_trailing_nuls(units_of_bytes(buffer@))),
        !(buffer@.len() >= 2 && buffer@.len() % 2 == 0) ==> (r matches HardwareId::Hex(raw)
            && raw@ == buffer@),
{
    let len = buffer.len();
    if len >= 2 && len % 2 == 0 {
        proof {
            vstd::arithmetic::div_mod::lemma_fundamental_div_mod(buffer@.len() as int, 2);
        }
        let n = len / 2;
        let mut units: Vec<u16> = Vec::new();
        let mut i: usize = 0;
        while i < n
            invariant
                len == buffer@.len(),
                n == buffer@.len() / 2,
                2 * n <= buffer@.len(),
                i <= n,
                units@.len() == i,
                forall|j: int| 0 <= j < i ==> units@[j] == units_of_bytes(buffer@)[j],
            decreases n - i,
        {
            let b0 = buffer[2 * i];
            let b1 = buffer[2 * i + 1];
            units.push((b0 as u16) | ((b1 as u16) << 8));
            i = i + 1;
        }
        proof {
            assert(units@ =~= units_of_bytes(buffer@));
        }
        while units.len() > 0 && units[units.len() - 1] == 0
            invariant
                trim_trailing_nuls(units@) == trim_trailing_nuls(units_of_bytes(buffer@)),
            decreases units@.len(),
        {
            proof {
                assert(units@.drop_last() =~= units@.subrange(0, units@.len() - 1));
            }
            let _ = units.pop();
        }
        proof {
            assert(trim_trailing_nuls(units@) == units@);
        }
        HardwareId::Text(units)
    } else {
        let mut raw: Vec<u8> = Vec::new();
        let mut i: usize = 0;
        while i < len
            invariant
                len == buffer@.len(),
                i <= len,
                raw@ == buffer@.take(i as int),
            decreases len - i,
        {
            raw.push(buffer[i]);
            proof {
                assert(raw@ =~= buffer@.take(i + 1));
            }
            i = i + 1;
        }
        proof {
            assert(raw@ =~= buffer@);
        }
        HardwareId::Hex(raw)
    }
}

} // verus!
