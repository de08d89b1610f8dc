//! NUL-terminated wide strings and UTF-16 encoding.
//!
//! The system registry and the OS device calls speak in wide strings: a
//! sequence of UTF-16 code units closed by one NUL unit. `WCStr` keeps
//! that terminator as an invariant, and `encode_utf16` produces the code
//! units of ordinary text.

use vstd::prelude::*;
use vstd::std_specs::iter::IteratorSpec;

verus! {

/// A potentially ill-formed UTF-16 wide string with a NUL terminator.
#[derive(Debug)]
pub struct WCStr {
    units: Vec<u16>,
}

/// The error of building a wide string from units missing the terminator.
#[derive(Debug, PartialEq, Eq, Structural)]
pub struct NotNulTerminatedError;

impl WCStr {
    /// All code units of the wide string, the NUL terminator included.
    pub closed spec fn spec_units(&self) -> Seq<u16> {
        self.units@
    }

    /// The wide string ends in its NUL terminator.
    pub open spec fn wf(&self) -> bool {
        self.spec_units().len() >= 1 && self.spec_units().last() == 0u16
    }

    /// Build a wide string from code units; units not closed by a NUL
    /// terminator are rejected.
    pub fn try_from_slice(value: &[u16]) -> (r: Result<Self, NotNulTerminatedError>)
        ensures
            value@.len() > 0 && value@.last() == 0u16 ==> (r matches Ok(w) && w.wf()
                && w.spec_units() == value@),
            !(value@.len() > 0 && value@.last() == 0u16) ==> r == Err::<Self, _>(
                NotNulTerminatedError,
            ),
    {
        let len = value.len();
        if len > 0 && *vstd::slice::slice_index_get(value, len - 1) == 0 {
            let units = vstd::slice::slice_to_vec(value);
            Ok(WCStr { units })
        } else {
            Err(NotNulTerminatedError)
        }
    }

    /// Length of the wide string in code units, the NUL terminator
    /// excluded.
    pub fn char_len(&self) -> (r: usize)
        requires
            self.wf(),
        ensures
            r == self.spec_units().len() - 1,
    {
        self.units.len() - 1
    }

    /// Whether the wide string holds only its NUL terminator.
    pub fn is_empty(&self) -> (r: bool)
        requires
            self.wf(),
        ensures
            r == (self.spec_units().len() == 1),
    {
        self.char_len() == 0
    }

    /// Length of the wide string in bytes, the NUL terminator included.
    pub fn bytes_len(&self) -> (r: usize)
        requires
            2 * self.spec_units().len() <= usize::MAX,
        ensures
            r == 2 * self.spec_units().len(),
    {
        2 * self.units.len()
    }

    /// The code units of the wide string, the NUL terminator excluded.
    pub fn as_slice(&self) -> (r: &[u16])
        requires
            self.wf(),
        ensures
            r@ == self.spec_units().take(self.spec_units().len() - 1),
    {
        vstd::slice::slice_subrange(self.units.as_slice(), 0, self.units.len() - 1)
    }

    /// Every code unit of the wide string, the NUL terminator included.
    pub fn as_units(&self) -> (r: &[u16])
        ensures
            r@ == self.spec_units(),
    {
        self.units.as_slice()
    }

    /// A copy of this wide string holding exactly the same code units.
    pub fn duplicate(&self) -> (r: WCStr)
        ensures
            r.spec_units() == self.spec_units(),
    {
        WCStr { units: vstd::slice::slice_to_vec(self.units.as_slice()) }
    }

    /// Whether two wide strings hold exactly the same code units.
    pub fn eq_units(&self, other: &WCStr) -> (r: bool)
        ensures
            r == (self.spec_units() == other.spec_units()),
    {
        let n = self.units.len();
        if n != other.units.len() {
            proof {
                assert(self.spec_units() != other.spec_units());
            }
            return false;
        }
        let mut i: usize = 0;
        while i < n
            invariant
                n == self.spec_units().len(),
                n == other.spec_units().len(),
                i <= n,
                forall|j: int| 0 <= j < i ==> self.spec_units()[j] == other.spec_units()[j],
            decreases n - i,
        {
            if self.units[i] != other.units[i] {
                proof {
                    assert(self.spec_units() != other.spec_units());
                }
                return false;
            }
            i = i + 1;
        }
        proof {
            assert(self.spec_units() =~= other.spec_units());
        }
        true
    }
}

/// The UTF-16 code units encoding one character: scalar values below
/// 0x10000 are one unit, the rest a surrogate pair.
pub open spec fn utf16_units_of_char(c: char) -> Seq<u16> {
    if (c as u32) < 0x10000 {
        seq![(c as u32) as u16]
    } else {
        let w = ((c as u32) - 0x10000) as u32;
        seq![(0xD800 + (w >> 10)) as u16, (0xDC00 + (w & 0x3FF)) as u16]
    }
}

/// The UTF-16 code units encoding a character sequence, in order.
pub open spec fn utf16_units(chars: Seq<char>) -> Seq<u16>
    decreases chars.len(),
{
    if chars.len() == 0 {
        Seq::empty()
    } else {
        utf16_units_of_char(chars[0]) + utf16_units(chars.drop_first())
    }
}

/// Appending one character appends its code units.
pub proof fn lemma_utf16_units_push(chars: Seq<char>, c: char)
    ensures
        utf16_units(chars.push(c)) == utf16_units(chars) + utf16_units_of_char(c),
    decreases chars.len(),
{
    if chars.len() == 0 {
        assert(chars.push(c)[0] == c);
        assert(chars.push(c).drop_first() =~= chars);
        assert(utf16_units(chars) =~= Seq::<u16>::empty());
        assert(utf16_units(chars.push(c)) =~= utf16_units(chars) + utf16_units_of_char(c));
    } else {
        assert(chars.push(c)[0] == chars[0]);
        assert(chars.push(c).drop_first() =~= chars.drop_first().push(c));
        lemma_utf16_units_push(chars.drop_first(), c);
        assert(utf16_units(chars.push(c)) =~= utf16_units(chars) + utf16_units_of_char(c));
    }
}

/// Append the UTF-16 code units of one character.
fn push_utf16_char(out: &mut Vec<u16>, c: char)
    ensures
        final(out)@ == old(out)@ + utf16_units_of_char(c),
{
    proof {
        vstd::utf8::char_is_scalar(c);
    }
    let v = c as u32;
    if v < 0x10000 {
        out.push(v as u16);
        assert(final(out)@ =~= old(out)@ + utf16_units_of_char(c));
    } else {
        let w = v - 0x10000;
        proof {
            assert(w >> 10 <= 0x3FFu32 && w & 0x3FF <= 0x3FFu32) by (bit_vector)
                requires
                    w <= 0xFFFFFu32,
            ;
        }
        out.push((0xD800 + (w >> 10)) as u16);
        out.push((0xDC00 + (w & 0x3FF)) as u16);
        assert(final(out)@ =~= old(out)@ + utf16_units_of_char(c));
    }
}

/// Encode text as UTF-16: exactly the code units of each character of
/// the input, in order, with no terminator added.
pub fn encode_utf16(s: &str) -> (r: Vec<u16>)
    ensures
        r@ == utf16_units(s@),
{
    broadcast use vstd::string::next_postcondition;
    broadcast use vstd::string::axiom_spec_iter;

    let mut out: Vec<u16> = Vec::new();
    let mut it = s.chars();
    let ghost mut done: Seq<char> = Seq::empty();
    proof {
        assert(done + it.remaining() =~= s@);
        assert(utf16_units(done) =~= Seq::<u16>::empty());
    }
    loop
        invariant_except_break
            s@ == done + it.remaining(),
            out@ == utf16_units(done),
            it.decrease() is Some,
        ensures
            out@ == utf16_units(s@),
        decreases it.decrease()->0,
    {
        match it.next() {
            Some(c) => {
                proof {
                    lemma_utf16_units_push(done, c);
                    done = done.push(c);
                    assert(s@ =~= done + it.remaining());
                }
                push_utf16_char(&mut out, c);
            },
            None => {
                proof {
                    assert(done =~= s@);
                }
                break ;
            },
        }
    }
    out
}

/// Number of UTF-16 code units that encode the text.
pub fn utf16_len(s: &str) -> (r: usize)
    ensures
        r == utf16_units(s@).len(),
{
    let units = encode_utf16(s);
    units.len()
}

/// Relies on char::from_u32 of std: a Unicode scalar value converts to
/// the char of that value, and any other 32-bit value to nothing.
pub assume_specification[ char::from_u32 ](i: u32) -> (r: Option<char>)
    ensures
        r matches Some(c) ==> vstd::utf8::is_scalar(i) && c as u32 == i,
        r is None ==> !vstd::utf8::is_scalar(i),
;

/// What one step of the UTF-8 cursor yields at byte offset `i`: the code
/// point assembled from the leading byte's arm and the offset past it, or
/// nothing where fewer bytes remain than the arm consumes. The arms
/// mirror the decoder exactly: one byte up to 0x7F, two from 0xC0–0xDF,
/// three from 0xE0–0xEF, and four for every remaining leading byte.
pub open spec fn spec_next_code_point(b: Seq<u8>, i: int) -> Option<(u32, int)> {
    let n = b.len() as int;
    if i >= n {
        None
    } else if b[i] <= 0x7F {
        Some(((b[i] as u32), i + 1))
    } else if 0xC0 <= b[i] && b[i] <= 0xDF {
        if n - i >= 2 {
            Some(((((b[i] & 0x1F) as u32) << 6) | ((b[i + 1] & 0x3F) as u32), i + 2))
        } else {
            None
        }
    } else if 0xE0 <= b[i] && b[i] <= 0xEF {
        if n - i >= 3 {
            Some(
                (
                    (((b[i] & 0x0F) as u32) << 12) | (((b[i + 1] & 0x3F) as u32) << 6) | ((b[i + 2]
                        & 0x3F) as u32),
                    i + 3,
                ),
            )
        } else {
            None
        }
    } else {
        if n - i >= 4 {
            Some(
                (
                    (((b[i] & 0x07) as u32) << 18) | (((b[i + 1] & 0x3F) as u32) << 12) | (((b[i
                        + 2] & 0x3F) as u32) << 6) | ((b[i + 3] & 0x3F) as u32),
                    i + 4,
                ),
            )
        } else {
            None
        }
    }
}

/// Wherever a buffer holds a well-formed UTF-8 encoding at offset `i`,
/// one step of the cursor yields exactly the code point and width that
/// the UTF-8 specification assigns to it.
pub proof fn lemma_next_code_point_agrees_with_utf8(b: Seq<u8>, i: int)
    requires
        0 <= i <= b.len(),
        vstd::utf8::valid_leading_and_continuation_bytes_first_codepoint(b.skip(i)),
    ensures
        spec_next_code_point(b, i) matches Some((cp, j)) && cp == vstd::utf8::decode_first_codepoint(
            b.skip(i),
        ) && j == i + vstd::utf8::length_of_first_codepoint(b.skip(i)),
{
    let rest = b.skip(i);
    assert(forall|k: int| 0 <= k < rest.len() ==> rest[k] == b[i + k]);
    let x = rest[0];
    if vstd::utf8::is_leading_byte_width_1(x) {
        assert((x & 0x7F) as u32 == x as u32) by (bit_vector)
            requires
                x <= 0x7F,
        ;
    }
}

/// Decode the code point at byte offset `start` of a UTF-8 buffer,
/// returning it with the offset just past it.
pub fn next_code_point(utf8: &[u8], start: usize) -> (r: Option<(u32, usize)>)
    ensures
        spec_next_code_point(utf8@, start as int) is None ==> r is None,
        spec_next_code_point(utf8@, start as int) matches Some((cp, j)) ==> (r matches Some(
            (rcp, rj),
        ) && rcp == cp && rj == j),
{
    let n = utf8.len();
    if start >= n {
        return None;
    }
    let x = *vstd::slice::slice_index_get(utf8, start);
    if x <= 0x7F {
        Some((x as u32, start + 1))
    } else if 0xC0 <= x && x <= 0xDF {
        if n - start >= 2 {
            let y = *vstd::slice::slice_index_get(utf8, start + 1);
            Some(((((x & 0x1F) as u32) << 6) | ((y & 0x3F) as u32), start + 2))
        } else {
            None
        }
    } else if 0xE0 <= x && x <= 0xEF {
        if n - start >= 3 {
            let y = *vstd::slice::slice_index_get(utf8, start + 1);
            let z = *vstd::slice::slice_index_get(utf8, start + 2);
            Some(
                (
                    (((x & 0x0F) as u32) << 12) | (((y & 0x3F) as u32) << 6) | ((z & 0x3F) as u32),
                    start + 3,
                ),
            )
        } else {
            None
        }
    } else {
        if n - start >= 4 {
            let y = *vstd::slice::slice_index_get(utf8, start + 1);
            let z = *vstd::slice::slice_index_get(utf8, start + 2);
            let w = *vstd::slice::slice_index_get(utf8, start + 3);
            Some(
                (
                    (((x & 0x07) as u32) << 18) | (((y & 0x3F) as u32) << 12) | (((z
                        & 0x3F) as u32) << 6) | ((w & 0x3F) as u32),
                    start + 4,
                ),
            )
        } else {
            None
        }
    }
}

/// Decode the character at byte offset `start` of a UTF-8 buffer,
/// returning it with the offset just past it; a code point that is no
/// Unicode scalar value yields nothing.
pub fn next_char(utf8: &[u8], start: usize) -> (r: Option<(char, usize)>)
    ensures
        spec_next_code_point(utf8@, start as int) is None ==> r is None,
        spec_next_code_point(utf8@, start as int) matches Some((cp, j)) ==> (if vstd::utf8::is_scalar(
            cp,
        ) {
            r matches Some((c, rj)) && c as u32 == cp && rj == j
        } else {
            r is None
        }),
{
    match next_code_point(utf8, start) {
        None => None,
        Some((cp, next)) => match char::from_u32(cp) {
            None => None,
            Some(c) => Some((c, next)),
        },
    }
}

/// Encode text as a NUL-terminated wide string.
pub fn encode_wide_nul(s: &str) -> (r: WCStr)
    ensures
        r.wf(),
        r.spec_units() == utf16_units(s@).push(0u16),
{
    let mut units = encode_utf16(s);
    units.push(0);
    WCStr { units }
}

} // verus!
