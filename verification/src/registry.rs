//! Registry value parsing and encoding.
//!
//! The system registry hands values back as raw bytes tagged with a
//! numeric type. The functions here turn those bytes into typed values —
//! words, wide strings, and multi-strings — and encode multi-strings back
//! into the registry's wire form, byte for byte.

use vstd::prelude::*;

use crate::codec::{u16_le, u16_of_le, u32_of_le};
use crate::hwid::units_of_bytes;
use crate::wcstr::WCStr;

verus! {

/// Registry value type tag: a NUL-terminated wide string.
pub const REG_SZ: u32 = 1;

/// Registry value type tag: a 32-bit word.
pub const REG_DWORD: u32 = 4;

/// Registry value type tag: a sequence of wide strings with a final
/// extra NUL.
pub const REG_MULTI_SZ: u32 = 7;

/// Registry value type tag: a 64-bit word.
pub const REG_QWORD: u32 = 11;

/// OS status: the data bytes do not form a value of the tagged type.
pub const ERROR_INVALID_DATA: u32 = 13;

/// OS status: the data bytes are not laid out as whole wide units.
pub const ERROR_MAPPED_ALIGNMENT: u32 = 1132;

/// OS status: the value type tag is not one this client handles.
pub const ERROR_UNSUPPORTED_TYPE: u32 = 1630;

/// A registry operation error: a nonzero OS status code.
#[derive(Debug, Clone, Copy, PartialEq, Eq, Structural)]
pub struct Error {
    code: u32,
}

impl Error {
    /// The OS status carried by this error.
    pub closed spec fn spec_code(&self) -> u32 {
        self.code
    }

    /// The error is a real failure: its status code is nonzero.
    pub open spec fn wf(&self) -> bool {
        self.spec_code() != 0
    }

    /// Wrap a nonzero OS status as an error.
    pub fn from_win32(code: u32) -> (r: Error)
        requires
            code != 0,
        ensures
            r.spec_code() == code,
            r.wf(),
    {
        Error { code }
    }

    /// The OS status carried by this error.
    pub fn code(&self) -> (r: u32)
        ensures
            r == self.spec_code(),
    {
        self.code
    }

    /// The error for data bytes that do not form the tagged type.
    pub fn invalid_data() -> (r: Error)
        ensures
            r.spec_code() == ERROR_INVALID_DATA,
            r.wf(),
    {
        Error { code: ERROR_INVALID_DATA }
    }

    /// The error for data bytes not laid out as whole wide units.
    pub fn mapped_alignment() -> (r: Error)
        ensures
            r.spec_code() == ERROR_MAPPED_ALIGNMENT,
            r.wf(),
    {
        Error { code: ERROR_MAPPED_ALIGNMENT }
    }

    /// The error for a value type tag this client does not handle.
    pub fn unsupported_type() -> (r: Error)
        ensures
            r.spec_code() == ERROR_UNSUPPORTED_TYPE,
            r.wf(),
    {
        Error { code: ERROR_UNSUPPORTED_TYPE }
    }
}

/// Classify a raw OS status: zero is success, anything else the error
/// carrying that status.
pub fn win32_result(result: u32) -> (r: Result<(), Error>)
    ensures
        result == 0 ==> r is Ok,
        result != 0 ==> (r matches Err(e) && e.spec_code() == result),
{
    if result == 0 {
        Ok(())
    } else {
        Err(Error::from_win32(result))
    }
}

/// A typed registry value.
#[derive(Debug)]
pub enum Value {
    /// A 32-bit word.
    U32(u32),
    /// A 64-bit word.
    U64(u64),
    /// One NUL-terminated wide string.
    Sz(WCStr),
    /// A sequence of NUL-terminated wide strings.
    MultiSz(Vec<WCStr>),
}

/// The code units of each parsed wide string, terminators included.
pub open spec fn parts_of(v: Seq<WCStr>) -> Seq<Seq<u16>> {
    Seq::new(v.len(), |i: int| v[i].spec_units())
}

/// The first index at or after `i` holding a NUL unit, or the length
/// where none does.
pub open spec fn first_nul_from(w: Seq<u16>, i: int) -> int
    decreases w.len() - i,
{
    if i < 0 || i >= w.len() {
        w.len() as int
    } else if w[i] == 0u16 {
        i
    } else {
        first_nul_from(w, i + 1)
    }
}

/// A NUL scan stays between its start and the length.
pub proof fn lemma_first_nul_from_bounds(w: Seq<u16>, i: int)
    requires
        0 <= i <= w.len(),
    ensures
        i <= first_nul_from(w, i) <= w.len(),
    decreases w.len() - i,
{
    if i < w.len() && w[i] != 0u16 {
        lemma_first_nul_from_bounds(w, i + 1);
    }
}

/// The wide strings a multi-string buffer parses into: NUL-terminated
/// runs taken from the front, each kept with its terminator, stopping at
/// the first empty run or when no terminator remains.
pub open spec fn spec_multi_strings(w: Seq<u16>) -> Seq<Seq<u16>>
    decreases w.len(),
    via spec_multi_strings_decreases
{
    let k = first_nul_from(w, 0);
    if k >= w.len() || k == 0 {
        Seq::empty()
    } else {
        seq![w.take(k + 1)] + spec_multi_strings(w.skip(k + 1))
    }
}

#[via_fn]
proof fn spec_multi_strings_decreases(w: Seq<u16>) {
    lemma_first_nul_from_bounds(w, 0);
}

/// Scanning past units that are not NUL does not change which index is
/// found.
proof fn lemma_first_nul_advance(w: Seq<u16>, k: int, i: int)
    requires
        0 <= k <= i <= w.len(),
        forall|j: int| k <= j < i ==> w[j] != 0u16,
    ensures
        first_nul_from(w, k) == first_nul_from(w, i),
    decreases i - k,
{
    if k < i {
        lemma_first_nul_advance(w, k + 1, i);
    }
}

/// Parse a multi-string buffer: a sequence of wide strings, each closed
/// by a NUL unit, the whole closed by one more NUL. A buffer not ending
/// in a NUL unit is rejected as invalid data. Parsing takes non-empty
/// runs from the front and stops at the first empty run.
pub fn parse_multi_string(wide: &[u16]) -> (r: Result<Vec<WCStr>, Error>)
    ensures
        !(wide@.len() > 0 && wide@.last() == 0u16) ==> (r matches Err(e) && e.spec_code()
            == ERROR_INVALID_DATA),
        wide@.len() > 0 && wide@.last() == 0u16 ==> (r matches Ok(v) && parts_of(v@)
            == spec_multi_strings(wide@) && forall|i: int| 0 <= i < v@.len() ==> (#[trigger] v@[i]).wf()),
{
    let len = wide.len();
    if len == 0 || *vstd::slice::slice_index_get(wide, len - 1) != 0 {
        return Err(Error::invalid_data());
    }
    let mut values: Vec<WCStr> = Vec::new();
    let mut start: usize = 0;
    let mut i: usize = 0;
    proof {
        assert(parts_of(values@) =~= Seq::<Seq<u16>>::empty());
        assert(wide@.skip(0) =~= wide@);
        assert(parts_of(values@) + spec_multi_strings(wide@.skip(0)) =~= spec_multi_strings(
            wide@,
        ));
    }
    while i < len
        invariant
            len == wide@.len(),
            wide@.last() == 0u16,
            len > 0,
            start <= i <= len,
            forall|j: int| start <= j < i ==> wide@[j] != 0u16,
            spec_multi_strings(wide@) == parts_of(values@) + spec_multi_strings(wide@.skip(
                start as int,
            )),
            forall|j: int| 0 <= j < values@.len() ==> (#[trigger] values@[j]).wf(),
        decreases len - i,
    {
        if *vstd::slice::slice_index_get(wide, i) == 0 {
            if start < i {
                let ghost rem = wide@.skip(start as int);
                proof {
                    lemma_first_nul_advance(rem, 0, i - start);
                    assert(rem[i - start] == 0u16);
                    assert(first_nul_from(rem, 0) == i - start);
                }
                let seg = vstd::slice::slice_subrange(wide, start, i + 1);
                let w = match WCStr::try_from_slice(seg) {
                    Ok(w) => w,
                    Err(_) => {
                        proof {
                            assert(seg@.last() == 0u16);
                            assert(false);
                        }
                        return Err(Error::invalid_data());
                    },
                };
                let ghost old_values = values@;
                values.push(w);
                proof {
                    assert(rem.take(i - start + 1) =~= wide@.subrange(start as int, i + 1));
                    assert(rem.skip(i - start + 1) =~= wide@.skip(i + 1));
                    assert(spec_multi_strings(rem) =~= seq![wide@.subrange(start as int, i + 1)]
                        + spec_multi_strings(wide@.skip(i + 1)));
                    assert(parts_of(values@) =~= parts_of(old_values).push(w.spec_units()));
                    assert(parts_of(values@) + spec_multi_strings(wide@.skip(i + 1))
                        =~= parts_of(old_values) + spec_multi_strings(rem));
                }
                start = i + 1;
            } else {
                proof {
                    let rem = wide@.skip(start as int);
                    assert(rem[0] == 0u16);
                    assert(first_nul_from(rem, 0) == 0);
                    assert(spec_multi_strings(rem) =~= Seq::<Seq<u16>>::empty());
                    assert(parts_of(values@) + spec_multi_strings(rem) =~= parts_of(values@));
                }
                return Ok(values);
            }
        }
        i = i + 1;
    }
    proof {
        if start < len {
            assert(wide@[len - 1] != 0u16);
            assert(false);
        }
        assert(wide@.skip(len as int) =~= Seq::<u16>::empty());
        assert(spec_multi_strings(wide@.skip(len as int)) =~= Seq::<Seq<u16>>::empty());
        assert(parts_of(values@) + spec_multi_strings(wide@.skip(len as int)) =~= parts_of(
            values@,
        ));
    }
    Ok(values)
}

/// The little-endian byte image of a run of wide units, in order.
pub open spec fn units_le_bytes(u: Seq<u16>) -> Seq<u8>
    decreases u.len(),
{
    if u.len() == 0 {
        Seq::empty()
    } else {
        u16_le(u[0]) + units_le_bytes(u.drop_first())
    }
}

/// Appending one unit appends its byte image.
proof fn lemma_units_le_bytes_push(u: Seq<u16>, x: u16)
    ensures
        units_le_bytes(u.push(x)) == units_le_bytes(u) + u16_le(x),
    decreases u.len(),
{
    if u.len() == 0 {
        assert(u.push(x)[0] == x);
        assert(u.push(x).drop_first() =~= u);
        assert(units_le_bytes(u) =~= Seq::<u8>::empty());
        assert(units_le_bytes(u.push(x)) =~= units_le_bytes(u) + u16_le(x));
    } else {
        assert(u.push(x)[0] == u[0]);
        assert(u.push(x).drop_first() =~= u.drop_first().push(x));
        lemma_units_le_bytes_push(u.drop_first(), x);
        assert(units_le_bytes(u.push(x)) =~= units_le_bytes(u) + u16_le(x));
    }
}

/// The byte image of the multi-string body: each string's units followed
/// by one extra NUL unit, string after string.
pub open spec fn multi_string_body_bytes(parts: Seq<Seq<u16>>) -> Seq<u8>
    decreases parts.len(),
{
    if parts.len() == 0 {
        Seq::empty()
    } else {
        units_le_bytes(parts[0]) + u16_le(0u16) + multi_string_body_bytes(parts.drop_first())
    }
}

/// Appending one string appends its units and its extra NUL unit.
proof fn lemma_multi_string_body_bytes_push(parts: Seq<Seq<u16>>, p: Seq<u16>)
    ensures
        multi_string_body_bytes(parts.push(p)) == multi_string_body_bytes(parts) + units_le_bytes(
            p,
        ) + u16_le(0u16),
    decreases parts.len(),
{
    if parts.len() == 0 {
        assert(parts.push(p)[0] == p);
        assert(parts.push(p).drop_first() =~= parts);
        assert(multi_string_body_bytes(parts) =~= Seq::<u8>::empty());
        assert(multi_string_body_bytes(parts.push(p)) =~= multi_string_body_bytes(parts)
            + units_le_bytes(p) + u16_le(0u16));
    } else {
        assert(parts.push(p)[0] == parts[0]);
        assert(parts.push(p).drop_first() =~= parts.drop_first().push(p));
        lemma_multi_string_body_bytes_push(parts.drop_first(), p);
        assert(multi_string_body_bytes(parts.push(p)) =~= multi_string_body_bytes(parts)
            + units_le_bytes(p) + u16_le(0u16));
    }
}

/// The registry wire image of a multi-string value: the body of every
/// string with its extra NUL unit, closed by one final NUL unit.
pub open spec fn multi_string_value_bytes_spec(parts: Seq<Seq<u16>>) -> Seq<u8> {
    multi_string_body_bytes(parts) + u16_le(0u16)
}

/// Append the little-endian image of each unit of a wide string.
fn push_units_le(out: &mut Vec<u8>, units: &[u16])
    ensures
        final(out)@ == old(out)@ + units_le_bytes(units@),
{
    let n = units.len();
    let mut i: usize = 0;
    proof {
        assert(units@.take(0) =~= Seq::<u16>::empty());
        assert(units_le_bytes(units@.take(0)) =~= Seq::<u8>::empty());
        assert(out@ =~= old(out)@ + units_le_bytes(units@.take(0)));
    }
    while i < n
        invariant
            n == units@.len(),
            i <= n,
            out@ == old(out)@ + units_le_bytes(units@.take(i as int)),
        decreases n - i,
    {
        let x = *vstd::slice::slice_index_get(units, i);
        out.push((x & 0xff) as u8);
        out.push(((x >> 8) & 0xff) as u8);
        proof {
            lemma_units_le_bytes_push(units@.take(i as int), units@[i as int]);
            assert(units@.take(i as int).push(units@[i as int]) =~= units@.take(i + 1));
            assert(out@ =~= old(out)@ + units_le_bytes(units@.take(i + 1)));
        }
        i = i + 1;
    }
    proof {
        assert(units@.take(n as int) =~= units@);
    }
}

/// Encode one wide string to its registry wire image: the little-endian
/// bytes of every code unit, the NUL terminator included.
pub fn wide_string_bytes(value: &WCStr) -> (r: Vec<u8>)
    ensures
        r@ == units_le_bytes(value.spec_units()),
{
    let mut out: Vec<u8> = Vec::new();
    push_units_le(&mut out, value.as_units());
    proof {
        assert(out@ =~= units_le_bytes(value.spec_units()));
    }
    out
}

/// Encode a multi-string value to its registry wire image: every
/// string's units, each followed by one extra NUL unit, and one final
/// NUL unit after them all.
///
/// Because each string already ends in its own terminator, the extra
/// unit doubles it; a parse of this image stops at the first doubled
/// terminator, so an encode-then-parse round trip recovers only the
/// first string of a multi-entry list.
pub fn multi_string_value_bytes(values: &Vec<WCStr>) -> (r: Vec<u8>)
    ensures
        r@ == multi_string_value_bytes_spec(parts_of(values@)),
{
    let mut out: Vec<u8> = Vec::new();
    let n = values.len();
    let mut i: usize = 0;
    proof {
        assert(parts_of(values@).take(0) =~= Seq::<Seq<u16>>::empty());
        assert(multi_string_body_bytes(parts_of(values@).take(0)) =~= Seq::<u8>::empty());
        assert(out@ =~= multi_string_body_bytes(parts_of(values@).take(0)));
    }
    while i < n
        invariant
            n == values@.len(),
            i <= n,
            out@ == multi_string_body_bytes(parts_of(values@).take(i as int)),
        decreases n - i,
    {
        push_units_le(&mut out, values[i].as_units());
        out.push(0);
        out.push(0);
        proof {
            assert((0u16 & 0xff) as u8 == 0u8 && ((0u16 >> 8) & 0xff) as u8 == 0u8) by (bit_vector);
            assert(u16_le(0u16) =~= seq![0u8, 0u8]);
            lemma_multi_string_body_bytes_push(
                parts_of(values@).take(i as int),
                values@[i as int].spec_units(),
            );
            assert(parts_of(values@).take(i as int).push(values@[i as int].spec_units())
                =~= parts_of(values@).take(i + 1));
            assert(out@ =~= multi_string_body_bytes(parts_of(values@).take(i + 1)));
        }
        i = i + 1;
    }
    out.push(0);
    out.push(0);
    proof {
        assert((0u16 & 0xff) as u8 == 0u8 && ((0u16 >> 8) & 0xff) as u8 == 0u8) by (bit_vector);
        assert(u16_le(0u16) =~= seq![0u8, 0u8]);
        assert(parts_of(values@).take(n as int) =~= parts_of(values@));
        assert(out@ =~= multi_string_value_bytes_spec(parts_of(values@)));
    }
    out
}

/// The wide units read from a value's bytes; a stray odd byte makes the
/// buffer no run of wide units at all.
pub fn to_u16_units(bytes: &[u8]) -> (r: Result<Vec<u16>, Error>)
    ensures
        bytes@.len() % 2 == 0 ==> (r matches Ok(v) && v@ == units_of_bytes(bytes@)),
        bytes@.len() % 2 != 0 ==> (r matches Err(e) && e.spec_code() == ERROR_MAPPED_ALIGNMENT),
{
    let len = bytes.len();
    if len % 2 != 0 {
        return Err(Error::mapped_alignment());
    }
    proof {
        vstd::arithmetic::div_mod::lemma_fundamental_div_mod(bytes@.len() as int, 2);
    }
    let n = len / 2;
    let mut units: Vec<u16> = Vec::new();
    let mut i: usize = 0;
    while i < n
        invariant
            len == bytes@.len(),
            n == bytes@.len() / 2,
            2 * n <= bytes@.len(),
            i <= n,
            units@.len() == i,
            forall|j: int| 0 <= j < i ==> units@[j] == units_of_bytes(bytes@)[j],
        decreases n - i,
    {
        let b0 = *vstd::slice::slice_index_get(bytes, 2 * i);
        let b1 = *vstd::slice::slice_index_get(bytes, 2 * i + 1);
        units.push((b0 as u16) | ((b1 as u16) << 8));
        i = i + 1;
    }
    proof {
        assert(units@ =~= units_of_bytes(bytes@));
    }
    Ok(units)
}

/// Parse a registry value from its type tag and raw bytes: exactly four
/// bytes make a 32-bit word and exactly eight a 64-bit word, wide-unit
/// buffers make strings and multi-strings, and any other tag is refused
/// as unsupported.
pub fn from_bytes(value_type: u32, bytes: &[u8]) -> (r: Result<Value, Error>)
    ensures
        value_type == REG_DWORD ==> (if bytes@.len() == 4 {
            r matches Ok(v) && v matches Value::U32(x) && x == u32_of_le(
                bytes@[0],
                bytes@[1],
                bytes@[2],
                bytes@[3],
            )
        } else {
            r matches Err(e) && e.spec_code() == ERROR_INVALID_DATA
        }),
        value_type == REG_QWORD ==> (if bytes@.len() == 8 {
            r matches Ok(v) && v matches Value::U64(x) && x == ((u32_of_le(
                bytes@[0],
                bytes@[1],
                bytes@[2],
                bytes@[3],
            ) as u64) | ((u32_of_le(bytes@[4], bytes@[5], bytes@[6], bytes@[7]) as u64) << 32))
        } else {
            r matches Err(e) && e.spec_code() == ERROR_INVALID_DATA
        }),
        value_type == REG_SZ ==> (if bytes@.len() % 2 != 0 {
            r matches Err(e) && e.spec_code() == ERROR_MAPPED_ALIGNMENT
        } else if units_of_bytes(bytes@).len() > 0 && units_of_bytes(bytes@).last() == 0u16 {
            r matches Ok(v) && v matches Value::Sz(w) && w.wf() && w.spec_units() == units_of_bytes(
                bytes@,
            )
        } else {
            r matches Err(e) && e.spec_code() == ERROR_INVALID_DATA
        }),
        value_type == REG_MULTI_SZ ==> (if bytes@.len() % 2 != 0 {
            r matches Err(e) && e.spec_code() == ERROR_MAPPED_ALIGNMENT
        } else if units_of_bytes(bytes@).len() > 0 && units_of_bytes(bytes@).last() == 0u16 {
            r matches Ok(v) && v matches Value::MultiSz(vs) && parts_of(vs@) == spec_multi_strings(
                units_of_bytes(bytes@),
            ) && forall|i: int| 0 <= i < vs@.len() ==> (#[trigger] vs@[i]).wf()
        } else {
            r matches Err(e) && e.spec_code() == ERROR_INVALID_DATA
        }),
        value_type != REG_DWORD && value_type != REG_QWORD && value_type != REG_SZ && value_type
            != REG_MULTI_SZ ==> (r matches Err(e) && e.spec_code() == ERROR_UNSUPPORTED_TYPE),
{
    if value_type == REG_DWORD {
        if bytes.len() == 4 {
            let b0 = *vstd::slice::slice_index_get(bytes, 0);
            let b1 = *vstd::slice::slice_index_get(bytes, 1);
            let b2 = *vstd::slice::slice_index_get(bytes, 2);
            let b3 = *vstd::slice::slice_index_get(bytes, 3);
            Ok(Value::U32((b0 as u32) | ((b1 as u32) << 8) | ((b2 as u32) << 16) | ((b3
                as u32) << 24)))
        } else {
            Err(Error::invalid_data())
        }
    } else if value_type == REG_QWORD {
        if bytes.len() == 8 {
            let b0 = *vstd::slice::slice_index_get(bytes, 0);
            let b1 = *vstd::slice::slice_index_get(bytes, 1);
            let b2 = *vstd::slice::slice_index_get(bytes, 2);
            let b3 = *vstd::slice::slice_index_get(bytes, 3);
            let b4 = *vstd::slice::slice_index_get(bytes, 4);
            let b5 = *vstd::slice::slice_index_get(bytes, 5);
            let b6 = *vstd::slice::slice_index_get(bytes, 6);
            let b7 = *vstd::slice::slice_index_get(bytes, 7);
            let lo = (b0 as u32) | ((b1 as u32) << 8) | ((b2 as u32) << 16) | ((b3 as u32) << 24);
            let hi = (b4 as u32) | ((b5 as u32) << 8) | ((b6 as u32) << 16) | ((b7 as u32) << 24);
            Ok(Value::U64((lo as u64) | ((hi as u64) << 32)))
        } else {
            Err(Error::invalid_data())
        }
    } else if value_type == REG_SZ {
        let units = match to_u16_units(bytes) {
            Ok(u) => u,
            Err(e) => {
                return Err(e);
            },
        };
        match WCStr::try_from_slice(units.as_slice()) {
            Ok(w) => Ok(Value::Sz(w)),
            Err(_) => Err(Error::invalid_data()),
        }
    } else if value_type == REG_MULTI_SZ {
        let units = match to_u16_units(bytes) {
            Ok(u) => u,
            Err(e) => {
                return Err(e);
            },
        };
        let len = units.len();
        if len == 0 || units[len - 1] != 0 {
            return Err(Error::invalid_data());
        }
        match parse_multi_string(units.as_slice()) {
            Ok(vs) => Ok(Value::MultiSz(vs)),
            Err(e) => Err(e),
        }
    } else {
        Err(Error::unsupported_type())
    }
}

} // verus!
