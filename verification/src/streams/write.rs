//! Writing values, framed buffers and strings to a stream.

use super::any_int::{append_bytes, single_byte, zeroed};
use super::byte_stream::written;
use super::endian::{
    be_write_u16, be_write_u32, be_write_u64, le_write_u16, le_write_u32, le_write_u64,
    lemma_be_bytes_len, lemma_le_bytes_len, lemma_radix_values, radix, uint_bytes_be,
    uint_bytes_le,
};
use super::{
    encode_uint, AnyInt, ByteStream, Endianness, IoErrorKind, LPWidth, MapType, StreamError,
};
use vstd::prelude::*;
use vstd::utf8::encode_utf8;

verus! {

/// The wire forms of `values`, one after the other.
pub open spec fn values_bytes(values: Seq<AnyInt>, e: Endianness) -> Seq<u8>
    decreases values.len(),
{
    if values.len() == 0 {
        Seq::<u8>::empty()
    } else {
        values_bytes(values.drop_last(), e) + values.last().wire_bytes(e)
    }
}

/// A payload behind its length: the length as an unsigned integer of the
/// width `lptype` in the byte order `lpend`, then the payload.
pub open spec fn lp_frame(payload: Seq<u8>, lptype: LPWidth, lpend: Endianness) -> Seq<u8> {
    encode_uint(payload.len(), lptype.spec_size(), lpend) + payload
}

/// A payload and the one zero byte that ends it.
pub open spec fn cstr_frame(payload: Seq<u8>) -> Seq<u8> {
    payload.push(0u8)
}

/// The failure of a write that would end beyond the largest offset.
pub open spec fn out_of_range<T>() -> Result<T, StreamError> {
    Err(StreamError::IOError(IoErrorKind::PositionOutOfRange))
}

/// What a write of `frame` at the cursor of `before` comes to: either all of
/// it is written and the cursor stands behind it, in which case the number of
/// bytes written is returned, or it would end beyond the largest offset and
/// nothing changes.
pub open spec fn wrote(
    before: &ByteStream,
    after: &ByteStream,
    frame: Seq<u8>,
    r: Result<u64, StreamError>,
) -> bool {
    if before.pos() + frame.len() <= usize::MAX {
        &&& r == Ok::<u64, StreamError>(frame.len() as u64)
        &&& after.bytes() == written(before.bytes(), before.pos(), frame)
        &&& after.pos() == before.pos() + frame.len()
    } else {
        &&& r == out_of_range::<u64>()
        &&& after.bytes() == before.bytes()
        &&& after.pos() == before.pos()
    }
}

/// Writes all of `frame` at the cursor, or nothing.
fn write_frame(stream: &mut ByteStream, frame: &Vec<u8>) -> (r: Result<u64, StreamError>)
    ensures
        wrote(old(stream), final(stream), frame@, r),
{
    stream.write_all(frame.as_slice())?;
    Ok(frame.len() as u64)
}

/// Writes the wire forms of `values` one after the other and returns the
/// number of bytes written.
pub fn write_values(stream: &mut ByteStream, values: &[AnyInt], endianness: Endianness) -> (r:
    Result<u64, StreamError>)
    ensures
        wrote(old(stream), final(stream), values_bytes(values@, endianness), r),
{
    let mut frame: Vec<u8> = Vec::new();
    let n = values.len();
    let mut i: usize = 0;
    while i < n
        invariant
            i <= n,
            n == values@.len(),
            frame@ == values_bytes(values@.take(i as int), endianness),
        decreases n - i,
    {
        let vb = match endianness {
            Endianness::LittleEndian => values[i].to_bytes_le(),
            Endianness::BigEndian => values[i].to_bytes_be(),
        };
        append_bytes(&mut frame, vb.as_slice());
        assert(values@.take(i + 1).drop_last() =~= values@.take(i as int));
        i += 1;
    }
    assert(values@.take(n as int) =~= values@);
    write_frame(stream, &frame)
}

/// The length `len` as the bytes of a length field.
fn length_prefix(len: usize, lptype: LPWidth, lpend: Endianness) -> (prefix: Vec<u8>)
    requires
        len < radix(lptype.spec_size()),
    ensures
        prefix@ == encode_uint(len as nat, lptype.spec_size(), lpend),
        prefix@.len() == lptype.spec_size(),
{
    proof {
        lemma_radix_values();
        lemma_le_bytes_len(len as nat, lptype.spec_size());
        lemma_be_bytes_len(len as nat, lptype.spec_size());
    }
    match lptype {
        LPWidth::LP8 => single_byte(len as u8),
        LPWidth::LP16 => {
            let mut buf = zeroed(2);
            match lpend {
                Endianness::LittleEndian => le_write_u16(buf.as_mut_slice(), len as u16),
                Endianness::BigEndian => be_write_u16(buf.as_mut_slice(), len as u16),
            }
            buf
        },
        LPWidth::LP32 => {
            let mut buf = zeroed(4);
            match lpend {
                Endianness::LittleEndian => le_write_u32(buf.as_mut_slice(), len as u32),
                Endianness::BigEndian => be_write_u32(buf.as_mut_slice(), len as u32),
            }
            buf
        },
        LPWidth::LP64 => {
            let mut buf = zeroed(8);
            match lpend {
                Endianness::LittleEndian => le_write_u64(buf.as_mut_slice(), len as u64),
                Endianness::BigEndian => be_write_u64(buf.as_mut_slice(), len as u64),
            }
            buf
        },
    }
}

/// Writes `bytes` behind a length field of the width `lptype` in the byte
/// order `lpend`, and returns the number of bytes written.
///
/// A payload whose length the field cannot hold is refused, and nothing is
/// written.
pub fn write_lpbuf(stream: &mut ByteStream, lptype: LPWidth, lpend: Endianness, bytes: &[u8]) -> (r:
    Result<u64, StreamError>)
    ensures
        bytes@.len() >= radix(lptype.spec_size()) ==> r == Err::<u64, StreamError>(
            StreamError::LengthOverflow,
        ) && old(stream).advanced(final(stream), 0),
        bytes@.len() < radix(lptype.spec_size()) ==> wrote(
            old(stream),
            final(stream),
            lp_frame(bytes@, lptype, lpend),
            r,
        ),
{
    let len = bytes.len();
    if !LPWidth::usize_fits(lptype, len) {
        return Err(StreamError::LengthOverflow);
    }
    let mut frame = length_prefix(len, lptype, lpend);
    append_bytes(&mut frame, bytes);
    write_frame(stream, &frame)
}

/// Writes the UTF-8 bytes of `string` behind a length field, as
/// [`write_lpbuf`] does.
pub fn write_lpstr(stream: &mut ByteStream, lptype: LPWidth, lpend: Endianness, string: &str) -> (r:
    Result<u64, StreamError>)
    ensures
        encode_utf8(string@).len() >= radix(lptype.spec_size()) ==> r == Err::<u64, StreamError>(
            StreamError::LengthOverflow,
        ) && old(stream).advanced(final(stream), 0),
        encode_utf8(string@).len() < radix(lptype.spec_size()) ==> wrote(
            old(stream),
            final(stream),
            lp_frame(encode_utf8(string@), lptype, lpend),
            r,
        ),
{
    write_lpbuf(stream, lptype, lpend, string.as_bytes())
}

/// Writes the UTF-8 bytes of `string` and one zero byte behind them, and
/// returns the number of bytes written.
pub fn write_cstr(stream: &mut ByteStream, string: &str) -> (r: Result<u64, StreamError>)
    ensures
        wrote(old(stream), final(stream), cstr_frame(encode_utf8(string@)), r),
{
    let mut frame: Vec<u8> = Vec::new();
    append_bytes(&mut frame, string.as_bytes());
    frame.push(0u8);
    write_frame(stream, &frame)
}

/// The value as it stands in a map: a value of a variant that lives in a
/// 64-bit slot as the 64-bit variant of the same signedness. A value of any
/// other variant has no 64-bit slot.
pub open spec fn slot64(v: AnyInt) -> Option<AnyInt> {
    match v {
        AnyInt::U48(x) => Some(AnyInt::U64(x)),
        AnyInt::U64(x) => Some(AnyInt::U64(x)),
        AnyInt::I48(x) => Some(AnyInt::I64(x)),
        AnyInt::I64(x) => Some(AnyInt::I64(x)),
        _ => None,
    }
}

/// Whether every value of `entries` lives in a 64-bit slot.
pub open spec fn all_slot64(entries: Seq<(String, AnyInt)>) -> bool {
    forall|i: int| 0 <= i < entries.len() ==> slot64((#[trigger] entries[i]).1) is Some
}

/// An entry of a map on the wire: the UTF-8 bytes of the name, a zero byte,
/// and the eight bytes of the value, which is of a 64-bit variant, in the
/// byte order `e`.
pub open spec fn entry_bytes(name: Seq<char>, value: AnyInt, e: Endianness) -> Seq<u8> {
    cstr_frame(encode_utf8(name)) + value.wire_bytes(e)
}

/// The first `k` of `entries` on the wire, one after the other.
pub open spec fn entries_bytes(entries: Seq<(String, AnyInt)>, k: nat, e: Endianness) -> Seq<u8>
    decreases k,
{
    if k == 0 {
        Seq::<u8>::empty()
    } else {
        entries_bytes(entries, (k - 1) as nat, e) + entry_bytes(
            entries[k - 1].0@,
            slot64(entries[k - 1].1).unwrap(),
            e,
        )
    }
}

/// A map on the wire: the number of its entries as an unsigned integer of six
/// bytes, and the entries.
pub open spec fn map_frame(entries: Seq<(String, AnyInt)>, e: Endianness) -> Seq<u8> {
    encode_uint(entries.len(), 6, e) + entries_bytes(entries, entries.len(), e)
}

/// What writing `entries` as a map comes to.
///
/// A map holds values of 64 bits. A value of a variant that lives in a 64-bit
/// slot (`U48`, `U64`, `I48`, `I64`) is written as the eight bytes of that
/// slot, a signed one in two's complement. A value of any other variant has
/// no form of eight bytes that a reader could tell from these, so it is a
/// type mismatch. More entries than six bytes can count are a length
/// overflow. In both cases nothing is written; otherwise the map is written
/// as [`wrote`] says.
pub open spec fn wrote_entries(
    before: &ByteStream,
    after: &ByteStream,
    entries: Seq<(String, AnyInt)>,
    e: Endianness,
    r: Result<u64, StreamError>,
) -> bool {
    if !all_slot64(entries) {
        r == Err::<u64, StreamError>(StreamError::TypeMismatch) && before.advanced(after, 0)
    } else if entries.len() >= radix(6) {
        r == Err::<u64, StreamError>(StreamError::LengthOverflow) && before.advanced(after, 0)
    } else {
        wrote(before, after, map_frame(entries, e), r)
    }
}

/// The value as it stands in a map, if its variant lives in a 64-bit slot.
fn widened(v: AnyInt) -> (r: Option<AnyInt>)
    ensures
        r == slot64(v),
{
    match v {
        AnyInt::U48(x) => Some(AnyInt::U64(x)),
        AnyInt::U64(x) => Some(AnyInt::U64(x)),
        AnyInt::I48(x) => Some(AnyInt::I64(x)),
        AnyInt::I64(x) => Some(AnyInt::I64(x)),
        _ => None,
    }
}

/// Whether every value of `entries` lives in a 64-bit slot.
fn check_values(entries: &[(String, AnyInt)]) -> (ok: bool)
    ensures
        ok == all_slot64(entries@),
{
    let mut i: usize = 0;
    while i < entries.len()
        invariant
            i <= entries@.len(),
            forall|j: int| 0 <= j < i ==> slot64((#[trigger] entries@[j]).1) is Some,
        decreases entries@.len() - i,
    {
        if widened(entries[i].1).is_none() {
            return false;
        }
        i += 1;
    }
    true
}

/// Writes `entries` as a map and returns the number of bytes written: the
/// number of entries in six bytes in the byte order `endianness`, and each
/// entry as its name, a zero byte and its value in eight bytes. See
/// [`wrote_entries`] for the values that a map holds.
pub fn write_entries(
    stream: &mut ByteStream,
    endianness: Endianness,
    entries: &[(String, AnyInt)],
) -> (r: Result<u64, StreamError>)
    ensures
        wrote_entries(old(stream), final(stream), entries@, endianness, r),
{
    if !check_values(entries) {
        return Err(StreamError::TypeMismatch);
    }
    let n = entries.len();
    proof {
        lemma_radix_values();
    }
    if n as u64 >= 0x1_0000_0000_0000 {
        return Err(StreamError::LengthOverflow);
    }
    let mut frame = match endianness {
        Endianness::LittleEndian => uint_bytes_le(n as u128, 6),
        Endianness::BigEndian => uint_bytes_be(n as u128, 6),
    };
    let ghost head = frame@;
    let mut i: usize = 0;
    while i < n
        invariant
            i <= n,
            n == entries@.len(),
            all_slot64(entries@),
            frame@ == head + entries_bytes(entries@, i as nat, endianness),
        decreases n - i,
    {
        let ghost before = frame@;
        append_bytes(&mut frame, entries[i].0.as_str().as_bytes());
        frame.push(0u8);
        let word = match widened(entries[i].1) {
            Some(value) => value.to_bytes(endianness),
            None => Vec::new(),
        };
        append_bytes(&mut frame, word.as_slice());
        assert(frame@ =~= before + entry_bytes(
            entries@[i as int].0@,
            slot64(entries@[i as int].1).unwrap(),
            endianness,
        ));
        i += 1;
    }
    write_frame(stream, &frame)
}

/// Writes `map` as a map, as [`write_entries`] writes the entries of `map`
/// in the order in which `map` lists them. The width `_lpwidth` has no
/// effect: the number of entries always takes six bytes.
pub fn write_map<M: MapType>(
    stream: &mut ByteStream,
    endianness: Endianness,
    map: &M,
    _lpwidth: LPWidth,
) -> (r: Result<u64, StreamError>)
    requires
        map.map_wf(),
    ensures
        wrote_entries(old(stream), final(stream), map.listed(), endianness, r),
{
    let entries = map.iter();
    write_entries(stream, endianness, entries.as_slice())
}

} // verus!
