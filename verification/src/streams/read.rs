//! Searching a stream for a signature, and reading framed buffers and
//! strings from it.

use super::any_int::zeroed;
use super::endian::{
    be_write_u32, be_write_u64, le_write_u32, le_write_u64, lemma_be_value_bound,
    lemma_le_value_bound, lemma_radix_values, uint_be, uint_le,
};
use super::helpers::{read_lpend, read_u32, read_u64, short_read};
use super::{
    decode_uint, encode_uint, AnyInt, ByteStream, Endianness, IoErrorKind, LPWidth, MapType,
    StreamError,
};
use vstd::prelude::*;
use vstd::utf8::{decode_utf8, valid_utf8};

verus! {

/// How a search for a signature ended.
pub enum ScanOutcome {
    /// The signature stands at this offset.
    Found(nat),
    /// The search ran out of stream or of its limit at this offset.
    Exhausted(nat),
}

/// The search for the `n`-byte signature `sig`, written in the byte order
/// `e`, in `data` from the offset `pos` on and below the offset `limit`.
///
/// The search goes byte by byte. Where a byte equals the first byte of the
/// signature, the `n` bytes from there on are compared with it; if they
/// differ, the search goes on behind all `n` of them, so a signature that
/// begins within them is passed over. The search is exhausted at the limit, at
/// the end of the stream, and where fewer than `n` bytes are left to compare.
pub open spec fn scan_signature(
    data: Seq<u8>,
    sig: nat,
    n: nat,
    e: Endianness,
    pos: nat,
    limit: nat,
) -> ScanOutcome
    decreases data.len() - pos,
{
    if n == 0 || pos >= limit || pos >= data.len() {
        ScanOutcome::Exhausted(pos)
    } else if data[pos as int] != encode_uint(sig, n, e)[0] {
        scan_signature(data, sig, n, e, pos + 1, limit)
    } else if pos + n > data.len() {
        ScanOutcome::Exhausted(pos)
    } else if decode_uint(data.subrange(pos as int, (pos + n) as int), e) == sig {
        ScanOutcome::Found(pos)
    } else {
        scan_signature(data, sig, n, e, pos + n, limit)
    }
}

/// The offsets that repeated searches find: each search begins behind the
/// signature that the one before it found, the first at `pos`, and none has a
/// limit.
pub open spec fn all_signatures(data: Seq<u8>, sig: nat, n: nat, e: Endianness, pos: nat) -> Seq<
    u64,
>
    decreases data.len() - pos,
{
    match scan_signature(data, sig, n, e, pos, u64::MAX as nat) {
        ScanOutcome::Found(p) => if pos <= p && p + n <= data.len() && 0 < n && p <= u64::MAX {
            seq![p as u64] + all_signatures(data, sig, n, e, p + n)
        } else {
            Seq::<u64>::empty()
        },
        ScanOutcome::Exhausted(_) => Seq::<u64>::empty(),
    }
}

/// A search ends at or behind the offset at which it began, and a signature
/// that it finds lies wholly within the stream and below the limit.
pub proof fn lemma_scan_bounds(
    data: Seq<u8>,
    sig: nat,
    n: nat,
    e: Endianness,
    pos: nat,
    limit: nat,
)
    ensures
        match scan_signature(data, sig, n, e, pos, limit) {
            ScanOutcome::Found(p) => pos <= p < limit && p + n <= data.len() && decode_uint(
                data.subrange(p as int, (p + n) as int),
                e,
            ) == sig,
            ScanOutcome::Exhausted(p) => pos <= p,
        },
    decreases data.len() - pos,
{
    if n > 0 && pos < limit && pos < data.len() {
        if data[pos as int] != encode_uint(sig, n, e)[0] {
            lemma_scan_bounds(data, sig, n, e, pos + 1, limit);
        } else if pos + n <= data.len() {
            lemma_scan_bounds(data, sig, n, e, pos + n, limit);
        }
    }
}

/// What a search leaves behind: on a find the offset of the signature is
/// returned, and the cursor stands on the signature or, with `rewind`, where
/// it stood before the search; an exhausted search fails and leaves the
/// cursor where it stopped.
pub open spec fn scanned(
    before: &ByteStream,
    after: &ByteStream,
    outcome: ScanOutcome,
    rewind: bool,
    r: Result<u64, StreamError>,
) -> bool {
    &&& after.bytes() == before.bytes()
    &&& match outcome {
        ScanOutcome::Found(p) => r == Ok::<u64, StreamError>(p as u64) && after.pos() == if rewind {
            before.pos()
        } else {
            p
        },
        ScanOutcome::Exhausted(p) => r == short_read::<u64>() && after.pos() == p,
    }
}

/// The first byte of the four bytes that `sig` is written as.
fn first_byte_u32(sig: u32, endianness: Endianness) -> (b: u8)
    ensures
        b == encode_uint(sig as nat, 4, endianness)[0],
{
    let mut buf = zeroed(4);
    match endianness {
        Endianness::LittleEndian => le_write_u32(buf.as_mut_slice(), sig),
        Endianness::BigEndian => be_write_u32(buf.as_mut_slice(), sig),
    }
    buf[0]
}

/// The first byte of the eight bytes that `sig` is written as.
fn first_byte_u64(sig: u64, endianness: Endianness) -> (b: u8)
    ensures
        b == encode_uint(sig as nat, 8, endianness)[0],
{
    let mut buf = zeroed(8);
    match endianness {
        Endianness::LittleEndian => le_write_u64(buf.as_mut_slice(), sig),
        Endianness::BigEndian => be_write_u64(buf.as_mut_slice(), sig),
    }
    buf[0]
}

/// Searches `stream` for the four-byte signature `sig` and returns its
/// offset.
///
/// The search begins at the offset `skip`, or at the first byte of the stream
/// if none is given, and stays below the offset `limit`, if one is given. See
/// [`scan_signature`] for how it goes.
pub fn find_u32_signature(
    stream: &mut ByteStream,
    sig: u32,
    skip: Option<u64>,
    limit: Option<u64>,
    endianness: Endianness,
    rewind: bool,
) -> (r: Result<u64, StreamError>)
    ensures
        scanned(
            old(stream),
            final(stream),
            scan_signature(
                old(stream).bytes(),
                sig as nat,
                4,
                endianness,
                start_of(skip),
                limit_of(limit),
            ),
            rewind,
            r,
        ),
{
    let rewind_pos = stream.position();
    let sig_fbyte = first_byte_u32(sig, endianness);
    let first: u64 = match skip {
        Some(s) => s,
        None => 0,
    };
    let bound: u64 = match limit {
        Some(l) => l,
        None => u64::MAX,
    };
    let ghost data = stream.bytes();
    let len = stream.len();
    stream.seek(first);
    let mut pos: u64 = first;
    while pos < bound
        invariant
            first == start_of(skip),
            bound == limit_of(limit),
            len == data.len(),
            data == old(stream).bytes(),
            stream.bytes() == data,
            stream.pos() == pos,
            rewind_pos == old(stream).pos(),
            sig_fbyte == encode_uint(sig as nat, 4, endianness)[0],
            scan_signature(data, sig as nat, 4, endianness, pos as nat, bound as nat)
                == scan_signature(data, sig as nat, 4, endianness, first as nat, bound as nat),
        decreases data.len() - pos,
    {
        let byte = match stream.read_byte() {
            Some(b) => b,
            None => {
                return Err(StreamError::IOError(IoErrorKind::UnexpectedEndOfStream));
            },
        };
        if byte == sig_fbyte {
            stream.seek(pos);
            let sig_candidate = read_u32(stream, endianness)?;
            if sig_candidate == sig {
                stream.seek(if rewind {
                    rewind_pos
                } else {
                    pos
                });
                return Ok(pos);
            }
            pos = pos + 4;
        } else {
            pos = pos + 1;
        }
    }
    Err(StreamError::IOError(IoErrorKind::UnexpectedEndOfStream))
}

/// The offset at which a search begins.
pub open spec fn start_of(skip: Option<u64>) -> nat {
    match skip {
        Some(s) => s as nat,
        None => 0,
    }
}

/// The offset below which a search stays.
pub open spec fn limit_of(limit: Option<u64>) -> nat {
    match limit {
        Some(l) => l as nat,
        None => u64::MAX as nat,
    }
}

/// Searches `stream` for the eight-byte signature `sig` and returns its
/// offset.
///
/// The search begins at the offset `skip`, or at the first byte of the stream
/// if none is given, and stays below the offset `limit`, if one is given. See
/// [`scan_signature`] for how it goes.
pub fn find_u64_signature(
    stream: &mut ByteStream,
    sig: u64,
    skip: Option<u64>,
    limit: Option<u64>,
    endianness: Endianness,
    rewind: bool,
) -> (r: Result<u64, StreamError>)
    ensures
        scanned(
            old(stream),
            final(stream),
            scan_signature(
                old(stream).bytes(),
                sig as nat,
                8,
                endianness,
                start_of(skip),
                limit_of(limit),
            ),
            rewind,
            r,
        ),
{
    let rewind_pos = stream.position();
    let sig_fbyte = first_byte_u64(sig, endianness);
    let first: u64 = match skip {
        Some(s) => s,
        None => 0,
    };
    let bound: u64 = match limit {
        Some(l) => l,
        None => u64::MAX,
    };
    let ghost data = stream.bytes();
    let len = stream.len();
    stream.seek(first);
    let mut pos: u64 = first;
    while pos < bound
        invariant
            first == start_of(skip),
            bound == limit_of(limit),
            len == data.len(),
            data == old(stream).bytes(),
            stream.bytes() == data,
            stream.pos() == pos,
            rewind_pos == old(stream).pos(),
            sig_fbyte == encode_uint(sig as nat, 8, endianness)[0],
            scan_signature(data, sig as nat, 8, endianness, pos as nat, bound as nat)
                == scan_signature(data, sig as nat, 8, endianness, first as nat, bound as nat),
        decreases data.len() - pos,
    {
        let byte = match stream.read_byte() {
            Some(b) => b,
            None => {
                return Err(StreamError::IOError(IoErrorKind::UnexpectedEndOfStream));
            },
        };
        if byte == sig_fbyte {
            stream.seek(pos);
            let sig_candidate = read_u64(stream, endianness)?;
            if sig_candidate == sig {
                stream.seek(if rewind {
                    rewind_pos
                } else {
                    pos
                });
                return Ok(pos);
            }
            pos = pos + 8;
        } else {
            pos = pos + 1;
        }
    }
    Err(StreamError::IOError(IoErrorKind::UnexpectedEndOfStream))
}

/// Searches `stream` for every four-byte signature `sig` that repeated
/// searches find, and returns their offsets.
///
/// The first search begins at the first byte of the stream and each later one
/// behind the signature found before it; the search that finds nothing ends
/// the list and is no failure. The cursor is left on the last signature
/// found, or where it stood if there is none.
pub fn find_all_u32_signatures(stream: &mut ByteStream, sig: u32, endianness: Endianness) -> (r:
    Result<Vec<u64>, StreamError>)
    ensures
        r.is_ok(),
        r.unwrap()@ == all_signatures(old(stream).bytes(), sig as nat, 4, endianness, 0),
        final(stream).bytes() == old(stream).bytes(),
        final(stream).pos() == if r.unwrap()@.len() == 0 {
            old(stream).pos()
        } else {
            r.unwrap()@.last() as nat
        },
{
    let rewind_pos = stream.position();
    let len = stream.len();
    let ghost data = stream.bytes();
    let mut positions: Vec<u64> = Vec::new();
    let mut from: u64 = 0;
    loop
        invariant
            data == old(stream).bytes(),
            stream.bytes() == data,
            len == data.len(),
            rewind_pos == old(stream).pos(),
            from <= len,
            all_signatures(data, sig as nat, 4, endianness, 0) == positions@ + all_signatures(
                data,
                sig as nat,
                4,
                endianness,
                from as nat,
            ),
        ensures
            stream.bytes() == data,
            positions@ == all_signatures(data, sig as nat, 4, endianness, 0),
        decreases len - from,
    {
        proof {
            lemma_scan_bounds(data, sig as nat, 4, endianness, from as nat, u64::MAX as nat);
        }
        match find_u32_signature(stream, sig, Some(from), None, endianness, false) {
            Ok(pos) => {
                positions.push(pos);
                from = pos + 4;
                assert(all_signatures(data, sig as nat, 4, endianness, 0) =~= positions@
                    + all_signatures(data, sig as nat, 4, endianness, from as nat));
            },
            Err(_) => {
                break ;
            },
        }
    }
    if positions.len() == 0 {
        stream.seek(rewind_pos);
    } else {
        stream.seek(positions[positions.len() - 1]);
    }
    Ok(positions)
}

/// Searches `stream` for every eight-byte signature `sig` that repeated
/// searches find, and returns their offsets.
///
/// The first search begins at the first byte of the stream and each later one
/// behind the signature found before it; the search that finds nothing ends
/// the list and is no failure. The cursor is left on the last signature
/// found, or where it stood if there is none.
pub fn find_all_u64_signatures(stream: &mut ByteStream, sig: u64, endianness: Endianness) -> (r:
    Result<Vec<u64>, StreamError>)
    ensures
        r.is_ok(),
        r.unwrap()@ == all_signatures(old(stream).bytes(), sig as nat, 8, endianness, 0),
        final(stream).bytes() == old(stream).bytes(),
        final(stream).pos() == if r.unwrap()@.len() == 0 {
            old(stream).pos()
        } else {
            r.unwrap()@.last() as nat
        },
{
    let rewind_pos = stream.position();
    let len = stream.len();
    let ghost data = stream.bytes();
    let mut positions: Vec<u64> = Vec::new();
    let mut from: u64 = 0;
    loop
        invariant
            data == old(stream).bytes(),
            stream.bytes() == data,
            len == data.len(),
            rewind_pos == old(stream).pos(),
            from <= len,
            all_signatures(data, sig as nat, 8, endianness, 0) == positions@ + all_signatures(
                data,
                sig as nat,
                8,
                endianness,
                from as nat,
            ),
        ensures
            stream.bytes() == data,
            positions@ == all_signatures(data, sig as nat, 8, endianness, 0),
        decreases len - from,
    {
        proof {
            lemma_scan_bounds(data, sig as nat, 8, endianness, from as nat, u64::MAX as nat);
        }
        match find_u64_signature(stream, sig, Some(from), None, endianness, false) {
            Ok(pos) => {
                positions.push(pos);
                from = pos + 8;
                assert(all_signatures(data, sig as nat, 8, endianness, 0) =~= positions@
                    + all_signatures(data, sig as nat, 8, endianness, from as nat));
            },
            Err(_) => {
                break ;
            },
        }
    }
    if positions.len() == 0 {
        stream.seek(rewind_pos);
    } else {
        stream.seek(positions[positions.len() - 1]);
    }
    Ok(positions)
}

/// What stands at the cursor of a stream that is read as a payload behind a
/// length field.
pub enum FrameOutcome {
    /// Too few bytes are left for the length field.
    NoLength,
    /// The length field is there, and fewer bytes behind it than it says.
    Short,
    /// The length field and the payload that it announces.
    Payload(Seq<u8>),
}

/// The frame at the cursor of `s`, for a length field of the width `lptype`
/// in the byte order `lpend`.
pub open spec fn lp_outcome(s: &ByteStream, lptype: LPWidth, lpend: Endianness) -> FrameOutcome {
    let w = lptype.spec_size();
    let len = decode_uint(s.next(w), lpend);
    if !s.has(w) {
        FrameOutcome::NoLength
    } else if !s.has(w + len) {
        FrameOutcome::Short
    } else {
        FrameOutcome::Payload(s.bytes().subrange((s.pos() + w) as int, (s.pos() + w + len) as int))
    }
}

/// `String::from_utf8`: the text that `bytes` encode, or `None` where they are
/// not valid UTF-8.
#[verifier::external_body]
fn string_from_utf8(bytes: Vec<u8>) -> (r: Option<String>)
    ensures
        r.is_some() == valid_utf8(bytes@),
        r matches Some(s) ==> s@ == decode_utf8(bytes@),
{
    String::from_utf8(bytes).ok()
}

/// The text that `bytes` encode, or the failure that they are not UTF-8.
pub fn text_of(bytes: Vec<u8>) -> (r: Result<String, StreamError>)
    ensures
        valid_utf8(bytes@) ==> r.is_ok() && r.unwrap()@ == decode_utf8(bytes@),
        !valid_utf8(bytes@) ==> r == Err::<String, StreamError>(StreamError::InvalidEncoding),
{
    match string_from_utf8(bytes) {
        Some(s) => Ok(s),
        None => Err(StreamError::InvalidEncoding),
    }
}

/// Reads a length field and the payload of that length behind it.
///
/// The read fails where too few bytes are left for the length field, and the
/// cursor stays; and where fewer bytes follow the field than it says, and the
/// cursor stays behind the field.
pub fn read_lpbuf(stream: &mut ByteStream, lptype: LPWidth, lpend: Endianness) -> (r: Result<
    Vec<u8>,
    StreamError,
>)
    ensures
        match lp_outcome(old(stream), lptype, lpend) {
            FrameOutcome::NoLength => r == short_read::<Vec<u8>>() && old(stream).advanced(
                final(stream),
                0,
            ),
            FrameOutcome::Short => r == short_read::<Vec<u8>>() && old(stream).advanced(
                final(stream),
                lptype.spec_size(),
            ),
            FrameOutcome::Payload(p) => r.is_ok() && r.unwrap()@ == p && old(stream).advanced(
                final(stream),
                lptype.spec_size() + p.len(),
            ),
        },
{
    let len = read_lpend(stream, lptype, lpend)?;
    let total: usize = stream.len();
    if len > total as u64 {
        return Err(StreamError::IOError(IoErrorKind::UnexpectedEndOfStream));
    }
    stream.read_exact(len as usize)
}

/// Reads a length field and the payload behind it, as [`read_lpbuf`] does,
/// and takes the payload as UTF-8 text. A payload that is not UTF-8 fails,
/// with the cursor behind it.
pub fn read_lpstr(stream: &mut ByteStream, lptype: LPWidth, lpend: Endianness) -> (r: Result<
    String,
    StreamError,
>)
    ensures
        match lp_outcome(old(stream), lptype, lpend) {
            FrameOutcome::NoLength => r == short_read::<String>() && old(stream).advanced(
                final(stream),
                0,
            ),
            FrameOutcome::Short => r == short_read::<String>() && old(stream).advanced(
                final(stream),
                lptype.spec_size(),
            ),
            FrameOutcome::Payload(p) => old(stream).advanced(
                final(stream),
                lptype.spec_size() + p.len(),
            ) && if valid_utf8(p) {
                r.is_ok() && r.unwrap()@ == decode_utf8(p)
            } else {
                r == Err::<String, StreamError>(StreamError::InvalidEncoding)
            },
        },
{
    let buf = read_lpbuf(stream, lptype, lpend)?;
    text_of(buf)
}

/// How many bytes a search for the zero byte that ends a string steps over,
/// from the `i`-th of `rest` on: it stops at the zero byte, at the end of
/// `rest`, and when it has stepped over `maxlen` bytes.
pub open spec fn cstr_scan(rest: Seq<u8>, i: nat, maxlen: nat) -> nat
    decreases rest.len() - i,
{
    if i >= maxlen || i >= rest.len() || rest[i as int] == 0 {
        i
    } else {
        cstr_scan(rest, i + 1, maxlen)
    }
}

/// The search for the zero byte steps over bytes that are not zero, and stops
/// where [`cstr_scan`] says.
pub proof fn lemma_cstr_scan(rest: Seq<u8>, i: nat, maxlen: nat)
    ensures
        i <= cstr_scan(rest, i, maxlen),
        forall|j: int| i <= j < cstr_scan(rest, i, maxlen) ==> rest[j] != 0,
        cstr_scan(rest, i, maxlen) >= maxlen || cstr_scan(rest, i, maxlen) >= rest.len()
            || rest[cstr_scan(rest, i, maxlen) as int] == 0,
        i <= maxlen && i <= rest.len() ==> cstr_scan(rest, i, maxlen) <= maxlen && cstr_scan(
            rest,
            i,
            maxlen,
        ) <= rest.len(),
    decreases rest.len() - i,
{
    if i < maxlen && i < rest.len() && rest[i as int] != 0 {
        lemma_cstr_scan(rest, i + 1, maxlen);
    }
}

/// The bytes of `data` from the offset `pos` on.
pub open spec fn rest_at(data: Seq<u8>, pos: nat) -> Seq<u8> {
    if pos >= data.len() {
        Seq::<u8>::empty()
    } else {
        data.skip(pos as int)
    }
}

/// What reading a string that a zero byte ends comes to, at the offset `pos`
/// of `data`: the text or the failure, and the offset of the cursor
/// afterwards.
///
/// With `k` the number of bytes before the first zero byte among the first
/// `maxlen` bytes from `pos` on, or the number of those bytes if none is
/// zero: the read fails with `LengthExceeded` where `k` is `maxlen`, and as a
/// short read where the stream ends before `maxlen` bytes and before a zero
/// byte; in both cases the cursor has stepped over the `k` bytes. Otherwise
/// the cursor stands behind the zero byte, and the `k` bytes are the text, or
/// fail with `InvalidEncoding` if they are not UTF-8.
pub open spec fn cstr_at(data: Seq<u8>, pos: nat, maxlen: nat) -> (
    Result<Seq<char>, StreamError>,
    nat,
) {
    let rest = rest_at(data, pos);
    let k = cstr_scan(rest, 0, maxlen);
    if k >= maxlen {
        (Err(StreamError::LengthExceeded), pos + k)
    } else if k >= rest.len() {
        (Err(StreamError::IOError(IoErrorKind::UnexpectedEndOfStream)), pos + k)
    } else if valid_utf8(rest.take(k as int)) {
        (Ok(decode_utf8(rest.take(k as int))), pos + k + 1)
    } else {
        (Err(StreamError::InvalidEncoding), pos + k + 1)
    }
}

/// Whether `r` is the text or the failure `res`.
pub open spec fn is_text(
    r: Result<String, StreamError>,
    res: Result<Seq<char>, StreamError>,
) -> bool {
    match res {
        Ok(text) => r.is_ok() && r.unwrap()@ == text,
        Err(e) => r == Err::<String, StreamError>(e),
    }
}

/// Reads a string that a zero byte ends, of fewer than `maxlen` bytes, and
/// steps over the zero byte. See [`cstr_at`] for the failures and for where
/// they leave the cursor.
pub fn read_cstr(stream: &mut ByteStream, maxlen: usize) -> (r: Result<String, StreamError>)
    ensures
        final(stream).bytes() == old(stream).bytes(),
        is_text(r, cstr_at(old(stream).bytes(), old(stream).pos(), maxlen as nat).0),
        final(stream).pos() == cstr_at(old(stream).bytes(), old(stream).pos(), maxlen as nat).1,
{
    let ghost rest = rest_at(stream.bytes(), stream.pos());
    let ghost start = stream.pos();
    let mut buf: Vec<u8> = Vec::new();
    let mut i: usize = 0;
    loop
        invariant_except_break
            stream.pos() == start + i,
        invariant
            rest == rest_at(old(stream).bytes(), old(stream).pos()),
            start == old(stream).pos(),
            stream.bytes() == old(stream).bytes(),
            i <= maxlen,
            i <= rest.len(),
            buf@ == rest.take(i as int),
            cstr_scan(rest, i as nat, maxlen as nat) == cstr_scan(rest, 0, maxlen as nat),
        ensures
            stream.bytes() == old(stream).bytes(),
            stream.pos() == start + i + 1,
            i < maxlen,
            i < rest.len(),
            i == cstr_scan(rest, 0, maxlen as nat),
            buf@ == rest.take(i as int),
        decreases maxlen - i,
    {
        if i >= maxlen {
            return Err(StreamError::LengthExceeded);
        }
        let b = match stream.read_byte() {
            Some(b) => b,
            None => {
                return Err(StreamError::IOError(IoErrorKind::UnexpectedEndOfStream));
            },
        };
        if b == 0 {
            break ;
        }
        buf.push(b);
        i += 1;
    }
    text_of(buf)
}

/// How far the reading of the entries of a map has come: the bindings made
/// so far, the offset of the cursor, and the failure that stopped it, if one
/// did.
pub struct MapDecode {
    pub map: Map<Seq<char>, AnyInt>,
    pub pos: nat,
    pub failure: Option<StreamError>,
}

/// The greatest number of bytes of a name in a map, its zero byte counted.
pub const MAP_KEY_MAX: usize = 256;

/// Reading one entry of a map in the state `st`: a name that a zero byte
/// ends, of fewer than 256 bytes, and behind it eight bytes that are an
/// unsigned integer in the byte order `e`. The name is bound to the integer;
/// a name that is bound already is bound anew.
pub open spec fn entry_step(st: MapDecode, data: Seq<u8>, e: Endianness) -> MapDecode {
    let name = cstr_at(data, st.pos, MAP_KEY_MAX as nat);
    if st.failure is Some {
        st
    } else {
        match name.0 {
            Err(err) => MapDecode { map: st.map, pos: name.1, failure: Some(err) },
            Ok(text) => if name.1 + 8 > data.len() {
                MapDecode {
                    map: st.map,
                    pos: name.1,
                    failure: Some(
                        StreamError::IOError(IoErrorKind::UnexpectedEndOfStream),
                    ),
                }
            } else {
                MapDecode {
                    map: st.map.insert(
                        text,
                        AnyInt::U64(
                            decode_uint(
                                data.subrange(name.1 as int, (name.1 + 8) as int),
                                e,
                            ) as u64,
                        ),
                    ),
                    pos: name.1 + 8,
                    failure: None,
                }
            },
        }
    }
}

/// Reading `k` entries of a map one after the other, from the offset `start`
/// of `data` on. Nothing changes once an entry has failed.
pub open spec fn read_entries(data: Seq<u8>, start: nat, k: nat, e: Endianness) -> MapDecode
    decreases k,
{
    if k == 0 {
        MapDecode { map: Map::empty(), pos: start, failure: None }
    } else {
        entry_step(read_entries(data, start, (k - 1) as nat, e), data, e)
    }
}

/// Once an entry has failed, the entries after it change nothing.
pub proof fn lemma_entry_failure_is_final(data: Seq<u8>, start: nat, k: nat, n: nat, e: Endianness)
    requires
        k <= n,
        read_entries(data, start, k, e).failure is Some,
    ensures
        read_entries(data, start, n, e) == read_entries(data, start, k, e),
    decreases n - k,
{
    if k < n {
        lemma_entry_failure_is_final(data, start, k, (n - 1) as nat, e);
    }
}

/// Reads six bytes as an unsigned integer in the byte order `e`.
pub fn read_u48(stream: &mut ByteStream, e: Endianness) -> (r: Result<u64, StreamError>)
    ensures
        old(stream).has(6) ==> r.is_ok() && r.unwrap() as nat == decode_uint(old(stream).next(6), e)
            && old(stream).advanced(final(stream), 6),
        !old(stream).has(6) ==> r == short_read::<u64>() && old(stream).advanced(final(stream), 0),
{
    let buf = stream.read_exact(6)?;
    proof {
        lemma_radix_values();
        lemma_le_value_bound(buf@);
        lemma_be_value_bound(buf@);
    }
    let v = match e {
        Endianness::LittleEndian => uint_le(buf.as_slice()),
        Endianness::BigEndian => uint_be(buf.as_slice()),
    };
    Ok(v as u64)
}

/// Reads a map: the number of its entries as an unsigned integer of six
/// bytes in the byte order `endianness`, and then the entries, each a name
/// that a zero byte ends and an unsigned integer of eight bytes; see
/// [`entry_step`].
///
/// The read fails as a short read, the cursor unmoved, where fewer than six
/// bytes are left, and with the failure of the first entry that fails, the
/// cursor where that entry left it. The width `_lpwidth` has no effect: the
/// number of entries always takes six bytes.
pub fn read_map<M: MapType>(
    stream: &mut ByteStream,
    endianness: Endianness,
    _lpwidth: LPWidth,
) -> (r: Result<M, StreamError>)
    ensures
        final(stream).bytes() == old(stream).bytes(),
        !old(stream).has(6) ==> r == short_read::<M>() && final(stream).pos() == old(stream).pos(),
        old(stream).has(6) ==> ({
            let out = read_entries(
                old(stream).bytes(),
                old(stream).pos() + 6,
                decode_uint(old(stream).next(6), endianness),
                endianness,
            );
            &&& final(stream).pos() == out.pos
            &&& match out.failure {
                None => r.is_ok() && r.unwrap().map_wf() && r.unwrap().bindings() == out.map,
                Some(err) => r == Err::<M, StreamError>(err),
            }
        }),
{
    let ghost data = stream.bytes();
    let ghost start = stream.pos() + 6;
    let len = stream.len();
    let count = match read_u48(stream, endianness) {
        Ok(c) => c,
        Err(e) => {
            return Err(e);
        },
    };
    let mut map = M::new();
    let mut i: u64 = 0;
    while i < count
        invariant
            i <= count,
            data == old(stream).bytes(),
            stream.bytes() == data,
            len == data.len(),
            start == old(stream).pos() + 6,
            old(stream).has(6),
            count as nat == decode_uint(old(stream).next(6), endianness),
            map.map_wf(),
            read_entries(data, start, i as nat, endianness) == (MapDecode {
                map: map.bindings(),
                pos: stream.pos(),
                failure: None,
            }),
        decreases count - i,
    {
        let ghost after = read_entries(data, start, (i + 1) as nat, endianness);
        proof {
            if after.failure is Some {
                lemma_entry_failure_is_final(
                    data,
                    start,
                    (i + 1) as nat,
                    count as nat,
                    endianness,
                );
            }
        }
        let key = match read_cstr(stream, MAP_KEY_MAX) {
            Ok(k) => k,
            Err(e) => {
                return Err(e);
            },
        };
        let value = match read_u64(stream, endianness) {
            Ok(v) => v,
            Err(e) => {
                return Err(e);
            },
        };
        map.insert(key, AnyInt::U64(value));
        i += 1;
    }
    Ok(map)
}

} // verus!
