//! What is written can be read back: the laws that tie the writers of this
//! crate to its readers.

use super::byte_stream::{lemma_written_readback, written};
use super::endian::{
    lemma_be_bytes_len, lemma_be_value_of_bytes, lemma_le_bytes_len, lemma_le_value_of_bytes,
    lemma_radix_values, radix,
};
use super::field_map::{assoc, distinct_names};
use super::read::{
    cstr_at, cstr_scan, entry_step, lemma_cstr_scan, lp_outcome, read_entries, rest_at,
    FrameOutcome, MapDecode, MAP_KEY_MAX,
};
use super::write::{cstr_frame, entries_bytes, entry_bytes, lp_frame, map_frame};
use super::{decode_uint, encode_uint, AnyInt, ByteStream, Endianness, LPWidth, StreamError};
use vstd::prelude::*;
use vstd::utf8::{encode_utf8, encode_utf8_decode_utf8, encode_utf8_valid_utf8};

verus! {

/// A payload that was written behind a length field is read back as it was,
/// by a read with the same width and byte order from where it was written.
///
/// `after` is the stream that held `data` when the frame was written at the
/// offset `pos`, with its cursor moved back to `pos`.
pub proof fn lemma_lp_round_trip(
    data: Seq<u8>,
    pos: nat,
    payload: Seq<u8>,
    lptype: LPWidth,
    lpend: Endianness,
    after: ByteStream,
)
    requires
        payload.len() < radix(lptype.spec_size()),
        after.bytes() == written(data, pos, lp_frame(payload, lptype, lpend)),
        after.pos() == pos,
    ensures
        lp_outcome(&after, lptype, lpend) == FrameOutcome::Payload(payload),
{
    let w = lptype.spec_size();
    let frame = lp_frame(payload, lptype, lpend);
    let prefix = super::encode_uint(payload.len(), w, lpend);
    lemma_le_bytes_len(payload.len(), w);
    lemma_be_bytes_len(payload.len(), w);
    lemma_le_value_of_bytes(payload.len(), w);
    lemma_be_value_of_bytes(payload.len(), w);
    lemma_written_readback(data, pos, frame);
    let all = after.bytes();
    let got = all.subrange(pos as int, (pos + frame.len()) as int);
    assert(got == frame);
    assert(after.next(w) =~= got.take(w as int));
    assert(frame.take(w as int) =~= prefix);
    assert(all.subrange((pos + w) as int, (pos + w + payload.len()) as int) =~= got.skip(w as int));
    assert(frame.skip(w as int) =~= payload);
}

/// A text that stands in `all` at the offset `pos` with a zero byte behind
/// it is read as it stands, by a read that allows for its length, as long as
/// none of its bytes is zero. The cursor then stands behind the zero byte.
pub proof fn lemma_cstr_read_back(all: Seq<u8>, pos: nat, text: Seq<char>, maxlen: nat)
    requires
        encode_utf8(text).len() < maxlen,
        forall|i: int| 0 <= i < encode_utf8(text).len() ==> encode_utf8(text)[i] != 0,
        pos + encode_utf8(text).len() + 1 <= all.len(),
        all.subrange(pos as int, (pos + encode_utf8(text).len() + 1) as int) == cstr_frame(
            encode_utf8(text),
        ),
    ensures
        cstr_at(all, pos, maxlen) == (
            Ok::<Seq<char>, StreamError>(text),
            pos + encode_utf8(text).len() + 1,
        ),
{
    let bytes = encode_utf8(text);
    let frame = cstr_frame(bytes);
    let rest = rest_at(all, pos);
    let n = bytes.len();
    assert forall|j: int| 0 <= j <= n implies rest[j] == frame[j] by {
        assert(all.subrange(pos as int, (pos + n + 1) as int)[j] == all[pos + j]);
    }
    lemma_cstr_scan(rest, 0, maxlen);
    let k = cstr_scan(rest, 0, maxlen);
    assert(rest[n as int] == 0);
    if k < n {
        assert(rest[k as int] == bytes[k as int]);
    }
    if k > n {
        assert(rest[n as int] != 0);
    }
    assert(k == n);
    assert(rest.take(k as int) =~= bytes);
    encode_utf8_valid_utf8(text);
    encode_utf8_decode_utf8(text);
}

/// A text that was written with a zero byte behind it is read back as it
/// was, by a read from where it was written that allows for its length, as
/// long as none of its bytes is zero. The cursor then stands behind the zero
/// byte.
pub proof fn lemma_cstr_round_trip(data: Seq<u8>, pos: nat, text: Seq<char>, maxlen: nat)
    requires
        encode_utf8(text).len() < maxlen,
        forall|i: int| 0 <= i < encode_utf8(text).len() ==> encode_utf8(text)[i] != 0,
    ensures
        cstr_at(written(data, pos, cstr_frame(encode_utf8(text))), pos, maxlen) == (
            Ok::<Seq<char>, StreamError>(text),
            pos + encode_utf8(text).len() + 1,
        ),
{
    let frame = cstr_frame(encode_utf8(text));
    lemma_written_readback(data, pos, frame);
    lemma_cstr_read_back(written(data, pos, frame), pos, text, maxlen);
}

/// Whether `entries` can be written as a map and read back: every value is
/// an unsigned integer of 64 bits, and every name is shorter than 256 bytes
/// and has no zero byte.
pub open spec fn plain_entries(entries: Seq<(String, AnyInt)>) -> bool {
    forall|i: int|
        0 <= i < entries.len() ==> {
            &&& (#[trigger] entries[i]).1 is U64
            &&& encode_utf8(entries[i].0@).len() < MAP_KEY_MAX
            &&& forall|j: int|
                0 <= j < encode_utf8(entries[i].0@).len() ==> encode_utf8(entries[i].0@)[j] != 0
        }
}

/// A run of bytes that is part of a longer run stands in a stream where the
/// longer run puts it.
proof fn lemma_part_in_place(
    all: Seq<u8>,
    start: nat,
    total: Seq<u8>,
    before: Seq<u8>,
    part: Seq<u8>,
)
    requires
        start + total.len() <= all.len(),
        all.subrange(start as int, (start + total.len()) as int) == total,
        before.len() + part.len() <= total.len(),
        total.take((before.len() + part.len()) as int) == before + part,
    ensures
        all.subrange(
            (start + before.len()) as int,
            (start + before.len() + part.len()) as int,
        ) == part,
{
    let here = start + before.len();
    let upto = before + part;
    assert forall|j: int| 0 <= j < part.len() implies all[here + j] == part[j] by {
        assert(all[here + j] == all.subrange(start as int, (start + total.len()) as int)[
            before.len() + j
        ]);
        assert(total[before.len() + j] == total.take(upto.len() as int)[before.len() + j]);
        assert(upto[before.len() + j] == part[j]);
    }
    assert(all.subrange(here as int, (here + part.len()) as int) =~= part);
}

/// An entry that stands in `all` at the cursor of a reading that has not
/// failed is read as it stands: its name is bound to its value, and the
/// cursor stands behind it.
proof fn lemma_entry_read_back(
    st: MapDecode,
    all: Seq<u8>,
    name: Seq<char>,
    value: u64,
    e: Endianness,
)
    requires
        st.failure is None,
        encode_utf8(name).len() < MAP_KEY_MAX,
        forall|j: int| 0 <= j < encode_utf8(name).len() ==> encode_utf8(name)[j] != 0,
        st.pos + entry_bytes(name, AnyInt::U64(value), e).len() <= all.len(),
        all.subrange(
            st.pos as int,
            (st.pos + entry_bytes(name, AnyInt::U64(value), e).len()) as int,
        ) == entry_bytes(name, AnyInt::U64(value), e),
    ensures
        entry_bytes(name, AnyInt::U64(value), e).len() == encode_utf8(name).len() + 9,
        entry_step(st, all, e) == (MapDecode {
            map: st.map.insert(name, AnyInt::U64(value)),
            pos: st.pos + entry_bytes(name, AnyInt::U64(value), e).len(),
            failure: None,
        }),
{
    let head = cstr_frame(encode_utf8(name));
    let word = encode_uint(value as nat, 8, e);
    let chunk = entry_bytes(name, AnyInt::U64(value), e);
    lemma_le_bytes_len(value as nat, 8);
    lemma_be_bytes_len(value as nat, 8);
    lemma_radix_values();
    lemma_le_value_of_bytes(value as nat, 8);
    lemma_be_value_of_bytes(value as nat, 8);
    assert(chunk == head + word);
    assert(chunk.take(head.len() as int) =~= Seq::<u8>::empty() + head);
    lemma_part_in_place(all, st.pos, chunk, Seq::<u8>::empty(), head);
    lemma_cstr_read_back(all, st.pos, name, MAP_KEY_MAX as nat);
    assert(chunk.take(chunk.len() as int) =~= head + word);
    lemma_part_in_place(all, st.pos, chunk, head, word);
}

/// The first `k` entries of a map that stands in `all` from the offset
/// `start` on are read as they stand.
proof fn lemma_entries_read_back(
    all: Seq<u8>,
    start: nat,
    entries: Seq<(String, AnyInt)>,
    k: nat,
    e: Endianness,
)
    requires
        k <= entries.len(),
        plain_entries(entries),
        start + entries_bytes(entries, entries.len(), e).len() <= all.len(),
        all.subrange(start as int, (start + entries_bytes(entries, entries.len(), e).len()) as int)
            == entries_bytes(entries, entries.len(), e),
    ensures
        read_entries(all, start, k, e) == (MapDecode {
            map: assoc(entries.take(k as int)),
            pos: start + entries_bytes(entries, k, e).len(),
            failure: None,
        }),
    decreases k,
{
    let total = entries_bytes(entries, entries.len(), e);
    if k == 0 {
        assert(entries.take(0) =~= Seq::<(String, AnyInt)>::empty());
    } else {
        lemma_entries_read_back(all, start, entries, (k - 1) as nat, e);
        lemma_entries_bytes_prefix(entries, k, e);
        let st = read_entries(all, start, (k - 1) as nat, e);
        let before = entries_bytes(entries, (k - 1) as nat, e);
        let entry = entries[k - 1];
        let value: u64 = match entry.1 {
            AnyInt::U64(x) => x,
            _ => 0,
        };
        assert(entry.1 == AnyInt::U64(value));
        let chunk = entry_bytes(entry.0@, AnyInt::U64(value), e);
        assert(entries_bytes(entries, k, e) == before + chunk);
        lemma_part_in_place(all, start, total, before, chunk);
        lemma_entry_read_back(st, all, entry.0@, value, e);
        assert(entries.take(k as int).drop_last() =~= entries.take(k - 1));
        assert(entries.take(k as int).last() == entry);
    }
}

/// The first `k` entries on the wire are the beginning of all entries on the
/// wire.
proof fn lemma_entries_bytes_prefix(entries: Seq<(String, AnyInt)>, k: nat, e: Endianness)
    requires
        k <= entries.len(),
    ensures
        entries_bytes(entries, k, e).len() <= entries_bytes(entries, entries.len(), e).len(),
        entries_bytes(entries, entries.len(), e).take(entries_bytes(entries, k, e).len() as int)
            == entries_bytes(entries, k, e),
    decreases entries.len() - k,
{
    let total = entries_bytes(entries, entries.len(), e);
    if k < entries.len() {
        lemma_entries_bytes_prefix(entries, k + 1, e);
        let next = entries_bytes(entries, k + 1, e);
        let here = entries_bytes(entries, k, e);
        assert(next.take(here.len() as int) =~= here);
        assert(total.take(here.len() as int) =~= total.take(next.len() as int).take(
            here.len() as int,
        ));
    } else {
        assert(total.take(total.len() as int) =~= total);
    }
}

/// A map that was written is read back as it was, from where it was written,
/// as long as its values are unsigned integers of 64 bits and its names are
/// shorter than 256 bytes and have no zero byte. The cursor then stands
/// behind the map.
///
/// `all` is what a stream that held `data` holds after `entries` were written
/// as a map at the offset `pos`.
pub proof fn lemma_map_round_trip(
    data: Seq<u8>,
    pos: nat,
    entries: Seq<(String, AnyInt)>,
    e: Endianness,
)
    requires
        distinct_names(entries),
        plain_entries(entries),
        entries.len() < radix(6),
    ensures
        ({
            let all = written(data, pos, map_frame(entries, e));
            &&& pos + 6 <= all.len()
            &&& decode_uint(all.subrange(pos as int, (pos + 6) as int), e) == entries.len()
            &&& read_entries(all, pos + 6, entries.len(), e) == (MapDecode {
                map: assoc(entries),
                pos: pos + map_frame(entries, e).len(),
                failure: None,
            })
        }),
{
    let frame = map_frame(entries, e);
    let all = written(data, pos, frame);
    let head = encode_uint(entries.len(), 6, e);
    let body = entries_bytes(entries, entries.len(), e);
    lemma_le_bytes_len(entries.len(), 6);
    lemma_be_bytes_len(entries.len(), 6);
    lemma_le_value_of_bytes(entries.len(), 6);
    lemma_be_value_of_bytes(entries.len(), 6);
    lemma_written_readback(data, pos, frame);
    let got = all.subrange(pos as int, (pos + frame.len()) as int);
    assert(got == frame);
    assert(all.subrange(pos as int, (pos + 6) as int) =~= got.take(6));
    assert(frame.take(6) =~= head);
    assert(all.subrange((pos + 6) as int, (pos + 6 + body.len()) as int) =~= got.skip(6));
    assert(frame.skip(6) =~= body);
    lemma_entries_read_back(all, pos + 6, entries, entries.len(), e);
    assert(entries.take(entries.len() as int) =~= entries);
}

} // verus!
