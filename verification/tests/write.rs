use neoncore::streams::read::{read_cstr, read_lpbuf, read_lpstr};
use neoncore::streams::write::{write_cstr, write_lpbuf, write_lpstr, write_values};
use neoncore::streams::{AnyInt, ByteStream, Endianness, IoErrorKind, LPWidth, StreamError};

#[test]
fn test_write_values() {
    let mut stream = ByteStream::new(vec![0u8; 8]);
    let values = [AnyInt::U32(0x12345678u32), AnyInt::U32(0x9abcdef0u32)];
    write_values(&mut stream, &values, Endianness::LittleEndian).unwrap();
    let buf = stream.into_inner();
    assert_eq!(buf, [0x78, 0x56, 0x34, 0x12, 0xf0, 0xde, 0xbc, 0x9a]);
}

#[test]
fn test_write_lpbuf() {
    let mut stream = ByteStream::new(vec![0u8; 8]);
    let bytes = [0x12, 0x34, 0x56, 0x78];
    write_lpbuf(&mut stream, LPWidth::LP32, Endianness::LittleEndian, &bytes).unwrap();
    let buf = stream.into_inner();
    assert_eq!(buf, [0x04, 0x00, 0x00, 0x00, 0x12, 0x34, 0x56, 0x78]);
}

#[test]
fn test_write_lpstr() {
    let mut stream = ByteStream::new(vec![0u8; 8]);
    let string = "test";
    write_lpstr(&mut stream, LPWidth::LP32, Endianness::LittleEndian, string).unwrap();
    let buf = stream.into_inner();
    assert_eq!(buf, [0x04, 0x00, 0x00, 0x00, 0x74, 0x65, 0x73, 0x74]);
}

#[test]
fn test_write_cstr() {
    let mut stream = ByteStream::new(vec![0u8; 8]);
    let string = "test";
    write_cstr(&mut stream, string).unwrap();
    let buf = stream.into_inner();
    assert_eq!(buf, [0x74, 0x65, 0x73, 0x74, 0x00, 0x00, 0x00, 0x00]);
}

#[test]
fn write_values_returns_bytes_written_and_grows_stream() {
    let mut stream = ByteStream::new(Vec::new());
    let values = [AnyInt::U8(1), AnyInt::U48(0x0102_0304_0506), AnyInt::I16(-2), AnyInt::Bool(true)];
    let n = write_values(&mut stream, &values, Endianness::BigEndian).unwrap();
    assert_eq!(n, 10);
    assert_eq!(stream.position(), 10);
    assert_eq!(
        stream.into_inner(),
        vec![0x01, 0x00, 0x00, 0x01, 0x02, 0x03, 0x04, 0xff, 0xfe, 0x01]
    );
}

#[test]
fn write_lpbuf_length_overflow() {
    let mut stream = ByteStream::new(Vec::new());
    let payload = vec![0x5au8; 256];
    let r = write_lpbuf(&mut stream, LPWidth::LP8, Endianness::LittleEndian, &payload);
    assert_eq!(r, Err(StreamError::LengthOverflow));
    assert_eq!(stream.position(), 0);
    assert_eq!(stream.len(), 0);

    let payload = vec![0x5au8; 255];
    let r = write_lpbuf(&mut stream, LPWidth::LP8, Endianness::LittleEndian, &payload);
    assert_eq!(r, Ok(256));
    stream.seek(0);
    let back = read_lpbuf(&mut stream, LPWidth::LP8, Endianness::LittleEndian).unwrap();
    assert_eq!(back, payload);
}

#[test]
fn write_lpbuf_every_width_round_trips() {
    for width in [LPWidth::LP8, LPWidth::LP16, LPWidth::LP32, LPWidth::LP64] {
        for e in [Endianness::LittleEndian, Endianness::BigEndian] {
            let mut stream = ByteStream::new(Vec::new());
            let payload = vec![1u8, 2, 3, 4, 5];
            let n = write_lpbuf(&mut stream, width, e, &payload).unwrap();
            assert_eq!(n, width.size() as u64 + 5);
            stream.seek(0);
            assert_eq!(read_lpbuf(&mut stream, width, e).unwrap(), payload);
        }
    }
    let mut stream = ByteStream::new(Vec::new());
    write_lpbuf(&mut stream, LPWidth::LP16, Endianness::BigEndian, &[9u8; 3]).unwrap();
    assert_eq!(stream.into_inner(), vec![0x00, 0x03, 9, 9, 9]);
}

#[test]
fn write_lpstr_round_trips() {
    let mut stream = ByteStream::new(Vec::new());
    write_lpstr(&mut stream, LPWidth::LP16, Endianness::BigEndian, "h\u{e9}llo").unwrap();
    stream.seek(0);
    let s = read_lpstr(&mut stream, LPWidth::LP16, Endianness::BigEndian).unwrap();
    assert_eq!(s, "h\u{e9}llo");
}

#[test]
fn write_cstr_appends_one_nul() {
    let mut stream = ByteStream::new(Vec::new());
    let n = write_cstr(&mut stream, "ab").unwrap();
    assert_eq!(n, 3);
    assert_eq!(stream.get_ref(), &vec![0x61, 0x62, 0x00]);
    stream.seek(0);
    assert_eq!(read_cstr(&mut stream, 4), Ok("ab".to_string()));
}

#[test]
fn write_past_end_fills_gap_with_zeros() {
    let mut stream = ByteStream::new(vec![7u8, 7]);
    stream.seek(4);
    stream.write_all(&[1, 2]).unwrap();
    assert_eq!(stream.into_inner(), vec![7, 7, 0, 0, 1, 2]);
    let mut stream = ByteStream::new(vec![7u8, 7, 7, 7]);
    stream.seek(1);
    stream.write_all(&[1, 2]).unwrap();
    assert_eq!(stream.position(), 3);
    assert_eq!(stream.into_inner(), vec![7, 1, 2, 7]);
}

#[test]
fn write_beyond_the_largest_offset_fails_and_changes_nothing() {
    let out_of_range = StreamError::IOError(IoErrorKind::PositionOutOfRange);
    let mut stream = ByteStream::new(vec![1, 2, 3]);
    stream.seek(u64::MAX);
    assert_eq!(stream.write_all(&[9]), Err(out_of_range.clone()));
    assert_eq!(
        write_lpbuf(&mut stream, LPWidth::LP8, Endianness::LittleEndian, &[9]),
        Err(out_of_range.clone())
    );
    assert_eq!(write_cstr(&mut stream, "a"), Err(out_of_range.clone()));
    assert_eq!(
        write_values(&mut stream, &[AnyInt::U8(1)], Endianness::LittleEndian),
        Err(out_of_range)
    );
    assert_eq!(stream.position(), u64::MAX);
    assert_eq!(stream.into_inner(), vec![1, 2, 3]);
}
