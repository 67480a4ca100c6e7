use neoncore::streams::read::{
    find_all_u32_signatures, find_all_u64_signatures, find_u32_signature, find_u64_signature,
    read_cstr, read_lpbuf, read_lpstr,
};
use neoncore::streams::{ByteStream, Endianness, IoErrorKind, LPWidth, StreamError};

const DATA: [u8; 168] = [
    0x00, 0x2F, 0x6D, 0x61, 0x78, 0x5F, 0x73, 0x69, 0x7A, 0x65, 0x2E, 0x72, 0x73, 0x55, 0x54,
    0x05, 0x00, 0x01, 0xA9, 0xBA, 0xEE, 0x63, 0x50, 0x4B, 0x01, 0x02, 0x00, 0x00, 0x0A, 0x00,
    0x00, 0x00, 0x08, 0x00, 0xC8, 0x7A, 0x50, 0x56, 0xDB, 0x87, 0xEE, 0xBA, 0x1A, 0x02, 0x00,
    0x00, 0x8C, 0x09, 0x00, 0x00, 0x1D, 0x00, 0x09, 0x00, 0x00, 0x00, 0x00, 0x00, 0x01, 0x00,
    0x00, 0x00, 0x00, 0x00, 0xF5, 0xEC, 0x00, 0x00, 0x70, 0x6F, 0x73, 0x74, 0x63, 0x61, 0x72,
    0x64, 0x2D, 0x6D, 0x61, 0x69, 0x6E, 0x2F, 0x74, 0x65, 0x73, 0x74, 0x73, 0x2F, 0x73, 0x63,
    0x68, 0x65, 0x6D, 0x61, 0x2E, 0x72, 0x73, 0x55, 0x54, 0x05, 0x00, 0x01, 0xA9, 0xBA, 0xEE,
    0x63, 0x50, 0x4B, 0x05, 0x06, 0x00, 0x00, 0x00, 0x00, 0x2C, 0x00, 0x2C, 0x00, 0x82, 0x0E,
    0x00, 0x00, 0x53, 0xEF, 0x00, 0x00, 0x28, 0x00, 0x61, 0x31, 0x63, 0x33, 0x61, 0x66, 0x34,
    0x37, 0x61, 0x65, 0x63, 0x34, 0x33, 0x33, 0x61, 0x34, 0x30, 0x30, 0x62, 0x39, 0x38, 0x37,
    0x31, 0x38, 0x64, 0x36, 0x37, 0x65, 0x32, 0x62, 0x38, 0x38, 0x33, 0x61, 0x36, 0x36, 0x38,
    0x64, 0x37, 0x37,
];

fn eof<T>() -> Result<T, StreamError> {
    Err(StreamError::IOError(IoErrorKind::UnexpectedEndOfStream))
}

#[test]
fn read_test_find_signature() {
    let sig = 0x02014b50;
    let sig_2 = 0x06054b50;
    let mut stream = ByteStream::new(DATA.to_vec());

    let pos_1 =
        find_u32_signature(&mut stream, sig, None, None, Endianness::LittleEndian, true).unwrap();
    let pos_2 = find_u32_signature(
        &mut stream,
        sig_2,
        Some(pos_1),
        None,
        Endianness::LittleEndian,
        false,
    )
    .unwrap();

    assert_eq!(pos_1, 0x16);
    assert_eq!(pos_2, 0x6A);
}

#[test]
fn read_test_find_signature64() {
    let sig = 0x4b5063eebaa90100;
    let mut stream = ByteStream::new(DATA.to_vec());

    let pos_1 =
        find_u64_signature(&mut stream, sig, None, None, Endianness::LittleEndian, true).unwrap();

    assert_eq!(pos_1, 0x10);
}

#[test]
fn find_signature_rewind_restores_cursor() {
    let mut stream = ByteStream::new(DATA.to_vec());
    stream.seek(3);
    let pos =
        find_u32_signature(&mut stream, 0x02014b50, None, None, Endianness::LittleEndian, true)
            .unwrap();
    assert_eq!(pos, 0x16);
    assert_eq!(stream.position(), 3);
}

#[test]
fn find_signature_without_rewind_leaves_cursor_on_match() {
    let mut stream = ByteStream::new(DATA.to_vec());
    let pos =
        find_u32_signature(&mut stream, 0x02014b50, None, None, Endianness::LittleEndian, false)
            .unwrap();
    assert_eq!(pos, 0x16);
    assert_eq!(stream.position(), 0x16);
}

#[test]
fn find_signature_big_endian() {
    let mut stream = ByteStream::new(DATA.to_vec());
    let pos = find_u32_signature(&mut stream, 0x504b0102, None, None, Endianness::BigEndian, false)
        .unwrap();
    assert_eq!(pos, 0x16);
    let mut stream = ByteStream::new(DATA.to_vec());
    let pos = find_u64_signature(
        &mut stream,
        0x0001a9baee63504b,
        None,
        None,
        Endianness::BigEndian,
        false,
    )
    .unwrap();
    assert_eq!(pos, 0x10);
}

#[test]
fn find_signature_missing_fails_at_end_of_stream() {
    let mut stream = ByteStream::new(DATA.to_vec());
    let r = find_u32_signature(&mut stream, 0xdeadbeef, None, None, Endianness::LittleEndian, true);
    assert_eq!(r, eof());
}

#[test]
fn find_signature_limit_exhausted_fails() {
    let mut stream = ByteStream::new(DATA.to_vec());
    let r = find_u32_signature(
        &mut stream,
        0x02014b50,
        None,
        Some(0x16),
        Endianness::LittleEndian,
        false,
    );
    assert_eq!(r, eof());
    assert_eq!(stream.position(), 0x16);
    let mut stream = ByteStream::new(DATA.to_vec());
    let r = find_u32_signature(
        &mut stream,
        0x02014b50,
        None,
        Some(0x17),
        Endianness::LittleEndian,
        false,
    );
    assert_eq!(r, Ok(0x16));
}

#[test]
fn find_signature_skips_whole_window_after_mismatch() {
    // The first byte matches at offset 0, the window does not; the search
    // goes on at offset 4 and so passes over the signature at offset 1.
    let data = vec![0x50, 0x50, 0x4b, 0x01, 0x02, 0x00, 0x00, 0x00];
    let mut stream = ByteStream::new(data);
    let r = find_u32_signature(&mut stream, 0x02014b50, None, None, Endianness::LittleEndian, false);
    assert_eq!(r, eof());
    let data = vec![0x51, 0x50, 0x4b, 0x01, 0x02, 0x00, 0x00, 0x00];
    let mut stream = ByteStream::new(data);
    let r = find_u32_signature(&mut stream, 0x02014b50, None, None, Endianness::LittleEndian, false);
    assert_eq!(r, Ok(1));
}

#[test]
fn find_signature_short_window_fails() {
    let data = vec![0x00, 0x50, 0x4b, 0x01];
    let mut stream = ByteStream::new(data);
    let r = find_u32_signature(&mut stream, 0x02014b50, None, None, Endianness::LittleEndian, false);
    assert_eq!(r, eof());
    assert_eq!(stream.position(), 1);
}

#[test]
fn find_all_signatures_collects_every_match() {
    let mut data = Vec::new();
    for _ in 0..3 {
        data.extend_from_slice(&[0x50, 0x4b, 0x01, 0x02]);
        data.extend_from_slice(&[0xaa, 0xbb]);
    }
    let mut stream = ByteStream::new(data);
    stream.seek(2);
    let all = find_all_u32_signatures(&mut stream, 0x02014b50, Endianness::LittleEndian).unwrap();
    assert_eq!(all, vec![0, 6, 12]);
    assert_eq!(stream.position(), 12);

    let mut stream = ByteStream::new(DATA.to_vec());
    stream.seek(5);
    let none = find_all_u32_signatures(&mut stream, 0xdeadbeef, Endianness::LittleEndian).unwrap();
    assert_eq!(none, Vec::<u64>::new());
    assert_eq!(stream.position(), 5);

    let mut stream = ByteStream::new(DATA.to_vec());
    let all =
        find_all_u64_signatures(&mut stream, 0x4b5063eebaa90100, Endianness::LittleEndian).unwrap();
    assert_eq!(all, vec![0x10, 0x64]);
}

#[test]
fn read_lpbuf_reads_payload() {
    let mut stream = ByteStream::new(vec![0x00, 0x03, 0x0a, 0x0b, 0x0c, 0x0d]);
    let buf = read_lpbuf(&mut stream, LPWidth::LP16, Endianness::BigEndian).unwrap();
    assert_eq!(buf, vec![0x0a, 0x0b, 0x0c]);
    assert_eq!(stream.position(), 5);
    let mut stream = ByteStream::new(vec![0x02, 0x00, 0x00, 0x00, 0x0a, 0x0b, 0x0c, 0x0d]);
    let buf = read_lpbuf(&mut stream, LPWidth::LP32, Endianness::LittleEndian).unwrap();
    assert_eq!(buf, vec![0x0a, 0x0b]);
}

#[test]
fn read_lpbuf_short_reads_fail() {
    let mut stream = ByteStream::new(vec![0x00]);
    assert_eq!(read_lpbuf(&mut stream, LPWidth::LP16, Endianness::BigEndian), eof());
    assert_eq!(stream.position(), 0);
    let mut stream = ByteStream::new(vec![0x00, 0x05, 0x01, 0x02]);
    assert_eq!(read_lpbuf(&mut stream, LPWidth::LP16, Endianness::BigEndian), eof());
    assert_eq!(stream.position(), 2);
    let mut stream = ByteStream::new(vec![0xff; 8]);
    assert_eq!(read_lpbuf(&mut stream, LPWidth::LP64, Endianness::LittleEndian), eof());
}

#[test]
fn read_lpstr_checks_encoding() {
    let mut stream = ByteStream::new(vec![0x03, 0x61, 0xc3, 0xa9]);
    let s = read_lpstr(&mut stream, LPWidth::LP8, Endianness::LittleEndian).unwrap();
    assert_eq!(s, "a\u{e9}");
    let mut stream = ByteStream::new(vec![0x02, 0x61, 0xff]);
    let r = read_lpstr(&mut stream, LPWidth::LP8, Endianness::LittleEndian);
    assert_eq!(r, Err(StreamError::InvalidEncoding));
    assert_eq!(stream.position(), 3);
}

#[test]
fn read_cstr_boundaries() {
    let mut stream = ByteStream::new(b"abcde".to_vec());
    assert_eq!(read_cstr(&mut stream, 4), Err(StreamError::LengthExceeded));
    assert_eq!(stream.position(), 4);

    let mut stream = ByteStream::new(b"ab\0zzzz".to_vec());
    assert_eq!(read_cstr(&mut stream, 4), Ok("ab".to_string()));
    assert_eq!(stream.position(), 3);

    // The zero byte must come among the first `maxlen` bytes.
    let mut stream = ByteStream::new(b"abcd\0".to_vec());
    assert_eq!(read_cstr(&mut stream, 4), Err(StreamError::LengthExceeded));
    let mut stream = ByteStream::new(b"abc\0".to_vec());
    assert_eq!(read_cstr(&mut stream, 4), Ok("abc".to_string()));

    let mut stream = ByteStream::new(b"ab".to_vec());
    assert_eq!(read_cstr(&mut stream, 4), eof());
    assert_eq!(stream.position(), 2);

    let mut stream = ByteStream::new(vec![0xff, 0x00]);
    assert_eq!(read_cstr(&mut stream, 4), Err(StreamError::InvalidEncoding));
    assert_eq!(stream.position(), 2);

    let mut stream = ByteStream::new(vec![0x00]);
    assert_eq!(read_cstr(&mut stream, 0), Err(StreamError::LengthExceeded));
    let mut stream = ByteStream::new(vec![0x00]);
    assert_eq!(read_cstr(&mut stream, 1), Ok(String::new()));
}
