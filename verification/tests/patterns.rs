use neoncore::streams::advanced_readers::{
    PatternReader, PatternReaderTokens, Predicate, StructReader,
};
use neoncore::streams::{AnyInt, ByteStream, Endianness, IoErrorKind, StreamError};

const DATA: [u8; 168] = [
    0x00, 0x2F, 0x6D, 0x61, 0x78, 0x5F, 0x73, 0x69, 0x7A, 0x65, 0x2E, 0x72, 0x73, 0x55, 0x54,
    0x05, 0x00, 0x01, 0xA9, 0xBA, 0xEE, 0x63, 0x50, 0x4B, 0x01, 0x02, 0x00, 0x00, 0x0A, 0x00,
    0x00, 0x00, 0x08, 0x00, 0xC8, 0x7A, 0x50, 0x56, 0xDB, 0x87, 0xEE, 0xBA, 0x1A, 0x02, 0x00,
    0x00, 0x8C, 0x09, 0x00, 0x00, 0x1D, 0x00, 0x09, 0x00, 0x00, 0x00, 0x00, 0x00, 0x01, 0x00,
    0x00, 0x00, 0x00, 0x00, 0xF5, 0xEC, 0x00, 0x00, 0x70, 0x6F, 0x73, 0x74, 0x63, 0x61, 0x72,
    0x64, 0x2D, 0x6D, 0x61, 0x69, 0x6E, 0x2F, 0x74, 0x65, 0x73, 0x74, 0x73, 0x2F, 0x73, 0x63,
    0x68, 0x65, 0x6D, 0x61, 0x2E, 0x72, 0x73, 0x55, 0x54, 0x05, 0x00, 0x01, 0xA9, 0xBA, 0xEE,
    0x63, 0x50, 0x4B, 0x05, 0x06, 0x00, 0x00, 0x00, 0x00, 0x2C, 0x00, 0x2C, 0x00, 0x82, 0x0E,
    0x00, 0x00, 0x53, 0xEF, 0x00, 0x00, 0x28, 0x00, 0x61, 0x31, 0x63, 0x33, 0x61, 0x66, 0x34,
    0x37, 0x61, 0x65, 0x63, 0x34, 0x33, 0x33, 0x61, 0x34, 0x30, 0x30, 0x62, 0x39, 0x38, 0x37,
    0x31, 0x38, 0x64, 0x36, 0x37, 0x65, 0x32, 0x62, 0x38, 0x38, 0x33, 0x61, 0x36, 0x36, 0x38,
    0x64, 0x37, 0x37,
];

#[test]
fn test_pattern_req_bytes() {
    let v = PatternReader::new_le()
        .add_padding(2)
        .add_u64()
        .add_u64()
        .add_i16()
        .add_padding(6)
        .pattern_required_bytes();
    assert_eq!(v, 26);
}

#[test]
fn test_read_pattern() {
    let mut stream = ByteStream::new(DATA.to_vec());
    let v = PatternReader::new_le()
        .add_u64()
        .add_u64()
        .add_u64()
        .read_pattern(&mut stream)
        .unwrap();
    assert_eq!(
        v,
        vec![
            AnyInt::U64(0x69735f78616d2f00),
            AnyInt::U64(0x5545573722e657a),
            AnyInt::U64(0x4b5063eebaa90100)
        ]
    );
}

#[test]
fn test_read_struct() {
    let mut stream = ByteStream::new(DATA.to_vec());
    let v = StructReader::new_le()
        .add_u64_field("test1")
        .add_u64_field("test2")
        .add_u64_field("test3")
        .read(&mut stream)
        .unwrap();

    assert_eq!(
        TryInto::<u64>::try_into(v.get("test1").unwrap()).unwrap(),
        0x69735f78616d2f00
    );

    assert_eq!(
        TryInto::<u64>::try_into(v["test2"]).unwrap(),
        0x5545573722e657a
    );

    assert_eq!(
        TryInto::<u64>::try_into(v.get("test3").unwrap()).unwrap(),
        0x4b5063eebaa90100
    );
}

#[test]
fn struct_of_three_named_fields() {
    let bytes = vec![
        0x00, 0x2F, 0x6D, 0x61, 0x78, 0x5F, 0x73, 0x69, 0x7A, 0x65, 0x2E, 0x72, 0x73, 0x55,
        0x54, 0x05, 0x00, 0x01, 0xA9, 0xBA, 0xEE, 0x63, 0x50, 0x4B,
    ];
    let mut stream = ByteStream::new(bytes);
    let v = StructReader::new_le()
        .add_u64_field("a")
        .add_u64_field("b")
        .add_u64_field("c")
        .read(&mut stream)
        .unwrap();
    assert_eq!(v.get("a"), Some(AnyInt::U64(0x69735f78616d2f00)));
    assert_eq!(v.get("b"), Some(AnyInt::U64(0x5545573722e657a)));
    assert_eq!(v.get("c"), Some(AnyInt::U64(0x4b5063eebaa90100)));
    assert_eq!(v.get("d"), None);
    assert_eq!(stream.position(), 24);
}

#[test]
fn required_bytes_counts_every_token() {
    let mut p = PatternReader::new_be();
    p.add_u8().add_i8().add_bool().add_u16().add_i16().add_u32().add_i32().add_u64().add_i64();
    assert_eq!(p.pattern_required_bytes(), 1 + 1 + 1 + 2 + 2 + 4 + 4 + 8 + 8);
    p.add_usize();
    assert_eq!(p.pattern_required_bytes(), 31 + std::mem::size_of::<usize>() as u64);
    p.add_expr(4, Predicate::Equals(0));
    assert_eq!(p.pattern_required_bytes(), 35 + std::mem::size_of::<usize>() as u64);
    assert_eq!(PatternReader::new_le().pattern_required_bytes(), 0);
}

#[test]
fn required_bytes_are_consumed() {
    let mut p = PatternReader::new_le();
    p.add_padding(3).add_u16().add_bool().add_expr(2, Predicate::Equals(7)).add_i32();
    let need = p.pattern_required_bytes();
    assert_eq!(need, 12);
    let mut stream = ByteStream::new(vec![0x11; 20]);
    stream.seek(5);
    let values = p.read_pattern(&mut stream).unwrap();
    assert_eq!(stream.position(), 5 + need);
    assert_eq!(values.len(), 4);
    let mut stream = ByteStream::new(vec![0x11; 12]);
    p.read_pattern(&mut stream).unwrap();
    assert_eq!(stream.position(), 12);
}

#[test]
fn read_pattern_every_token() {
    let bytes = vec![
        0xff, // u8
        0xff, // i8
        0x02, // bool
        0x00, // bool
        0x01, 0x02, // u16
        0xff, 0xfe, // i16
        0x01, 0x02, 0x03, 0x04, // u32
        0xff, 0xff, 0xff, 0xfd, // i32
        0x01, 0x02, 0x03, 0x04, 0x05, 0x06, 0x07, 0x08, // u64
        0x80, 0x00, 0x00, 0x00, 0x00, 0x00, 0x00, 0x00, // i64
    ];
    let mut p = PatternReader::new_be();
    p.add_u8().add_i8().add_bool().add_bool().add_u16().add_i16().add_u32().add_i32().add_u64().add_i64();
    let mut stream = ByteStream::new(bytes.clone());
    assert_eq!(
        p.read_pattern(&mut stream).unwrap(),
        vec![
            AnyInt::U8(0xff),
            AnyInt::I8(-1),
            AnyInt::Bool(true),
            AnyInt::Bool(false),
            AnyInt::U16(0x0102),
            AnyInt::I16(-2),
            AnyInt::U32(0x01020304),
            AnyInt::I32(-3),
            AnyInt::U64(0x0102030405060708),
            AnyInt::I64(i64::MIN),
        ]
    );
    let mut p = PatternReader::new_le();
    p.add_padding(4).add_u16().add_i16().add_u32().add_i32().add_u64().add_i64();
    let mut stream = ByteStream::new(bytes);
    assert_eq!(
        p.read_pattern(&mut stream).unwrap(),
        vec![
            AnyInt::U16(0x0201),
            AnyInt::I16(-257),
            AnyInt::U32(0x04030201),
            AnyInt::I32(-33554433),
            AnyInt::U64(0x0807060504030201),
            AnyInt::I64(0x80),
        ]
    );
}

#[test]
fn read_pattern_usize_token() {
    let mut p = PatternReader::new_le();
    p.add_usize();
    let mut stream = ByteStream::new(vec![1, 0, 0, 0, 0, 0, 0, 0]);
    let v = p.read_pattern(&mut stream).unwrap();
    if std::mem::size_of::<usize>() == 4 {
        assert_eq!(v, vec![AnyInt::U32(1)]);
        assert_eq!(stream.position(), 4);
    } else {
        assert_eq!(v, vec![AnyInt::U64(1)]);
        assert_eq!(stream.position(), 8);
    }
}

#[test]
fn predicate_tokens() {
    let mut p = PatternReader::new_le();
    p.add_expr(1, Predicate::Equals(0x7f))
        .add_expr(2, Predicate::OneOf(vec![1, 0x4c45, 3]))
        .add_expr(4, Predicate::MaskMatch { mask: 0xff00_0000, expected: 0x0200_0000 })
        .add_expr(8, Predicate::Equals(1));
    let mut stream = ByteStream::new(vec![
        0x7f, 0x45, 0x4c, 0x46, 0x01, 0x01, 0x02, 0x02, 0, 0, 0, 0, 0, 0, 0,
    ]);
    assert_eq!(
        p.read_pattern(&mut stream).unwrap(),
        vec![AnyInt::Bool(true), AnyInt::Bool(true), AnyInt::Bool(true), AnyInt::Bool(false)]
    );
    assert!(Predicate::OneOf(vec![]).eval(0) == false);
    assert!(Predicate::MaskMatch { mask: 0x0f, expected: 0x05 }.eval(0xf5));
}

#[test]
fn predicate_of_invalid_width_is_refused_before_reading() {
    let mut p = PatternReader::new_le();
    p.add_u8().add_expr(3, Predicate::Equals(0)).add_u8();
    let mut stream = ByteStream::new(vec![1, 2, 3, 4, 5, 6]);
    let r = p.read_pattern(&mut stream);
    assert_eq!(r, Err(StreamError::InvalidPattern("invalid parameter width".to_string())));
    assert_eq!(stream.position(), 1);
}

#[test]
fn short_read_fails_and_leaves_cursor() {
    let mut p = PatternReader::new_le();
    p.add_u16().add_u32();
    let mut stream = ByteStream::new(vec![1, 2, 3, 4, 5]);
    let r = p.read_pattern(&mut stream);
    assert_eq!(r, Err(StreamError::IOError(IoErrorKind::UnexpectedEndOfStream)));
    assert_eq!(stream.position(), 2);

    let mut p = PatternReader::new_le();
    p.add_u8().add_padding(10);
    let mut stream = ByteStream::new(vec![1, 2, 3, 4, 5]);
    let r = p.read_pattern(&mut stream);
    assert_eq!(r, Err(StreamError::IOError(IoErrorKind::UnexpectedEndOfStream)));
    assert_eq!(stream.position(), 5);
}

#[test]
fn value_round_trips_through_matching_token() {
    let cases: Vec<(AnyInt, PatternReaderTokens)> = vec![
        (AnyInt::U8(0xfe), PatternReaderTokens::U8),
        (AnyInt::U16(0xfedc), PatternReaderTokens::U16),
        (AnyInt::U32(0xfedc_ba98), PatternReaderTokens::U32),
        (AnyInt::U64(0xfedc_ba98_7654_3210), PatternReaderTokens::U64),
        (AnyInt::I8(-5), PatternReaderTokens::I8),
        (AnyInt::I16(-555), PatternReaderTokens::I16),
        (AnyInt::I32(i32::MIN), PatternReaderTokens::I32),
        (AnyInt::I64(-5_555_555_555), PatternReaderTokens::I64),
        (AnyInt::Bool(true), PatternReaderTokens::Bool),
        (AnyInt::Bool(false), PatternReaderTokens::Bool),
    ];
    for (v, token) in cases {
        for e in [Endianness::LittleEndian, Endianness::BigEndian] {
            let mut p = PatternReader::new(e);
            let token = match token {
                PatternReaderTokens::U8 => PatternReaderTokens::U8,
                PatternReaderTokens::U16 => PatternReaderTokens::U16,
                PatternReaderTokens::U32 => PatternReaderTokens::U32,
                PatternReaderTokens::U64 => PatternReaderTokens::U64,
                PatternReaderTokens::I8 => PatternReaderTokens::I8,
                PatternReaderTokens::I16 => PatternReaderTokens::I16,
                PatternReaderTokens::I32 => PatternReaderTokens::I32,
                PatternReaderTokens::I64 => PatternReaderTokens::I64,
                _ => PatternReaderTokens::Bool,
            };
            p.add_token(token);
            let mut stream = ByteStream::new(v.to_bytes(e));
            assert_eq!(p.read_pattern(&mut stream).unwrap(), vec![v]);
            assert_eq!(stream.position(), v.ser_size() as u64);
        }
    }
}

#[test]
fn struct_reader_fields_and_padding() {
    let reader = StructReader::new_be()
        .add_u8_field("kind")
        .add_padding(1)
        .add_u16_field("len")
        .add_i8_field("delta")
        .add_bool_field("flag")
        .add_i16_field("a")
        .add_i32_field("b")
        .add_i64_field("c")
        .add_u32_field("d")
        .add_expr_field("magic", 2, Predicate::Equals(0xcafe));
    assert_eq!(reader.required_bytes(), 1 + 1 + 2 + 1 + 1 + 2 + 4 + 8 + 4 + 2);
    assert_eq!(reader.get_inner_pattern().tokens_ref().len(), 10);
    assert_eq!(reader.get_inner_pattern().tokens_ref()[1], PatternReaderTokens::Padding(1));
    let mut bytes = vec![7, 0xee, 0x01, 0x00, 0xff, 0x01];
    bytes.extend_from_slice(&[0xff, 0xff]);
    bytes.extend_from_slice(&[0, 0, 0, 5]);
    bytes.extend_from_slice(&[0, 0, 0, 0, 0, 0, 0, 6]);
    bytes.extend_from_slice(&[0, 0, 1, 0]);
    bytes.extend_from_slice(&[0xca, 0xfe]);
    let mut stream = ByteStream::new(bytes);
    let reader = reader.read(&mut stream).unwrap();
    assert_eq!(reader.get("kind"), Some(AnyInt::U8(7)));
    assert_eq!(reader.get("len"), Some(AnyInt::U16(256)));
    assert_eq!(reader.get("delta"), Some(AnyInt::I8(-1)));
    assert_eq!(reader.get("flag"), Some(AnyInt::Bool(true)));
    assert_eq!(reader.get("a"), Some(AnyInt::I16(-1)));
    assert_eq!(reader.get("b"), Some(AnyInt::I32(5)));
    assert_eq!(reader.get("c"), Some(AnyInt::I64(6)));
    assert_eq!(reader.get("d"), Some(AnyInt::U32(256)));
    assert_eq!(reader.get("magic"), Some(AnyInt::Bool(true)));
    assert_eq!(reader.results().len(), 9);
    assert_eq!(reader["len"], AnyInt::U16(256));
    let entries = reader.into_vec();
    let names: Vec<&str> = entries.iter().map(|e| e.0.as_str()).collect();
    assert_eq!(names, vec!["a", "b", "c", "d", "delta", "flag", "kind", "len", "magic"]);
    assert_eq!(entries[0], ("a".to_string(), AnyInt::I16(-1)));
}

#[test]
fn struct_reader_duplicate_names_last_wins() {
    let mut stream = ByteStream::new(vec![1, 2, 3]);
    let reader = StructReader::new_le()
        .add_u8_field("x")
        .add_u8_field("y")
        .add_u8_field("x")
        .read(&mut stream)
        .unwrap();
    assert_eq!(reader.get("x"), Some(AnyInt::U8(3)));
    assert_eq!(reader.get("y"), Some(AnyInt::U8(2)));
    let map = reader.into_inner();
    assert_eq!(map.len(), 2);
}

#[test]
fn struct_reader_failure_binds_nothing() {
    let mut stream = ByteStream::new(vec![1, 2, 3]);
    let r = StructReader::new_le().add_u16_field("a").add_u16_field("b").read(&mut stream);
    assert_eq!(r.err(), Some(StreamError::IOError(IoErrorKind::UnexpectedEndOfStream)));
    let mut stream = ByteStream::new(vec![1, 2, 3]);
    let r = StructReader::new_le()
        .add_expr_field("a", 5, Predicate::Equals(1))
        .read(&mut stream);
    assert_eq!(
        r.err(),
        Some(StreamError::InvalidPattern("invalid parameter width".to_string()))
    );
    assert_eq!(stream.position(), 0);
}
