use neoncore::streams::read::read_map;
use neoncore::streams::write::{write_entries, write_map};
use neoncore::streams::{
    AnyInt, ByteStream, Endianness, FieldMap, IoErrorKind, LPBuffer, LPStr, LPString, LPType,
    LPWidth, MapType, StreamError,
};

#[test]
fn field_map_basics() {
    let mut m = FieldMap::new();
    assert!(m.is_empty());
    assert_eq!(m.insert("a".to_string(), AnyInt::U8(1)), None);
    assert_eq!(m.insert("b".to_string(), AnyInt::U8(2)), None);
    assert_eq!(m.insert("a".to_string(), AnyInt::U8(3)), Some(AnyInt::U8(1)));
    assert_eq!(m.len(), 2);
    assert!(!m.is_empty());
    assert_eq!(m.get("a"), Some(&AnyInt::U8(3)));
    assert_eq!(m.get("c"), None);
    assert_eq!(m.keys(), vec!["a".to_string(), "b".to_string()]);
    assert_eq!(m.values(), vec![AnyInt::U8(3), AnyInt::U8(2)]);
    if let Some(v) = m.get_mut("b") {
        *v = AnyInt::U16(20);
    }
    assert_eq!(m.get("b"), Some(&AnyInt::U16(20)));
    assert!(m.get_mut("zz").is_none());
    assert_eq!(m.insert("b".to_string(), AnyInt::U8(2)), Some(AnyInt::U16(20)));
    assert_eq!(m.remove("a"), Some(AnyInt::U8(3)));
    assert_eq!(m.remove("a"), None);
    assert_eq!(m.len(), 1);
    assert_eq!(m.into_vec(), vec![("b".to_string(), AnyInt::U8(2))]);
}

#[test]
fn field_map_lists_entries_in_the_order_of_their_names() {
    let mut m = FieldMap::new();
    for name in ["b", "", "ab", "a", "\u{e9}", "aa", "B", "b0"] {
        m.insert(name.to_string(), AnyInt::Bool(true));
    }
    let mut expected: Vec<String> =
        ["b", "", "ab", "a", "\u{e9}", "aa", "B", "b0"].iter().map(|s| s.to_string()).collect();
    expected.sort();
    assert_eq!(m.keys(), expected);
    let by_tree: std::collections::BTreeMap<String, AnyInt> = m.to_vec().into_iter().collect();
    assert_eq!(by_tree.into_iter().collect::<Vec<_>>(), m.into_vec());
}

#[test]
fn field_map_through_the_interface() {
    fn fill<M: MapType>() -> M {
        let mut m = M::new();
        m.insert("x".to_string(), AnyInt::U64(1));
        m.insert("y".to_string(), AnyInt::U64(2));
        m.insert("x".to_string(), AnyInt::U64(3));
        m
    }
    let m: FieldMap = fill();
    assert_eq!(MapType::len(&m), 2);
    assert_eq!(MapType::get(&m, "x"), Some(&AnyInt::U64(3)));
    assert_eq!(
        MapType::iter(&m),
        vec![("x".to_string(), AnyInt::U64(3)), ("y".to_string(), AnyInt::U64(2))]
    );
    assert_eq!(MapType::keys(&m).len(), 2);
    assert_eq!(MapType::values(&m).len(), 2);
    assert!(!MapType::is_empty(&m));
    let mut m = m;
    assert_eq!(MapType::remove(&mut m, "y"), Some(AnyInt::U64(2)));
}

#[test]
fn write_map_exact_bytes() {
    let mut m = FieldMap::new();
    m.insert("ab".to_string(), AnyInt::U64(0x0102));
    m.insert("c".to_string(), AnyInt::U48(3));
    let mut stream = ByteStream::new(Vec::new());
    let n = write_map(&mut stream, Endianness::BigEndian, &m, LPWidth::LP32).unwrap();
    assert_eq!(n, 6 + 3 + 8 + 2 + 8);
    assert_eq!(
        stream.get_ref(),
        &vec![
            0, 0, 0, 0, 0, 2, // count
            0x61, 0x62, 0, 0, 0, 0, 0, 0, 0, 0x01, 0x02, // "ab" => 0x0102
            0x63, 0, 0, 0, 0, 0, 0, 0, 0, 3, // "c" => 3
        ]
    );
    let mut stream = ByteStream::new(Vec::new());
    write_map(&mut stream, Endianness::LittleEndian, &m, LPWidth::LP8).unwrap();
    assert_eq!(&stream.get_ref()[..6], &[2, 0, 0, 0, 0, 0]);
    assert_eq!(&stream.get_ref()[9..17], &[0x02, 0x01, 0, 0, 0, 0, 0, 0]);
}

#[test]
fn map_round_trips() {
    for e in [Endianness::LittleEndian, Endianness::BigEndian] {
        let mut m = FieldMap::new();
        m.insert("first".to_string(), AnyInt::U64(u64::MAX));
        m.insert("".to_string(), AnyInt::U64(0));
        m.insert("third".to_string(), AnyInt::U64(0x0102030405060708));
        let mut stream = ByteStream::new(Vec::new());
        write_map(&mut stream, e, &m, LPWidth::LP16).unwrap();
        let end = stream.position();
        stream.seek(0);
        let back: FieldMap = read_map(&mut stream, e, LPWidth::LP16).unwrap();
        assert_eq!(back, m);
        assert_eq!(stream.position(), end);
    }
}

#[test]
fn write_map_writes_signed_values_in_twos_complement() {
    let entries = vec![
        ("a".to_string(), AnyInt::I64(-2)),
        ("b".to_string(), AnyInt::I48(-3)),
        ("c".to_string(), AnyInt::U48(0x0102030405060708)),
    ];
    let mut stream = ByteStream::new(Vec::new());
    let n = write_entries(&mut stream, Endianness::BigEndian, &entries).unwrap();
    assert_eq!(n, 6 + 3 * (2 + 8));
    assert_eq!(
        stream.get_ref(),
        &vec![
            0, 0, 0, 0, 0, 3, // count
            0x61, 0, 0xff, 0xff, 0xff, 0xff, 0xff, 0xff, 0xff, 0xfe, // "a" => -2
            0x62, 0, 0xff, 0xff, 0xff, 0xff, 0xff, 0xff, 0xff, 0xfd, // "b" => -3
            0x63, 0, 1, 2, 3, 4, 5, 6, 7, 8, // "c", the whole slot
        ]
    );
    stream.seek(0);
    let back: FieldMap = read_map(&mut stream, Endianness::BigEndian, LPWidth::LP64).unwrap();
    assert_eq!(back.get("a"), Some(&AnyInt::U64(u64::MAX - 1)));
    assert_eq!(back.get("c"), Some(&AnyInt::U64(0x0102030405060708)));
}

#[test]
fn write_map_count_keeps_its_low_bytes_in_both_orders() {
    let entries: Vec<(String, AnyInt)> =
        (0..0x0102).map(|i| (format!("k{i:04}"), AnyInt::U64(i))).collect();
    let mut stream = ByteStream::new(Vec::new());
    write_entries(&mut stream, Endianness::BigEndian, &entries).unwrap();
    assert_eq!(&stream.get_ref()[..6], &[0, 0, 0, 0, 0x01, 0x02]);
    stream.seek(0);
    let back: FieldMap = read_map(&mut stream, Endianness::BigEndian, LPWidth::LP8).unwrap();
    assert_eq!(back.len(), 0x0102);
    let mut stream = ByteStream::new(Vec::new());
    write_entries(&mut stream, Endianness::LittleEndian, &entries).unwrap();
    assert_eq!(&stream.get_ref()[..6], &[0x02, 0x01, 0, 0, 0, 0]);
}

#[test]
fn write_map_refuses_values_without_a_64_bit_slot() {
    for odd in [
        AnyInt::U8(1),
        AnyInt::U16(1),
        AnyInt::U32(1),
        AnyInt::U128(1),
        AnyInt::I8(1),
        AnyInt::I16(1),
        AnyInt::I32(1),
        AnyInt::I128(1),
        AnyInt::Bool(true),
    ] {
        let entries = vec![("a".to_string(), AnyInt::U64(1)), ("b".to_string(), odd)];
        let mut stream = ByteStream::new(Vec::new());
        let r = write_entries(&mut stream, Endianness::LittleEndian, &entries);
        assert_eq!(r, Err(StreamError::TypeMismatch));
        assert_eq!(stream.len(), 0);
    }
}

#[test]
fn read_map_failures() {
    let eof = Err(StreamError::IOError(IoErrorKind::UnexpectedEndOfStream));
    let mut stream = ByteStream::new(vec![1, 0, 0, 0, 0]);
    assert_eq!(read_map::<FieldMap>(&mut stream, Endianness::LittleEndian, LPWidth::LP32), eof);
    assert_eq!(stream.position(), 0);
    // one entry announced, its value cut short
    let mut stream = ByteStream::new(vec![1, 0, 0, 0, 0, 0, 0x61, 0, 1, 2, 3]);
    assert_eq!(read_map::<FieldMap>(&mut stream, Endianness::LittleEndian, LPWidth::LP32), eof);
    assert_eq!(stream.position(), 8);
    // a name without its zero byte
    let mut stream = ByteStream::new(vec![1, 0, 0, 0, 0, 0, 0x61, 0x62]);
    assert_eq!(read_map::<FieldMap>(&mut stream, Endianness::LittleEndian, LPWidth::LP32), eof);
    // a name of 256 bytes
    let mut bytes = vec![0, 0, 0, 0, 0, 1];
    bytes.extend_from_slice(&[0x61; 256]);
    bytes.push(0);
    bytes.extend_from_slice(&[0; 8]);
    let mut stream = ByteStream::new(bytes);
    assert_eq!(
        read_map::<FieldMap>(&mut stream, Endianness::BigEndian, LPWidth::LP32),
        Err(StreamError::LengthExceeded)
    );
    // a name that is not UTF-8
    let mut stream = ByteStream::new(vec![0, 0, 0, 0, 0, 1, 0xff, 0, 0, 0, 0, 0, 0, 0, 0, 0]);
    assert_eq!(
        read_map::<FieldMap>(&mut stream, Endianness::BigEndian, LPWidth::LP32),
        Err(StreamError::InvalidEncoding)
    );
    // no entries
    let mut stream = ByteStream::new(vec![0, 0, 0, 0, 0, 0, 9, 9]);
    let m: FieldMap = read_map(&mut stream, Endianness::BigEndian, LPWidth::LP32).unwrap();
    assert!(m.is_empty());
    assert_eq!(stream.position(), 6);
    // a name read twice is bound to the later value
    let mut stream = ByteStream::new(vec![
        0, 0, 0, 0, 0, 2, 0x61, 0, 0, 0, 0, 0, 0, 0, 0, 1, 0x61, 0, 0, 0, 0, 0, 0, 0, 0, 2,
    ]);
    let m: FieldMap = read_map(&mut stream, Endianness::BigEndian, LPWidth::LP32).unwrap();
    assert_eq!(m.len(), 1);
    assert_eq!(m.get("a"), Some(&AnyInt::U64(2)));
}

#[test]
fn framed_payload_types() {
    let mut s = LPString::from("h\u{e9}llo");
    assert_eq!(*s.lpwidth(), LPWidth::LP32);
    assert_eq!(*s.lpendian(), Endianness::LittleEndian);
    assert_eq!(s.lp(), 6);
    assert_eq!(s.val(), "h\u{e9}llo");
    s.set_endian(Endianness::BigEndian);
    assert_eq!(*s.lpendian(), Endianness::BigEndian);
    assert_eq!(s.lp(), 6);
    let back: String = s.into();
    assert_eq!(back, "h\u{e9}llo");
    let s = LPString::from("abc".to_string());
    assert_eq!(s.lp(), 3);

    let s = LPStr::from("abc");
    assert_eq!(s.lp(), 3);
    assert_eq!(s.val(), "abc");
    assert_eq!(*s.lpwidth(), LPWidth::LP32);
    let back: &str = s.into();
    assert_eq!(back, "abc");

    let bytes = [1u8, 2, 3, 4];
    let mut b = LPBuffer::from(&bytes[..]);
    assert_eq!(b.lp(), 4);
    assert_eq!(b.val(), &[1, 2, 3, 4]);
    b.set_endian(Endianness::BigEndian);
    assert_eq!(*b.lpendian(), Endianness::BigEndian);
    let back: &[u8] = b.into();
    assert_eq!(back, &bytes);
}
