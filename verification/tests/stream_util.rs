use neoncore::stream_util::Endianness::LittleEndian;
use neoncore::stream_util::{find_u32_signature, find_u64_signature};
use neoncore::streams::ByteStream;

const DATA: [u8; 168] = [
    0x00, 0x2F, 0x6D, 0x61, 0x78, 0x5F, 0x73, 0x69, 0x7A, 0x65, 0x2E, 0x72, 0x73, 0x55, 0x54,
    0x05, 0x00, 0x01, 0xA9, 0xBA, 0xEE, 0x63, 0x50, 0x4B, 0x01, 0x02, 0x00, 0x00, 0x0A, 0x00,
    0x00, 0x00, 0x08, 0x00, 0xC8, 0x7A, 0x50, 0x56, 0xDB, 0x87, 0xEE, 0xBA, 0x1A, 0x02, 0x00,
    0x00, 0x8C, 0x09, 0x00, 0x00, 0x1D, 0x00, 0x09, 0x00, 0x00, 0x00, 0x00, 0x00, 0x01, 0x00,
    0x00, 0x00, 0x00, 0x00, 0xF5, 0xEC, 0x00, 0x00, 0x70, 0x6F, 0x73, 0x74, 0x63, 0x61, 0x72,
    0x64, 0x2D, 0x6D, 0x61, 0x69, 0x6E, 0x2F, 0x74, 0x65, 0x73, 0x74, 0x73, 0x2F, 0x73, 0x63,
    0x68, 0x65, 0x6D, 0x61, 0x2E, 0x72, 0x73, 0x55, 0x54, 0x05, 0x00, 0x01, 0xA9, 0xBA, 0xEE,
    0x63, 0x50, 0x4B, 0x05, 0x06, 0x00, 0x00, 0x00, 0x00, 0x2C, 0x00, 0x2C, 0x00, 0x82, 0x0E,
    0x00, 0x00, 0x53, 0xEF, 0x00, 0x00, 0x28, 0x00, 0x61, 0x31, 0x63, 0x33, 0x61, 0x66, 0x34,
    0x37, 0x61, 0x65, 0x63, 0x34, 0x33, 0x33, 0x61, 0x34, 0x30, 0x30, 0x62, 0x39, 0x38, 0x37,
    0x31, 0x38, 0x64, 0x36, 0x37, 0x65, 0x32, 0x62, 0x38, 0x38, 0x33, 0x61, 0x36, 0x36, 0x38,
    0x64, 0x37, 0x37,
];

#[test]
fn stream_util_test_find_signature() {
    let sig = 0x02014b50;
    let sig_2 = 0x06054b50;
    let mut stream = ByteStream::new(DATA.to_vec());

    let pos_1 = find_u32_signature(&mut stream, sig, None, None, LittleEndian, true).unwrap();
    let pos_2 =
        find_u32_signature(&mut stream, sig_2, Some(pos_1), None, LittleEndian, false).unwrap();

    assert_eq!(pos_1, 0x16);
    assert_eq!(pos_2, 0x6A);
}

#[test]
fn stream_util_test_find_signature64() {
    let sig = 0x4b5063eebaa90100;
    let mut stream = ByteStream::new(DATA.to_vec());

    let pos_1 = find_u64_signature(&mut stream, sig, None, None, LittleEndian, true).unwrap();

    assert_eq!(pos_1, 0x10);
}
