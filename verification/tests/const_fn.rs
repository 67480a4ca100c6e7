use neoncore::const_fn::{
    byte_to_gib, byte_to_kib, byte_to_mib, byte_to_tib, gib_to_byte, kib_to_byte, mib_to_byte,
    tib_to_byte,
};

#[test]
fn test_kib_to_byte() {
    assert_eq!(kib_to_byte(1), 1024);
    assert_eq!(kib_to_byte(2), 2048);
    assert_eq!(kib_to_byte(3), 3072);
}

#[test]
fn test_mib_to_byte() {
    assert_eq!(mib_to_byte(1), 1024 * 1024);
    assert_eq!(mib_to_byte(2), 1024 * 1024 * 2);
    assert_eq!(mib_to_byte(3), 1024 * 1024 * 3);
}

#[test]
fn test_gib_to_byte() {
    assert_eq!(gib_to_byte(1), 1024 * 1024 * 1024);
    assert_eq!(gib_to_byte(2), 1024 * 1024 * 1024 * 2);
    assert_eq!(gib_to_byte(3), 1024 * 1024 * 1024 * 3);
}

#[test]
fn test_tib_to_byte() {
    assert_eq!(tib_to_byte(1), 1024 * 1024 * 1024 * 1024);
    assert_eq!(tib_to_byte(2), 1024 * 1024 * 1024 * 1024 * 2);
    assert_eq!(tib_to_byte(3), 1024 * 1024 * 1024 * 1024 * 3);
}

#[test]
fn test_byte_to_kib() {
    assert_eq!(byte_to_kib(1024), 1);
    assert_eq!(byte_to_kib(2048), 2);
    assert_eq!(byte_to_kib(3072), 3);
}

#[test]
fn test_byte_to_mib() {
    assert_eq!(byte_to_mib(1024 * 1024), 1);
    assert_eq!(byte_to_mib(1024 * 1024 * 2), 2);
    assert_eq!(byte_to_mib(1024 * 1024 * 3), 3);
}

#[test]
fn test_byte_to_gib() {
    assert_eq!(byte_to_gib(1024 * 1024 * 1024), 1);
    assert_eq!(byte_to_gib(1024 * 1024 * 1024 * 2), 2);
    assert_eq!(byte_to_gib(1024 * 1024 * 1024 * 3), 3);
}

#[test]
fn test_byte_to_tib() {
    assert_eq!(byte_to_tib(1024 * 1024 * 1024 * 1024), 1);
    assert_eq!(byte_to_tib(1024 * 1024 * 1024 * 1024 * 2), 2);
    assert_eq!(byte_to_tib(1024 * 1024 * 1024 * 1024 * 3), 3);
}

#[test]
fn byte_to_units_round_down() {
    assert_eq!(byte_to_kib(1023), 0);
    assert_eq!(byte_to_kib(2047), 1);
    assert_eq!(byte_to_mib(1024 * 1024 - 1), 0);
    assert_eq!(kib_to_byte(0), 0);
}

#[test]
fn test_u16() {
    assert_eq!(neoncore::const_fn::ascii_to_u16_le(b"AB"), 0x4241);
    assert_eq!(neoncore::const_fn::ascii_to_u16_be(b"AB"), 0x4142);
}

#[test]
fn test_u32() {
    assert_eq!(neoncore::const_fn::ascii_to_u32_le(b"ABCD"), 0x44434241);
    assert_eq!(neoncore::const_fn::ascii_to_u32_be(b"ABCD"), 0x41424344);
}

#[test]
fn test_u64() {
    assert_eq!(neoncore::const_fn::ascii_to_u64_le(b"ABCDEFGH"), 0x4847464544434241);
    assert_eq!(neoncore::const_fn::ascii_to_u64_be(b"ABCDEFGH"), 0x4142434445464748);
}

#[test]
fn test_u128() {
    assert_eq!(
        neoncore::const_fn::ascii_to_u128_le(b"ABCDEFGHIJKLMNOP"),
        0x504f4e4d4c4b4a494847464544434241
    );
    assert_eq!(
        neoncore::const_fn::ascii_to_u128_be(b"ABCDEFGHIJKLMNOP"),
        0x4142434445464748494a4b4c4d4e4f50
    );
}
