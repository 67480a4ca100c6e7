use neoncore::streams::{AnyInt, Endianness, LPWidth, StreamError};

#[test]
fn test_anyint() {
    let v: AnyInt = 1u8.into();
    assert_eq!(v, AnyInt::U8(1));
    let v: AnyInt = 1u16.into();
    assert_eq!(v, AnyInt::U16(1));
    let v: AnyInt = 1u32.into();
    assert_eq!(v, AnyInt::U32(1));
    let v: AnyInt = 1u64.into();
    assert_eq!(v, AnyInt::U64(1));
    let v: AnyInt = 1u128.into();
    assert_eq!(v, AnyInt::U128(1));
    let v: AnyInt = 1i8.into();
    assert_eq!(v, AnyInt::I8(1));
    let v: AnyInt = 1i16.into();
    assert_eq!(v, AnyInt::I16(1));
    let v: AnyInt = 1i32.into();
    assert_eq!(v, AnyInt::I32(1));
    let v: AnyInt = 1i64.into();
    assert_eq!(v, AnyInt::I64(1));
    let v: AnyInt = 1i128.into();
    assert_eq!(v, AnyInt::I128(1));
}

#[test]
fn test_try_from() {
    let v: AnyInt = 1u8.into();
    let v: u8 = v.try_into().unwrap();
    assert_eq!(v, 1);
    let v: AnyInt = 1u16.into();
    let v: u16 = v.try_into().unwrap();
    assert_eq!(v, 1);
    let v: AnyInt = 1u32.into();
    let v: u32 = v.try_into().unwrap();
    assert_eq!(v, 1);
    let v: AnyInt = 1u64.into();
    let v: u64 = v.try_into().unwrap();
    assert_eq!(v, 1);
    let v: AnyInt = 1u128.into();
    let v: u128 = v.try_into().unwrap();
    assert_eq!(v, 1);
    let v: AnyInt = 1i8.into();
    let v: i8 = v.try_into().unwrap();
    assert_eq!(v, 1);
    let v: AnyInt = 1i16.into();
    let v: i16 = v.try_into().unwrap();
    assert_eq!(v, 1);
    let v: AnyInt = 1i32.into();
    let v: i32 = v.try_into().unwrap();
    assert_eq!(v, 1);
    let v: AnyInt = 1i64.into();
    let v: i64 = v.try_into().unwrap();
    assert_eq!(v, 1);
    let v: AnyInt = 1i128.into();
    let v: i128 = v.try_into().unwrap();
    assert_eq!(v, 1);
}

#[test]
fn test_try_from_error_case() {
    let v: AnyInt = 1u8.into();
    let v: Result<u16, _> = v.try_into();
    assert!(v.is_err());
    let v: AnyInt = 1u16.into();
    let v: Result<u32, _> = v.try_into();
    assert!(v.is_err());
    let v: AnyInt = 1u32.into();
    let v: Result<u64, _> = v.try_into();
    assert!(v.is_err());
    let v: AnyInt = 1u64.into();
    let v: Result<u128, _> = v.try_into();
    assert!(v.is_err());
    let v: AnyInt = 1u128.into();
    let v: Result<u8, _> = v.try_into();
    assert!(v.is_err());
    let v: AnyInt = 1i8.into();
    let v: Result<i16, _> = v.try_into();
    assert!(v.is_err());
    let v: AnyInt = 1i16.into();
    let v: Result<i32, _> = v.try_into();
    assert!(v.is_err());
    let v: AnyInt = 1i32.into();
    let v: Result<i64, _> = v.try_into();
    assert!(v.is_err());
    let v: AnyInt = 1i64.into();
    let v: Result<i128, _> = v.try_into();
    assert!(v.is_err());
    let v: AnyInt = 1i128.into();
    let v: Result<i8, _> = v.try_into();
    assert!(v.is_err());
}

#[test]
fn test_lpwidth_size() {
    let v = LPWidth::LP8;
    assert_eq!(v.size(), 1);
    let v = LPWidth::LP16;
    assert_eq!(v.size(), 2);
    let v = LPWidth::LP32;
    assert_eq!(v.size(), 4);
    let v = LPWidth::LP64;
    assert_eq!(v.size(), 8);
}

#[test]
fn test_usize_fits() {
    assert!(LPWidth::usize_fits(LPWidth::LP8, 0));
    assert!(LPWidth::usize_fits(LPWidth::LP8, 255));
    assert!(!LPWidth::usize_fits(LPWidth::LP8, 256));
    assert!(LPWidth::usize_fits(LPWidth::LP16, 0));
    assert!(LPWidth::usize_fits(LPWidth::LP16, 65535));
    assert!(!LPWidth::usize_fits(LPWidth::LP16, 65536));
    assert!(LPWidth::usize_fits(LPWidth::LP32, 0));
    assert!(LPWidth::usize_fits(LPWidth::LP32, 4294967295));
    assert!(!LPWidth::usize_fits(LPWidth::LP32, 4294967296));
    assert!(LPWidth::usize_fits(LPWidth::LP64, 0));
    assert!(LPWidth::usize_fits(LPWidth::LP64, 18446744073709551615));
}

#[test]
fn try_from_type_mismatch_and_widening() {
    assert_eq!(u16::try_from(AnyInt::U8(1)), Err(StreamError::TypeMismatch));
    assert_eq!(u64::try_from(AnyInt::U48(7)), Ok(7));
    assert_eq!(u64::try_from(AnyInt::U64(7)), Ok(7));
    assert_eq!(i64::try_from(AnyInt::I48(-7)), Ok(-7));
    assert_eq!(i64::try_from(AnyInt::I64(-7)), Ok(-7));
    assert_eq!(u64::try_from(AnyInt::I64(7)), Err(StreamError::TypeMismatch));
    assert_eq!(i64::try_from(AnyInt::U48(7)), Err(StreamError::TypeMismatch));
    assert_eq!(bool::try_from(AnyInt::Bool(true)), Ok(true));
    assert_eq!(bool::try_from(AnyInt::U8(1)), Err(StreamError::TypeMismatch));
    let v: AnyInt = true.into();
    assert_eq!(v, AnyInt::Bool(true));
}

#[test]
fn sizes_in_memory_and_on_the_wire() {
    let all = [
        (AnyInt::U8(0), 1, 1),
        (AnyInt::U16(0), 2, 2),
        (AnyInt::U32(0), 4, 4),
        (AnyInt::U48(0), 8, 6),
        (AnyInt::U64(0), 8, 8),
        (AnyInt::U128(0), 16, 16),
        (AnyInt::I8(0), 1, 1),
        (AnyInt::I16(0), 2, 2),
        (AnyInt::I32(0), 4, 4),
        (AnyInt::I48(0), 8, 6),
        (AnyInt::I64(0), 8, 8),
        (AnyInt::I128(0), 16, 16),
        (AnyInt::Bool(false), 1, 1),
    ];
    for (v, size, ser) in all {
        assert_eq!(v.size(), size);
        assert_eq!(v.ser_size(), ser);
        assert_eq!(v.to_bytes_le().len(), ser);
        assert_eq!(v.to_bytes_be().len(), ser);
    }
}

#[test]
fn to_bytes_exact() {
    assert_eq!(AnyInt::U8(0xab).to_bytes_le(), vec![0xab]);
    assert_eq!(AnyInt::U16(0x0102).to_bytes_le(), vec![0x02, 0x01]);
    assert_eq!(AnyInt::U16(0x0102).to_bytes_be(), vec![0x01, 0x02]);
    assert_eq!(AnyInt::U32(0x01020304).to_bytes_le(), vec![4, 3, 2, 1]);
    assert_eq!(AnyInt::U32(0x01020304).to_bytes_be(), vec![1, 2, 3, 4]);
    assert_eq!(AnyInt::U64(0x0102030405060708).to_bytes_le(), vec![8, 7, 6, 5, 4, 3, 2, 1]);
    assert_eq!(AnyInt::U64(0x0102030405060708).to_bytes_be(), vec![1, 2, 3, 4, 5, 6, 7, 8]);
    assert_eq!(
        AnyInt::U128(0x0102030405060708090a0b0c0d0e0f10).to_bytes_be(),
        vec![1, 2, 3, 4, 5, 6, 7, 8, 9, 10, 11, 12, 13, 14, 15, 16]
    );
    assert_eq!(
        AnyInt::U128(0x0102030405060708090a0b0c0d0e0f10).to_bytes_le(),
        vec![16, 15, 14, 13, 12, 11, 10, 9, 8, 7, 6, 5, 4, 3, 2, 1]
    );
    assert_eq!(AnyInt::I8(-1).to_bytes_le(), vec![0xff]);
    assert_eq!(AnyInt::I8(-128).to_bytes_be(), vec![0x80]);
    assert_eq!(AnyInt::I16(-2).to_bytes_le(), vec![0xfe, 0xff]);
    assert_eq!(AnyInt::I16(-2).to_bytes_be(), vec![0xff, 0xfe]);
    assert_eq!(AnyInt::I32(-2).to_bytes_be(), vec![0xff, 0xff, 0xff, 0xfe]);
    assert_eq!(AnyInt::I32(-2).to_bytes_le(), vec![0xfe, 0xff, 0xff, 0xff]);
    assert_eq!(AnyInt::I64(-3).to_bytes_le(), vec![0xfd, 0xff, 0xff, 0xff, 0xff, 0xff, 0xff, 0xff]);
    assert_eq!(
        AnyInt::I128(-4).to_bytes_be(),
        vec![
            0xff, 0xff, 0xff, 0xff, 0xff, 0xff, 0xff, 0xff, 0xff, 0xff, 0xff, 0xff, 0xff, 0xff,
            0xff, 0xfc
        ]
    );
    assert_eq!(AnyInt::I64(i64::MIN).to_bytes_be(), vec![0x80, 0, 0, 0, 0, 0, 0, 0]);
    assert_eq!(AnyInt::I128(-1).to_bytes_le(), vec![0xff; 16]);
    assert_eq!(AnyInt::Bool(true).to_bytes_le(), vec![1]);
    assert_eq!(AnyInt::Bool(false).to_bytes_be(), vec![0]);
    assert_eq!(
        AnyInt::U32(0x01020304).to_bytes(Endianness::BigEndian),
        AnyInt::U32(0x01020304).to_bytes_be()
    );
}

#[test]
fn to_bytes_48_bit_slicing() {
    // the first six of the eight little-endian bytes
    assert_eq!(
        AnyInt::U48(0x1122_3344_5566_7788).to_bytes_le(),
        vec![0x88, 0x77, 0x66, 0x55, 0x44, 0x33]
    );
    // the first six of the eight big-endian bytes: the high six bytes
    assert_eq!(
        AnyInt::U48(0x1122_3344_5566_7788).to_bytes_be(),
        vec![0x11, 0x22, 0x33, 0x44, 0x55, 0x66]
    );
    assert_eq!(
        AnyInt::U48(0x0102030405060708).to_bytes_be(),
        vec![0x01, 0x02, 0x03, 0x04, 0x05, 0x06]
    );
    assert_eq!(
        AnyInt::U48(0x0102030405060708).to_bytes_le(),
        vec![0x08, 0x07, 0x06, 0x05, 0x04, 0x03]
    );
    assert_eq!(AnyInt::I48(-2).to_bytes_le(), vec![0xfe, 0xff, 0xff, 0xff, 0xff, 0xff]);
    assert_eq!(AnyInt::I48(-2).to_bytes_be(), vec![0xff, 0xff, 0xff, 0xff, 0xff, 0xff]);
    assert_eq!(
        AnyInt::I48(0x0102030405060708).to_bytes_be(),
        vec![0x01, 0x02, 0x03, 0x04, 0x05, 0x06]
    );
    assert_eq!(
        AnyInt::U48(0x0102030405060708).to_bytes(Endianness::BigEndian),
        vec![0x01, 0x02, 0x03, 0x04, 0x05, 0x06]
    );
}
