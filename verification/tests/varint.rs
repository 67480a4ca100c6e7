use neoncore::varint::{
    max_of_last_byte, varint_max, varint_u128, varint_u16, varint_u32, varint_u64, varint_usize,
    TryTakeVarint, VarintError,
};

#[test]
fn test_varint_u16() {
    let mut out = [0u8; 3];
    for i in 0..=u16::MAX {
        varint_u16(i, &mut out);
        let val = u16::try_take_varint_u16(&out).unwrap();
        assert_eq!(val, i);
    }
}

#[test]
fn varint_u16_length_is_at_most_three() {
    assert_eq!(varint_max::<u16>(), 3);
    let mut out = [0u8; 3];
    for i in 0..=u16::MAX {
        assert!(varint_u16(i, &mut out).len() <= 3);
    }
}

#[test]
fn varint_layout() {
    assert_eq!(varint_max::<u8>(), 2);
    assert_eq!(varint_max::<u16>(), 3);
    assert_eq!(varint_max::<u32>(), 5);
    assert_eq!(varint_max::<u64>(), 10);
    assert_eq!(varint_max::<u128>(), 19);
    assert_eq!(varint_max::<[u8; 7]>(), 8);
    assert_eq!(max_of_last_byte::<u16>(), 3);
    assert_eq!(max_of_last_byte::<u32>(), 15);
    assert_eq!(max_of_last_byte::<u64>(), 1);
    assert_eq!(max_of_last_byte::<u128>(), 3);
    assert_eq!(max_of_last_byte::<[u8; 7]>(), 127);
}

#[test]
fn varint_exact_bytes() {
    let mut out = [0u8; 3];
    assert_eq!(varint_u16(0, &mut out), &[0x00]);
    assert_eq!(varint_u16(127, &mut out), &[0x7f]);
    assert_eq!(varint_u16(128, &mut out), &[0x80, 0x01]);
    assert_eq!(varint_u16(300, &mut out), &[0xac, 0x02]);
    assert_eq!(varint_u16(u16::MAX, &mut out), &[0xff, 0xff, 0x03]);
    let mut out = [0u8; 5];
    assert_eq!(varint_u32(u32::MAX, &mut out), &[0xff, 0xff, 0xff, 0xff, 0x0f]);
    let mut out = [0u8; 10];
    assert_eq!(
        varint_u64(u64::MAX, &mut out),
        &[0xff, 0xff, 0xff, 0xff, 0xff, 0xff, 0xff, 0xff, 0xff, 0x01]
    );
    let mut out = [0u8; 10];
    assert_eq!(varint_usize(16384, &mut out), &[0x80, 0x80, 0x01]);
    let mut out = [0u8; 19];
    assert_eq!(varint_u128(1 << 70, &mut out).len(), 11);
}

#[test]
fn varint_leaves_bytes_behind_the_code() {
    let mut out = [0xeeu8; 3];
    varint_u16(5, &mut out);
    assert_eq!(out, [0x05, 0xee, 0xee]);
}

#[test]
fn varint_bad_encodings() {
    // every byte has its high bit set
    assert_eq!(
        u16::try_take_varint_u16(&[0x80, 0x80, 0x80]),
        Err(VarintError::DeserializeBadVarint)
    );
    // the last byte is greater than the type leaves room for
    assert_eq!(
        u16::try_take_varint_u16(&[0xff, 0xff, 0x04]),
        Err(VarintError::DeserializeBadVarint)
    );
    assert_eq!(u16::try_take_varint_u16(&[0xff, 0xff, 0x03]), Ok(u16::MAX));
    // a code that is longer than it had to be is taken
    assert_eq!(u16::try_take_varint_u16(&[0x80, 0x80, 0x00]), Ok(0));
    assert_eq!(
        u32::try_take_varint_u32(&[0xff, 0xff, 0xff, 0xff, 0x10]),
        Err(VarintError::DeserializeBadVarint)
    );
    assert_eq!(
        u64::try_take_varint_u64(&[0xff, 0xff, 0xff, 0xff, 0xff, 0xff, 0xff, 0xff, 0xff, 0x02]),
        Err(VarintError::DeserializeBadVarint)
    );
    assert_eq!(
        usize::try_take_varint_usize(&[0x80, 0x80, 0x01, 0, 0, 0, 0, 0, 0, 0]),
        Ok(16384)
    );
}

fn samples_u128() -> Vec<u128> {
    let mut v = vec![0u128, 1, 127, 128, 255, 256, 16383, 16384];
    for shift in 0..128u32 {
        let p = 1u128 << shift;
        v.push(p);
        v.push(p - 1);
        v.push(p + (p >> 1));
        v.push(p.wrapping_mul(0x9e37_79b9_7f4a_7c15) | p);
    }
    v.push(u128::MAX);
    v
}

#[test]
fn test_varint_u32() {
    let mut out = [0u8; 5];
    for s in samples_u128() {
        let i = s as u32;
        varint_u32(i, &mut out);
        let val = u32::try_take_varint_u32(&out).unwrap();
        assert_eq!(val, i);
    }
    for i in (0..=u32::MAX).step_by(65_521) {
        varint_u32(i, &mut out);
        let val = u32::try_take_varint_u32(&out).unwrap();
        assert_eq!(val, i);
    }
}

#[test]
fn test_varint_u64() {
    let mut out = [0u8; 10];
    for s in samples_u128() {
        let i = s as u64;
        varint_u64(i, &mut out);
        let val = u64::try_take_varint_u64(&out).unwrap();
        assert_eq!(val, i);
    }
}

#[test]
fn test_varint_u128() {
    let mut out = [0u8; 19];
    for i in samples_u128() {
        varint_u128(i, &mut out);
        let val = u128::try_take_varint_u128(&out).unwrap();
        assert_eq!(val, i);
    }
}

#[test]
fn varint_usize_round_trip() {
    let mut out = [0u8; 10];
    for s in samples_u128() {
        let i = s as usize;
        varint_usize(i, &mut out);
        let val = usize::try_take_varint_usize(&out).unwrap();
        assert_eq!(val, i);
    }
}
