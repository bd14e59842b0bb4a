use std::collections::hash_map::DefaultHasher;
use std::hash::{Hash, Hasher};
use omni::varint::{decode_varint, encode_varint, varint_max_bytes, FromVarint, IntoVarint, VarInt};
use omni::error::OmniError;

#[test]
fn encode_300() {
    assert_eq!(300u32.to_varint(), vec![0xAC, 0x02]);
    assert_eq!(0u8.to_varint(), vec![0x00]);
    assert_eq!(127u16.to_varint(), vec![0x7F]);
    assert_eq!(128u64.to_varint(), vec![0x80, 0x01]);
}

#[test]
fn decode_300() {
    assert_eq!(u32::from_varint(&[0xAC, 0x02]), Some((300, 2)));
    assert_eq!(u16::from_varint(&[0xAC, 0x02, 0x55]), Some((300, 2)));
}

#[test]
fn decode_too_large_for_type() {
    assert_eq!(u8::from_varint(&[0xAC, 0x02]), None);
    assert_eq!(u8::from_varint(&[0xFF, 0x01]), Some((255, 2)));
    assert_eq!(u8::from_varint(&[0x80, 0x02]), None);
}

#[test]
fn decode_unterminated() {
    assert_eq!(u64::from_varint(&[0x80, 0x80]), None);
    assert_eq!(u64::from_varint(&[]), None);
}

#[test]
fn decode_accepts_zero_padding() {
    assert_eq!(u8::from_varint(&[0x81, 0x80, 0x80, 0x00]), Some((1, 4)));
}

#[test]
fn roundtrip_extremes() {
    for v in [0u128, 1, 127, 128, 255, 300, u64::MAX as u128, u128::MAX] {
        let e = v.to_varint();
        assert_eq!(u128::from_varint(&e), Some((v, e.len())));
    }
    assert_eq!(u128::MAX.to_varint().len(), 19);
    assert_eq!(u64::MAX.to_varint().len(), 10);
    let e = usize::MAX.to_varint();
    assert_eq!(usize::from_varint(&e), Some((usize::MAX, e.len())));
}

#[test]
fn max_bytes() {
    assert_eq!(varint_max_bytes(8), 2);
    assert_eq!(varint_max_bytes(64), 10);
    assert_eq!(varint_max_bytes(128), 19);
}

#[test]
fn decode_varint_errors() {
    assert_eq!(decode_varint(&[0xAC, 0x02]).unwrap(), (300, 2));
    assert!(matches!(decode_varint(&[0x80]), Err(OmniError::UnexpectedEof)));
    let mut big = vec![0xFF; 9];
    big.push(0x02);
    assert!(matches!(decode_varint(&big), Err(OmniError::VarintOverflow)));
    let mut max = vec![0xFF; 9];
    max.push(0x01);
    assert_eq!(decode_varint(&max).unwrap(), (u64::MAX, 10));
    assert_eq!(encode_varint(u64::MAX), max);
}

#[test]
fn varint_conversions() {
    let v = VarInt::from(300u16);
    assert_eq!(v.as_slice(), &[0xAC, 0x02]);
    assert_eq!(v.to_vec(), vec![0xAC, 0x02]);
    assert_eq!(v.len(), 2);
    assert_eq!(v.try_convert::<u32>(), Some(300u32));
    assert_eq!(v.try_convert::<u8>(), None);
    assert!(v.fits_in::<u16>());
    assert!(!v.fits_in::<u8>());
    assert_eq!(u64::try_from(&v), Ok(300));
    assert!(u8::try_from(v.clone()).is_err());
    assert_eq!(&*v, &[0xAC, 0x02]);
}

#[test]
fn varint_equality_and_order() {
    assert!(VarInt::from(5u8) == VarInt::from(5u64));
    assert!(VarInt::from(5u8) != VarInt::from(6u8));
    assert!(VarInt::from(127u8) < VarInt::from(128u8));
    assert_eq!(VarInt::from(9u8).cmp(&VarInt::from(9u128)), std::cmp::Ordering::Equal);
}

#[test]
fn varint_text() {
    assert_eq!(VarInt::from(300u32).to_string(), "300");
    assert_eq!(VarInt::from(u128::MAX).to_string(), u128::MAX.to_string());
    let v: VarInt = "300".parse().unwrap();
    assert_eq!(v, VarInt::from(300u32));
    assert!("+7".parse::<VarInt>().is_ok());
    assert_eq!("abc".parse::<VarInt>().err(), Some("Not a valid decimal number"));
    assert!("".parse::<VarInt>().is_err());
    assert!("-1".parse::<VarInt>().is_err());
}

#[test]
fn try_convert_round_trips_every_type() {
    assert_eq!(VarInt::from(200u8).try_convert::<u8>(), Some(200u8));
    assert_eq!(VarInt::from(60000u16).try_convert::<u16>(), Some(60000u16));
    assert_eq!(VarInt::from(u32::MAX).try_convert::<u32>(), Some(u32::MAX));
    assert_eq!(VarInt::from(u64::MAX).try_convert::<u64>(), Some(u64::MAX));
    assert_eq!(VarInt::from(u128::MAX).try_convert::<u128>(), Some(u128::MAX));
    assert_eq!(VarInt::from(usize::MAX).try_convert::<usize>(), Some(usize::MAX));
    // Into a wider type the number is kept, into a narrower one only if it fits.
    assert_eq!(VarInt::from(200u8).try_convert::<u128>(), Some(200u128));
    assert_eq!(VarInt::from(u64::MAX).try_convert::<u32>(), None);
    assert_eq!(VarInt::from(255u64).try_convert::<u8>(), Some(255u8));
    assert_eq!(VarInt::from(256u64).try_convert::<u8>(), None);
    assert_eq!(&*VarInt::from(300u32), &[0xAC, 0x02]);
}

#[test]
fn decimal_text_agrees_with_std() {
    for v in [0u128, 9, 10, 99, 100, 12345, u64::MAX as u128, u128::MAX - 1, u128::MAX] {
        assert_eq!(VarInt::from(v).to_string(), v.to_string());
    }
    let inputs = [
        "0", "007", "+0", "+", "-0", " 1", "1 ", "12a", "٣", "340282366920920938463463374607431768211455",
        "340282366920920938463463374607431768211456", "999999999999999999999999999999999999999999x",
        "00000000000000000000000000000000000000000000000001",
    ];
    for s in inputs {
        let ours = s.parse::<VarInt>().ok().map(|v| v.try_convert::<u128>().unwrap());
        assert_eq!(ours, s.parse::<u128>().ok(), "input {:?}", s);
    }
}

#[test]
fn varint_debug_and_hash_follow_the_number() {
    let v = VarInt::from(300u32);
    assert_eq!(format!("{:?}", v), "VarInt(300 | [172, 2])");
    let mut a = DefaultHasher::new();
    v.hash(&mut a);
    let mut b = DefaultHasher::new();
    300u128.hash(&mut b);
    assert_eq!(a.finish(), b.finish());
    let mut c = DefaultHasher::new();
    VarInt::from(300u64).hash(&mut c);
    assert_eq!(a.finish(), c.finish());
}
