use bytes::BytesMut;
use proxy_core::packet_decoder::{read_var_u32, read_var_u64, DecodeError};
use proxy_core::packet_encoder::encode_varint;

fn buf(bytes: &[u8]) -> BytesMut {
    BytesMut::from(bytes)
}

#[test]
fn var_u32_reads_two_byte_value() {
    let mut b = buf(&[0xAC, 0x02, 0x55]);
    assert_eq!(read_var_u32(&mut b), Ok(300));
    assert_eq!(&b[..], &[0x55]);
}

#[test]
fn var_u32_reads_single_bytes() {
    let mut b = buf(&[0x00, 0x7F, 0x01]);
    assert_eq!(read_var_u32(&mut b), Ok(0));
    assert_eq!(read_var_u32(&mut b), Ok(127));
    assert_eq!(read_var_u32(&mut b), Ok(1));
    assert!(b.is_empty());
}

#[test]
fn var_u32_reads_max() {
    let mut b = buf(&[0xFF, 0xFF, 0xFF, 0xFF, 0x0F]);
    assert_eq!(read_var_u32(&mut b), Ok(u32::MAX));
}

#[test]
fn var_u32_drops_bits_past_32() {
    let mut b = buf(&[0xFF, 0xFF, 0xFF, 0xFF, 0x7F]);
    assert_eq!(read_var_u32(&mut b), Ok(u32::MAX));
    assert!(b.is_empty());
}

#[test]
fn var_u32_incomplete_takes_everything() {
    let mut b = buf(&[0x80, 0x80]);
    assert_eq!(read_var_u32(&mut b), Err(DecodeError::IncompleteVarU32));
    assert!(b.is_empty());
    let mut e = buf(&[]);
    assert_eq!(read_var_u32(&mut e), Err(DecodeError::IncompleteVarU32));
}

#[test]
fn var_u32_too_big_takes_five_bytes() {
    let mut b = buf(&[0x80, 0x80, 0x80, 0x80, 0x80, 0x01, 0x02]);
    assert_eq!(read_var_u32(&mut b), Err(DecodeError::VarU32TooBig));
    assert_eq!(&b[..], &[0x01, 0x02]);
}

#[test]
fn var_u64_reads_large_value() {
    let mut b = buf(&[0xFF, 0xFF, 0xFF, 0xFF, 0xFF, 0xFF, 0xFF, 0xFF, 0xFF, 0x01]);
    assert_eq!(read_var_u64(&mut b), Ok(u64::MAX));
    let mut c = buf(&[0x80, 0x80, 0x80, 0x80, 0x10]);
    assert_eq!(read_var_u64(&mut c), Ok(1u64 << 32));
}

#[test]
fn var_u64_errors() {
    let mut b = buf(&[0x80; 9]);
    assert_eq!(read_var_u64(&mut b), Err(DecodeError::IncompleteVarU64));
    assert!(b.is_empty());
    let mut c = buf(&[0x80; 11]);
    assert_eq!(read_var_u64(&mut c), Err(DecodeError::VarU64TooBig));
    assert_eq!(&c[..], &[0x80]);
}

#[test]
fn encode_varint_known_values() {
    let mut b = BytesMut::new();
    encode_varint(0, &mut b);
    encode_varint(1, &mut b);
    encode_varint(127, &mut b);
    encode_varint(128, &mut b);
    encode_varint(300, &mut b);
    assert_eq!(&b[..], &[0x00, 0x01, 0x7F, 0x80, 0x01, 0xAC, 0x02]);
    let mut m = BytesMut::new();
    encode_varint(u32::MAX, &mut m);
    assert_eq!(&m[..], &[0xFF, 0xFF, 0xFF, 0xFF, 0x0F]);
}

#[test]
fn encode_varint_appends() {
    let mut b = buf(&[0x09]);
    encode_varint(2, &mut b);
    assert_eq!(&b[..], &[0x09, 0x02]);
}

#[test]
fn varint_roundtrip_values() {
    for v in [0u32, 1, 127, 128, 255, 16383, 16384, 2097151, 2097152, 268435455, 268435456, u32::MAX] {
        let mut b = BytesMut::new();
        encode_varint(v, &mut b);
        b.extend_from_slice(&[0xAA]);
        assert_eq!(read_var_u32(&mut b), Ok(v));
        assert_eq!(&b[..], &[0xAA]);
    }
}
