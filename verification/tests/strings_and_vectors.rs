use bytes::BytesMut;
use proxy_core::packet_decoder::{read_string, read_vec3f, DecodeError, Vec3f};
use proxy_core::packet_encoder::{encode_string, encode_vec3f, wrap_game_packet};

#[test]
fn read_string_reads_utf8() {
    let mut b = BytesMut::from(&[0x05, b'h', b'e', b'l', b'l', b'o', 0x01][..]);
    assert_eq!(read_string(&mut b).unwrap(), "hello");
    assert_eq!(&b[..], &[0x01]);
}

#[test]
fn read_string_multibyte() {
    let mut b = BytesMut::new();
    encode_string("héllo ✓", &mut b);
    assert_eq!(b[0] as usize, "héllo ✓".len());
    assert_eq!(read_string(&mut b).unwrap(), "héllo ✓");
    assert!(b.is_empty());
}

#[test]
fn read_string_incomplete_leaves_bytes() {
    let mut b = BytesMut::from(&[0x05, b'h', b'i'][..]);
    assert_eq!(read_string(&mut b), Err(DecodeError::IncompleteString));
    assert_eq!(&b[..], b"hi");
}

#[test]
fn read_string_invalid_utf8_consumes_bytes() {
    let mut b = BytesMut::from(&[0x02, 0xC3, 0x28, 0x07][..]);
    assert_eq!(read_string(&mut b), Err(DecodeError::InvalidUtf8));
    assert_eq!(&b[..], &[0x07]);
}

#[test]
fn read_string_bad_length() {
    let mut b = BytesMut::from(&[0x80][..]);
    assert_eq!(read_string(&mut b), Err(DecodeError::IncompleteVarU32));
}

#[test]
fn encode_string_bytes() {
    let mut b = BytesMut::new();
    encode_string("world", &mut b);
    assert_eq!(&b[..], &[0x05, b'w', b'o', b'r', b'l', b'd']);
    let mut e = BytesMut::new();
    encode_string("", &mut e);
    assert_eq!(&e[..], &[0x00]);
}

#[test]
fn string_roundtrip_long() {
    let s = "x".repeat(300);
    let mut b = BytesMut::new();
    encode_string(&s, &mut b);
    assert_eq!(&b[..2], &[0xAC, 0x02]);
    b.extend_from_slice(&[9, 9]);
    assert_eq!(read_string(&mut b).unwrap(), s);
    assert_eq!(&b[..], &[9, 9]);
}

#[test]
fn vec3f_roundtrip() {
    let mut b = BytesMut::new();
    encode_vec3f(1.0f32.to_bits(), (-2.5f32).to_bits(), 100.0f32.to_bits(), &mut b);
    assert_eq!(b.len(), 12);
    assert_eq!(&b[..4], &[0x00, 0x00, 0x80, 0x3F]);
    let v = read_vec3f(&mut b).unwrap();
    assert_eq!(f32::from_bits(v.x), 1.0);
    assert_eq!(f32::from_bits(v.y), -2.5);
    assert_eq!(f32::from_bits(v.z), 100.0);
    assert!(b.is_empty());
}

#[test]
fn vec3f_incomplete_takes_nothing() {
    let mut b = BytesMut::from(&[1u8; 11][..]);
    assert_eq!(read_vec3f(&mut b), Err(DecodeError::IncompleteVec3f));
    assert_eq!(b.len(), 11);
    let mut c = BytesMut::from(&[0x01, 0, 0, 0, 0x02, 0, 0, 0, 0x03, 0, 0, 0][..]);
    assert_eq!(read_vec3f(&mut c), Ok(Vec3f { x: 1, y: 2, z: 3 }));
}

#[test]
fn wrap_game_packet_prefixes() {
    let w = wrap_game_packet(&[1, 2, 3]);
    assert_eq!(&w[..], &[0xFE, 1, 2, 3]);
    let e = wrap_game_packet(&[]);
    assert_eq!(&e[..], &[0xFE]);
}
