use bytes::{BufMut, BytesMut};
use proxy_core::login::{jwt_payload_text, read_login_header, read_login_request, JwtError, LoginError};
use proxy_core::packet_decoder::DecodeError;
use proxy_core::packet_encoder::{encode_string, encode_varint};

fn login_packet(id: u32, protocol: i32, request: &str) -> BytesMut {
    let mut inner = BytesMut::new();
    encode_varint(id, &mut inner);
    inner.put_i32(protocol);
    encode_string(request, &mut inner);
    let mut b = BytesMut::new();
    b.put_u8(0xFE);
    encode_varint(inner.len() as u32, &mut b);
    b.put_slice(&inner);
    b
}

#[test]
fn login_packet_reads() {
    let mut b = login_packet(1, 594, "{\"chain\":[]}");
    assert_eq!(read_login_header(&mut b), Ok(()));
    let req = read_login_request(&mut b).unwrap();
    assert_eq!(req.protocol_version, 594);
    assert_eq!(req.request_json, "{\"chain\":[]}");
    assert!(b.is_empty());
}

#[test]
fn login_header_errors() {
    let mut e = BytesMut::new();
    assert_eq!(read_login_header(&mut e), Err(LoginError::NotGamePacket));
    let mut n = BytesMut::from(&[0x01, 0x00][..]);
    assert_eq!(read_login_header(&mut n), Err(LoginError::NotGamePacket));
    let mut short = BytesMut::from(&[0xFE, 0x10, 0x01][..]);
    assert_eq!(read_login_header(&mut short), Err(LoginError::IncompleteGamePacket));
    let mut other = login_packet(2, 1, "x");
    assert_eq!(read_login_header(&mut other), Err(LoginError::NotLoginPacket(2)));
    let mut bad = BytesMut::from(&[0xFE, 0x80][..]);
    assert_eq!(read_login_header(&mut bad), Err(LoginError::Decode(DecodeError::IncompleteVarU32)));
}

#[test]
fn login_request_error() {
    let mut b = BytesMut::from(&[0, 0, 0, 1, 0x04, b'a'][..]);
    assert_eq!(read_login_request(&mut b).unwrap_err(), LoginError::Decode(DecodeError::IncompleteString));
}

#[test]
fn jwt_payload_is_decoded() {
    // "eyJhIjoxfQ" is {"a":1} in URL-safe base64 without padding.
    assert_eq!(jwt_payload_text("h.eyJhIjoxfQ.s").unwrap(), "{\"a\":1}");
    assert_eq!(jwt_payload_text("..").unwrap(), "");
}

#[test]
fn jwt_errors() {
    assert_eq!(jwt_payload_text("a.b"), Err(JwtError::InvalidStructure));
    assert_eq!(jwt_payload_text("a.b.c.d"), Err(JwtError::InvalidStructure));
    assert_eq!(jwt_payload_text("a.e==.c"), Err(JwtError::InvalidBase64));
    assert_eq!(jwt_payload_text("a.w.c"), Err(JwtError::InvalidBase64));
    // "_w" is the single byte 0xFF, which is not UTF-8.
    assert_eq!(jwt_payload_text("a._w.c"), Err(JwtError::InvalidUtf8));
}
