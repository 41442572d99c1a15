use bytes::{BufMut, BytesMut};
use proxy_core::packet_decoder::{
    decode_move_player, decode_text, move_player_readable, DecodeError, Vec3f,
};
use proxy_core::packet_encoder::{encode_string, encode_varint};

fn move_player_bytes() -> BytesMut {
    let mut b = BytesMut::new();
    encode_varint(300, &mut b); // runtime id
    for v in [1.5f32, 64.0, -3.25, 10.0, 20.0, 30.0] {
        b.put_f32_le(v);
    }
    b.put_u8(2); // mode
    b.put_u8(5); // on ground
    encode_varint(7, &mut b); // riding
    b
}

#[test]
fn move_player_decodes() {
    let mut b = move_player_bytes();
    b.put_u8(0xEE);
    assert!(move_player_readable(&b));
    let p = decode_move_player(&mut b).unwrap();
    assert_eq!(p.runtime_id, 300);
    assert_eq!(f32::from_bits(p.position.x), 1.5);
    assert_eq!(f32::from_bits(p.position.y), 64.0);
    assert_eq!(f32::from_bits(p.position.z), -3.25);
    assert_eq!(f32::from_bits(p.pitch), 10.0);
    assert_eq!(f32::from_bits(p.yaw), 20.0);
    assert_eq!(f32::from_bits(p.head_yaw), 30.0);
    assert_eq!(p.mode, 2);
    assert!(p.on_ground);
    assert_eq!(p.riding_runtime_id, 7);
    assert_eq!(p.teleportion_cause, None);
    assert_eq!(p.item_type, None);
    assert_eq!(p.tick, 0);
    assert_eq!(&b[..], &[0xEE]);
}

#[test]
fn move_player_short_rotation() {
    let mut b = BytesMut::new();
    b.put_u8(1);
    b.put_slice(&[0u8; 12]);
    b.put_slice(&[0u8; 12]);
    assert!(move_player_readable(&b));
    assert_eq!(decode_move_player(&mut b), Err(DecodeError::IncompleteMovePlayerRotation));
    assert_eq!(b.len(), 12);
}

#[test]
fn move_player_one_byte_short_is_flagged() {
    let mut b = BytesMut::new();
    b.put_u8(1);
    b.put_slice(&[0u8; 12]);
    b.put_slice(&[0u8; 13]);
    assert!(!move_player_readable(&b));
    assert_eq!(b.len(), 26);
}

#[test]
fn move_player_missing_position() {
    let mut b = BytesMut::from(&[0x01, 0, 0][..]);
    assert_eq!(decode_move_player(&mut b), Err(DecodeError::IncompleteVec3f));
    let mut c = BytesMut::new();
    assert_eq!(decode_move_player(&mut c), Err(DecodeError::IncompleteVarU64));
    let mut d = move_player_bytes();
    d.truncate(d.len() - 1);
    assert_eq!(decode_move_player(&mut d), Err(DecodeError::IncompleteVarU64));
    let p = Vec3f { x: 0, y: 0, z: 0 };
    assert_eq!(p, Vec3f { x: 0, y: 0, z: 0 });
}

#[test]
fn text_raw() {
    let mut b = BytesMut::from(&[0u8, 0u8][..]);
    encode_string("hi", &mut b);
    encode_string("xuid1", &mut b);
    encode_string("pc", &mut b);
    let t = decode_text(&mut b).unwrap();
    assert_eq!(t.type_id, 0);
    assert!(!t.needs_translation);
    assert_eq!(t.source_name, None);
    assert_eq!(t.message, "hi");
    assert!(t.parameters.is_empty());
    assert_eq!(t.xuid, "xuid1");
    assert_eq!(t.platform_chat_id, "pc");
    assert!(b.is_empty());
}

#[test]
fn text_chat_without_trailer() {
    let mut b = BytesMut::from(&[1u8, 3u8][..]);
    encode_string("Steve", &mut b);
    encode_string("hello there", &mut b);
    let t = decode_text(&mut b).unwrap();
    assert_eq!(t.type_id, 1);
    assert!(t.needs_translation);
    assert_eq!(t.source_name.as_deref(), Some("Steve"));
    assert_eq!(t.message, "hello there");
    assert_eq!(t.xuid, "");
    assert_eq!(t.platform_chat_id, "");
}

#[test]
fn text_translation_parameters() {
    let mut b = BytesMut::from(&[2u8, 1u8][..]);
    encode_string("chat.type.text", &mut b);
    encode_varint(2, &mut b);
    encode_string("a", &mut b);
    encode_string("b", &mut b);
    let t = decode_text(&mut b).unwrap();
    assert_eq!(t.message, "chat.type.text");
    assert_eq!(t.parameters, vec!["a".to_string(), "b".to_string()]);
}

#[test]
fn text_translation_missing_parameter_fails() {
    let mut b = BytesMut::from(&[2u8, 0u8][..]);
    encode_string("m", &mut b);
    encode_varint(3, &mut b);
    encode_string("a", &mut b);
    assert_eq!(decode_text(&mut b).unwrap_err(), DecodeError::IncompleteVarU32);
}

#[test]
fn text_other_type_defaults() {
    let mut b = BytesMut::from(&[7u8, 0u8, 0x05, b'a'][..]);
    let t = decode_text(&mut b).unwrap();
    assert_eq!(t.type_id, 7);
    assert_eq!(t.message, "");
    assert_eq!(t.xuid, "");
    let mut c = BytesMut::from(&[9u8, 0u8, 0x01, b'z'][..]);
    assert_eq!(decode_text(&mut c).unwrap().message, "z");
}

#[test]
fn text_errors() {
    let mut b = BytesMut::from(&[0u8][..]);
    assert_eq!(decode_text(&mut b).unwrap_err(), DecodeError::IncompleteTextHeader);
    assert_eq!(b.len(), 1);
    let mut c = BytesMut::from(&[1u8, 0u8, 0x03, b'a'][..]);
    assert_eq!(decode_text(&mut c).unwrap_err(), DecodeError::IncompleteString);
}
