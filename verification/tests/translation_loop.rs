use bytes::{BufMut, BytesMut};
use proxy_core::packet_decoder::DecodeError;
use proxy_core::packet_encoder::{encode_string, encode_varint};
use proxy_core::translator::{
    build_move_player, build_server_chat, build_start_game, classify_bedrock_packet,
    java_packet_action, BedrockInbound, JavaAction, JavaPositionLook,
};

#[test]
fn start_game_bytes() {
    let b = build_start_game();
    let mut expected = vec![0xFE, 0x0B, 1, 1, 1];
    expected.extend_from_slice(&0.0f32.to_le_bytes());
    expected.extend_from_slice(&100.0f32.to_le_bytes());
    expected.extend_from_slice(&0.0f32.to_le_bytes());
    expected.extend_from_slice(&[5, b'w', b'o', b'r', b'l', b'd']);
    assert_eq!(&b[..], &expected[..]);
}

#[test]
fn server_chat_reads_back() {
    let b = build_server_chat("hello");
    assert_eq!(&b[..4], &[0xFE, 0x09, 1, 0]);
    match classify_bedrock_packet(&b) {
        BedrockInbound::Text(t) => {
            assert_eq!(t.type_id, 1);
            assert!(!t.needs_translation);
            assert_eq!(t.source_name.as_deref(), Some("[Server]"));
            assert_eq!(t.message, "hello");
            assert!(t.parameters.is_empty());
            assert_eq!(t.xuid, "");
            assert_eq!(t.platform_chat_id, "");
        }
        other => panic!("unexpected {:?}", other),
    }
}

#[test]
fn move_player_reads_back() {
    let b = build_move_player(1.0f32.to_bits(), 2.0f32.to_bits(), 3.0f32.to_bits(), 90.0f32.to_bits(), 45.0f32.to_bits());
    assert_eq!(b.len(), 1 + 1 + 1 + 12 + 12 + 2 + 1 + 8);
    match classify_bedrock_packet(&b) {
        BedrockInbound::MovePlayer(p) => {
            assert_eq!(p.runtime_id, 1);
            assert_eq!(f32::from_bits(p.position.x), 1.0);
            assert_eq!(f32::from_bits(p.position.y), 2.0);
            assert_eq!(f32::from_bits(p.position.z), 3.0);
            assert_eq!(f32::from_bits(p.pitch), 45.0);
            assert_eq!(f32::from_bits(p.yaw), 90.0);
            assert_eq!(f32::from_bits(p.head_yaw), 90.0);
            assert_eq!(p.mode, 1);
            assert!(p.on_ground);
            assert_eq!(p.riding_runtime_id, 0);
        }
        other => panic!("unexpected {:?}", other),
    }
}

#[test]
fn bedrock_packets_ignored() {
    assert!(matches!(classify_bedrock_packet(&[]), BedrockInbound::Ignored));
    assert!(matches!(classify_bedrock_packet(&[0xFE]), BedrockInbound::Ignored));
    assert!(matches!(classify_bedrock_packet(&[0xFD, 0x13]), BedrockInbound::Ignored));
    assert!(matches!(classify_bedrock_packet(&[0xFE, 0x01, 0x02]), BedrockInbound::Ignored));
}

#[test]
fn bedrock_decode_failures() {
    assert!(matches!(
        classify_bedrock_packet(&[0xFE, 0x09, 0x00]),
        BedrockInbound::DecodeFailed(DecodeError::IncompleteTextHeader)
    ));
    assert!(matches!(
        classify_bedrock_packet(&[0xFE, 0x13]),
        BedrockInbound::DecodeFailed(DecodeError::IncompleteVarU64)
    ));
    let mut short = vec![0xFE, 0x13, 0x01];
    short.extend_from_slice(&[0u8; 25]);
    assert!(matches!(classify_bedrock_packet(&short), BedrockInbound::MovePlayerOneByteShort));
}

fn java_packet(id: u32, body: &[u8]) -> Vec<u8> {
    let mut b = BytesMut::new();
    encode_varint(id, &mut b);
    b.put_slice(body);
    b.to_vec()
}

#[test]
fn java_keep_alive() {
    let p = java_packet(0x1F, &0x0102030405060708i64.to_be_bytes());
    assert!(matches!(java_packet_action(&p), JavaAction::ReplyKeepAlive(0x0102030405060708)));
    let short = java_packet(0x1F, &[1, 2, 3]);
    assert!(matches!(java_packet_action(&short), JavaAction::Nothing));
}

#[test]
fn java_join_game_starts_game() {
    match java_packet_action(&java_packet(0x23, &[0; 10])) {
        JavaAction::SendToBedrock(b) => assert_eq!(&b[..], &build_start_game()[..]),
        other => panic!("unexpected {:?}", other),
    }
}

#[test]
fn java_chat_becomes_server_chat() {
    let mut body = BytesMut::new();
    encode_string("{\"text\":\"hi\"}", &mut body);
    match java_packet_action(&java_packet(0x0F, &body)) {
        JavaAction::SendToBedrock(b) => assert_eq!(&b[..], &build_server_chat("{\"text\":\"hi\"}")[..]),
        other => panic!("unexpected {:?}", other),
    }
    match java_packet_action(&java_packet(0x0F, &[0x05])) {
        JavaAction::SendToBedrock(b) => assert_eq!(&b[..], &build_server_chat("")[..]),
        other => panic!("unexpected {:?}", other),
    }
}

#[test]
fn java_position_look() {
    let mut body = Vec::new();
    body.extend_from_slice(&1.5f64.to_be_bytes());
    body.extend_from_slice(&64.0f64.to_be_bytes());
    body.extend_from_slice(&(-2.0f64).to_be_bytes());
    body.extend_from_slice(&90.0f32.to_be_bytes());
    body.extend_from_slice(&10.0f32.to_be_bytes());
    match java_packet_action(&java_packet(0x2F, &body)) {
        JavaAction::PositionLook(p) => assert_eq!(
            p,
            JavaPositionLook {
                x: 1.5f64.to_bits(),
                y: 64.0f64.to_bits(),
                z: (-2.0f64).to_bits(),
                yaw: 90.0f32.to_bits(),
                pitch: 10.0f32.to_bits(),
                teleport_id: None,
            }
        ),
        other => panic!("unexpected {:?}", other),
    }
    body.push(0x00);
    body.extend_from_slice(&[0xAC, 0x02]);
    match java_packet_action(&java_packet(0x2F, &body)) {
        JavaAction::PositionLook(p) => assert_eq!(p.teleport_id, Some(300)),
        other => panic!("unexpected {:?}", other),
    }
    assert!(matches!(java_packet_action(&java_packet(0x2F, &[0; 31])), JavaAction::Nothing));
}

#[test]
fn java_chunk_and_other() {
    match java_packet_action(&java_packet(0x20, &[7, 8, 9])) {
        JavaAction::ChunkData(v) => assert_eq!(v, vec![7, 8, 9]),
        other => panic!("unexpected {:?}", other),
    }
    assert!(matches!(java_packet_action(&java_packet(0x05, &[1])), JavaAction::Nothing));
    assert!(matches!(java_packet_action(&[]), JavaAction::Nothing));
}
