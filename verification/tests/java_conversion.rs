use proxy_core::converter::{
    legacy_packet_id, s2c_block_change, s2c_chat, s2c_entity_destroy, s2c_entity_rel_move,
    s2c_experience, s2c_held_item_change, s2c_join_game, s2c_keep_alive_long, s2c_respawn,
    s2c_route, s2c_system_chat, s2c_table, S2cRoute, S2cTable,
};
use proxy_core::packet_ids::{
    chat_packet_ids, cb_chat_packet_name, is_optional_packet, packet_id_or_unknown, uses_legacy_chat,
    KnownVersion,
};

#[test]
fn tables_and_routes() {
    assert_eq!(s2c_table(KnownVersion::V1_12_2), S2cTable::V1_12);
    assert_eq!(s2c_table(KnownVersion::V1_8), S2cTable::V1_12);
    assert_eq!(s2c_table(KnownVersion::V1_16_5), S2cTable::V1_16);
    assert_eq!(s2c_table(KnownVersion::V1_21), S2cTable::Modern);
    assert_eq!(s2c_route(S2cTable::V1_12, 0x23), S2cRoute::JoinGame);
    assert_eq!(s2c_route(S2cTable::V1_12, 0x24), S2cRoute::Drop);
    assert_eq!(s2c_route(S2cTable::V1_12, 0x46), S2cRoute::Passthrough(0x05));
    assert_eq!(s2c_route(S2cTable::V1_16, 0x24), S2cRoute::JoinGame);
    assert_eq!(s2c_route(S2cTable::V1_16, 0x2F), S2cRoute::SetSlot);
    assert_eq!(s2c_route(S2cTable::Modern, 0x36), S2cRoute::SystemChat);
    assert_eq!(s2c_route(S2cTable::Modern, 0x0E), S2cRoute::SpawnEntity);
    assert_eq!(s2c_route(S2cTable::Modern, 0x99), S2cRoute::Drop);
    assert_eq!(legacy_packet_id(S2cRoute::BlockChange), Some(0x23));
    assert_eq!(legacy_packet_id(S2cRoute::Passthrough(0x05)), Some(0x05));
    assert_eq!(legacy_packet_id(S2cRoute::Drop), None);
}

#[test]
fn join_game_body() {
    let out = s2c_join_game(&[0, 0, 0, 42, 0x0B, 9, 9]).unwrap();
    assert_eq!(&out[..], &[0, 0, 0, 42, 0x03, 0, 2, 100, 7, b'd', b'e', b'f', b'a', b'u', b'l', b't', 0]);
    assert!(s2c_join_game(&[0, 0, 0, 42]).is_none());
}

#[test]
fn respawn_and_keep_alive() {
    assert_eq!(&s2c_respawn(&[1, 2])[..], &[0, 2, 0, 7, b'd', b'e', b'f', b'a', b'u', b'l', b't']);
    let out = s2c_keep_alive_long(&300i64.to_be_bytes()).unwrap();
    assert_eq!(&out[..], &[0xAC, 0x02]);
    let neg = s2c_keep_alive_long(&(-1i64).to_be_bytes()).unwrap();
    assert_eq!(&neg[..], &[0xFF, 0xFF, 0xFF, 0xFF, 0x0F]);
    assert!(s2c_keep_alive_long(&[0; 7]).is_none());
}

#[test]
fn held_item_body() {
    assert_eq!(&s2c_held_item_change(&[5, 6]).unwrap()[..], &[5]);
    assert!(s2c_held_item_change(&[]).is_none());
}

#[test]
fn block_change_body() {
    let x: i64 = 100;
    let y: i64 = 70;
    let z: i64 = 3;
    let pos = (x << 38) | (y << 26) | (z << 12);
    let mut body = pos.to_be_bytes().to_vec();
    body.extend_from_slice(&[0x12]); // state 18: block 1, metadata 2
    let out = s2c_block_change(&body).unwrap();
    let mut expected = (100i32).to_be_bytes().to_vec();
    expected.push(70);
    // z is taken from bits 12 to 37, which also hold y.
    expected.extend_from_slice(&(((pos >> 12) & 0x3FF_FFFF) as i32).to_be_bytes());
    assert_eq!(((pos >> 12) & 0x3FF_FFFF) as i32, (70 << 14) | 3);
    expected.extend_from_slice(&[1, 2]);
    assert_eq!(&out[..], &expected[..]);
    assert!(s2c_block_change(&[0; 7]).is_none());
    assert!(s2c_block_change(&[0; 8]).is_none());
}

#[test]
fn entity_destroy_body() {
    assert_eq!(&s2c_entity_destroy(&[0x01, 0xAC, 0x02, 0x05])[..], &[3, 0x01, 0xAC, 0x02, 0x05]);
    assert_eq!(&s2c_entity_destroy(&[0x01, 0x80])[..], &[1, 0x01]);
    assert_eq!(&s2c_entity_destroy(&[])[..], &[0]);
    let many = vec![0x01u8; 300];
    let out = s2c_entity_destroy(&many);
    assert_eq!(out[0], 255);
    assert_eq!(out.len(), 301);
}

#[test]
fn chat_bodies() {
    assert_eq!(&s2c_chat(&[2, b'h', b'i', 1]).unwrap()[..], &[2, b'h', b'i', 1]);
    assert_eq!(&s2c_chat(&[2, b'h', b'i']).unwrap()[..], &[2, b'h', b'i', 0]);
    assert!(s2c_chat(&[3, b'h']).is_none());
    assert_eq!(&s2c_system_chat(&[1, b'x', 1]).unwrap()[..], &[1, b'x', 1]);
    assert!(s2c_system_chat(&[]).is_none());
}

#[test]
fn experience_and_rel_move() {
    let mut body = 0.5f32.to_be_bytes().to_vec();
    body.extend_from_slice(&[3, 0xAC, 0x02]);
    let out = s2c_experience(&body).unwrap();
    let mut expected = 0.5f32.to_be_bytes().to_vec();
    expected.extend_from_slice(&[0xAC, 0x02, 3]);
    assert_eq!(&out[..], &expected[..]);
    assert!(s2c_experience(&[0, 0, 0]).is_none());
    let rel = s2c_entity_rel_move(&[0x07, 0x01, 0x02, 0xFF, 0xFE, 0x00, 0x10]).unwrap();
    assert_eq!(&rel[..], &[0x07, 0x02, 0xFE, 0x10, 0]);
    assert!(s2c_entity_rel_move(&[0x07, 0, 0]).is_none());
}

#[test]
fn packet_id_helpers() {
    assert_eq!(packet_id_or_unknown(Some(0x18)), 0x18);
    assert_eq!(packet_id_or_unknown(None), 0xFF);
    assert!(is_optional_packet("ServerboundLoginAcknowledged"));
    assert!(is_optional_packet("AcknowledgeFinishConfiguration"));
    assert!(!is_optional_packet("ClientboundPluginMessage"));
    assert!(uses_legacy_chat(KnownVersion::V1_16_5));
    assert!(!uses_legacy_chat(KnownVersion::V1_19_4));
    assert_eq!(cb_chat_packet_name(KnownVersion::V1_8), "ClientboundChatMessage");
    assert_eq!(cb_chat_packet_name(KnownVersion::V1_20_4), "ClientboundSystemChat");
    assert_eq!(chat_packet_ids(KnownVersion::V1_12_2, 3, 4), vec![3]);
    assert_eq!(chat_packet_ids(KnownVersion::V1_21, 5, 4), vec![5, 4]);
    assert_eq!(chat_packet_ids(KnownVersion::V1_21, 5, 0xFF), vec![5]);
    assert_eq!(chat_packet_ids(KnownVersion::Other, 5, 5), vec![5]);
}
