use proxy_core::converter::{
    read_entity_teleport, read_spawn_entity, s2c_entity_equipment_v1_12, s2c_player_pos_look,
    s2c_sound_effect, write_entity_teleport, write_spawn_entity, EntityTeleportFields,
    SpawnEntityFields,
};

#[test]
fn pos_look_copies_position_and_flags() {
    let mut body = Vec::new();
    body.extend_from_slice(&1.5f64.to_be_bytes());
    body.extend_from_slice(&64.0f64.to_be_bytes());
    body.extend_from_slice(&(-3.25f64).to_be_bytes());
    body.extend_from_slice(&90.0f32.to_be_bytes());
    body.extend_from_slice(&(-10.0f32).to_be_bytes());
    let mut with_flags = body.clone();
    with_flags.push(0x1F);
    with_flags.push(0x77);

    let out = s2c_player_pos_look(&with_flags).unwrap();
    let mut expected = body.clone();
    expected.push(0x1F);
    assert_eq!(&out[..], &expected[..]);

    let out = s2c_player_pos_look(&body).unwrap();
    let mut expected = body.clone();
    expected.push(0);
    assert_eq!(&out[..], &expected[..]);

    assert!(s2c_player_pos_look(&body[..31]).is_none());
}

#[test]
fn sound_effect_copies_name_and_fields() {
    let mut body = vec![3, b'h', b'i', b't'];
    let fields: Vec<u8> = (1..=17).collect();
    body.extend_from_slice(&fields);
    body.push(0xEE);
    let out = s2c_sound_effect(&body).unwrap();
    let mut expected = vec![3, b'h', b'i', b't'];
    expected.extend_from_slice(&fields);
    assert_eq!(&out[..], &expected[..]);

    assert!(s2c_sound_effect(&body[..20]).is_none());
    assert!(s2c_sound_effect(&[5, b'a']).is_none());
}

#[test]
fn entity_teleport_fields_and_body() {
    let mut body = vec![0x96, 0x01];
    body.extend_from_slice(&10.5f64.to_be_bytes());
    body.extend_from_slice(&70.0f64.to_be_bytes());
    body.extend_from_slice(&(-2.0f64).to_be_bytes());
    body.push(64);
    body.push(32);
    let f = read_entity_teleport(&body).unwrap();
    assert_eq!(
        f,
        EntityTeleportFields {
            entity_id: 150,
            x_bits: 10.5f64.to_bits(),
            y_bits: 70.0f64.to_bits(),
            z_bits: (-2.0f64).to_bits(),
            yaw: 64,
            pitch: 32,
        }
    );
    assert!(read_entity_teleport(&body[..27]).is_none());

    let x = (f64::from_bits(f.x_bits) * 32.0).round() as i32;
    let z = (f64::from_bits(f.z_bits) * 32.0).round() as i32;
    assert_eq!((x, z), (336, -64));
    let out = write_entity_teleport(150, x, 2240, z, 64, 32);
    let mut expected = vec![0x96, 0x01];
    expected.extend_from_slice(&336i32.to_be_bytes());
    expected.extend_from_slice(&2240i32.to_be_bytes());
    expected.extend_from_slice(&(-64i32).to_be_bytes());
    expected.extend_from_slice(&[64, 32, 0]);
    assert_eq!(&out[..], &expected[..]);
}

#[test]
fn spawn_entity_fields_and_body() {
    let mut body = vec![7];
    body.extend_from_slice(&[0xAB; 16]);
    body.extend_from_slice(&[0x82, 0x02]);
    body.extend_from_slice(&1.0f64.to_be_bytes());
    body.extend_from_slice(&2.0f64.to_be_bytes());
    body.extend_from_slice(&3.0f64.to_be_bytes());
    body.extend_from_slice(&[10, 20, 30]);
    let f = read_spawn_entity(&body).unwrap();
    assert_eq!(
        f,
        SpawnEntityFields {
            entity_id: 7,
            entity_type: 2,
            x_bits: 1.0f64.to_bits(),
            y_bits: 2.0f64.to_bits(),
            z_bits: 3.0f64.to_bits(),
            yaw: 10,
            pitch: 20,
        }
    );
    assert!(read_spawn_entity(&body[..body.len() - 1]).is_none());
    assert!(read_spawn_entity(&body[..10]).is_none());

    let out = write_spawn_entity(7, 2, 32, 64, 96, 10, 20);
    let mut expected = vec![7, 2];
    expected.extend_from_slice(&32i32.to_be_bytes());
    expected.extend_from_slice(&64i32.to_be_bytes());
    expected.extend_from_slice(&96i32.to_be_bytes());
    expected.extend_from_slice(&[10, 20, 0, 0, 0, 0]);
    assert_eq!(&out[..], &expected[..]);
}

#[test]
fn equipment_of_a_1_12_backend() {
    let body = vec![0x05, 0x81, 0x02, 0xAA, 0xBB];
    let out = s2c_entity_equipment_v1_12(&body).unwrap();
    assert_eq!(&out[..], &[0x05, 0x01, 0x01, 0xAA, 0xBB][..]);
    assert!(s2c_entity_equipment_v1_12(&[0x05]).is_none());
    assert!(s2c_entity_equipment_v1_12(&[0x80]).is_none());
}
