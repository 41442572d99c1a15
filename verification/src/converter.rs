//! Server-to-client conversion from newer Java protocols to 1.8: which
//! conversion each backend packet gets, the conversions that only rearrange
//! fields, and the reading and writing around those that scale coordinates.

use crate::buffer::{
    buf_advance, buf_as_slice, buf_from_slice, buf_get_u16, buf_get_u32, buf_get_u64, buf_get_u8,
    buf_len, buf_new, buf_put_slice, buf_take_vec, buf_put_u32, buf_put_u8, buffer_bytes, u16_from_be, u32_be_bytes,
    u32_from_be, u64_from_be,
};
use crate::packet_decoder::{
    lemma_string_roundtrip, lemma_var_u32_roundtrip, read_string, read_var_u32, spec_read_string,
    spec_read_var_u32, DecodeError,
};
use crate::packet_encoder::{bedrock_string, encode_string, encode_varint};
use crate::packet_ids::KnownVersion;
use crate::varint::{lemma_first_terminator_bound, varint_encode};
use bytes::BytesMut;
use vstd::prelude::*;

verus! {

/// The packet-id table a backend version is converted with.
#[derive(Debug, Clone, Copy, PartialEq, Eq, Structural)]
pub enum S2cTable {
    V1_12,
    V1_16,
    Modern,
}

/// The table for a backend version: 1.16.5 its own, 1.19.4 to 1.21 the
/// modern one, every other version the 1.12.2 one.
pub open spec fn spec_s2c_table(v: KnownVersion) -> S2cTable {
    match v {
        KnownVersion::V1_16_5 => S2cTable::V1_16,
        KnownVersion::V1_19_4 | KnownVersion::V1_20_4 | KnownVersion::V1_21 => S2cTable::Modern,
        _ => S2cTable::V1_12,
    }
}

/// Selects the table for a backend version.
pub fn s2c_table(v: KnownVersion) -> (t: S2cTable)
    ensures
        t == spec_s2c_table(v),
{
    match v {
        KnownVersion::V1_16_5 => S2cTable::V1_16,
        KnownVersion::V1_19_4 | KnownVersion::V1_20_4 | KnownVersion::V1_21 => S2cTable::Modern,
        _ => S2cTable::V1_12,
    }
}

/// The conversion a backend packet gets.
#[derive(Debug, Clone, Copy, PartialEq, Eq, Structural)]
pub enum S2cRoute {
    JoinGame,
    PlayerPosLook,
    Chat,
    SystemChat,
    SetHealth,
    Respawn,
    KeepAliveLong,
    TimeUpdate,
    TabList,
    EntityVelocity,
    EntityTeleport,
    EntityRelMove,
    SpawnEntity,
    EntityDestroy,
    BlockChange,
    HeldItemChange,
    SetSlot,
    WindowItems,
    EntityMetadata,
    EntityEquipment,
    Experience,
    ScoreboardObjective,
    ScoreboardScore,
    PluginMessage,
    /// The body is passed on under another packet id.
    Passthrough(u8),
    Drop,
}

/// The conversion for packet `id` of a backend served by `table`.
pub open spec fn spec_s2c_route(table: S2cTable, id: u8) -> S2cRoute {
    match table {
        S2cTable::V1_12 => if id == 0x23 {
            S2cRoute::JoinGame
        } else if id == 0x2F {
            S2cRoute::PlayerPosLook
        } else if id == 0x0F {
            S2cRoute::Chat
        } else if id == 0x41 {
            S2cRoute::SetHealth
        } else if id == 0x35 {
            S2cRoute::Respawn
        } else if id == 0x1F {
            S2cRoute::KeepAliveLong
        } else if id == 0x47 {
            S2cRoute::TimeUpdate
        } else if id == 0x4A {
            S2cRoute::TabList
        } else if id == 0x3E {
            S2cRoute::EntityVelocity
        } else if id == 0x4C {
            S2cRoute::EntityTeleport
        } else if id == 0x25 {
            S2cRoute::EntityRelMove
        } else if id == 0x32 {
            S2cRoute::EntityDestroy
        } else if id == 0x0B {
            S2cRoute::BlockChange
        } else if id == 0x3A {
            S2cRoute::HeldItemChange
        } else if id == 0x14 {
            S2cRoute::WindowItems
        } else if id == 0x18 {
            S2cRoute::PluginMessage
        } else if id == 0x3F {
            S2cRoute::EntityEquipment
        } else if id == 0x40 {
            S2cRoute::Experience
        } else if id == 0x42 {
            S2cRoute::ScoreboardObjective
        } else if id == 0x45 {
            S2cRoute::ScoreboardScore
        } else if id == 0x46 {
            S2cRoute::Passthrough(0x05)
        } else {
            S2cRoute::Drop
        },
        S2cTable::V1_16 => if id == 0x24 {
            S2cRoute::JoinGame
        } else if id == 0x34 {
            S2cRoute::PlayerPosLook
        } else if id == 0x0E {
            S2cRoute::Chat
        } else if id == 0x49 {
            S2cRoute::SetHealth
        } else if id == 0x3A {
            S2cRoute::Respawn
        } else if id == 0x1F {
            S2cRoute::KeepAliveLong
        } else if id == 0x4E {
            S2cRoute::TimeUpdate
        } else if id == 0x48 {
            S2cRoute::TabList
        } else if id == 0x46 {
            S2cRoute::EntityVelocity
        } else if id == 0x18 {
            S2cRoute::EntityTeleport
        } else if id == 0x15 {
            S2cRoute::EntityRelMove
        } else if id == 0x13 {
            S2cRoute::EntityDestroy
        } else if id == 0x19 {
            S2cRoute::BlockChange
        } else if id == 0x2F {
            S2cRoute::SetSlot
        } else if id == 0x30 {
            S2cRoute::WindowItems
        } else if id == 0x1C {
            S2cRoute::EntityMetadata
        } else if id == 0x03 {
            S2cRoute::EntityEquipment
        } else if id == 0x1D {
            S2cRoute::Experience
        } else if id == 0x3B {
            S2cRoute::ScoreboardObjective
        } else if id == 0x3C {
            S2cRoute::ScoreboardScore
        } else if id == 0x47 {
            S2cRoute::HeldItemChange
        } else {
            S2cRoute::Drop
        },
        S2cTable::Modern => if id == 0x28 {
            S2cRoute::JoinGame
        } else if id == 0x3E {
            S2cRoute::PlayerPosLook
        } else if id == 0x36 {
            S2cRoute::SystemChat
        } else if id == 0x1A {
            S2cRoute::SetHealth
        } else if id == 0x43 {
            S2cRoute::Respawn
        } else if id == 0x23 {
            S2cRoute::KeepAliveLong
        } else if id == 0x5A {
            S2cRoute::TimeUpdate
        } else if id == 0x65 {
            S2cRoute::TabList
        } else if id == 0x56 {
            S2cRoute::EntityVelocity
        } else if id == 0x18 {
            S2cRoute::EntityTeleport
        } else if id == 0x15 {
            S2cRoute::EntityRelMove
        } else if id == 0x0E {
            S2cRoute::SpawnEntity
        } else if id == 0x13 {
            S2cRoute::EntityDestroy
        } else if id == 0x19 {
            S2cRoute::BlockChange
        } else if id == 0x2F {
            S2cRoute::SetSlot
        } else if id == 0x30 {
            S2cRoute::WindowItems
        } else if id == 0x1C {
            S2cRoute::EntityMetadata
        } else if id == 0x03 {
            S2cRoute::EntityEquipment
        } else if id == 0x1D {
            S2cRoute::Experience
        } else if id == 0x3B {
            S2cRoute::ScoreboardObjective
        } else if id == 0x3C {
            S2cRoute::ScoreboardScore
        } else if id == 0x48 {
            S2cRoute::HeldItemChange
        } else {
            S2cRoute::Drop
        },
    }
}

/// Picks the conversion for packet `id` of a backend served by `table`.
pub fn s2c_route(table: S2cTable, id: u8) -> (r: S2cRoute)
    ensures
        r == spec_s2c_route(table, id),
{
    match table {
        S2cTable::V1_12 => match id {
            0x23 => S2cRoute::JoinGame,
            0x2F => S2cRoute::PlayerPosLook,
            0x0F => S2cRoute::Chat,
            0x41 => S2cRoute::SetHealth,
            0x35 => S2cRoute::Respawn,
            0x1F => S2cRoute::KeepAliveLong,
            0x47 => S2cRoute::TimeUpdate,
            0x4A => S2cRoute::TabList,
            0x3E => S2cRoute::EntityVelocity,
            0x24 => S2cRoute::Drop,
            0x4C => S2cRoute::EntityTeleport,
            0x25 => S2cRoute::EntityRelMove,
            0x32 => S2cRoute::EntityDestroy,
            0x0B => S2cRoute::BlockChange,
            0x3A => S2cRoute::HeldItemChange,
            0x14 => S2cRoute::WindowItems,
            0x18 => S2cRoute::PluginMessage,
            0x3F => S2cRoute::EntityEquipment,
            0x40 => S2cRoute::Experience,
            0x42 => S2cRoute::ScoreboardObjective,
            0x45 => S2cRoute::ScoreboardScore,
            0x46 => S2cRoute::Passthrough(0x05),
            _ => S2cRoute::Drop,
        },
        S2cTable::V1_16 => match id {
            0x24 => S2cRoute::JoinGame,
            0x34 => S2cRoute::PlayerPosLook,
            0x0E => S2cRoute::Chat,
            0x49 => S2cRoute::SetHealth,
            0x3A => S2cRoute::Respawn,
            0x1F => S2cRoute::KeepAliveLong,
            0x4E => S2cRoute::TimeUpdate,
            0x48 => S2cRoute::TabList,
            0x46 => S2cRoute::EntityVelocity,
            0x20 => S2cRoute::Drop,
            0x18 => S2cRoute::EntityTeleport,
            0x15 => S2cRoute::EntityRelMove,
            0x13 => S2cRoute::EntityDestroy,
            0x19 => S2cRoute::BlockChange,
            0x2F => S2cRoute::SetSlot,
            0x30 => S2cRoute::WindowItems,
            0x1C => S2cRoute::EntityMetadata,
            0x03 => S2cRoute::EntityEquipment,
            0x1D => S2cRoute::Experience,
            0x3B => S2cRoute::ScoreboardObjective,
            0x3C => S2cRoute::ScoreboardScore,
            0x47 => S2cRoute::HeldItemChange,
            _ => S2cRoute::Drop,
        },
        S2cTable::Modern => match id {
            0x28 => S2cRoute::JoinGame,
            0x3E => S2cRoute::PlayerPosLook,
            0x36 => S2cRoute::SystemChat,
            0x1A => S2cRoute::SetHealth,
            0x43 => S2cRoute::Respawn,
            0x23 => S2cRoute::KeepAliveLong,
            0x5A => S2cRoute::TimeUpdate,
            0x65 => S2cRoute::TabList,
            0x56 => S2cRoute::EntityVelocity,
            0x25 => S2cRoute::Drop,
            0x18 => S2cRoute::EntityTeleport,
            0x15 => S2cRoute::EntityRelMove,
            0x0E => S2cRoute::SpawnEntity,
            0x13 => S2cRoute::EntityDestroy,
            0x19 => S2cRoute::BlockChange,
            0x2F => S2cRoute::SetSlot,
            0x30 => S2cRoute::WindowItems,
            0x1C => S2cRoute::EntityMetadata,
            0x03 => S2cRoute::EntityEquipment,
            0x1D => S2cRoute::Experience,
            0x3B => S2cRoute::ScoreboardObjective,
            0x3C => S2cRoute::ScoreboardScore,
            0x48 => S2cRoute::HeldItemChange,
            _ => S2cRoute::Drop,
        },
    }
}

/// The conversion each packet id of a 1.12.2 backend gets; the ids the
/// table does not list are dropped.
pub proof fn lemma_v1_12_routes(id: u8)
    ensures
        id == 0x23 ==> spec_s2c_route(S2cTable::V1_12, id) == S2cRoute::JoinGame,
        id == 0x2F ==> spec_s2c_route(S2cTable::V1_12, id) == S2cRoute::PlayerPosLook,
        id == 0x0F ==> spec_s2c_route(S2cTable::V1_12, id) == S2cRoute::Chat,
        id == 0x41 ==> spec_s2c_route(S2cTable::V1_12, id) == S2cRoute::SetHealth,
        id == 0x35 ==> spec_s2c_route(S2cTable::V1_12, id) == S2cRoute::Respawn,
        id == 0x1F ==> spec_s2c_route(S2cTable::V1_12, id) == S2cRoute::KeepAliveLong,
        id == 0x47 ==> spec_s2c_route(S2cTable::V1_12, id) == S2cRoute::TimeUpdate,
        id == 0x4A ==> spec_s2c_route(S2cTable::V1_12, id) == S2cRoute::TabList,
        id == 0x3E ==> spec_s2c_route(S2cTable::V1_12, id) == S2cRoute::EntityVelocity,
        id == 0x24 ==> spec_s2c_route(S2cTable::V1_12, id) == S2cRoute::Drop,
        id == 0x4C ==> spec_s2c_route(S2cTable::V1_12, id) == S2cRoute::EntityTeleport,
        id == 0x25 ==> spec_s2c_route(S2cTable::V1_12, id) == S2cRoute::EntityRelMove,
        id == 0x32 ==> spec_s2c_route(S2cTable::V1_12, id) == S2cRoute::EntityDestroy,
        id == 0x0B ==> spec_s2c_route(S2cTable::V1_12, id) == S2cRoute::BlockChange,
        id == 0x3A ==> spec_s2c_route(S2cTable::V1_12, id) == S2cRoute::HeldItemChange,
        id == 0x14 ==> spec_s2c_route(S2cTable::V1_12, id) == S2cRoute::WindowItems,
        id == 0x18 ==> spec_s2c_route(S2cTable::V1_12, id) == S2cRoute::PluginMessage,
        id == 0x3F ==> spec_s2c_route(S2cTable::V1_12, id) == S2cRoute::EntityEquipment,
        id == 0x40 ==> spec_s2c_route(S2cTable::V1_12, id) == S2cRoute::Experience,
        id == 0x42 ==> spec_s2c_route(S2cTable::V1_12, id) == S2cRoute::ScoreboardObjective,
        id == 0x45 ==> spec_s2c_route(S2cTable::V1_12, id) == S2cRoute::ScoreboardScore,
        id == 0x46 ==> spec_s2c_route(S2cTable::V1_12, id) == S2cRoute::Passthrough(0x05),
        !(id == 0x23 || id == 0x2F || id == 0x0F || id == 0x41 || id == 0x35 || id == 0x1F ||
            id == 0x47 || id == 0x4A || id == 0x3E || id == 0x24 || id == 0x4C || id == 0x25 ||
            id == 0x32 || id == 0x0B || id == 0x3A || id == 0x14 || id == 0x18 || id == 0x3F ||
            id == 0x40 || id == 0x42 || id == 0x45 || id == 0x46) ==> spec_s2c_route(S2cTable::V1_12, id) == S2cRoute::Drop,
{
}

/// The conversion each packet id of a 1.16.5 backend gets; the ids the
/// table does not list are dropped.
pub proof fn lemma_v1_16_routes(id: u8)
    ensures
        id == 0x24 ==> spec_s2c_route(S2cTable::V1_16, id) == S2cRoute::JoinGame,
        id == 0x34 ==> spec_s2c_route(S2cTable::V1_16, id) == S2cRoute::PlayerPosLook,
        id == 0x0E ==> spec_s2c_route(S2cTable::V1_16, id) == S2cRoute::Chat,
        id == 0x49 ==> spec_s2c_route(S2cTable::V1_16, id) == S2cRoute::SetHealth,
        id == 0x3A ==> spec_s2c_route(S2cTable::V1_16, id) == S2cRoute::Respawn,
        id == 0x1F ==> spec_s2c_route(S2cTable::V1_16, id) == S2cRoute::KeepAliveLong,
        id == 0x4E ==> spec_s2c_route(S2cTable::V1_16, id) == S2cRoute::TimeUpdate,
        id == 0x48 ==> spec_s2c_route(S2cTable::V1_16, id) == S2cRoute::TabList,
        id == 0x46 ==> spec_s2c_route(S2cTable::V1_16, id) == S2cRoute::EntityVelocity,
        id == 0x20 ==> spec_s2c_route(S2cTable::V1_16, id) == S2cRoute::Drop,
        id == 0x18 ==> spec_s2c_route(S2cTable::V1_16, id) == S2cRoute::EntityTeleport,
        id == 0x15 ==> spec_s2c_route(S2cTable::V1_16, id) == S2cRoute::EntityRelMove,
        id == 0x13 ==> spec_s2c_route(S2cTable::V1_16, id) == S2cRoute::EntityDestroy,
        id == 0x19 ==> spec_s2c_route(S2cTable::V1_16, id) == S2cRoute::BlockChange,
        id == 0x2F ==> spec_s2c_route(S2cTable::V1_16, id) == S2cRoute::SetSlot,
        id == 0x30 ==> spec_s2c_route(S2cTable::V1_16, id) == S2cRoute::WindowItems,
        id == 0x1C ==> spec_s2c_route(S2cTable::V1_16, id) == S2cRoute::EntityMetadata,
        id == 0x03 ==> spec_s2c_route(S2cTable::V1_16, id) == S2cRoute::EntityEquipment,
        id == 0x1D ==> spec_s2c_route(S2cTable::V1_16, id) == S2cRoute::Experience,
        id == 0x3B ==> spec_s2c_route(S2cTable::V1_16, id) == S2cRoute::ScoreboardObjective,
        id == 0x3C ==> spec_s2c_route(S2cTable::V1_16, id) == S2cRoute::ScoreboardScore,
        id == 0x47 ==> spec_s2c_route(S2cTable::V1_16, id) == S2cRoute::HeldItemChange,
        !(id == 0x24 || id == 0x34 || id == 0x0E || id == 0x49 || id == 0x3A || id == 0x1F ||
            id == 0x4E || id == 0x48 || id == 0x46 || id == 0x20 || id == 0x18 || id == 0x15 ||
            id == 0x13 || id == 0x19 || id == 0x2F || id == 0x30 || id == 0x1C || id == 0x03 ||
            id == 0x1D || id == 0x3B || id == 0x3C || id == 0x47) ==> spec_s2c_route(S2cTable::V1_16, id) == S2cRoute::Drop,
{
}

/// The conversion each packet id of a 1.19.4 to 1.21 backend gets; the ids the
/// table does not list are dropped.
pub proof fn lemma_modern_routes(id: u8)
    ensures
        id == 0x28 ==> spec_s2c_route(S2cTable::Modern, id) == S2cRoute::JoinGame,
        id == 0x3E ==> spec_s2c_route(S2cTable::Modern, id) == S2cRoute::PlayerPosLook,
        id == 0x36 ==> spec_s2c_route(S2cTable::Modern, id) == S2cRoute::SystemChat,
        id == 0x1A ==> spec_s2c_route(S2cTable::Modern, id) == S2cRoute::SetHealth,
        id == 0x43 ==> spec_s2c_route(S2cTable::Modern, id) == S2cRoute::Respawn,
        id == 0x23 ==> spec_s2c_route(S2cTable::Modern, id) == S2cRoute::KeepAliveLong,
        id == 0x5A ==> spec_s2c_route(S2cTable::Modern, id) == S2cRoute::TimeUpdate,
        id == 0x65 ==> spec_s2c_route(S2cTable::Modern, id) == S2cRoute::TabList,
        id == 0x56 ==> spec_s2c_route(S2cTable::Modern, id) == S2cRoute::EntityVelocity,
        id == 0x25 ==> spec_s2c_route(S2cTable::Modern, id) == S2cRoute::Drop,
        id == 0x18 ==> spec_s2c_route(S2cTable::Modern, id) == S2cRoute::EntityTeleport,
        id == 0x15 ==> spec_s2c_route(S2cTable::Modern, id) == S2cRoute::EntityRelMove,
        id == 0x0E ==> spec_s2c_route(S2cTable::Modern, id) == S2cRoute::SpawnEntity,
        id == 0x13 ==> spec_s2c_route(S2cTable::Modern, id) == S2cRoute::EntityDestroy,
        id == 0x19 ==> spec_s2c_route(S2cTable::Modern, id) == S2cRoute::BlockChange,
        id == 0x2F ==> spec_s2c_route(S2cTable::Modern, id) == S2cRoute::SetSlot,
        id == 0x30 ==> spec_s2c_route(S2cTable::Modern, id) == S2cRoute::WindowItems,
        id == 0x1C ==> spec_s2c_route(S2cTable::Modern, id) == S2cRoute::EntityMetadata,
        id == 0x03 ==> spec_s2c_route(S2cTable::Modern, id) == S2cRoute::EntityEquipment,
        id == 0x1D ==> spec_s2c_route(S2cTable::Modern, id) == S2cRoute::Experience,
        id == 0x3B ==> spec_s2c_route(S2cTable::Modern, id) == S2cRoute::ScoreboardObjective,
        id == 0x3C ==> spec_s2c_route(S2cTable::Modern, id) == S2cRoute::ScoreboardScore,
        id == 0x48 ==> spec_s2c_route(S2cTable::Modern, id) == S2cRoute::HeldItemChange,
        !(id == 0x28 || id == 0x3E || id == 0x36 || id == 0x1A || id == 0x43 || id == 0x23 ||
            id == 0x5A || id == 0x65 || id == 0x56 || id == 0x25 || id == 0x18 || id == 0x15 ||
            id == 0x0E || id == 0x13 || id == 0x19 || id == 0x2F || id == 0x30 || id == 0x1C ||
            id == 0x03 || id == 0x1D || id == 0x3B || id == 0x3C || id == 0x48) ==> spec_s2c_route(S2cTable::Modern, id) == S2cRoute::Drop,
{
}

/// The 1.8 JoinGame body for a backend JoinGame: the entity id, the game
/// mode with the hardcore bit and higher bits cleared, overworld, normal
/// difficulty, 100 players, level type "default", reduced debug info off.
/// `None` (the packet is dropped) where the entity id and game mode are not
/// there.
pub open spec fn spec_join_game_body(s: Seq<u8>) -> Option<Seq<u8>> {
    if s.len() < 5 {
        None
    } else {
        Some(
            u32_be_bytes(u32_from_be(s)) + seq![(s[4] % 4) as u8, 0u8, 2u8, 100u8]
                + bedrock_string("default"@) + seq![0u8],
        )
    }
}

/// Converts a backend JoinGame body.
pub fn s2c_join_game(body: &[u8]) -> (out: Option<BytesMut>)
    ensures
        match out {
            Some(b) => spec_join_game_body(body@) == Some(buffer_bytes(b)),
            None => spec_join_game_body(body@) is None,
        },
{
    let mut r = buf_from_slice(body);
    if buf_len(&r) < 5 {
        return None;
    }
    let entity_id = buf_get_u32(&mut r);
    let gm = buf_get_u8(&mut r);
    proof {
        assert(gm & 0x03 == gm % 4) by (bit_vector);
    }
    let gamemode = gm & 0x03;
    let mut out = buf_new();
    buf_put_u32(&mut out, entity_id);
    buf_put_u8(&mut out, gamemode);
    buf_put_u8(&mut out, 0);
    buf_put_u8(&mut out, 2);
    buf_put_u8(&mut out, 100);
    encode_string("default", &mut out);
    buf_put_u8(&mut out, 0);
    proof {
        assert(buffer_bytes(out) =~= spec_join_game_body(body@)->0);
    }
    Some(out)
}

/// The 1.8 Respawn body: overworld, normal difficulty, survival, level type
/// "default".
pub open spec fn respawn_body() -> Seq<u8> {
    seq![0u8, 2u8, 0u8] + bedrock_string("default"@)
}

/// Builds the 1.8 Respawn body; the backend's body is not read.
pub fn s2c_respawn(_body: &[u8]) -> (out: BytesMut)
    ensures
        buffer_bytes(out) == respawn_body(),
{
    let mut out = buf_new();
    buf_put_u8(&mut out, 0);
    buf_put_u8(&mut out, 2);
    buf_put_u8(&mut out, 0);
    encode_string("default", &mut out);
    proof {
        assert(buffer_bytes(out) =~= respawn_body());
    }
    out
}

/// The 1.8 KeepAlive body for a backend keep-alive id (eight bytes, most
/// significant first): the id cut to 32 bits, as a VarInt. `None` where the
/// id is not there.
pub open spec fn spec_keep_alive_body(s: Seq<u8>) -> Option<Seq<u8>> {
    if s.len() < 8 {
        None
    } else {
        Some(varint_encode((u64_from_be(s) as i64) as i32 as u32 as nat))
    }
}

/// Converts a backend KeepAlive body.
pub fn s2c_keep_alive_long(body: &[u8]) -> (out: Option<BytesMut>)
    ensures
        match out {
            Some(b) => spec_keep_alive_body(body@) == Some(buffer_bytes(b)),
            None => spec_keep_alive_body(body@) is None,
        },
{
    let mut r = buf_from_slice(body);
    if buf_len(&r) < 8 {
        return None;
    }
    let id = buf_get_u64(&mut r) as i64;
    let mut out = buf_new();
    encode_varint(id as i32 as u32, &mut out);
    proof {
        assert(buffer_bytes(out) =~= spec_keep_alive_body(body@)->0);
    }
    Some(out)
}

/// The 1.8 HeldItemChange body: the slot byte. `None` where it is not there.
pub open spec fn spec_held_item_change_body(s: Seq<u8>) -> Option<Seq<u8>> {
    if s.len() < 1 {
        None
    } else {
        Some(seq![s[0]])
    }
}

/// Converts a backend HeldItemChange body.
pub fn s2c_held_item_change(body: &[u8]) -> (out: Option<BytesMut>)
    ensures
        match out {
            Some(b) => spec_held_item_change_body(body@) == Some(buffer_bytes(b)),
            None => spec_held_item_change_body(body@) is None,
        },
{
    let mut r = buf_from_slice(body);
    if buf_len(&r) < 1 {
        return None;
    }
    let slot = buf_get_u8(&mut r);
    let mut out = buf_new();
    buf_put_u8(&mut out, slot);
    proof {
        assert(buffer_bytes(out) =~= seq![slot]);
    }
    Some(out)
}

/// The coordinates and block of a backend BlockChange: x from bits 38 to
/// 63 of the position, y from bits 26 to 37, z from bits 12 to 37, the block
/// id as the state shifted right by four and the metadata as its low four
/// bits.
pub open spec fn block_change_x(pos: i64) -> i32 {
    ((pos >> 38i64) & 0x3FF_FFFF) as i32
}

pub open spec fn block_change_y(pos: i64) -> i32 {
    ((pos >> 26i64) & 0xFFF) as i32
}

pub open spec fn block_change_z(pos: i64) -> i32 {
    ((pos >> 12i64) & 0x3FF_FFFF) as i32
}

/// The 1.8 BlockChange body for a backend body of a position (eight bytes,
/// most significant first) and a VarInt block state: x, y (one byte), z, the
/// block id as a VarInt and the metadata byte. `None` where the position or
/// the state cannot be read.
pub open spec fn spec_block_change_body(s: Seq<u8>) -> Option<Seq<u8>> {
    if s.len() < 8 {
        None
    } else {
        let pos = u64_from_be(s) as i64;
        match spec_read_var_u32(s.skip(8)).0 {
            Err(_) => None,
            Ok(v) => {
                let state = v as i32;
                Some(
                    u32_be_bytes(block_change_x(pos) as u32) + seq![block_change_y(pos) as u8]
                        + u32_be_bytes(block_change_z(pos) as u32) + varint_encode(
                        (state >> 4i32) as u32 as nat,
                    ) + seq![(state & 0xF) as u8],
                )
            },
        }
    }
}

/// Converts a backend BlockChange body.
pub fn s2c_block_change(body: &[u8]) -> (out: Option<BytesMut>)
    ensures
        match out {
            Some(b) => spec_block_change_body(body@) == Some(buffer_bytes(b)),
            None => spec_block_change_body(body@) is None,
        },
{
    let mut r = buf_from_slice(body);
    if buf_len(&r) < 8 {
        return None;
    }
    let pos = buf_get_u64(&mut r) as i64;
    let block_state = match read_var_u32(&mut r) {
        Ok(v) => v as i32,
        Err(_) => {
            return None;
        },
    };
    let x = ((pos >> 38i64) & 0x3FF_FFFF) as i32;
    let y = ((pos >> 26i64) & 0xFFF) as i32;
    let z = ((pos >> 12i64) & 0x3FF_FFFF) as i32;
    let block_id = block_state >> 4i32;
    let metadata = (block_state & 0xF) as u8;
    let mut out = buf_new();
    buf_put_u32(&mut out, x as u32);
    buf_put_u8(&mut out, y as u8);
    buf_put_u32(&mut out, z as u32);
    encode_varint(block_id as u32, &mut out);
    buf_put_u8(&mut out, metadata);
    proof {
        assert(buffer_bytes(out) =~= spec_block_change_body(body@)->0);
    }
    Some(out)
}

/// The entity ids at the front of `s`, each a VarInt, up to the end or to
/// the first that cannot be read.
pub open spec fn entity_ids(s: Seq<u8>) -> Seq<u32>
    decreases s.len(),
{
    if s.len() == 0 {
        Seq::empty()
    } else {
        let (r, rest) = spec_read_var_u32(s);
        match r {
            Ok(v) => if rest.len() < s.len() {
                seq![v] + entity_ids(rest)
            } else {
                Seq::empty()
            },
            Err(_) => Seq::empty(),
        }
    }
}

/// The VarInt encodings of several ids, one after the other.
pub open spec fn varints_of(ids: Seq<u32>) -> Seq<u8>
    decreases ids.len(),
{
    if ids.len() == 0 {
        Seq::empty()
    } else {
        varint_encode(ids[0] as nat) + varints_of(ids.drop_first())
    }
}

/// The 1.8 DestroyEntities body: the number of ids (at most 255) as a byte,
/// then the ids as VarInts.
pub open spec fn spec_entity_destroy_body(s: Seq<u8>) -> Seq<u8> {
    let ids = entity_ids(s);
    seq![(if ids.len() > 255 { 255 } else { ids.len() }) as u8] + varints_of(ids)
}

/// Appending an id appends its encoding.
pub proof fn lemma_varints_of_push(ids: Seq<u32>, v: u32)
    ensures
        varints_of(ids.push(v)) == varints_of(ids) + varint_encode(v as nat),
    decreases ids.len(),
{
    if ids.len() == 0 {
        assert(ids.push(v).drop_first() =~= Seq::<u32>::empty());
        assert(ids.push(v)[0] == v);
        assert(varints_of(Seq::<u32>::empty()) == Seq::<u8>::empty());
        assert(varints_of(ids.push(v)) == varint_encode(v as nat) + Seq::<u8>::empty());
        assert(varint_encode(v as nat) + Seq::<u8>::empty() =~= varint_encode(v as nat));
    } else {
        assert(ids.push(v).drop_first() =~= ids.drop_first().push(v));
        lemma_varints_of_push(ids.drop_first(), v);
        assert(varints_of(ids.push(v)) =~= varints_of(ids) + varint_encode(v as nat));
    }
}

/// Converts a backend DestroyEntities body: every id is read and written
/// again, and counted, the count stopping at 255.
pub fn s2c_entity_destroy(body: &[u8]) -> (out: BytesMut)
    ensures
        buffer_bytes(out) == spec_entity_destroy_body(body@),
{
    let mut r = buf_from_slice(body);
    let mut ids_out = buf_new();
    let mut count: u8 = 0;
    let ghost mut ids: Seq<u32> = Seq::empty();
    proof {
        assert(ids + entity_ids(body@) =~= entity_ids(body@));
    }
    while buf_len(&r) > 0
        invariant_except_break
            ids + entity_ids(buffer_bytes(r)) == entity_ids(body@),
        invariant
            buffer_bytes(ids_out) == varints_of(ids),
            count == (if ids.len() > 255 { 255 } else { ids.len() }),
        ensures
            ids == entity_ids(body@),
            buffer_bytes(ids_out) == varints_of(ids),
            count == (if ids.len() > 255 { 255 } else { ids.len() }),
        decreases buffer_bytes(r).len(),
    {
        let ghost before = buffer_bytes(r);
        match read_var_u32(&mut r) {
            Ok(v) => {
                proof {
                    lemma_first_terminator_bound(before);
                    assert(entity_ids(before) == seq![v] + entity_ids(buffer_bytes(r)));
                    lemma_varints_of_push(ids, v);
                    assert(ids.push(v) + entity_ids(buffer_bytes(r)) =~= ids + (seq![v] + entity_ids(
                        buffer_bytes(r),
                    )));
                    ids = ids.push(v);
                }
                encode_varint(v, &mut ids_out);
                if count < 255 {
                    count = count + 1;
                }
            },
            Err(_) => {
                proof {
                    assert(entity_ids(before) =~= Seq::<u32>::empty());
                    assert(ids + Seq::<u32>::empty() =~= ids);
                    assert(ids == entity_ids(body@));
                }
                break;
            },
        }
    }
    proof {
        if buffer_bytes(r).len() == 0 {
            assert(ids + Seq::<u32>::empty() =~= ids);
        }
    }
    let mut out = buf_new();
    buf_put_u8(&mut out, count);
    let ghost o1 = buffer_bytes(out);
    buf_put_slice(&mut out, buf_as_slice(&ids_out));
    proof {
        assert(buffer_bytes(out) =~= spec_entity_destroy_body(body@));
    }
    out
}

/// The 1.8 Chat body for a backend chat body (a string, then a position
/// byte that defaults to 0): the string and the position. `None` where the
/// string cannot be read.
pub open spec fn spec_chat_body(s: Seq<u8>) -> Option<Seq<u8>> {
    let (r, rest) = spec_read_string(s);
    match r {
        Err(_) => None,
        Ok(json) => Some(
            bedrock_string(json) + seq![
                if rest.len() >= 1 {
                    rest[0]
                } else {
                    0u8
                },
            ],
        ),
    }
}

/// Converts a backend chat body.
pub fn s2c_chat(body: &[u8]) -> (out: Option<BytesMut>)
    ensures
        match out {
            Some(b) => spec_chat_body(body@) == Some(buffer_bytes(b)),
            None => spec_chat_body(body@) is None,
        },
{
    let mut r = buf_from_slice(body);
    let json = match read_string(&mut r) {
        Ok(j) => j,
        Err(_) => {
            return None;
        },
    };
    let position = if buf_len(&r) >= 1 {
        buf_get_u8(&mut r)
    } else {
        0
    };
    let mut out = buf_new();
    encode_string(json.as_str(), &mut out);
    buf_put_u8(&mut out, position);
    proof {
        assert(buffer_bytes(out) =~= spec_chat_body(body@)->0);
    }
    Some(out)
}

/// The 1.8 Chat body for a backend system chat body (a string, then an
/// overlay byte that is not used): the string and position 1 (system
/// message). `None` where the string cannot be read.
pub open spec fn spec_system_chat_body(s: Seq<u8>) -> Option<Seq<u8>> {
    match spec_read_string(s).0 {
        Err(_) => None,
        Ok(content) => Some(bedrock_string(content) + seq![1u8]),
    }
}

/// Converts a backend system chat body.
pub fn s2c_system_chat(body: &[u8]) -> (out: Option<BytesMut>)
    ensures
        match out {
            Some(b) => spec_system_chat_body(body@) == Some(buffer_bytes(b)),
            None => spec_system_chat_body(body@) is None,
        },
{
    let mut r = buf_from_slice(body);
    let content = match read_string(&mut r) {
        Ok(j) => j,
        Err(_) => {
            return None;
        },
    };
    let mut out = buf_new();
    encode_string(content.as_str(), &mut out);
    buf_put_u8(&mut out, 1);
    proof {
        assert(buffer_bytes(out) =~= spec_system_chat_body(body@)->0);
    }
    Some(out)
}

/// The 1.8 Experience body for a backend body of the bar (a single-precision
/// value, most significant byte first), the level and the total (VarInts):
/// the bar, the total, then the level. `None` where a field cannot be read.
pub open spec fn spec_experience_body(s: Seq<u8>) -> Option<Seq<u8>> {
    if s.len() < 4 {
        None
    } else {
        let (l, s1) = spec_read_var_u32(s.skip(4));
        let (t, s2) = spec_read_var_u32(s1);
        match (l, t) {
            (Ok(level), Ok(total)) => Some(
                u32_be_bytes(u32_from_be(s)) + varint_encode(total as nat) + varint_encode(level as nat),
            ),
            _ => None,
        }
    }
}

/// Converts a backend Experience body.
pub fn s2c_experience(body: &[u8]) -> (out: Option<BytesMut>)
    ensures
        match out {
            Some(b) => spec_experience_body(body@) == Some(buffer_bytes(b)),
            None => spec_experience_body(body@) is None,
        },
{
    let mut r = buf_from_slice(body);
    if buf_len(&r) < 4 {
        return None;
    }
    let exp_bar = buf_get_u32(&mut r);
    let level = match read_var_u32(&mut r) {
        Ok(v) => v,
        Err(_) => {
            return None;
        },
    };
    let total = match read_var_u32(&mut r) {
        Ok(v) => v,
        Err(_) => {
            return None;
        },
    };
    let mut out = buf_new();
    buf_put_u32(&mut out, exp_bar);
    encode_varint(total, &mut out);
    encode_varint(level, &mut out);
    proof {
        assert(buffer_bytes(out) =~= spec_experience_body(body@)->0);
    }
    Some(out)
}

/// The 1.8 EntityRelMove body for a backend body of a VarInt entity id and
/// three 16-bit deltas (most significant byte first): the id and each delta
/// cut to its low byte, then on-ground off. `None` where a field cannot be
/// read.
pub open spec fn spec_entity_rel_move_body(s: Seq<u8>) -> Option<Seq<u8>> {
    let (e, s1) = spec_read_var_u32(s);
    match e {
        Err(_) => None,
        Ok(id) => if s1.len() < 6 {
            None
        } else {
            Some(
                varint_encode(id as nat) + seq![
                    (u16_from_be(s1) % 0x100) as u8,
                    (u16_from_be(s1.skip(2)) % 0x100) as u8,
                    (u16_from_be(s1.skip(4)) % 0x100) as u8,
                    0u8,
                ],
            )
        },
    }
}

/// Converts a backend EntityRelMove body.
pub fn s2c_entity_rel_move(body: &[u8]) -> (out: Option<BytesMut>)
    ensures
        match out {
            Some(b) => spec_entity_rel_move_body(body@) == Some(buffer_bytes(b)),
            None => spec_entity_rel_move_body(body@) is None,
        },
{
    let mut r = buf_from_slice(body);
    let entity_id = match read_var_u32(&mut r) {
        Ok(v) => v,
        Err(_) => {
            return None;
        },
    };
    if buf_len(&r) < 6 {
        return None;
    }
    let ghost s1 = buffer_bytes(r);
    let dx = buf_get_u16(&mut r);
    let dy = buf_get_u16(&mut r);
    let dz = buf_get_u16(&mut r);
    proof {
        assert(s1.skip(2).skip(2) =~= s1.skip(4));
        assert(dx as u8 == dx % 0x100 && dy as u8 == dy % 0x100 && dz as u8 == dz % 0x100) by (bit_vector);
    }
    let mut out = buf_new();
    encode_varint(entity_id, &mut out);
    buf_put_u8(&mut out, dx as u8);
    buf_put_u8(&mut out, dy as u8);
    buf_put_u8(&mut out, dz as u8);
    buf_put_u8(&mut out, 0);
    proof {
        assert(buffer_bytes(out) =~= spec_entity_rel_move_body(body@)->0);
    }
    Some(out)
}

/// The 1.8 packet id each conversion emits; `None` for a dropped packet.
pub open spec fn spec_legacy_packet_id(route: S2cRoute) -> Option<u8> {
    match route {
        S2cRoute::JoinGame => Some(0x01u8),
        S2cRoute::PlayerPosLook => Some(0x08u8),
        S2cRoute::Chat => Some(0x02u8),
        S2cRoute::SystemChat => Some(0x02u8),
        S2cRoute::SetHealth => Some(0x06u8),
        S2cRoute::Respawn => Some(0x07u8),
        S2cRoute::KeepAliveLong => Some(0x00u8),
        S2cRoute::TimeUpdate => Some(0x03u8),
        S2cRoute::TabList => Some(0x47u8),
        S2cRoute::EntityVelocity => Some(0x12u8),
        S2cRoute::EntityTeleport => Some(0x18u8),
        S2cRoute::EntityRelMove => Some(0x15u8),
        S2cRoute::SpawnEntity => Some(0x0Eu8),
        S2cRoute::EntityDestroy => Some(0x13u8),
        S2cRoute::BlockChange => Some(0x23u8),
        S2cRoute::HeldItemChange => Some(0x09u8),
        S2cRoute::SetSlot => Some(0x2Fu8),
        S2cRoute::WindowItems => Some(0x30u8),
        S2cRoute::EntityMetadata => Some(0x1Cu8),
        S2cRoute::EntityEquipment => Some(0x04u8),
        S2cRoute::Experience => Some(0x1Fu8),
        S2cRoute::ScoreboardObjective => Some(0x3Bu8),
        S2cRoute::ScoreboardScore => Some(0x3Cu8),
        S2cRoute::PluginMessage => Some(0x3Fu8),
        S2cRoute::Passthrough(id) => Some(id),
        S2cRoute::Drop => None,
    }
}

/// The 1.8 packet id a conversion emits.
pub fn legacy_packet_id(route: S2cRoute) -> (id: Option<u8>)
    ensures
        id == spec_legacy_packet_id(route),
{
    match route {
        S2cRoute::JoinGame => Some(0x01),
        S2cRoute::PlayerPosLook => Some(0x08),
        S2cRoute::Chat => Some(0x02),
        S2cRoute::SystemChat => Some(0x02),
        S2cRoute::SetHealth => Some(0x06),
        S2cRoute::Respawn => Some(0x07),
        S2cRoute::KeepAliveLong => Some(0x00),
        S2cRoute::TimeUpdate => Some(0x03),
        S2cRoute::TabList => Some(0x47),
        S2cRoute::EntityVelocity => Some(0x12),
        S2cRoute::EntityTeleport => Some(0x18),
        S2cRoute::EntityRelMove => Some(0x15),
        S2cRoute::SpawnEntity => Some(0x0E),
        S2cRoute::EntityDestroy => Some(0x13),
        S2cRoute::BlockChange => Some(0x23),
        S2cRoute::HeldItemChange => Some(0x09),
        S2cRoute::SetSlot => Some(0x2F),
        S2cRoute::WindowItems => Some(0x30),
        S2cRoute::EntityMetadata => Some(0x1C),
        S2cRoute::EntityEquipment => Some(0x04),
        S2cRoute::Experience => Some(0x1F),
        S2cRoute::ScoreboardObjective => Some(0x3B),
        S2cRoute::ScoreboardScore => Some(0x3C),
        S2cRoute::PluginMessage => Some(0x3F),
        S2cRoute::Passthrough(id) => Some(id),
        S2cRoute::Drop => None,
    }
}

/// The 1.8 PlayerPositionAndLook body for a backend body of x, y, z (eight
/// bytes each), yaw and pitch (four bytes each) and a flags byte that
/// defaults to 0: the 32 bytes of position and look as they are, then the
/// flags. `None` where position or look is cut short.
pub open spec fn spec_player_pos_look_body(s: Seq<u8>) -> Option<Seq<u8>> {
    if s.len() < 32 {
        None
    } else {
        Some(s.take(32).push(if s.len() >= 33 { s[32] } else { 0u8 }))
    }
}

/// Converts a backend PlayerPositionAndLook body. The coordinates and angles
/// are written back bit for bit as they were read.
pub fn s2c_player_pos_look(body: &[u8]) -> (out: Option<BytesMut>)
    ensures
        match out {
            Some(b) => spec_player_pos_look_body(body@) == Some(buffer_bytes(b)),
            None => spec_player_pos_look_body(body@) is None,
        },
{
    let mut r = buf_from_slice(body);
    if buf_len(&r) < 32 {
        return None;
    }
    let position_and_look = buf_take_vec(&mut r, 32);
    let flags = if buf_len(&r) >= 1 {
        buf_get_u8(&mut r)
    } else {
        0
    };
    let mut out = buf_new();
    buf_put_slice(&mut out, position_and_look.as_slice());
    buf_put_u8(&mut out, flags);
    proof {
        assert(body@.skip(32).len() >= 1 ==> body@.skip(32)[0] == body@[32]);
        assert(buffer_bytes(out) =~= spec_player_pos_look_body(body@)->0);
    }
    Some(out)
}

/// The 1.8 SoundEffect body for a backend body of a sound name, then x, y, z
/// (four bytes each), volume (four bytes) and pitch (one byte): the name and
/// those 17 bytes as they are. `None` where the name cannot be read or fewer
/// than 17 bytes follow it.
pub open spec fn spec_sound_effect_body(s: Seq<u8>) -> Option<Seq<u8>> {
    let (r, rest) = spec_read_string(s);
    match r {
        Err(_) => None,
        Ok(name) => if rest.len() < 17 {
            None
        } else {
            Some(bedrock_string(name) + rest.take(17))
        },
    }
}

/// Converts a backend SoundEffect body.
pub fn s2c_sound_effect(body: &[u8]) -> (out: Option<BytesMut>)
    ensures
        match out {
            Some(b) => spec_sound_effect_body(body@) == Some(buffer_bytes(b)),
            None => spec_sound_effect_body(body@) is None,
        },
{
    let mut r = buf_from_slice(body);
    let sound_name = match read_string(&mut r) {
        Ok(n) => n,
        Err(_) => {
            return None;
        },
    };
    if buf_len(&r) < 17 {
        return None;
    }
    let position_volume_pitch = buf_take_vec(&mut r, 17);
    let mut out = buf_new();
    encode_string(sound_name.as_str(), &mut out);
    buf_put_slice(&mut out, position_volume_pitch.as_slice());
    proof {
        assert(buffer_bytes(out) =~= spec_sound_effect_body(body@)->0);
    }
    Some(out)
}

/// What a backend EntityTeleport body holds: the entity id, the coordinates
/// as the bit patterns of their double-precision values, yaw and pitch.
#[derive(Debug, Clone, Copy, PartialEq, Eq, Structural)]
pub struct EntityTeleportFields {
    pub entity_id: u32,
    pub x_bits: u64,
    pub y_bits: u64,
    pub z_bits: u64,
    pub yaw: u8,
    pub pitch: u8,
}

/// Reads a backend EntityTeleport body: a VarInt entity id, x, y and z
/// (eight bytes each, most significant first), yaw and pitch. `None` where a
/// field cannot be read.
pub open spec fn spec_read_entity_teleport(s: Seq<u8>) -> Option<EntityTeleportFields> {
    let (e, s1) = spec_read_var_u32(s);
    match e {
        Err(_) => None,
        Ok(id) => if s1.len() < 26 {
            None
        } else {
            Some(
                EntityTeleportFields {
                    entity_id: id,
                    x_bits: u64_from_be(s1),
                    y_bits: u64_from_be(s1.skip(8)),
                    z_bits: u64_from_be(s1.skip(16)),
                    yaw: s1[24],
                    pitch: s1[25],
                },
            )
        },
    }
}

/// Reads the fields of a backend EntityTeleport body.
pub fn read_entity_teleport(body: &[u8]) -> (f: Option<EntityTeleportFields>)
    ensures
        f == spec_read_entity_teleport(body@),
{
    let mut r = buf_from_slice(body);
    let entity_id = match read_var_u32(&mut r) {
        Ok(v) => v,
        Err(_) => {
            return None;
        },
    };
    if buf_len(&r) < 26 {
        return None;
    }
    let ghost s1 = buffer_bytes(r);
    let x_bits = buf_get_u64(&mut r);
    let y_bits = buf_get_u64(&mut r);
    let z_bits = buf_get_u64(&mut r);
    let yaw = buf_get_u8(&mut r);
    let pitch = buf_get_u8(&mut r);
    proof {
        assert(s1.skip(8).skip(8) =~= s1.skip(16));
        assert(s1.skip(16).skip(8) =~= s1.skip(24));
        assert(s1.skip(24)[0] == s1[24]);
        assert(s1.skip(24).skip(1)[0] == s1[25]);
    }
    Some(EntityTeleportFields { entity_id, x_bits, y_bits, z_bits, yaw, pitch })
}

/// The 1.8 EntityTeleport body: the entity id as a VarInt, the fixed-point
/// coordinates (four bytes each, most significant first), yaw, pitch and
/// on-ground off.
pub open spec fn entity_teleport_body(entity_id: u32, x: i32, y: i32, z: i32, yaw: u8, pitch: u8) -> Seq<u8> {
    varint_encode(entity_id as nat) + u32_be_bytes(x as u32) + u32_be_bytes(y as u32) + u32_be_bytes(
        z as u32,
    ) + seq![yaw, pitch, 0u8]
}

/// Writes the 1.8 EntityTeleport body.
pub fn write_entity_teleport(entity_id: u32, x: i32, y: i32, z: i32, yaw: u8, pitch: u8) -> (out: BytesMut)
    ensures
        buffer_bytes(out) == entity_teleport_body(entity_id, x, y, z, yaw, pitch),
{
    let mut out = buf_new();
    encode_varint(entity_id, &mut out);
    buf_put_u32(&mut out, x as u32);
    buf_put_u32(&mut out, y as u32);
    buf_put_u32(&mut out, z as u32);
    buf_put_u8(&mut out, yaw);
    buf_put_u8(&mut out, pitch);
    buf_put_u8(&mut out, 0);
    proof {
        assert(buffer_bytes(out) =~= entity_teleport_body(entity_id, x, y, z, yaw, pitch));
    }
    out
}

/// What a backend SpawnEntity body holds: the entity id, the entity type
/// cut to its low byte, the coordinates as the bit patterns of their
/// double-precision values, yaw and pitch.
#[derive(Debug, Clone, Copy, PartialEq, Eq, Structural)]
pub struct SpawnEntityFields {
    pub entity_id: u32,
    pub entity_type: u8,
    pub x_bits: u64,
    pub y_bits: u64,
    pub z_bits: u64,
    pub yaw: u8,
    pub pitch: u8,
}

/// Reads a backend SpawnEntity body: a VarInt entity id, a 16-byte UUID, a
/// VarInt entity type, x, y and z (eight bytes each, most significant
/// first), yaw, pitch and head yaw. `None` where a field cannot be read.
pub open spec fn spec_read_spawn_entity(s: Seq<u8>) -> Option<SpawnEntityFields> {
    let (e, s1) = spec_read_var_u32(s);
    match e {
        Err(_) => None,
        Ok(id) => if s1.len() < 16 {
            None
        } else {
            let (t, s2) = spec_read_var_u32(s1.skip(16));
            match t {
                Err(_) => None,
                Ok(ty) => if s2.len() < 27 {
                    None
                } else {
                    Some(
                        SpawnEntityFields {
                            entity_id: id,
                            entity_type: (ty % 0x100) as u8,
                            x_bits: u64_from_be(s2),
                            y_bits: u64_from_be(s2.skip(8)),
                            z_bits: u64_from_be(s2.skip(16)),
                            yaw: s2[24],
                            pitch: s2[25],
                        },
                    )
                },
            }
        },
    }
}

/// Reads the fields of a backend SpawnEntity body.
pub fn read_spawn_entity(body: &[u8]) -> (f: Option<SpawnEntityFields>)
    ensures
        f == spec_read_spawn_entity(body@),
{
    let mut r = buf_from_slice(body);
    let entity_id = match read_var_u32(&mut r) {
        Ok(v) => v,
        Err(_) => {
            return None;
        },
    };
    if buf_len(&r) < 16 {
        return None;
    }
    buf_advance(&mut r, 16);
    let entity_type = match read_var_u32(&mut r) {
        Ok(v) => v,
        Err(_) => {
            return None;
        },
    };
    if buf_len(&r) < 27 {
        return None;
    }
    let ghost s2 = buffer_bytes(r);
    let x_bits = buf_get_u64(&mut r);
    let y_bits = buf_get_u64(&mut r);
    let z_bits = buf_get_u64(&mut r);
    let yaw = buf_get_u8(&mut r);
    let pitch = buf_get_u8(&mut r);
    proof {
        assert(s2.skip(8).skip(8) =~= s2.skip(16));
        assert(s2.skip(16).skip(8) =~= s2.skip(24));
        assert(s2.skip(24)[0] == s2[24]);
        assert(s2.skip(24).skip(1)[0] == s2[25]);
        assert(entity_type as u8 == entity_type % 0x100) by (bit_vector);
    }
    Some(
        SpawnEntityFields {
            entity_id,
            entity_type: entity_type as u8,
            x_bits,
            y_bits,
            z_bits,
            yaw,
            pitch,
        },
    )
}

/// The 1.8 SpawnObject body: the entity id as a VarInt, the type byte, the
/// fixed-point coordinates (four bytes each, most significant first), yaw,
/// pitch and an object data of 0 (four bytes).
pub open spec fn spawn_entity_body(
    entity_id: u32,
    entity_type: u8,
    x: i32,
    y: i32,
    z: i32,
    yaw: u8,
    pitch: u8,
) -> Seq<u8> {
    varint_encode(entity_id as nat) + seq![entity_type] + u32_be_bytes(x as u32) + u32_be_bytes(
        y as u32,
    ) + u32_be_bytes(z as u32) + seq![yaw, pitch] + u32_be_bytes(0)
}

/// Writes the 1.8 SpawnObject body.
pub fn write_spawn_entity(
    entity_id: u32,
    entity_type: u8,
    x: i32,
    y: i32,
    z: i32,
    yaw: u8,
    pitch: u8,
) -> (out: BytesMut)
    ensures
        buffer_bytes(out) == spawn_entity_body(entity_id, entity_type, x, y, z, yaw, pitch),
{
    let mut out = buf_new();
    encode_varint(entity_id, &mut out);
    buf_put_u8(&mut out, entity_type);
    buf_put_u32(&mut out, x as u32);
    buf_put_u32(&mut out, y as u32);
    buf_put_u32(&mut out, z as u32);
    buf_put_u8(&mut out, yaw);
    buf_put_u8(&mut out, pitch);
    buf_put_u32(&mut out, 0);
    proof {
        assert(buffer_bytes(out) =~= spawn_entity_body(entity_id, entity_type, x, y, z, yaw, pitch));
    }
    out
}

/// The two bytes of the low 16 bits of `v`, most significant first.
pub open spec fn u16_be_bytes_of(v: u32) -> Seq<u8> {
    seq![((v / 0x100) % 0x100) as u8, (v % 0x100) as u8]
}

/// The 1.8 EntityEquipment body for a 1.12.2 backend body of a VarInt entity
/// id and a VarInt slot: the id, the slot cut to 16 bits (two bytes, most
/// significant first), then the rest of the body (the item) as it is.
/// `None` where the id or the slot cannot be read.
pub open spec fn spec_entity_equipment_v1_12_body(s: Seq<u8>) -> Option<Seq<u8>> {
    let (e, s1) = spec_read_var_u32(s);
    let (k, s2) = spec_read_var_u32(s1);
    match (e, k) {
        (Ok(id), Ok(slot)) => Some(varint_encode(id as nat) + u16_be_bytes_of(slot) + s2),
        _ => None,
    }
}

/// Converts the EntityEquipment body of a 1.12.2 backend.
pub fn s2c_entity_equipment_v1_12(body: &[u8]) -> (out: Option<BytesMut>)
    ensures
        match out {
            Some(b) => spec_entity_equipment_v1_12_body(body@) == Some(buffer_bytes(b)),
            None => spec_entity_equipment_v1_12_body(body@) is None,
        },
{
    let mut r = buf_from_slice(body);
    let entity_id = match read_var_u32(&mut r) {
        Ok(v) => v,
        Err(_) => {
            return None;
        },
    };
    let slot_enum = match read_var_u32(&mut r) {
        Ok(v) => v,
        Err(_) => {
            return None;
        },
    };
    let mut out = buf_new();
    encode_varint(entity_id, &mut out);
    let hi = (slot_enum >> 8u32) as u8;
    let lo = slot_enum as u8;
    proof {
        assert(hi == (slot_enum / 0x100) % 0x100 && lo == slot_enum % 0x100) by (bit_vector)
            requires
                hi == (slot_enum >> 8u32) as u8,
                lo == slot_enum as u8,
        ;
    }
    buf_put_u8(&mut out, hi);
    buf_put_u8(&mut out, lo);
    buf_put_slice(&mut out, buf_as_slice(&r));
    proof {
        assert(buffer_bytes(out) =~= spec_entity_equipment_v1_12_body(body@)->0);
    }
    Some(out)
}

/// A 1.8 BlockChange body gives back the block state it was made from: after
/// the coordinates (nine bytes) come a VarInt block id and one metadata byte,
/// the metadata is below 16, and block id times 16 plus metadata is the
/// state.
pub proof fn lemma_block_change_keeps_state(pos: Seq<u8>, state: u32, rest: Seq<u8>)
    requires
        pos.len() == 8,
    ensures
        spec_block_change_body(pos + varint_encode(state as nat) + rest) is Some,
        ({
            let out = spec_block_change_body(pos + varint_encode(state as nat) + rest)->0;
            let (r, tail) = spec_read_var_u32(out.skip(9));
            match r {
                Ok(block_id) => tail.len() == 1 && tail[0] < 16 && (block_id as i32) * 16 + tail[0]
                    == state as i32,
                Err(_) => false,
            }
        }),
{
    let body = pos + varint_encode(state as nat) + rest;
    assert(body.skip(8) =~= varint_encode(state as nat) + rest);
    lemma_var_u32_roundtrip(state, rest);
    let s = state as i32;
    let bid = (s >> 4i32) as u32;
    let m = (s & 0xFi32) as u8;
    let p = u64_from_be(body) as i64;
    let out = spec_block_change_body(body)->0;
    let head = u32_be_bytes(block_change_x(p) as u32) + seq![block_change_y(p) as u8] + u32_be_bytes(
        block_change_z(p) as u32,
    );
    assert(out =~= head + (varint_encode(bid as nat) + seq![m]));
    assert(out.skip(9) =~= varint_encode(bid as nat) + seq![m]);
    lemma_var_u32_roundtrip(bid, seq![m]);
    assert((bid as i32) * 16 + (m as int) == s as int && m < 16) by (bit_vector)
        requires
            bid == (s >> 4i32) as u32,
            m == (s & 0xFi32) as u8,
    ;
}

/// Four bytes read most significant first and written back the same way are
/// the bytes they were.
pub proof fn lemma_u32_be_roundtrip(s: Seq<u8>)
    requires
        s.len() >= 4,
    ensures
        u32_be_bytes(u32_from_be(s)) == s.take(4),
{
    let v = u32_from_be(s);
    assert(v as int == s[0] * 0x100_0000 + s[1] * 0x1_0000 + s[2] * 0x100 + s[3]);
    assert(v / 0x100_0000 == s[0] && (v / 0x1_0000) % 0x100 == s[1] && (v / 0x100) % 0x100 == s[2]
        && v % 0x100 == s[3]) by (nonlinear_arith)
        requires
            v as int == s[0] * 0x100_0000 + s[1] * 0x1_0000 + s[2] * 0x100 + s[3],
            s[0] < 256,
            s[1] < 256,
            s[2] < 256,
            s[3] < 256,
    ;
    assert(u32_be_bytes(v) =~= s.take(4));
}

/// A 1.8 JoinGame body keeps the entity id's four bytes, keeps the game mode
/// below 4 (dropping the hardcore bit and above), and carries overworld,
/// normal difficulty, 100 players, level type "default" and reduced debug
/// info off.
pub proof fn lemma_join_game_fields(s: Seq<u8>)
    requires
        s.len() >= 5,
    ensures
        spec_join_game_body(s) == Some(
            s.take(4) + seq![(s[4] % 4) as u8, 0u8, 2u8, 100u8] + bedrock_string("default"@) + seq![0u8],
        ),
{
    lemma_u32_be_roundtrip(s);
}

/// A backend body shorter than the entity id and game mode is dropped.
pub proof fn lemma_join_game_short(s: Seq<u8>)
    requires
        s.len() < 5,
    ensures
        spec_join_game_body(s) is None,
{
}

/// The 1.8 KeepAlive body is the backend id's low 32 bits as a VarInt.
pub proof fn lemma_keep_alive_low_bits(s: Seq<u8>)
    requires
        s.len() >= 8,
    ensures
        spec_keep_alive_body(s) == Some(varint_encode((u64_from_be(s) % 0x1_0000_0000) as nat)),
{
    let v = u64_from_be(s);
    assert(((v as i64) as i32) as u32 == v % 0x1_0000_0000) by (bit_vector);
}

/// The low byte of a 16-bit number written most significant first is its
/// second byte.
proof fn lemma_low_byte(a: u8, b: u8)
    ensures
        ((a * 0x100 + b) as u16) % 0x100 == b,
{
    assert(0 <= a * 0x100 + b < 0x1_0000) by (nonlinear_arith)
        requires
            a < 256,
            b < 256,
    ;
}

/// A 1.8 EntityRelMove body keeps the entity id and takes the low byte of
/// each 16-bit delta (the second byte of each, most significant first), then
/// on-ground off.
pub proof fn lemma_rel_move_low_bytes(id: u32, d: Seq<u8>, rest: Seq<u8>)
    requires
        d.len() == 6,
    ensures
        spec_entity_rel_move_body(varint_encode(id as nat) + d + rest) == Some(
            varint_encode(id as nat) + seq![d[1], d[3], d[5], 0u8],
        ),
{
    lemma_var_u32_roundtrip(id, d + rest);
    assert(varint_encode(id as nat) + d + rest =~= varint_encode(id as nat) + (d + rest));
    let s1 = d + rest;
    assert(s1.skip(2)[0] == d[2] && s1.skip(2)[1] == d[3]);
    assert(s1.skip(4)[0] == d[4] && s1.skip(4)[1] == d[5]);
    lemma_low_byte(d[0], d[1]);
    lemma_low_byte(d[2], d[3]);
    lemma_low_byte(d[4], d[5]);
    assert(u16_from_be(s1) % 0x100 == d[1]);
    assert(u16_from_be(s1.skip(2)) % 0x100 == d[3]);
    assert(u16_from_be(s1.skip(4)) % 0x100 == d[5]);
}

/// A 1.8 Experience body keeps the bar's four bytes and writes the total
/// before the level, where the backend wrote the level first.
pub proof fn lemma_experience_swaps_level_and_total(bar: Seq<u8>, level: u32, total: u32, rest: Seq<u8>)
    requires
        bar.len() == 4,
    ensures
        spec_experience_body(bar + varint_encode(level as nat) + varint_encode(total as nat) + rest)
            == Some(bar + varint_encode(total as nat) + varint_encode(level as nat)),
{
    let s = bar + varint_encode(level as nat) + varint_encode(total as nat) + rest;
    assert(s.skip(4) =~= varint_encode(level as nat) + (varint_encode(total as nat) + rest));
    lemma_var_u32_roundtrip(level, varint_encode(total as nat) + rest);
    lemma_var_u32_roundtrip(total, rest);
    lemma_u32_be_roundtrip(s);
    assert(s.take(4) =~= bar);
}

/// A 1.8 Chat body carries the backend's message and position byte, the
/// position being 0 where the backend wrote none.
pub proof fn lemma_chat_keeps_message(json: Seq<char>, position: u8, rest: Seq<u8>)
    requires
        vstd::utf8::encode_utf8(json).len() < 0x1_0000_0000,
    ensures
        spec_chat_body(bedrock_string(json) + seq![position] + rest) == Some(
            bedrock_string(json) + seq![position],
        ),
        spec_chat_body(bedrock_string(json)) == Some(bedrock_string(json) + seq![0u8]),
{
    lemma_string_roundtrip(json, seq![position] + rest);
    assert(bedrock_string(json) + seq![position] + rest =~= bedrock_string(json) + (seq![position]
        + rest));
    lemma_string_roundtrip(json, Seq::empty());
    assert(bedrock_string(json) + Seq::<u8>::empty() =~= bedrock_string(json));
}

/// A 1.8 Chat body for system chat carries the backend's message as a
/// system message (position 1), whatever follows the message.
pub proof fn lemma_system_chat_keeps_message(content: Seq<char>, rest: Seq<u8>)
    requires
        vstd::utf8::encode_utf8(content).len() < 0x1_0000_0000,
    ensures
        spec_system_chat_body(bedrock_string(content) + rest) == Some(bedrock_string(content) + seq![1u8]),
{
    lemma_string_roundtrip(content, rest);
}

/// Entity ids written one after the other as VarInts are read back as
/// those ids.
pub proof fn lemma_entity_ids_of_varints(ids: Seq<u32>)
    ensures
        entity_ids(varints_of(ids)) == ids,
    decreases ids.len(),
{
    if ids.len() == 0 {
        assert(varints_of(ids) =~= Seq::<u8>::empty());
    } else {
        let rest = varints_of(ids.drop_first());
        lemma_var_u32_roundtrip(ids[0], rest);
        crate::varint::lemma_varint_encode(ids[0] as nat, 0);
        lemma_entity_ids_of_varints(ids.drop_first());
        assert(seq![ids[0]] + ids.drop_first() =~= ids);
    }
}

/// A 1.8 DestroyEntities body for a backend list of ids holds the number of
/// ids (255 where there are more) and then every id, in order.
pub proof fn lemma_entity_destroy_keeps_ids(ids: Seq<u32>)
    ensures
        spec_entity_destroy_body(varints_of(ids)) == seq![
            (if ids.len() > 255 {
                255
            } else {
                ids.len()
            }) as u8,
        ] + varints_of(ids),
{
    lemma_entity_ids_of_varints(ids);
}

/// A 1.8 EntityEquipment body from a 1.12.2 backend keeps the entity id and
/// the item bytes, and writes the slot as two bytes `hi`, `lo` with
/// `hi * 256 + lo` the slot's low 16 bits.
pub proof fn lemma_equipment_v1_12_fields(id: u32, slot: u32, rest: Seq<u8>)
    ensures
        ({
            let out = spec_entity_equipment_v1_12_body(varint_encode(id as nat) + varint_encode(slot as nat) + rest);
            let n = varint_encode(id as nat).len() as int;
            &&& out is Some
            &&& out->0.take(n) == varint_encode(id as nat)
            &&& out->0.len() == n + 2 + rest.len()
            &&& out->0[n] * 256 + out->0[n + 1] == slot % 0x1_0000
            &&& out->0.skip(n + 2) == rest
        }),
{
    let e = varint_encode(id as nat);
    assert(e + varint_encode(slot as nat) + rest =~= e + (varint_encode(slot as nat) + rest));
    lemma_var_u32_roundtrip(id, varint_encode(slot as nat) + rest);
    lemma_var_u32_roundtrip(slot, rest);
    let out = e + u16_be_bytes_of(slot) + rest;
    assert(out.take(e.len() as int) =~= e);
    assert(out.skip(e.len() + 2int) =~= rest);
    assert(((slot / 0x100) % 0x100) * 256 + slot % 0x100 == slot % 0x1_0000) by (nonlinear_arith);
}

/// Reading an EntityTeleport body gives the entity id, the three coordinates'
/// eight bytes each (most significant first), then yaw and pitch, in that
/// order.
pub proof fn lemma_read_entity_teleport_fields(id: u32, coords: Seq<u8>, yaw: u8, pitch: u8, rest: Seq<u8>)
    requires
        coords.len() == 24,
    ensures
        spec_read_entity_teleport(varint_encode(id as nat) + coords + seq![yaw, pitch] + rest) == Some(
            EntityTeleportFields {
                entity_id: id,
                x_bits: u64_from_be(coords),
                y_bits: u64_from_be(coords.skip(8)),
                z_bits: u64_from_be(coords.skip(16)),
                yaw,
                pitch,
            },
        ),
{
    let t = coords + seq![yaw, pitch] + rest;
    assert(varint_encode(id as nat) + coords + seq![yaw, pitch] + rest =~= varint_encode(id as nat) + t);
    lemma_var_u32_roundtrip(id, t);
    assert(t.skip(8).take(8) =~= coords.skip(8).take(8));
    assert(u64_from_be(t) == u64_from_be(coords));
    assert(u64_from_be(t.skip(8)) == u64_from_be(coords.skip(8)));
    assert(u64_from_be(t.skip(16)) == u64_from_be(coords.skip(16)));
}

/// Reading a SpawnEntity body skips the 16-byte UUID and gives the entity
/// id, the entity type's low byte, the three coordinates' eight bytes each,
/// then yaw and pitch; the head yaw after them is read and not used.
pub proof fn lemma_read_spawn_entity_fields(
    id: u32,
    uuid: Seq<u8>,
    entity_type: u32,
    coords: Seq<u8>,
    yaw: u8,
    pitch: u8,
    head_yaw: u8,
    rest: Seq<u8>,
)
    requires
        uuid.len() == 16,
        coords.len() == 24,
    ensures
        spec_read_spawn_entity(
            varint_encode(id as nat) + uuid + varint_encode(entity_type as nat) + coords + seq![
                yaw,
                pitch,
                head_yaw,
            ] + rest,
        ) == Some(
            SpawnEntityFields {
                entity_id: id,
                entity_type: (entity_type % 0x100) as u8,
                x_bits: u64_from_be(coords),
                y_bits: u64_from_be(coords.skip(8)),
                z_bits: u64_from_be(coords.skip(16)),
                yaw,
                pitch,
            },
        ),
{
    let t2 = coords + seq![yaw, pitch, head_yaw] + rest;
    let t1 = uuid + varint_encode(entity_type as nat) + t2;
    assert(varint_encode(id as nat) + uuid + varint_encode(entity_type as nat) + coords + seq![
        yaw,
        pitch,
        head_yaw,
    ] + rest =~= varint_encode(id as nat) + t1);
    lemma_var_u32_roundtrip(id, t1);
    assert(t1.skip(16) =~= varint_encode(entity_type as nat) + t2);
    lemma_var_u32_roundtrip(entity_type, t2);
    assert(u64_from_be(t2) == u64_from_be(coords));
    assert(u64_from_be(t2.skip(8)) == u64_from_be(coords.skip(8)));
    assert(u64_from_be(t2.skip(16)) == u64_from_be(coords.skip(16)));
}

/// The 1.8 packet id of each conversion, a passed-on body keeping the id it
/// was given, and no packet for a dropped one.
pub proof fn lemma_legacy_packet_ids(passthrough_id: u8)
    ensures
        spec_legacy_packet_id(S2cRoute::JoinGame) == Some(0x01u8),
        spec_legacy_packet_id(S2cRoute::PlayerPosLook) == Some(0x08u8),
        spec_legacy_packet_id(S2cRoute::Chat) == Some(0x02u8),
        spec_legacy_packet_id(S2cRoute::SystemChat) == Some(0x02u8),
        spec_legacy_packet_id(S2cRoute::SetHealth) == Some(0x06u8),
        spec_legacy_packet_id(S2cRoute::Respawn) == Some(0x07u8),
        spec_legacy_packet_id(S2cRoute::KeepAliveLong) == Some(0x00u8),
        spec_legacy_packet_id(S2cRoute::TimeUpdate) == Some(0x03u8),
        spec_legacy_packet_id(S2cRoute::TabList) == Some(0x47u8),
        spec_legacy_packet_id(S2cRoute::EntityVelocity) == Some(0x12u8),
        spec_legacy_packet_id(S2cRoute::EntityTeleport) == Some(0x18u8),
        spec_legacy_packet_id(S2cRoute::EntityRelMove) == Some(0x15u8),
        spec_legacy_packet_id(S2cRoute::SpawnEntity) == Some(0x0Eu8),
        spec_legacy_packet_id(S2cRoute::EntityDestroy) == Some(0x13u8),
        spec_legacy_packet_id(S2cRoute::BlockChange) == Some(0x23u8),
        spec_legacy_packet_id(S2cRoute::HeldItemChange) == Some(0x09u8),
        spec_legacy_packet_id(S2cRoute::SetSlot) == Some(0x2Fu8),
        spec_legacy_packet_id(S2cRoute::WindowItems) == Some(0x30u8),
        spec_legacy_packet_id(S2cRoute::EntityMetadata) == Some(0x1Cu8),
        spec_legacy_packet_id(S2cRoute::EntityEquipment) == Some(0x04u8),
        spec_legacy_packet_id(S2cRoute::Experience) == Some(0x1Fu8),
        spec_legacy_packet_id(S2cRoute::ScoreboardObjective) == Some(0x3Bu8),
        spec_legacy_packet_id(S2cRoute::ScoreboardScore) == Some(0x3Cu8),
        spec_legacy_packet_id(S2cRoute::PluginMessage) == Some(0x3Fu8),
        spec_legacy_packet_id(S2cRoute::Passthrough(passthrough_id)) == Some(passthrough_id),
        spec_legacy_packet_id(S2cRoute::Drop) is None,
{
}

/// The packet-id table for each backend version: 1.16.5 has its own, 1.19.4,
/// 1.20.4 and 1.21 share the modern one, and every other version, 1.12.2
/// among them, uses the 1.12.2 one.
pub proof fn lemma_s2c_table_by_version()
    ensures
        spec_s2c_table(KnownVersion::V1_6_4) == S2cTable::V1_12,
        spec_s2c_table(KnownVersion::V1_7_10) == S2cTable::V1_12,
        spec_s2c_table(KnownVersion::V1_8) == S2cTable::V1_12,
        spec_s2c_table(KnownVersion::V1_12_2) == S2cTable::V1_12,
        spec_s2c_table(KnownVersion::V1_16_5) == S2cTable::V1_16,
        spec_s2c_table(KnownVersion::V1_19_4) == S2cTable::Modern,
        spec_s2c_table(KnownVersion::V1_20_4) == S2cTable::Modern,
        spec_s2c_table(KnownVersion::V1_21) == S2cTable::Modern,
        spec_s2c_table(KnownVersion::Other) == S2cTable::V1_12,
{
}

/// A 1.8 BlockChange body writes the position's coordinates: x is bits 38
/// to 63 of the position (four bytes, most significant first), y the low
/// byte of bits 26 to 37, and z bits 12 to 37 (four bytes).
pub proof fn lemma_block_change_coordinates(pos: Seq<u8>, state: u32, rest: Seq<u8>)
    requires
        pos.len() == 8,
    ensures
        ({
            let out = spec_block_change_body(pos + varint_encode(state as nat) + rest)->0;
            let p = u64_from_be(pos);
            &&& u32_from_be(out) == p / 0x40_0000_0000
            &&& out[4] == (p / 0x400_0000) % 0x100
            &&& u32_from_be(out.skip(5)) == (p / 0x1000) % 0x400_0000
        }),
{
    let body = pos + varint_encode(state as nat) + rest;
    lemma_block_change_keeps_state(pos, state, rest);
    let p = u64_from_be(body);
    assert(p == u64_from_be(pos));
    let pi = p as i64;
    let x = block_change_x(pi) as u32;
    let y = block_change_y(pi) as u8;
    let z = block_change_z(pi) as u32;
    assert(x == p / 0x40_0000_0000 && y == (p / 0x400_0000) % 0x100 && z == (p / 0x1000) % 0x400_0000)
        by (bit_vector)
        requires
            pi == p as i64,
            x == ((pi >> 38i64) & 0x3FF_FFFF) as i32 as u32,
            y == ((pi >> 26i64) & 0xFFF) as i32 as u8,
            z == ((pi >> 12i64) & 0x3FF_FFFF) as i32 as u32,
    ;
    let out = spec_block_change_body(body)->0;
    lemma_u32_from_be_bytes(x, out.skip(4));
    assert(out.skip(5) =~= u32_be_bytes(z) + out.skip(9));
    lemma_u32_from_be_bytes(z, out.skip(9));
    assert(out =~= u32_be_bytes(x) + out.skip(4));
}

/// Four bytes written most significant first read back as the number.
pub proof fn lemma_u32_from_be_bytes(v: u32, rest: Seq<u8>)
    ensures
        u32_from_be(u32_be_bytes(v) + rest) == v,
{
    let b = u32_be_bytes(v) + rest;
    assert(b[0] == (v / 0x100_0000) as u8 && b[1] == ((v / 0x1_0000) % 0x100) as u8 && b[2] == ((v
        / 0x100) % 0x100) as u8 && b[3] == (v % 0x100) as u8);
    assert(v == (v / 0x100_0000) * 0x100_0000 + ((v / 0x1_0000) % 0x100) * 0x1_0000 + ((v / 0x100)
        % 0x100) * 0x100 + v % 0x100);
}

/// A 1.8 PlayerPositionAndLook body holds the backend's 32 bytes of
/// position and look unchanged, then its flags byte, or 0 where the backend
/// wrote none.
pub proof fn lemma_pos_look_keeps_position(body: Seq<u8>)
    requires
        body.len() >= 32,
    ensures
        ({
            let out = spec_player_pos_look_body(body)->0;
            &&& out.len() == 33
            &&& forall|i: int| 0 <= i < 32 ==> out[i] == body[i]
            &&& out[32] == (if body.len() > 32 {
                body[32]
            } else {
                0u8
            })
        }),
{
}

/// A 1.8 HeldItemChange body is the backend's slot byte alone.
pub proof fn lemma_held_item_keeps_slot(slot: u8, rest: Seq<u8>)
    ensures
        spec_held_item_change_body(seq![slot] + rest) == Some(seq![slot]),
{
}

/// A 1.8 EntityTeleport body reads back as the entity id (a VarInt), the
/// three fixed-point coordinates (four bytes each, most significant first),
/// yaw, pitch and on-ground off.
pub proof fn lemma_entity_teleport_body_reads_back(id: u32, x: i32, y: i32, z: i32, yaw: u8, pitch: u8)
    ensures
        ({
            let out = entity_teleport_body(id, x, y, z, yaw, pitch);
            let (r, t) = spec_read_var_u32(out);
            &&& r == Ok::<u32, DecodeError>(id)
            &&& t.len() == 15
            &&& u32_from_be(t) == x as u32
            &&& u32_from_be(t.skip(4)) == y as u32
            &&& u32_from_be(t.skip(8)) == z as u32
            &&& t[12] == yaw && t[13] == pitch && t[14] == 0
        }),
{
    let t = u32_be_bytes(x as u32) + u32_be_bytes(y as u32) + u32_be_bytes(z as u32) + seq![yaw, pitch, 0u8];
    assert(entity_teleport_body(id, x, y, z, yaw, pitch) =~= varint_encode(id as nat) + t);
    lemma_var_u32_roundtrip(id, t);
    lemma_u32_from_be_bytes(x as u32, t.skip(4));
    assert(t =~= u32_be_bytes(x as u32) + t.skip(4));
    assert(t.skip(4) =~= u32_be_bytes(y as u32) + t.skip(8));
    lemma_u32_from_be_bytes(y as u32, t.skip(8));
    assert(t.skip(8) =~= u32_be_bytes(z as u32) + t.skip(12));
    lemma_u32_from_be_bytes(z as u32, t.skip(12));
}

/// A 1.8 SpawnObject body reads back as the entity id (a VarInt), the type
/// byte, the three fixed-point coordinates (four bytes each, most
/// significant first), yaw, pitch and an object data of zero.
pub proof fn lemma_spawn_entity_body_reads_back(
    id: u32,
    entity_type: u8,
    x: i32,
    y: i32,
    z: i32,
    yaw: u8,
    pitch: u8,
)
    ensures
        ({
            let out = spawn_entity_body(id, entity_type, x, y, z, yaw, pitch);
            let (r, t) = spec_read_var_u32(out);
            &&& r == Ok::<u32, DecodeError>(id)
            &&& t.len() == 19
            &&& t[0] == entity_type
            &&& u32_from_be(t.skip(1)) == x as u32
            &&& u32_from_be(t.skip(5)) == y as u32
            &&& u32_from_be(t.skip(9)) == z as u32
            &&& t[13] == yaw && t[14] == pitch
            &&& u32_from_be(t.skip(15)) == 0
        }),
{
    let t = seq![entity_type] + u32_be_bytes(x as u32) + u32_be_bytes(y as u32) + u32_be_bytes(z as u32)
        + seq![yaw, pitch] + u32_be_bytes(0);
    assert(spawn_entity_body(id, entity_type, x, y, z, yaw, pitch) =~= varint_encode(id as nat) + t);
    lemma_var_u32_roundtrip(id, t);
    assert(t.skip(1) =~= u32_be_bytes(x as u32) + t.skip(5));
    lemma_u32_from_be_bytes(x as u32, t.skip(5));
    assert(t.skip(5) =~= u32_be_bytes(y as u32) + t.skip(9));
    lemma_u32_from_be_bytes(y as u32, t.skip(9));
    assert(t.skip(9) =~= u32_be_bytes(z as u32) + t.skip(13));
    lemma_u32_from_be_bytes(z as u32, t.skip(13));
    assert(t.skip(15) =~= u32_be_bytes(0) + Seq::<u8>::empty());
    lemma_u32_from_be_bytes(0, Seq::<u8>::empty());
}

} // verus!
