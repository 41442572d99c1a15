//! The decisions of the Bedrock translation loop: what a packet from the
//! Bedrock client or from the Java backend calls for, and the Bedrock
//! packets the proxy builds.

use crate::buffer::{
    buf_as_slice, buf_from_slice, buf_get_u32, buf_get_u64, buf_get_u8, buf_len, buf_new,
    buf_put_u32_le, buf_put_u8, buf_take_vec, buffer_bytes, lemma_u32_le_roundtrip, u32_from_be,
    u32_le_bytes, u64_from_be,
};
use crate::packet_decoder::{
    decode_move_player, decode_text, lemma_string_roundtrip, lemma_var_u64_roundtrip,
    move_player_one_byte_short, move_player_readable, read_string, read_var_u32,
    spec_decode_move_player, spec_decode_text, spec_read_string, spec_read_var_u32,
    spec_read_var_u64, spec_read_vec3f, DecodeError, MovePlayerPacket, TextPacket, TextPacketView,
    Vec3f,
};
use crate::packet_encoder::{
    bedrock_string, encode_string, encode_varint, encode_vec3f, wrap_game_packet,
};
use crate::varint::varint_encode;
use bytes::BytesMut;
use vstd::prelude::*;

verus! {

/// What a packet from the Bedrock client calls for.
#[derive(Debug)]
pub enum BedrockInbound {
    /// A MovePlayer packet (`0x13`), to be sent on as a Java position and
    /// rotation update.
    MovePlayer(MovePlayerPacket),
    /// A Text packet (`0x09`), whose message is to be sent on as Java chat.
    Text(TextPacket),
    /// A MovePlayer or Text packet that could not be read.
    DecodeFailed(DecodeError),
    /// A MovePlayer packet whose rotation block is one byte short, on which
    /// the reader would take a byte that is not there.
    MovePlayerOneByteShort,
    /// Anything else, which is ignored.
    Ignored,
}

/// A `BedrockInbound` with its Text packet seen through the packet's view.
pub enum BedrockInboundView {
    MovePlayer(MovePlayerPacket),
    Text(TextPacketView),
    DecodeFailed(DecodeError),
    MovePlayerOneByteShort,
    Ignored,
}

impl View for BedrockInbound {
    type V = BedrockInboundView;

    open spec fn view(&self) -> BedrockInboundView {
        match self {
            BedrockInbound::MovePlayer(p) => BedrockInboundView::MovePlayer(*p),
            BedrockInbound::Text(t) => BedrockInboundView::Text(t@),
            BedrockInbound::DecodeFailed(e) => BedrockInboundView::DecodeFailed(*e),
            BedrockInbound::MovePlayerOneByteShort => BedrockInboundView::MovePlayerOneByteShort,
            BedrockInbound::Ignored => BedrockInboundView::Ignored,
        }
    }
}

/// What a RakNet packet from the Bedrock client calls for: a game packet
/// (`0xFE`) whose one-byte packet id is MovePlayer (`0x13`) or Text (`0x09`)
/// is read; everything else is ignored.
pub open spec fn spec_classify_bedrock_packet(s: Seq<u8>) -> BedrockInboundView {
    if s.len() < 2 || s[0] != 0xFE {
        BedrockInboundView::Ignored
    } else if s[1] == 0x13 {
        let body = s.skip(2);
        if move_player_one_byte_short(body) {
            BedrockInboundView::MovePlayerOneByteShort
        } else {
            match spec_decode_move_player(body).0 {
                Ok(p) => BedrockInboundView::MovePlayer(p),
                Err(e) => BedrockInboundView::DecodeFailed(e),
            }
        }
    } else if s[1] == 0x09 {
        match spec_decode_text(s.skip(2)).0 {
            Ok(t) => BedrockInboundView::Text(t),
            Err(e) => BedrockInboundView::DecodeFailed(e),
        }
    } else {
        BedrockInboundView::Ignored
    }
}

/// Decides what a RakNet packet from the Bedrock client calls for.
pub fn classify_bedrock_packet(packet: &[u8]) -> (r: BedrockInbound)
    ensures
        r@ == spec_classify_bedrock_packet(packet@),
{
    let mut buf = buf_from_slice(packet);
    if buf_len(&buf) == 0 {
        return BedrockInbound::Ignored;
    }
    if buf_get_u8(&mut buf) != 0xFE {
        return BedrockInbound::Ignored;
    }
    if buf_len(&buf) == 0 {
        return BedrockInbound::Ignored;
    }
    let packet_id = buf_get_u8(&mut buf);
    proof {
        assert(packet@.skip(1).skip(1) =~= packet@.skip(2));
    }
    if packet_id == 0x13 {
        if !move_player_readable(&buf) {
            return BedrockInbound::MovePlayerOneByteShort;
        }
        match decode_move_player(&mut buf) {
            Ok(p) => BedrockInbound::MovePlayer(p),
            Err(e) => BedrockInbound::DecodeFailed(e),
        }
    } else if packet_id == 0x09 {
        match decode_text(&mut buf) {
            Ok(t) => BedrockInbound::Text(t),
            Err(e) => BedrockInbound::DecodeFailed(e),
        }
    } else {
        BedrockInbound::Ignored
    }
}

/// The bit pattern of the single-precision value 100.0.
pub open spec fn f32_bits_100() -> u32 {
    0x42C8_0000
}

/// The Bedrock StartGame payload (`0x0B`) the proxy sends when the Java
/// backend admits the player: entity id 1, runtime entity id 1, game mode 1
/// (creative), spawn position (0, 100, 0) and the world name "world".
pub open spec fn start_game_payload() -> Seq<u8> {
    seq![0x0Bu8] + varint_encode(1) + varint_encode(1) + varint_encode(1) + u32_le_bytes(0)
        + u32_le_bytes(f32_bits_100()) + u32_le_bytes(0) + bedrock_string("world"@)
}

/// Builds the StartGame packet, wrapped as a game packet.
pub fn build_start_game() -> (b: BytesMut)
    ensures
        buffer_bytes(b) == seq![0xFEu8] + start_game_payload(),
{
    let mut p = buf_new();
    buf_put_u8(&mut p, 0x0B);
    encode_varint(1, &mut p);
    encode_varint(1, &mut p);
    encode_varint(1, &mut p);
    encode_vec3f(0, 0x42C8_0000, 0, &mut p);
    encode_string("world", &mut p);
    proof {
        assert(buffer_bytes(p) =~= start_game_payload());
    }
    wrap_game_packet(buf_as_slice(&p))
}

/// The Bedrock Text payload (`0x09`) that carries a Java chat message to the
/// Bedrock client: a chat (type 1) from "[Server]" that needs no
/// translation.
pub open spec fn server_chat_payload(message: Seq<char>) -> Seq<u8> {
    seq![0x09u8, 1u8, 0u8] + bedrock_string("[Server]"@) + bedrock_string(message)
}

/// Builds the Text packet for a Java chat message, wrapped as a game packet.
pub fn build_server_chat(message: &str) -> (b: BytesMut)
    ensures
        buffer_bytes(b) == seq![0xFEu8] + server_chat_payload(message@),
{
    let mut p = buf_new();
    buf_put_u8(&mut p, 0x09);
    buf_put_u8(&mut p, 1);
    buf_put_u8(&mut p, 0);
    encode_string("[Server]", &mut p);
    encode_string(message, &mut p);
    proof {
        assert(buffer_bytes(p) =~= server_chat_payload(message@));
    }
    wrap_game_packet(buf_as_slice(&p))
}

/// The Bedrock MovePlayer payload (`0x13`) that carries a Java position to
/// the Bedrock client: runtime entity id 1, the position, pitch, yaw and yaw
/// again as head yaw (single-precision bit patterns, least significant byte
/// first), mode 1 (teleport), on ground, ridden entity 0, teleport cause 0
/// and item type 0.
pub open spec fn move_player_payload(x: u32, y: u32, z: u32, yaw: u32, pitch: u32) -> Seq<u8> {
    seq![0x13u8] + varint_encode(1) + u32_le_bytes(x) + u32_le_bytes(y) + u32_le_bytes(z)
        + u32_le_bytes(pitch) + u32_le_bytes(yaw) + u32_le_bytes(yaw) + seq![1u8, 1u8]
        + varint_encode(0) + u32_le_bytes(0) + u32_le_bytes(0)
}

/// Builds the MovePlayer packet for a Java position, wrapped as a game
/// packet. The arguments are single-precision bit patterns.
pub fn build_move_player(x: u32, y: u32, z: u32, yaw: u32, pitch: u32) -> (b: BytesMut)
    ensures
        buffer_bytes(b) == seq![0xFEu8] + move_player_payload(x, y, z, yaw, pitch),
{
    let mut p = buf_new();
    buf_put_u8(&mut p, 0x13);
    encode_varint(1, &mut p);
    encode_vec3f(x, y, z, &mut p);
    buf_put_u32_le(&mut p, pitch);
    buf_put_u32_le(&mut p, yaw);
    buf_put_u32_le(&mut p, yaw);
    buf_put_u8(&mut p, 1);
    buf_put_u8(&mut p, 1);
    encode_varint(0, &mut p);
    buf_put_u32_le(&mut p, 0);
    buf_put_u32_le(&mut p, 0);
    proof {
        assert(buffer_bytes(p) =~= move_player_payload(x, y, z, yaw, pitch));
    }
    wrap_game_packet(buf_as_slice(&p))
}

/// A Java PlayerPositionAndLook packet as the proxy reads it: the position
/// (double-precision bit patterns), yaw and pitch (single-precision bit
/// patterns), and the teleport id where one can be read after the flags.
#[derive(Debug, Clone, Copy, PartialEq, Eq, Structural)]
pub struct JavaPositionLook {
    pub x: u64,
    pub y: u64,
    pub z: u64,
    pub yaw: u32,
    pub pitch: u32,
    pub teleport_id: Option<i32>,
}

/// What a packet from the Java backend calls for.
#[derive(Debug)]
pub enum JavaAction {
    /// A KeepAlive (`0x1F`): answer the backend with the same id.
    ReplyKeepAlive(i64),
    /// A JoinGame (`0x23`) or chat (`0x0F`): send these bytes to the Bedrock
    /// client.
    SendToBedrock(BytesMut),
    /// A PlayerPositionAndLook (`0x2F`): confirm the teleport to the backend
    /// and move the Bedrock player.
    PositionLook(JavaPositionLook),
    /// A ChunkData (`0x20`): the packet body, to be decoded as a Java chunk
    /// and translated.
    ChunkData(Vec<u8>),
    /// Anything else, or a packet too short for what it announces.
    Nothing,
}

/// A `JavaAction` with its bytes seen as sequences.
pub enum JavaActionView {
    ReplyKeepAlive(i64),
    SendToBedrock(Seq<u8>),
    PositionLook(JavaPositionLook),
    ChunkData(Seq<u8>),
    Nothing,
}

impl View for JavaAction {
    type V = JavaActionView;

    open spec fn view(&self) -> JavaActionView {
        match self {
            JavaAction::ReplyKeepAlive(id) => JavaActionView::ReplyKeepAlive(*id),
            JavaAction::SendToBedrock(b) => JavaActionView::SendToBedrock(buffer_bytes(*b)),
            JavaAction::PositionLook(p) => JavaActionView::PositionLook(*p),
            JavaAction::ChunkData(v) => JavaActionView::ChunkData(v@),
            JavaAction::Nothing => JavaActionView::Nothing,
        }
    }
}

/// Reading a Java PlayerPositionAndLook body: 32 bytes of position, yaw and
/// pitch (most significant byte first), then, where a byte is left, the
/// flags byte and a VarInt teleport id.
pub open spec fn spec_position_look(s: Seq<u8>) -> JavaPositionLook {
    let r = s.skip(32);
    JavaPositionLook {
        x: u64_from_be(s),
        y: u64_from_be(s.skip(8)),
        z: u64_from_be(s.skip(16)),
        yaw: u32_from_be(s.skip(24)),
        pitch: u32_from_be(s.skip(28)),
        teleport_id: if r.len() >= 1 {
            match spec_read_var_u32(r.skip(1)).0 {
                Ok(v) => Some(v as i32),
                Err(_) => None,
            }
        } else {
            None
        },
    }
}

/// What a Java 1.12.2 packet (a VarInt packet id, zero where none can be
/// read, then the body) calls for.
pub open spec fn spec_java_action(s: Seq<u8>) -> JavaActionView {
    let (id, body) = spec_read_var_u32(s);
    let pid: i32 = match id {
        Ok(v) => v as i32,
        Err(_) => 0,
    };
    if pid == 0x1F {
        if body.len() >= 8 {
            JavaActionView::ReplyKeepAlive(u64_from_be(body) as i64)
        } else {
            JavaActionView::Nothing
        }
    } else if pid == 0x23 {
        JavaActionView::SendToBedrock(seq![0xFEu8] + start_game_payload())
    } else if pid == 0x2F {
        if body.len() >= 32 {
            JavaActionView::PositionLook(spec_position_look(body))
        } else {
            JavaActionView::Nothing
        }
    } else if pid == 0x0F {
        let text = match spec_read_string(body).0 {
            Ok(t) => t,
            Err(_) => Seq::empty(),
        };
        JavaActionView::SendToBedrock(seq![0xFEu8] + server_chat_payload(text))
    } else if pid == 0x20 {
        JavaActionView::ChunkData(body)
    } else {
        JavaActionView::Nothing
    }
}

/// Decides what a packet from the Java backend calls for.
pub fn java_packet_action(packet: &[u8]) -> (a: JavaAction)
    ensures
        a@ == spec_java_action(packet@),
{
    let mut buf = buf_from_slice(packet);
    let packet_id: i32 = match read_var_u32(&mut buf) {
        Ok(v) => v as i32,
        Err(_) => 0,
    };
    let ghost body = buffer_bytes(buf);
    if packet_id == 0x1F {
        if buf_len(&buf) >= 8 {
            let id = buf_get_u64(&mut buf) as i64;
            JavaAction::ReplyKeepAlive(id)
        } else {
            JavaAction::Nothing
        }
    } else if packet_id == 0x23 {
        JavaAction::SendToBedrock(build_start_game())
    } else if packet_id == 0x2F {
        if buf_len(&buf) >= 32 {
            let x = buf_get_u64(&mut buf);
            let y = buf_get_u64(&mut buf);
            let z = buf_get_u64(&mut buf);
            let yaw = buf_get_u32(&mut buf);
            let pitch = buf_get_u32(&mut buf);
            proof {
                assert(body.skip(8).skip(8) =~= body.skip(16));
                assert(body.skip(16).skip(8) =~= body.skip(24));
                assert(body.skip(24).skip(4) =~= body.skip(28));
                assert(body.skip(28).skip(4) =~= body.skip(32));
            }
            let mut teleport_id: Option<i32> = None;
            if buf_len(&buf) >= 1 {
                let _flags = buf_get_u8(&mut buf);
                match read_var_u32(&mut buf) {
                    Ok(v) => {
                        teleport_id = Some(v as i32);
                    },
                    Err(_) => {},
                }
            }
            JavaAction::PositionLook(JavaPositionLook { x, y, z, yaw, pitch, teleport_id })
        } else {
            JavaAction::Nothing
        }
    } else if packet_id == 0x0F {
        let json = match read_string(&mut buf) {
            Ok(t) => t,
            Err(_) => String::new(),
        };
        JavaAction::SendToBedrock(build_server_chat(json.as_str()))
    } else if packet_id == 0x20 {
        let n = buf_len(&buf);
        let rest = buf_take_vec(&mut buf, n);
        proof {
            assert(body.take(n as int) =~= body);
        }
        JavaAction::ChunkData(rest)
    } else {
        JavaAction::Nothing
    }
}

/// The MovePlayer packet the proxy sends a Bedrock client reads back, with
/// the proxy's own reader, as the position and rotation it was built from:
/// runtime id 1, head yaw equal to yaw, teleport mode, on ground, riding
/// nothing.
#[verifier::rlimit(60)]
pub proof fn lemma_move_player_packet_reads_back(x: u32, y: u32, z: u32, yaw: u32, pitch: u32)
    ensures
        spec_classify_bedrock_packet(seq![0xFEu8] + move_player_payload(x, y, z, yaw, pitch))
            == BedrockInboundView::MovePlayer(
            MovePlayerPacket {
                runtime_id: 1,
                position: Vec3f { x, y, z },
                pitch,
                yaw,
                head_yaw: yaw,
                mode: 1,
                on_ground: true,
                riding_runtime_id: 0,
                teleportion_cause: None,
                item_type: None,
                tick: 0,
            },
        ),
{
    let e: Seq<u8> = Seq::empty();
    let tail = varint_encode(0) + u32_le_bytes(0) + u32_le_bytes(0);
    let s2 = u32_le_bytes(pitch) + u32_le_bytes(yaw) + u32_le_bytes(yaw) + seq![1u8, 1u8] + tail;
    let s1 = u32_le_bytes(x) + u32_le_bytes(y) + u32_le_bytes(z) + s2;
    let body = varint_encode(1) + s1;
    let s = seq![0xFEu8] + move_player_payload(x, y, z, yaw, pitch);
    assert(varint_encode(1) == seq![1u8]);
    assert(varint_encode(0) == seq![0u8]);
    assert(s.skip(2) =~= body);
    assert(s[0] == 0xFE && s[1] == 0x13);
    lemma_var_u64_roundtrip(1, s1);
    lemma_u32_le_roundtrip(x, e);
    lemma_u32_le_roundtrip(y, e);
    lemma_u32_le_roundtrip(z, e);
    lemma_u32_le_roundtrip(pitch, e);
    lemma_u32_le_roundtrip(yaw, e);
    lemma_u32_le_roundtrip(0, e);
    assert(s1.subrange(0, 4) =~= u32_le_bytes(x) + e);
    assert(s1.subrange(4, 8) =~= u32_le_bytes(y) + e);
    assert(s1.subrange(8, 12) =~= u32_le_bytes(z) + e);
    assert(s1.skip(12) =~= s2);
    assert(spec_read_vec3f(s1) == (Ok::<Vec3f, DecodeError>(Vec3f { x, y, z }), s2));
    assert(s2.len() == 23);
    assert(!move_player_one_byte_short(body));
    assert(s2.subrange(0, 4) =~= u32_le_bytes(pitch) + e);
    assert(s2.subrange(4, 8) =~= u32_le_bytes(yaw) + e);
    assert(s2.subrange(8, 12) =~= u32_le_bytes(yaw) + e);
    assert(s2[12] == 1 && s2[13] == 1);
    assert(s2.skip(14) =~= varint_encode(0) + (u32_le_bytes(0) + u32_le_bytes(0)));
    lemma_var_u64_roundtrip(0, u32_le_bytes(0) + u32_le_bytes(0));
}

/// The Text packet the proxy sends a Bedrock client for a Java chat message
/// reads back, with the proxy's own reader, as a chat from "[Server]" with
/// that message, for every message of fewer than `2^32` UTF-8 bytes.
pub proof fn lemma_server_chat_reads_back(message: Seq<char>)
    requires
        vstd::utf8::encode_utf8(message).len() < 0x1_0000_0000,
    ensures
        spec_classify_bedrock_packet(seq![0xFEu8] + server_chat_payload(message))
            == BedrockInboundView::Text(
            TextPacketView {
                type_id: 1,
                needs_translation: false,
                source_name: Some("[Server]"@),
                message,
                parameters: Seq::empty(),
                xuid: Seq::empty(),
                platform_chat_id: Seq::empty(),
            },
        ),
{
    let server = "[Server]"@;
    reveal_strlit("[Server]");
    assert(vstd::utf8::is_ascii_chars(server));
    vstd::utf8::is_ascii_chars_encode_utf8(server);
    let e: Seq<u8> = Seq::empty();
    let s = seq![0xFEu8] + server_chat_payload(message);
    let t = seq![1u8, 0u8] + bedrock_string(server) + bedrock_string(message);
    assert(s.skip(2) =~= t);
    assert(s[0] == 0xFE && s[1] == 0x09);
    assert(t.skip(2) =~= bedrock_string(server) + bedrock_string(message));
    lemma_string_roundtrip(server, bedrock_string(message));
    assert(bedrock_string(message) =~= bedrock_string(message) + e);
    lemma_string_roundtrip(message, e);
    assert(spec_read_string(e).0 is Err && spec_read_string(e).1 =~= e);
}

} // verus!
