//! Readers for the Bedrock packets that the proxy translates.

use crate::buffer::{
    buf_clone, buf_get_u32_le, buf_get_u8, buf_len, buf_take_vec, buffer_bytes, u32_from_le,
};
use crate::packet_encoder::bedrock_string;
use crate::varint::{
    base128_value, has_continuation, lemma_base128_bound, lemma_base128_push,
    lemma_first_terminator_at, lemma_no_terminator_before, lemma_or_digit_u32, lemma_or_digit_u64,
    lemma_pow128_values, lemma_var_decode_encode, lemma_varint_encode_len_u32_u64, var_decode,
    varint_encode, VarDecode,
};
use bytes::BytesMut;
use vstd::prelude::*;

verus! {

/// Why a packet could not be read.
#[derive(Debug, Clone, Copy, PartialEq, Eq, Structural)]
pub enum DecodeError {
    /// The buffer ends inside a 32-bit variable-length integer.
    IncompleteVarU32,
    /// A 32-bit variable-length integer runs past five bytes.
    VarU32TooBig,
    /// The buffer ends inside a 64-bit variable-length integer.
    IncompleteVarU64,
    /// A 64-bit variable-length integer runs past ten bytes.
    VarU64TooBig,
    /// The buffer holds fewer bytes than a string's length announces.
    IncompleteString,
    /// A string's bytes are not UTF-8.
    InvalidUtf8,
    /// Fewer than twelve bytes are left for a three-component vector.
    IncompleteVec3f,
    /// Fewer than thirteen bytes are left for a MovePlayer rotation block.
    IncompleteMovePlayerRotation,
    /// Fewer than two bytes are left for a Text packet header.
    IncompleteTextHeader,
}

/// Reading a 32-bit variable-length integer from the front of `s`: the result
/// and what is left of `s`. An integer that runs past the end of `s` takes all
/// of it; one that runs past five bytes takes five.
pub open spec fn spec_read_var_u32(s: Seq<u8>) -> (Result<u32, DecodeError>, Seq<u8>) {
    match var_decode(s, 5) {
        VarDecode::Done { len, value } => (Ok((value % 0x1_0000_0000) as u32), s.skip(len as int)),
        VarDecode::Incomplete => (Err(DecodeError::IncompleteVarU32), s.skip(s.len() as int)),
        VarDecode::TooLong => (Err(DecodeError::VarU32TooBig), s.skip(5)),
    }
}

/// Reading a 64-bit variable-length integer from the front of `s`, as
/// `spec_read_var_u32` with ten bytes at most.
pub open spec fn spec_read_var_u64(s: Seq<u8>) -> (Result<u64, DecodeError>, Seq<u8>) {
    match var_decode(s, 10) {
        VarDecode::Done { len, value } => (
            Ok((value % 0x1_0000_0000_0000_0000) as u64),
            s.skip(len as int),
        ),
        VarDecode::Incomplete => (Err(DecodeError::IncompleteVarU64), s.skip(s.len() as int)),
        VarDecode::TooLong => (Err(DecodeError::VarU64TooBig), s.skip(10)),
    }
}

/// Reads a 32-bit variable-length integer off the front of `buf`.
pub fn read_var_u32(buf: &mut BytesMut) -> (r: Result<u32, DecodeError>)
    ensures
        (r, buffer_bytes(*final(buf))) == spec_read_var_u32(buffer_bytes(*old(buf))),
{
    let ghost s0 = buffer_bytes(*buf);
    let mut value: u32 = 0;
    let mut shift: u32 = 0;
    let ghost mut k: nat = 0;
    loop
        invariant
            s0 == buffer_bytes(*old(buf)),
            k < 5,
            shift == 7 * k,
            k <= s0.len(),
            buffer_bytes(*buf) == s0.skip(k as int),
            forall|j: int| 0 <= j < k ==> has_continuation(#[trigger] s0[j]),
            value as nat == base128_value(s0.take(k as int)),
        decreases s0.len() - k,
    {
        if buf_len(buf) == 0 {
            proof {
                lemma_no_terminator_before(s0, k);
            }
            return Err(DecodeError::IncompleteVarU32);
        }
        let b = buf_get_u8(buf);
        proof {
            assert(b == s0[k as int]);
            assert(s0.take(k + 1 as int) =~= s0.take(k as int).push(b));
            lemma_base128_push(s0.take(k as int), b);
            lemma_base128_bound(s0.take(k as int));
            lemma_or_digit_u32(value, b, k);
            assert(s0.skip(k as int).skip(1) =~= s0.skip(k + 1 as int));
        }
        value = value | (((b & 0x7F) as u32) << shift);
        if (b & 0x80) == 0 {
            proof {
                assert((b & 0x80) == 0 ==> b < 128) by (bit_vector);
                lemma_first_terminator_at(s0, k);
            }
            return Ok(value);
        }
        proof {
            assert((b & 0x80) != 0 ==> b >= 128) by (bit_vector);
            lemma_pow128_values();
            lemma_base128_bound(s0.take(k + 1 as int));
        }
        shift = shift + 7;
        proof {
            k = k + 1;
        }
        if shift >= 35 {
            proof {
                lemma_no_terminator_before(s0, k);
            }
            return Err(DecodeError::VarU32TooBig);
        }
    }
}

/// Reads a 64-bit variable-length integer off the front of `buf`.
pub fn read_var_u64(buf: &mut BytesMut) -> (r: Result<u64, DecodeError>)
    ensures
        (r, buffer_bytes(*final(buf))) == spec_read_var_u64(buffer_bytes(*old(buf))),
{
    let ghost s0 = buffer_bytes(*buf);
    let mut value: u64 = 0;
    let mut shift: u32 = 0;
    let ghost mut k: nat = 0;
    loop
        invariant
            s0 == buffer_bytes(*old(buf)),
            k < 10,
            shift == 7 * k,
            k <= s0.len(),
            buffer_bytes(*buf) == s0.skip(k as int),
            forall|j: int| 0 <= j < k ==> has_continuation(#[trigger] s0[j]),
            value as nat == base128_value(s0.take(k as int)),
        decreases s0.len() - k,
    {
        if buf_len(buf) == 0 {
            proof {
                lemma_no_terminator_before(s0, k);
            }
            return Err(DecodeError::IncompleteVarU64);
        }
        let b = buf_get_u8(buf);
        proof {
            assert(b == s0[k as int]);
            assert(s0.take(k + 1 as int) =~= s0.take(k as int).push(b));
            lemma_base128_push(s0.take(k as int), b);
            lemma_base128_bound(s0.take(k as int));
            lemma_or_digit_u64(value, b, k);
            assert(s0.skip(k as int).skip(1) =~= s0.skip(k + 1 as int));
        }
        value = value | (((b & 0x7F) as u64) << shift);
        if (b & 0x80) == 0 {
            proof {
                assert((b & 0x80) == 0 ==> b < 128) by (bit_vector);
                lemma_first_terminator_at(s0, k);
            }
            return Ok(value);
        }
        proof {
            assert((b & 0x80) != 0 ==> b >= 128) by (bit_vector);
            lemma_pow128_values();
            lemma_base128_bound(s0.take(k + 1 as int));
        }
        shift = shift + 7;
        proof {
            k = k + 1;
        }
        if shift >= 70 {
            proof {
                lemma_no_terminator_before(s0, k);
            }
            return Err(DecodeError::VarU64TooBig);
        }
    }
}

/// A string result seen through the characters of the string.
pub open spec fn string_result_view(r: Result<String, DecodeError>) -> Result<Seq<char>, DecodeError> {
    match r {
        Ok(s) => Ok(s@),
        Err(e) => Err(e),
    }
}

/// Reading a Bedrock string from the front of `s`: a 32-bit variable-length
/// byte count, then that many bytes of UTF-8. The result and what is left of
/// `s`; bytes that are not UTF-8 are taken all the same.
pub open spec fn spec_read_string(s: Seq<u8>) -> (Result<Seq<char>, DecodeError>, Seq<u8>) {
    let (n, rest) = spec_read_var_u32(s);
    match n {
        Err(e) => (Err(e), rest),
        Ok(len) => if rest.len() < len {
            (Err(DecodeError::IncompleteString), rest)
        } else {
            let data = rest.take(len as int);
            let after = rest.skip(len as int);
            if vstd::utf8::valid_utf8(data) {
                (Ok(vstd::utf8::decode_utf8(data)), after)
            } else {
                (Err(DecodeError::InvalidUtf8), after)
            }
        },
    }
}

/// `String::from_utf8`: the string that `bytes` encode, where they are UTF-8.
#[verifier::external_body]
pub(crate) fn string_from_utf8(bytes: Vec<u8>) -> (r: Option<String>)
    ensures
        r is Some <==> vstd::utf8::valid_utf8(bytes@),
        r matches Some(s) ==> s@ == vstd::utf8::decode_utf8(bytes@),
{
    String::from_utf8(bytes).ok()
}

/// Reads a Bedrock string off the front of `buf`.
pub fn read_string(buf: &mut BytesMut) -> (r: Result<String, DecodeError>)
    ensures
        (string_result_view(r), buffer_bytes(*final(buf))) == spec_read_string(
            buffer_bytes(*old(buf)),
        ),
{
    let len = match read_var_u32(buf) {
        Ok(n) => n as usize,
        Err(e) => {
            return Err(e);
        },
    };
    if buf_len(buf) < len {
        return Err(DecodeError::IncompleteString);
    }
    let data = buf_take_vec(buf, len);
    match string_from_utf8(data) {
        Some(s) => Ok(s),
        None => Err(DecodeError::InvalidUtf8),
    }
}

/// Reading back a 32-bit variable-length integer gives the integer that was
/// written, and leaves what followed it.
pub proof fn lemma_var_u32_roundtrip(v: u32, rest: Seq<u8>)
    ensures
        spec_read_var_u32(varint_encode(v as nat) + rest) == (Ok::<u32, DecodeError>(v), rest),
{
    lemma_varint_encode_len_u32_u64(v as nat);
    lemma_var_decode_encode(v as nat, rest, 5);
    let e = varint_encode(v as nat);
    assert((e + rest).skip(e.len() as int) =~= rest);
}

/// Reading back a 64-bit variable-length integer gives the integer that was
/// written, and leaves what followed it.
pub proof fn lemma_var_u64_roundtrip(v: u64, rest: Seq<u8>)
    ensures
        spec_read_var_u64(varint_encode(v as nat) + rest) == (Ok::<u64, DecodeError>(v), rest),
{
    lemma_varint_encode_len_u32_u64(v as nat);
    lemma_var_decode_encode(v as nat, rest, 10);
    let e = varint_encode(v as nat);
    assert((e + rest).skip(e.len() as int) =~= rest);
}

/// Reading back a string written as a Bedrock string gives the string, and
/// leaves what followed it, for every string of fewer than `2^32` UTF-8 bytes.
pub proof fn lemma_string_roundtrip(s: Seq<char>, rest: Seq<u8>)
    requires
        vstd::utf8::encode_utf8(s).len() < 0x1_0000_0000,
    ensures
        spec_read_string(bedrock_string(s) + rest) == (Ok::<Seq<char>, DecodeError>(s), rest),
{
    let bytes = vstd::utf8::encode_utf8(s);
    let n = bytes.len();
    let head = varint_encode(n);
    assert(n % 0x1_0000_0000 == n);
    assert(bedrock_string(s) == head + bytes);
    lemma_var_u32_roundtrip(n as u32, bytes + rest);
    assert(head + bytes + rest =~= head + (bytes + rest));
    assert((bytes + rest).take(n as int) =~= bytes);
    assert((bytes + rest).skip(n as int) =~= rest);
    vstd::utf8::encode_utf8_valid_utf8(s);
    vstd::utf8::encode_utf8_decode_utf8(s);
}

/// A three-component vector of IEEE-754 single-precision values, each held as
/// its bit pattern.
#[derive(Debug, Clone, Copy, PartialEq, Eq, Structural)]
pub struct Vec3f {
    pub x: u32,
    pub y: u32,
    pub z: u32,
}

/// Reading a vector from the front of `s`: three little-endian 32-bit words.
/// Where fewer than twelve bytes are held, nothing is taken.
pub open spec fn spec_read_vec3f(s: Seq<u8>) -> (Result<Vec3f, DecodeError>, Seq<u8>) {
    if s.len() < 12 {
        (Err(DecodeError::IncompleteVec3f), s)
    } else {
        (
            Ok(
                Vec3f {
                    x: u32_from_le(s.subrange(0, 4)),
                    y: u32_from_le(s.subrange(4, 8)),
                    z: u32_from_le(s.subrange(8, 12)),
                },
            ),
            s.skip(12),
        )
    }
}

/// Reads a vector off the front of `buf`.
pub fn read_vec3f(buf: &mut BytesMut) -> (r: Result<Vec3f, DecodeError>)
    ensures
        (r, buffer_bytes(*final(buf))) == spec_read_vec3f(buffer_bytes(*old(buf))),
{
    let ghost s = buffer_bytes(*buf);
    if buf_len(buf) < 12 {
        return Err(DecodeError::IncompleteVec3f);
    }
    let x = buf_get_u32_le(buf);
    let y = buf_get_u32_le(buf);
    let z = buf_get_u32_le(buf);
    proof {
        assert(s.skip(4).skip(4).skip(4) =~= s.skip(12));
        assert(s.skip(4) =~= s.subrange(4, s.len() as int));
        assert(s.skip(4).skip(4) =~= s.subrange(8, s.len() as int));
    }
    Ok(Vec3f { x, y, z })
}

/// A Bedrock MovePlayer packet. The angles are IEEE-754 single-precision
/// values held as their bit patterns.
#[derive(Debug, Clone, Copy, PartialEq, Eq, Structural)]
pub struct MovePlayerPacket {
    pub runtime_id: u64,
    pub position: Vec3f,
    pub pitch: u32,
    pub yaw: u32,
    pub head_yaw: u32,
    pub mode: u8,
    pub on_ground: bool,
    pub riding_runtime_id: u64,
    pub teleportion_cause: Option<i32>,
    pub item_type: Option<i32>,
    pub tick: u64,
}

/// Whether the runtime id and the position of a MovePlayer packet read and
/// exactly thirteen bytes follow them: the reader checks for thirteen bytes
/// and then takes fourteen.
pub open spec fn move_player_one_byte_short(s: Seq<u8>) -> bool {
    let (rid, s1) = spec_read_var_u64(s);
    let (pos, s2) = spec_read_vec3f(s1);
    rid is Ok && pos is Ok && s2.len() == 13
}

/// Reading a MovePlayer packet from the front of `s`: the runtime id, the
/// position, pitch, yaw and head yaw, the mode byte, the on-ground byte
/// (any non-zero value is true) and the ridden entity's runtime id. The
/// fields that follow in the full packet are not read: teleport cause and
/// item type are `None`, the tick is zero.
pub open spec fn spec_decode_move_player(s: Seq<u8>) -> (Result<MovePlayerPacket, DecodeError>, Seq<u8>) {
    let (rid, s1) = spec_read_var_u64(s);
    match rid {
        Err(e) => (Err(e), s1),
        Ok(runtime_id) => {
            let (pos, s2) = spec_read_vec3f(s1);
            match pos {
                Err(e) => (Err(e), s2),
                Ok(position) => if s2.len() < 13 {
                    (Err(DecodeError::IncompleteMovePlayerRotation), s2)
                } else {
                    let (riding, s3) = spec_read_var_u64(s2.skip(14));
                    match riding {
                        Err(e) => (Err(e), s3),
                        Ok(riding_runtime_id) => (
                            Ok(
                                MovePlayerPacket {
                                    runtime_id,
                                    position,
                                    pitch: u32_from_le(s2.subrange(0, 4)),
                                    yaw: u32_from_le(s2.subrange(4, 8)),
                                    head_yaw: u32_from_le(s2.subrange(8, 12)),
                                    mode: s2[12],
                                    on_ground: s2[13] != 0,
                                    riding_runtime_id,
                                    teleportion_cause: None,
                                    item_type: None,
                                    tick: 0,
                                },
                            ),
                            s3,
                        ),
                    }
                },
            }
        },
    }
}

/// Reads a MovePlayer packet off the front of `buf`. The input on which the
/// reader would take a byte that is not there is left out.
pub fn decode_move_player(buf: &mut BytesMut) -> (r: Result<MovePlayerPacket, DecodeError>)
    requires
        !move_player_one_byte_short(buffer_bytes(*old(buf))),
    ensures
        (r, buffer_bytes(*final(buf))) == spec_decode_move_player(buffer_bytes(*old(buf))),
{
    let runtime_id = match read_var_u64(buf) {
        Ok(v) => v,
        Err(e) => {
            return Err(e);
        },
    };
    let position = match read_vec3f(buf) {
        Ok(v) => v,
        Err(e) => {
            return Err(e);
        },
    };
    let ghost s2 = buffer_bytes(*buf);
    if buf_len(buf) < 13 {
        return Err(DecodeError::IncompleteMovePlayerRotation);
    }
    let pitch = buf_get_u32_le(buf);
    let yaw = buf_get_u32_le(buf);
    let head_yaw = buf_get_u32_le(buf);
    let mode = buf_get_u8(buf);
    let on_ground = buf_get_u8(buf) != 0;
    proof {
        assert(s2.skip(4) =~= s2.subrange(4, s2.len() as int));
        assert(s2.skip(4).skip(4) =~= s2.subrange(8, s2.len() as int));
        assert(s2.skip(4).skip(4).skip(4) =~= s2.skip(12));
        assert(s2.skip(12).skip(1) =~= s2.skip(13));
        assert(s2.skip(13).skip(1) =~= s2.skip(14));
    }
    let riding_runtime_id = match read_var_u64(buf) {
        Ok(v) => v,
        Err(e) => {
            return Err(e);
        },
    };
    Ok(
        MovePlayerPacket {
            runtime_id,
            position,
            pitch,
            yaw,
            head_yaw,
            mode,
            on_ground,
            riding_runtime_id,
            teleportion_cause: None,
            item_type: None,
            tick: 0,
        },
    )
}

/// Whether `decode_move_player` may be called on `buf`: false exactly on the
/// input on which the reader would take a byte that is not there. `buf` is
/// left as it was.
pub fn move_player_readable(buf: &BytesMut) -> (ok: bool)
    ensures
        ok == !move_player_one_byte_short(buffer_bytes(*buf)),
{
    let mut probe = buf_clone(buf);
    match read_var_u64(&mut probe) {
        Ok(_) => {},
        Err(_) => {
            return true;
        },
    }
    match read_vec3f(&mut probe) {
        Ok(_) => {},
        Err(_) => {
            return true;
        },
    }
    buf_len(&probe) != 13
}

/// A Bedrock Text packet.
#[derive(Debug, Clone)]
pub struct TextPacket {
    pub type_id: u8,
    pub needs_translation: bool,
    pub source_name: Option<String>,
    pub message: String,
    pub parameters: Vec<String>,
    pub xuid: String,
    pub platform_chat_id: String,
}

/// A Text packet with each string seen as its characters.
pub struct TextPacketView {
    pub type_id: u8,
    pub needs_translation: bool,
    pub source_name: Option<Seq<char>>,
    pub message: Seq<char>,
    pub parameters: Seq<Seq<char>>,
    pub xuid: Seq<char>,
    pub platform_chat_id: Seq<char>,
}

/// The characters of each string of a sequence of strings.
pub open spec fn strings_view(v: Seq<String>) -> Seq<Seq<char>> {
    v.map_values(|x: String| x@)
}

impl View for TextPacket {
    type V = TextPacketView;

    open spec fn view(&self) -> TextPacketView {
        TextPacketView {
            type_id: self.type_id,
            needs_translation: self.needs_translation,
            source_name: match self.source_name {
                Some(n) => Some(n@),
                None => None,
            },
            message: self.message@,
            parameters: strings_view(self.parameters@),
            xuid: self.xuid@,
            platform_chat_id: self.platform_chat_id@,
        }
    }
}

/// A string result with an empty string in place of an error.
pub open spec fn or_empty(r: Result<Seq<char>, DecodeError>) -> Seq<char> {
    match r {
        Ok(s) => s,
        Err(_) => Seq::empty(),
    }
}

/// Reading `count` strings one after the other from the front of `s`,
/// stopping at the first that cannot be read.
pub open spec fn spec_read_strings(s: Seq<u8>, count: nat) -> (Result<Seq<Seq<char>>, DecodeError>, Seq<u8>)
    decreases count,
{
    if count == 0 {
        (Ok(Seq::empty()), s)
    } else {
        let (prev, s1) = spec_read_strings(s, (count - 1) as nat);
        match prev {
            Err(e) => (Err(e), s1),
            Ok(ps) => {
                let (r, s2) = spec_read_string(s1);
                match r {
                    Err(e) => (Err(e), s2),
                    Ok(x) => (Ok(ps.push(x)), s2),
                }
            },
        }
    }
}

/// Once reading the strings stops at an error, reading more of them stops at
/// the same place.
pub proof fn lemma_read_strings_error_stays(s: Seq<u8>, i: nat, n: nat)
    requires
        i <= n,
        spec_read_strings(s, i).0 is Err,
    ensures
        spec_read_strings(s, n) == spec_read_strings(s, i),
    decreases n - i,
{
    if i < n {
        lemma_read_strings_error_stays(s, i, (n - 1) as nat);
    }
}

/// The part of a Text packet that depends on its type: the source name, the
/// message and the parameters. Raw text (0) has a message; chat (1) a source
/// name and a message; translation (2) a message and a counted list of
/// parameters. Any other type has a message where one can be read, and an
/// empty message where none can.
pub open spec fn spec_text_body(type_id: u8, s: Seq<u8>) -> (
    Result<(Option<Seq<char>>, Seq<char>, Seq<Seq<char>>), DecodeError>,
    Seq<u8>,
) {
    if type_id == 0 {
        let (m, s1) = spec_read_string(s);
        match m {
            Err(e) => (Err(e), s1),
            Ok(msg) => (Ok((None, msg, Seq::empty())), s1),
        }
    } else if type_id == 1 {
        let (src, s1) = spec_read_string(s);
        match src {
            Err(e) => (Err(e), s1),
            Ok(name) => {
                let (m, s2) = spec_read_string(s1);
                match m {
                    Err(e) => (Err(e), s2),
                    Ok(msg) => (Ok((Some(name), msg, Seq::empty())), s2),
                }
            },
        }
    } else if type_id == 2 {
        let (m, s1) = spec_read_string(s);
        match m {
            Err(e) => (Err(e), s1),
            Ok(msg) => {
                let (c, s2) = spec_read_var_u32(s1);
                match c {
                    Err(e) => (Err(e), s2),
                    Ok(count) => {
                        let (ps, s3) = spec_read_strings(s2, count as nat);
                        match ps {
                            Err(e) => (Err(e), s3),
                            Ok(params) => (Ok((None, msg, params)), s3),
                        }
                    },
                }
            },
        }
    } else {
        let (m, s1) = spec_read_string(s);
        (Ok((None, or_empty(m), Seq::empty())), s1)
    }
}

/// Reading a Text packet from the front of `s`: the type byte, the
/// needs-translation byte (any non-zero value is true), the part that
/// depends on the type, then the XUID and the platform chat id, each empty
/// where it cannot be read.
pub open spec fn spec_decode_text(s: Seq<u8>) -> (Result<TextPacketView, DecodeError>, Seq<u8>) {
    if s.len() < 2 {
        (Err(DecodeError::IncompleteTextHeader), s)
    } else {
        let (body, s2) = spec_text_body(s[0], s.skip(2));
        match body {
            Err(e) => (Err(e), s2),
            Ok((source_name, message, parameters)) => {
                let (x, s3) = spec_read_string(s2);
                let (p, s4) = spec_read_string(s3);
                (
                    Ok(
                        TextPacketView {
                            type_id: s[0],
                            needs_translation: s[1] != 0,
                            source_name,
                            message,
                            parameters,
                            xuid: or_empty(x),
                            platform_chat_id: or_empty(p),
                        },
                    ),
                    s4,
                )
            },
        }
    }
}

/// A Text packet result seen through the packet's view.
pub open spec fn text_result_view(r: Result<TextPacket, DecodeError>) -> Result<TextPacketView, DecodeError> {
    match r {
        Ok(t) => Ok(t@),
        Err(e) => Err(e),
    }
}

/// Reads a string, or gives the empty string where none can be read.
fn read_string_or_empty(buf: &mut BytesMut) -> (r: String)
    ensures
        r@ == or_empty(spec_read_string(buffer_bytes(*old(buf))).0),
        buffer_bytes(*final(buf)) == spec_read_string(buffer_bytes(*old(buf))).1,
{
    match read_string(buf) {
        Ok(s) => s,
        Err(_) => String::new(),
    }
}

/// Reads `count` strings off the front of `buf`, stopping at the first that
/// cannot be read.
fn read_strings(buf: &mut BytesMut, count: u32) -> (r: Result<Vec<String>, DecodeError>)
    ensures
        (
            match r {
                Ok(v) => Ok(strings_view(v@)),
                Err(e) => Err(e),
            },
            buffer_bytes(*final(buf)),
        ) == spec_read_strings(buffer_bytes(*old(buf)), count as nat),
{
    let ghost s0 = buffer_bytes(*buf);
    let mut parameters: Vec<String> = Vec::new();
    let mut i: u32 = 0;
    proof {
        assert(strings_view(parameters@) =~= Seq::<Seq<char>>::empty());
    }
    while i < count
        invariant
            s0 == buffer_bytes(*old(buf)),
            i <= count,
            spec_read_strings(s0, i as nat) == (
                Ok::<Seq<Seq<char>>, DecodeError>(strings_view(parameters@)),
                buffer_bytes(*buf),
            ),
        decreases count - i,
    {
        let ghost before = buffer_bytes(*buf);
        match read_string(buf) {
            Ok(p) => {
                let ghost ps = parameters@;
                parameters.push(p);
                proof {
                    assert(strings_view(parameters@) =~= strings_view(ps).push(p@));
                }
            },
            Err(e) => {
                proof {
                    lemma_read_strings_error_stays(s0, (i + 1) as nat, count as nat);
                }
                return Err(e);
            },
        }
        i = i + 1;
    }
    Ok(parameters)
}

/// Reads a Text packet off the front of `buf`.
pub fn decode_text(buf: &mut BytesMut) -> (r: Result<TextPacket, DecodeError>)
    ensures
        (text_result_view(r), buffer_bytes(*final(buf))) == spec_decode_text(buffer_bytes(*old(buf))),
{
    let ghost s = buffer_bytes(*buf);
    if buf_len(buf) < 2 {
        return Err(DecodeError::IncompleteTextHeader);
    }
    let type_id = buf_get_u8(buf);
    let needs_translation = buf_get_u8(buf) != 0;
    proof {
        assert(s.skip(1).skip(1) =~= s.skip(2));
    }
    let mut source_name: Option<String> = None;
    let message: String;
    let mut parameters: Vec<String> = Vec::new();
    if type_id == 0 {
        message = match read_string(buf) {
            Ok(m) => m,
            Err(e) => {
                return Err(e);
            },
        };
    } else if type_id == 1 {
        let name = match read_string(buf) {
            Ok(m) => m,
            Err(e) => {
                return Err(e);
            },
        };
        source_name = Some(name);
        message = match read_string(buf) {
            Ok(m) => m,
            Err(e) => {
                return Err(e);
            },
        };
    } else if type_id == 2 {
        message = match read_string(buf) {
            Ok(m) => m,
            Err(e) => {
                return Err(e);
            },
        };
        let count = match read_var_u32(buf) {
            Ok(c) => c,
            Err(e) => {
                return Err(e);
            },
        };
        parameters = match read_strings(buf, count) {
            Ok(v) => v,
            Err(e) => {
                return Err(e);
            },
        };
    } else {
        message = read_string_or_empty(buf);
    }
    proof {
        assert(strings_view(Seq::<String>::empty()) =~= Seq::<Seq<char>>::empty());
    }
    let xuid = read_string_or_empty(buf);
    let platform_chat_id = read_string_or_empty(buf);
    Ok(
        TextPacket {
            type_id,
            needs_translation,
            source_name,
            message,
            parameters,
            xuid,
            platform_chat_id,
        },
    )
}

} // verus!
