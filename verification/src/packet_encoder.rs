//! Writers for Bedrock wire values.

use crate::buffer::{
    buf_put_slice, buf_put_u32_le, buf_put_u8, buf_with_capacity, buffer_bytes, u32_le_bytes,
};
use crate::varint::varint_encode;
use bytes::BytesMut;
use vstd::prelude::*;

verus! {

/// A Bedrock string on the wire: its UTF-8 length (modulo `2^32`) as a
/// variable-length integer, then its UTF-8 bytes.
pub open spec fn bedrock_string(s: Seq<char>) -> Seq<u8> {
    varint_encode((vstd::utf8::encode_utf8(s).len() % 0x1_0000_0000) as nat) + vstd::utf8::encode_utf8(s)
}

/// Appends `value` as a variable-length integer (LEB128).
pub fn encode_varint(value: u32, buf: &mut BytesMut)
    ensures
        buffer_bytes(*final(buf)) == buffer_bytes(*old(buf)) + varint_encode(value as nat),
{
    let ghost s0 = buffer_bytes(*buf);
    let mut v = value;
    loop
        invariant_except_break
            buffer_bytes(*buf) + varint_encode(v as nat) == s0 + varint_encode(value as nat),
        invariant
            s0 == buffer_bytes(*old(buf)),
        ensures
            buffer_bytes(*buf) == s0 + varint_encode(value as nat),
        decreases v,
    {
        let ghost before = buffer_bytes(*buf);
        let ghost old_v = v;
        let mut byte = (v & 0x7F) as u8;
        v = v >> 7;
        proof {
            assert((old_v & 0x7F) as u8 == old_v % 128 && old_v >> 7 == old_v / 128) by (bit_vector);
        }
        if v != 0 {
            proof {
                let b0 = byte;
                assert(b0 < 128 ==> (b0 | 0x80) == b0 + 128) by (bit_vector);
            }
            byte = byte | 0x80;
        }
        buf_put_u8(buf, byte);
        if v == 0 {
            proof {
                assert(varint_encode(old_v as nat) =~= seq![byte]);
                assert(before.push(byte) =~= before + seq![byte]);
            }
            break;
        }
        proof {
            let r = varint_encode(v as nat);
            assert(varint_encode(old_v as nat) == seq![byte] + r);
            assert(before.push(byte) + r =~= before + (seq![byte] + r));
        }
    }
}

/// Appends a Bedrock string: its UTF-8 length as a variable-length integer
/// (the length taken modulo `2^32`), then its UTF-8 bytes.
pub fn encode_string(value: &str, buf: &mut BytesMut)
    ensures
        buffer_bytes(*final(buf)) == buffer_bytes(*old(buf)) + bedrock_string(value@),
{
    let bytes = value.as_bytes();
    let n = bytes.len();
    let len32 = n as u32;
    proof {
        assert(len32 as u64 == (n as u64) % 0x1_0000_0000) by (bit_vector)
            requires
                len32 == n as u32,
        ;
        assert(n == vstd::utf8::encode_utf8(value@).len());
        assert(len32 as nat == (n as nat) % 0x1_0000_0000);
    }
    encode_varint(len32, buf);
    buf_put_slice(buf, bytes);
    proof {
        let e = vstd::utf8::encode_utf8(value@);
        assert(buffer_bytes(*buf) =~= buffer_bytes(*old(buf)) + bedrock_string(value@));
    }
}

/// Appends three IEEE-754 single-precision values, each given by its bit
/// pattern, each least significant byte first.
pub fn encode_vec3f(x: u32, y: u32, z: u32, buf: &mut BytesMut)
    ensures
        buffer_bytes(*final(buf)) == buffer_bytes(*old(buf)) + u32_le_bytes(x) + u32_le_bytes(y)
            + u32_le_bytes(z),
{
    buf_put_u32_le(buf, x);
    buf_put_u32_le(buf, y);
    buf_put_u32_le(buf, z);
}

/// Wraps a payload for RakNet transport: the GamePacket byte `0xFE`, then the
/// payload.
pub fn wrap_game_packet(payload: &[u8]) -> (out: BytesMut)
    ensures
        buffer_bytes(out) == seq![0xFEu8] + payload@,
{
    let cap = if payload.len() < usize::MAX {
        payload.len() + 1
    } else {
        payload.len()
    };
    let mut out = buf_with_capacity(cap);
    buf_put_u8(&mut out, 0xFE);
    buf_put_slice(&mut out, payload);
    proof {
        assert(Seq::<u8>::empty().push(0xFEu8) =~= seq![0xFEu8]);
    }
    out
}

} // verus!
