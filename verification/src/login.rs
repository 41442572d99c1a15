//! The Bedrock login handshake: the Login packet that opens a session and the
//! identity claims carried in its JWT chain.

use crate::buffer::{buf_get_i32, buf_get_u8, buf_len, buffer_bytes, u32_from_be};
use crate::packet_decoder::{
    read_string, read_var_u32, spec_read_string, spec_read_var_u32, string_from_utf8, DecodeError,
};
use base64::engine::general_purpose;
use base64::Engine;
use bytes::BytesMut;
use vstd::prelude::*;

verus! {

/// The identity claims of a Bedrock player, as a JWT of the login chain
/// carries them.
#[derive(Debug, Clone)]
pub struct BedrockIdentityData {
    pub xuid: String,
    pub identity: String,
    pub display_name: String,
}

/// The client claims of a Bedrock player.
#[derive(Debug, Clone)]
pub struct BedrockClientData {
    pub client_random_id: i64,
    pub device_os: i32,
    pub device_id: String,
    pub language_code: String,
    pub game_version: String,
}

/// The connection request of a Login packet: the chain of JWTs.
#[derive(Debug, Clone)]
pub struct ConnectionRequest {
    pub chain: Vec<String>,
}

/// Why the first packet of a Bedrock connection is not a login.
#[derive(Debug, Clone, Copy, PartialEq, Eq, Structural)]
pub enum LoginError {
    /// The packet is empty or does not start with the GamePacket byte `0xFE`.
    NotGamePacket,
    /// The packet holds fewer bytes than its batch length announces.
    IncompleteGamePacket,
    /// The batched packet is not a Login packet (id 1); its id.
    NotLoginPacket(u32),
    /// A length or a string could not be read.
    Decode(DecodeError),
}

/// Reading the header of the first packet from the front of `s`: the
/// GamePacket byte `0xFE`, the batch length (which the remaining bytes must
/// cover), then the packet id, which must be 1 (Login).
pub open spec fn spec_read_login_header(s: Seq<u8>) -> (Result<(), LoginError>, Seq<u8>) {
    if s.len() == 0 {
        (Err(LoginError::NotGamePacket), s)
    } else if s[0] != 0xFE {
        (Err(LoginError::NotGamePacket), s.skip(1))
    } else {
        let (n, s1) = spec_read_var_u32(s.skip(1));
        match n {
            Err(e) => (Err(LoginError::Decode(e)), s1),
            Ok(len) => if s1.len() < len {
                (Err(LoginError::IncompleteGamePacket), s1)
            } else {
                let (id, s2) = spec_read_var_u32(s1);
                match id {
                    Err(e) => (Err(LoginError::Decode(e)), s2),
                    Ok(pid) => if pid != 1 {
                        (Err(LoginError::NotLoginPacket(pid)), s2)
                    } else {
                        (Ok(()), s2)
                    },
                }
            },
        }
    }
}

/// Reads the header of the first packet of a Bedrock connection.
pub fn read_login_header(buf: &mut BytesMut) -> (r: Result<(), LoginError>)
    ensures
        (r, buffer_bytes(*final(buf))) == spec_read_login_header(buffer_bytes(*old(buf))),
{
    if buf_len(buf) == 0 {
        return Err(LoginError::NotGamePacket);
    }
    if buf_get_u8(buf) != 0xFE {
        return Err(LoginError::NotGamePacket);
    }
    let packet_length = match read_var_u32(buf) {
        Ok(n) => n,
        Err(e) => {
            return Err(LoginError::Decode(e));
        },
    };
    if buf_len(buf) < packet_length as usize {
        return Err(LoginError::IncompleteGamePacket);
    }
    let packet_id = match read_var_u32(buf) {
        Ok(n) => n,
        Err(e) => {
            return Err(LoginError::Decode(e));
        },
    };
    if packet_id != 1 {
        return Err(LoginError::NotLoginPacket(packet_id));
    }
    Ok(())
}

/// The body of a Login packet: the client's protocol version and the
/// connection request as JSON text.
#[derive(Debug, Clone)]
pub struct LoginRequest {
    pub protocol_version: i32,
    pub request_json: String,
}

/// Reading the body of a Login packet from the front of `s`: the protocol
/// version (four bytes, most significant first), then the connection request
/// as a Bedrock string.
pub open spec fn spec_read_login_request(s: Seq<u8>) -> (Result<(i32, Seq<char>), LoginError>, Seq<u8>) {
    let pv = u32_from_be(s) as i32;
    let (r, rest) = spec_read_string(s.skip(4));
    match r {
        Err(e) => (Err(LoginError::Decode(e)), rest),
        Ok(text) => (Ok((pv, text)), rest),
    }
}

/// Reads the body of a Login packet. The input that holds fewer than four
/// bytes, on which the protocol version cannot be read, is left out.
pub fn read_login_request(buf: &mut BytesMut) -> (r: Result<LoginRequest, LoginError>)
    requires
        buffer_bytes(*old(buf)).len() >= 4,
    ensures
        (
            match r {
                Ok(req) => Ok((req.protocol_version, req.request_json@)),
                Err(e) => Err(e),
            },
            buffer_bytes(*final(buf)),
        ) == spec_read_login_request(buffer_bytes(*old(buf))),
{
    let protocol_version = buf_get_i32(buf);
    match read_string(buf) {
        Ok(request_json) => Ok(LoginRequest { protocol_version, request_json }),
        Err(e) => Err(LoginError::Decode(e)),
    }
}

/// Why the payload of a JWT could not be had.
#[derive(Debug, Clone, Copy, PartialEq, Eq, Structural)]
pub enum JwtError {
    /// The token does not have exactly three dot-separated parts.
    InvalidStructure,
    /// The payload part is not URL-safe base64 without padding.
    InvalidBase64,
    /// The decoded payload is not UTF-8.
    InvalidUtf8,
}

/// The positions of the `.` bytes of `b`, in order.
pub open spec fn dot_positions(b: Seq<u8>) -> Seq<int>
    decreases b.len(),
{
    if b.len() == 0 {
        Seq::empty()
    } else {
        let p = dot_positions(b.drop_last());
        if b.last() == 0x2E {
            p.push(b.len() - 1)
        } else {
            p
        }
    }
}

/// The positions of the dots are increasing, within `b`, and hold dots.
pub proof fn lemma_dot_positions(b: Seq<u8>)
    ensures
        forall|k: int| 0 <= k < dot_positions(b).len() ==> 0 <= #[trigger] dot_positions(b)[k] < b.len()
            && b[dot_positions(b)[k]] == 0x2E,
        forall|k: int, l: int|
            0 <= k < l < dot_positions(b).len() ==> dot_positions(b)[k] < dot_positions(b)[l],
    decreases b.len(),
{
    if b.len() > 0 {
        let b1 = b.drop_last();
        lemma_dot_positions(b1);
        let p = dot_positions(b1);
        assert forall|k: int| 0 <= k < p.len() implies b[#[trigger] p[k]] == 0x2E by {
            assert(b1[p[k]] == b[p[k]]);
        }
        if b.last() == 0x2E {
            let q = p.push(b.len() - 1);
            assert(dot_positions(b) == q);
            assert forall|k: int| 0 <= k < q.len() implies 0 <= #[trigger] q[k] < b.len() && b[q[k]]
                == 0x2E by {
                if k < p.len() {
                    assert(q[k] == p[k]);
                }
            }
            assert forall|k: int, l: int| 0 <= k < l < q.len() implies q[k] < q[l] by {
                assert(q[k] == p[k]);
                if l < p.len() {
                    assert(q[l] == p[l]);
                }
            }
        }
    }
}

/// The bytes between the two dots of a token of three parts.
pub open spec fn jwt_payload_segment(b: Seq<u8>) -> Option<Seq<u8>> {
    let d = dot_positions(b);
    if d.len() == 2 {
        Some(b.subrange(d[0] + 1, d[1]))
    } else {
        None
    }
}

/// What URL-safe base64 decoding without padding (the `base64` crate's
/// `URL_SAFE_NO_PAD` engine) makes of `input`: its bytes, or `None` where
/// `input` is not such an encoding.
pub uninterp spec fn base64_url_no_pad_decode(input: Seq<u8>) -> Option<Seq<u8>>;

/// `Engine::decode` of `base64::engine::general_purpose::URL_SAFE_NO_PAD`:
/// the decoded bytes, or `None` where the input is refused. The result is
/// named, not stated.
#[verifier::external_body]
fn decode_base64_url_no_pad(input: &[u8]) -> (r: Option<Vec<u8>>)
    ensures
        match r {
            Some(v) => base64_url_no_pad_decode(input@) == Some(v@),
            None => base64_url_no_pad_decode(input@) is None,
        },
{
    general_purpose::URL_SAFE_NO_PAD.decode(input).ok()
}

/// The text of a JWT's payload: the middle of its three dot-separated parts
/// (taken on the token's UTF-8 bytes), base64-decoded, read as UTF-8.
pub open spec fn spec_jwt_payload_text(jwt: Seq<char>) -> Result<Seq<char>, JwtError> {
    match jwt_payload_segment(vstd::utf8::encode_utf8(jwt)) {
        None => Err(JwtError::InvalidStructure),
        Some(seg) => match base64_url_no_pad_decode(seg) {
            None => Err(JwtError::InvalidBase64),
            Some(bytes) => if vstd::utf8::valid_utf8(bytes) {
                Ok(vstd::utf8::decode_utf8(bytes))
            } else {
                Err(JwtError::InvalidUtf8)
            },
        },
    }
}

/// Extracts the text of a JWT's payload.
pub fn jwt_payload_text(jwt: &str) -> (r: Result<String, JwtError>)
    ensures
        match r {
            Ok(s) => spec_jwt_payload_text(jwt@) == Ok::<Seq<char>, JwtError>(s@),
            Err(e) => spec_jwt_payload_text(jwt@) == Err::<Seq<char>, JwtError>(e),
        },
{
    let b = jwt.as_bytes();
    let ghost bs = b@;
    let mut dots: Vec<usize> = Vec::new();
    let mut i: usize = 0;
    while i < b.len()
        invariant
            bs == b@,
            i <= b@.len(),
            dots@.len() == dot_positions(bs.take(i as int)).len(),
            forall|k: int| 0 <= k < dots@.len() ==> dots@[k] as int == #[trigger] dot_positions(bs.take(i as int))[k],
        decreases b@.len() - i,
    {
        proof {
            assert(bs.take(i + 1 as int).drop_last() =~= bs.take(i as int));
        }
        if b[i] == 0x2E {
            dots.push(i);
        }
        i = i + 1;
    }
    proof {
        assert(bs.take(b@.len() as int) =~= bs);
        lemma_dot_positions(bs);
    }
    if dots.len() != 2 {
        return Err(JwtError::InvalidStructure);
    }
    let start = dots[0] + 1;
    let end = dots[1];
    let mut seg: Vec<u8> = Vec::new();
    let mut j: usize = start;
    while j < end
        invariant
            bs == b@,
            start <= j <= end,
            end < b@.len(),
            seg@ == bs.subrange(start as int, j as int),
        decreases end - j,
    {
        seg.push(b[j]);
        proof {
            assert(seg@ =~= bs.subrange(start as int, j + 1 as int));
        }
        j = j + 1;
    }
    let decoded = match decode_base64_url_no_pad(seg.as_slice()) {
        Some(v) => v,
        None => {
            return Err(JwtError::InvalidBase64);
        },
    };
    match string_from_utf8(decoded) {
        Some(s) => Ok(s),
        None => Err(JwtError::InvalidUtf8),
    }
}

} // verus!
