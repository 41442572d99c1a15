//! What a player session records about its client.

use vstd::prelude::*;
use vstd::string::StringExecFns;

verus! {

/// The edition a client plays.
#[derive(Debug, Clone, PartialEq, Eq)]
pub enum ClientType {
    Java,
    Bedrock { xuid: String, device_os: String },
}

/// The protocol state of a connection.
#[derive(Debug, Clone, Copy, PartialEq, Eq, Structural)]
pub enum ConnectionState {
    Handshaking,
    Status,
    Login,
    Configuration,
    Play,
}

/// The session fields a Bedrock login settles (all but the session id, the
/// client's address and the profile properties).
#[derive(Debug)]
pub struct BedrockSessionFields {
    pub username: String,
    pub client_type: ClientType,
    pub protocol_version: u32,
    pub state: ConnectionState,
    pub current_server: Option<String>,
    pub locale: Option<String>,
    pub view_distance: Option<u8>,
    pub rank: String,
}

/// The session of a Bedrock player who logged in with `display_name` and
/// `xuid` under the Login packet's `protocol_version`: a Bedrock client on
/// device OS "1", already in the Play state, on no backend yet, with locale
/// "en_US", view distance 10 and rank "default". The protocol version is
/// kept with its bits as they are.
pub fn bedrock_session(display_name: String, xuid: String, protocol_version: i32) -> (s: BedrockSessionFields)
    ensures
        s.username@ == display_name@,
        s.client_type matches ClientType::Bedrock { xuid: x, device_os: d } && x@ == xuid@ && d@
            == "1"@,
        s.protocol_version == protocol_version as u32,
        s.state == ConnectionState::Play,
        s.current_server is None,
        s.locale matches Some(l) && l@ == "en_US"@,
        s.view_distance == Some(10u8),
        s.rank@ == "default"@,
{
    BedrockSessionFields {
        username: display_name,
        client_type: ClientType::Bedrock { xuid, device_os: String::from_str("1") },
        protocol_version: protocol_version as u32,
        state: ConnectionState::Play,
        current_server: None,
        locale: Some(String::from_str("en_US")),
        view_distance: Some(10),
        rank: String::from_str("default"),
    }
}

} // verus!
