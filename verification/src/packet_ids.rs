//! Decisions around the packet-id registry of the Java protocol.

use crate::strings::str_eq;
use vstd::prelude::*;

verus! {

/// The packet id a registry lookup settles on: the registered id, or `0xFF`
/// where the packet is not registered for the version.
pub fn packet_id_or_unknown(found: Option<u8>) -> (id: u8)
    ensures
        id == (match found {
            Some(v) => v,
            None => 0xFFu8,
        }),
{
    match found {
        Some(v) => v,
        None => 0xFF,
    }
}

/// Whether a packet may be missing from the registry without a warning: the
/// login plugin request and response, login acknowledged, and acknowledge
/// finish configuration, which some versions lack.
pub fn is_optional_packet(name: &str) -> (r: bool)
    ensures
        r == (name@ == "ClientboundLoginPluginRequest"@ || name@ == "ServerboundLoginPluginResponse"@
            || name@ == "ServerboundLoginAcknowledged"@ || name@ == "AcknowledgeFinishConfiguration"@),
{
    str_eq(name, "ClientboundLoginPluginRequest") || str_eq(name, "ServerboundLoginPluginResponse")
        || str_eq(name, "ServerboundLoginAcknowledged") || str_eq(
        name,
        "AcknowledgeFinishConfiguration",
    )
}

/// The Java protocol versions the proxy tells apart.
#[derive(Debug, Clone, Copy, PartialEq, Eq, Structural)]
pub enum KnownVersion {
    V1_6_4,
    V1_7_10,
    V1_8,
    V1_12_2,
    V1_16_5,
    V1_19_4,
    V1_20_4,
    V1_21,
    /// Any other version.
    Other,
}

/// Whether a version carries chat in the old chat packets (1.16.5 and
/// older) rather than in system chat and chat commands.
pub open spec fn spec_uses_legacy_chat(v: KnownVersion) -> bool {
    match v {
        KnownVersion::V1_6_4 | KnownVersion::V1_7_10 | KnownVersion::V1_8 | KnownVersion::V1_12_2
        | KnownVersion::V1_16_5 => true,
        _ => false,
    }
}

/// Decides whether a version carries chat in the old chat packets.
pub fn uses_legacy_chat(v: KnownVersion) -> (r: bool)
    ensures
        r == spec_uses_legacy_chat(v),
{
    match v {
        KnownVersion::V1_6_4 | KnownVersion::V1_7_10 | KnownVersion::V1_8 | KnownVersion::V1_12_2
        | KnownVersion::V1_16_5 => true,
        _ => false,
    }
}

/// The name of the clientbound packet that carries chat to the player.
pub fn cb_chat_packet_name(v: KnownVersion) -> (name: &'static str)
    ensures
        name@ == (if spec_uses_legacy_chat(v) {
            "ClientboundChatMessage"@
        } else {
            "ClientboundSystemChat"@
        }),
{
    if uses_legacy_chat(v) {
        "ClientboundChatMessage"
    } else {
        "ClientboundSystemChat"
    }
}

/// The serverbound packet ids that carry what a player types: the chat
/// message id, and for newer versions also the chat command id where it is
/// registered (not `0xFF`) and differs from the chat message id.
pub fn chat_packet_ids(v: KnownVersion, chat_id: u8, command_id: u8) -> (ids: Vec<u8>)
    ensures
        ids@ == (if !spec_uses_legacy_chat(v) && command_id != 0xFF && command_id != chat_id {
            seq![chat_id, command_id]
        } else {
            seq![chat_id]
        }),
{
    let mut ids = Vec::new();
    ids.push(chat_id);
    if !uses_legacy_chat(v) {
        if command_id != 0xFF && command_id != chat_id {
            ids.push(command_id);
        }
    }
    proof {
        assert(ids@ =~= (if !spec_uses_legacy_chat(v) && command_id != 0xFF && command_id != chat_id {
            seq![chat_id, command_id]
        } else {
            seq![chat_id]
        }));
    }
    ids
}

/// Versions 1.6.4, 1.7.10, 1.8, 1.12.2 and 1.16.5 carry chat in the old chat
/// packets; 1.19.4, 1.20.4, 1.21 and the versions not told apart carry it in
/// system chat and chat commands.
pub proof fn lemma_chat_packets_by_version()
    ensures
        spec_uses_legacy_chat(KnownVersion::V1_6_4),
        spec_uses_legacy_chat(KnownVersion::V1_7_10),
        spec_uses_legacy_chat(KnownVersion::V1_8),
        spec_uses_legacy_chat(KnownVersion::V1_12_2),
        spec_uses_legacy_chat(KnownVersion::V1_16_5),
        !spec_uses_legacy_chat(KnownVersion::V1_19_4),
        !spec_uses_legacy_chat(KnownVersion::V1_20_4),
        !spec_uses_legacy_chat(KnownVersion::V1_21),
        !spec_uses_legacy_chat(KnownVersion::Other),
{
}

} // verus!
