//! The call protocol between the proxy and a WebAssembly plugin, and the
//! behaviour of the bundled mock plugin.
//!
//! A plugin export answers with one 64-bit word that packs a pointer into
//! the plugin's memory (high 32 bits) and a length (low 32 bits).

use vstd::prelude::*;

verus! {

/// A plugin's description of itself.
#[derive(Debug, Clone)]
pub struct PluginMetadata {
    pub name: String,
    pub version: String,
    pub author: String,
    pub description: String,
    pub min_proxy_version: String,
    pub dependencies: Vec<String>,
}

/// Which way a packet travels.
#[derive(Debug, Clone, Copy, PartialEq, Eq, Structural)]
pub enum PacketDirection {
    Clientbound,
    Serverbound,
}

/// A packet a plugin asks to see: its id and direction.
#[derive(Debug, Clone, Copy, PartialEq, Eq, Structural)]
pub struct PacketEvent {
    pub id: i32,
    pub direction: PacketDirection,
}

/// The word that stands for a pointer and a length.
pub open spec fn spec_pack(ptr: u32, len: u32) -> u64 {
    (ptr * 0x1_0000_0000 + len) as u64
}

/// Packs a pointer and a length into one word, the pointer in the high half.
pub fn pack_ptr_len(ptr: u32, len: u32) -> (w: u64)
    ensures
        w == spec_pack(ptr, len),
{
    let w = ((ptr as u64) << 32) | (len as u64);
    proof {
        assert(((ptr as u64) << 32) | (len as u64) == (ptr as u64) * 0x1_0000_0000 + len as u64)
            by (bit_vector);
    }
    w
}

/// Splits a plugin's answer into its pointer (high half) and length (low
/// half).
pub fn split_ptr_len(w: u64) -> (r: (u32, u32))
    ensures
        r.0 == w / 0x1_0000_0000,
        r.1 == w % 0x1_0000_0000,
{
    let ptr = (w >> 32) as u32;
    let len = (w & 0xFFFF_FFFF) as u32;
    proof {
        assert((w >> 32) as u32 == w / 0x1_0000_0000 && (w & 0xFFFF_FFFF) as u32 == w % 0x1_0000_0000)
            by (bit_vector);
    }
    (ptr, len)
}

/// Splitting a packed word gives back the pointer and the length.
pub proof fn lemma_split_pack(ptr: u32, len: u32)
    ensures
        spec_pack(ptr, len) / 0x1_0000_0000 == ptr,
        spec_pack(ptr, len) % 0x1_0000_0000 == len,
{
    assert((ptr * 0x1_0000_0000 + len) / 0x1_0000_0000 == ptr) by (nonlinear_arith);
    assert((ptr * 0x1_0000_0000 + len) % 0x1_0000_0000 == len) by (nonlinear_arith);
}

/// Packing the halves of a word gives back the word.
pub proof fn lemma_pack_split(w: u64)
    ensures
        spec_pack((w / 0x1_0000_0000) as u32, (w % 0x1_0000_0000) as u32) == w,
{
}

/// Whether an event answer carries a response: an answer with a null
/// pointer or an empty length carries none.
pub fn event_response_present(ptr: u32, len: u32) -> (present: bool)
    ensures
        present == (ptr != 0 && len != 0),
{
    !(ptr == 0 || len == 0)
}

/// What a plugin's packet hook decided.
#[derive(Debug, Clone, Copy, PartialEq, Eq, Structural)]
pub enum HookOutcome {
    /// Pass the packet on unchanged.
    Forward,
    /// Drop the packet.
    Drop,
    /// Replace the packet by the bytes at the answer's pointer and length.
    Modify,
}

/// The outcome a hook's answer stands for: pointer and length both zero to
/// forward, pointer one and length zero to drop, anything else to replace
/// the packet.
pub open spec fn spec_hook_outcome(ptr: u32, len: u32) -> HookOutcome {
    if ptr == 0 && len == 0 {
        HookOutcome::Forward
    } else if ptr == 1 && len == 0 {
        HookOutcome::Drop
    } else {
        HookOutcome::Modify
    }
}

/// Reads a hook's answer.
pub fn hook_outcome(ptr: u32, len: u32) -> (o: HookOutcome)
    ensures
        o == spec_hook_outcome(ptr, len),
{
    if ptr == 0 && len == 0 {
        HookOutcome::Forward
    } else if ptr == 1 && len == 0 {
        HookOutcome::Drop
    } else {
        HookOutcome::Modify
    }
}

/// The number a direction is passed to a plugin as: 0 clientbound, 1
/// serverbound.
pub fn direction_code(d: PacketDirection) -> (code: u32)
    ensures
        code == (match d {
            PacketDirection::Clientbound => 0u32,
            PacketDirection::Serverbound => 1u32,
        }),
{
    match d {
        PacketDirection::Clientbound => 0,
        PacketDirection::Serverbound => 1,
    }
}

/// The mock plugin's packet hook: it drops every packet of filter 0 and
/// forwards the packets of any other filter.
pub fn handle_packet_hook(
    filter_id: i32,
    _packet_id: i32,
    _direction: i32,
    _data_ptr: u32,
    _data_len: u32,
) -> (w: u64)
    ensures
        w == (if filter_id == 0 {
            spec_pack(1, 0)
        } else {
            spec_pack(0, 0)
        }),
{
    if filter_id == 0 {
        assert(1u64 << 32 == 0x1_0000_0000) by (bit_vector);
        1u64 << 32
    } else {
        0
    }
}

/// The mock plugin's hook answers mean what they are meant to: filter 0
/// drops, every other filter forwards.
pub proof fn lemma_mock_hook_outcome(filter_id: i32)
    ensures
        ({
            let w = if filter_id == 0 {
                spec_pack(1, 0)
            } else {
                spec_pack(0, 0)
            };
            spec_hook_outcome((w / 0x1_0000_0000) as u32, (w % 0x1_0000_0000) as u32) == if filter_id
                == 0 {
                HookOutcome::Drop
            } else {
                HookOutcome::Forward
            }
        }),
{
    lemma_split_pack(1, 0);
    lemma_split_pack(0, 0);
}

/// The mock plugin's description of itself.
pub fn mock_plugin_metadata() -> (m: PluginMetadata)
    ensures
        m.name@ == "WasmMockPlugin"@,
        m.version@ == "1.0.0"@,
        m.author@ == "Antigravity"@,
        m.description@ == "A mock WASM plugin."@,
        m.min_proxy_version@ == "0.1.0"@,
        m.dependencies@.len() == 0,
{
    PluginMetadata {
        name: "WasmMockPlugin".to_string(),
        version: "1.0.0".to_string(),
        author: "Antigravity".to_string(),
        description: "A mock WASM plugin.".to_string(),
        min_proxy_version: "0.1.0".to_string(),
        dependencies: Vec::new(),
    }
}

/// The packets the mock plugin hooks: serverbound packet 0.
pub fn mock_packet_hooks() -> (hooks: Vec<PacketEvent>)
    ensures
        hooks@ == seq![PacketEvent { id: 0, direction: PacketDirection::Serverbound }],
{
    let mut hooks = Vec::new();
    hooks.push(PacketEvent { id: 0x00, direction: PacketDirection::Serverbound });
    hooks
}

} // verus!
