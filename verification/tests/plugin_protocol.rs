use proxy_core::plugin::{
    direction_code, event_response_present, handle_packet_hook, hook_outcome, mock_packet_hooks,
    mock_plugin_metadata, pack_ptr_len, split_ptr_len, HookOutcome, PacketDirection, PacketEvent,
};

#[test]
fn pack_and_split() {
    assert_eq!(pack_ptr_len(1, 0), 1u64 << 32);
    assert_eq!(pack_ptr_len(0x1234, 0x56), 0x0000_1234_0000_0056);
    assert_eq!(split_ptr_len(0xDEAD_BEEF_0000_0010), (0xDEAD_BEEF, 0x10));
    for (p, l) in [(0u32, 0u32), (u32::MAX, 1), (7, u32::MAX)] {
        assert_eq!(split_ptr_len(pack_ptr_len(p, l)), (p, l));
    }
}

#[test]
fn hook_outcomes() {
    assert_eq!(hook_outcome(0, 0), HookOutcome::Forward);
    assert_eq!(hook_outcome(1, 0), HookOutcome::Drop);
    assert_eq!(hook_outcome(1, 1), HookOutcome::Modify);
    assert_eq!(hook_outcome(0, 5), HookOutcome::Modify);
}

#[test]
fn mock_hook_drops_filter_zero() {
    let (p, l) = split_ptr_len(handle_packet_hook(0, 3, 1, 0, 0));
    assert_eq!(hook_outcome(p, l), HookOutcome::Drop);
    let (p, l) = split_ptr_len(handle_packet_hook(4, 3, 1, 0, 0));
    assert_eq!(hook_outcome(p, l), HookOutcome::Forward);
}

#[test]
fn event_responses() {
    assert!(!event_response_present(0, 10));
    assert!(!event_response_present(10, 0));
    assert!(event_response_present(10, 3));
}

#[test]
fn directions_and_mock_data() {
    assert_eq!(direction_code(PacketDirection::Clientbound), 0);
    assert_eq!(direction_code(PacketDirection::Serverbound), 1);
    let m = mock_plugin_metadata();
    assert_eq!(m.name, "WasmMockPlugin");
    assert_eq!(m.version, "1.0.0");
    assert_eq!(m.author, "Antigravity");
    assert_eq!(m.description, "A mock WASM plugin.");
    assert_eq!(m.min_proxy_version, "0.1.0");
    assert!(m.dependencies.is_empty());
    assert_eq!(mock_packet_hooks(), vec![PacketEvent { id: 0, direction: PacketDirection::Serverbound }]);
}
