use proxy_core::session::{bedrock_session, ClientType, ConnectionState};

#[test]
fn bedrock_login_session_fields() {
    let s = bedrock_session("Steve".to_string(), "2535400000000000".to_string(), 766);
    assert_eq!(s.username, "Steve");
    assert_eq!(
        s.client_type,
        ClientType::Bedrock { xuid: "2535400000000000".to_string(), device_os: "1".to_string() }
    );
    assert_eq!(s.protocol_version, 766);
    assert_eq!(s.state, ConnectionState::Play);
    assert_eq!(s.current_server, None);
    assert_eq!(s.locale.as_deref(), Some("en_US"));
    assert_eq!(s.view_distance, Some(10));
    assert_eq!(s.rank, "default");
}

#[test]
fn negative_protocol_version_keeps_its_bits() {
    let s = bedrock_session(String::new(), String::new(), -1);
    assert_eq!(s.protocol_version, u32::MAX);
}
