use proxy_core::listener::bedrock_motd;

#[test]
fn motd_line_carries_message_and_limit() {
    assert_eq!(
        bedrock_motd("Hi", 100),
        "MCPE;Hi;12;1.20.0;0;100;12345;Kojacoord;Survival;1;19132;19133;"
    );
}

#[test]
fn motd_line_with_zero_limit() {
    assert_eq!(
        bedrock_motd("A Kojacoord Proxy", 0),
        "MCPE;A Kojacoord Proxy;12;1.20.0;0;0;12345;Kojacoord;Survival;1;19132;19133;"
    );
}

#[test]
fn motd_line_with_large_limit() {
    assert_eq!(
        bedrock_motd("", 18446744073709551615),
        "MCPE;;12;1.20.0;0;18446744073709551615;12345;Kojacoord;Survival;1;19132;19133;"
    );
}
