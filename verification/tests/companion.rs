use hyperlink_protocol::companion::ClientEvent;

#[test]
fn event_json_forms() {
    assert_eq!(
        ClientEvent::PairingPinGenerated(42).to_json(),
        "{\"type\":\"pairing_pin\",\"pin\":42}"
    );
    assert_eq!(
        ClientEvent::PairingPinGenerated(0).to_json(),
        "{\"type\":\"pairing_pin\",\"pin\":0}"
    );
    assert_eq!(ClientEvent::Connected.to_json(), "{\"type\":\"connected\"}");
    assert_eq!(
        ClientEvent::Disconnected("Connection closed".to_string()).to_json(),
        "{\"type\":\"disconnected\",\"reason\":\"Connection closed\"}"
    );
    assert_eq!(
        ClientEvent::MessageReceived(0x50, vec![0x0A, 0xFF, 0x00]).to_json(),
        "{\"type\":\"message\",\"stream_type\":80,\"payload\":\"0aff00\"}"
    );
}

#[test]
fn pin_json_matches_display() {
    for pin in [1u32, 9, 10, 99, 100, 123_456, 999_999, u32::MAX] {
        assert_eq!(
            ClientEvent::PairingPinGenerated(pin).to_json(),
            format!("{{\"type\":\"pairing_pin\",\"pin\":{}}}", pin)
        );
    }
}

#[test]
fn disconnect_reason_is_escaped() {
    let json = ClientEvent::Disconnected("a\"b\\c\nd\r\te\u{8}\u{c}\u{1}\u{1f}é".to_string()).to_json();
    assert_eq!(
        json,
        "{\"type\":\"disconnected\",\"reason\":\"a\\\"b\\\\c\\nd\\r\\te\\b\\f\\u0001\\u001fé\"}"
    );
    let only_quote = ClientEvent::Disconnected("\"".to_string()).to_json();
    assert_eq!(only_quote, "{\"type\":\"disconnected\",\"reason\":\"\\\"\"}");
}

#[test]
fn disconnect_json_parses_back_to_the_reason() {
    let reason = "quote \" backslash \\ newline \n bell \u{7} tab \t end";
    let json = ClientEvent::Disconnected(reason.to_string()).to_json();
    let v: serde_json::Value = serde_json::from_str(&json).unwrap();
    assert_eq!(v["type"], "disconnected");
    assert_eq!(v["reason"], reason);
}
