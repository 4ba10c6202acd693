use hyperlink_protocol::companion::ClientEvent;
use hyperlink_protocol::config::{DeviceConfig, TrustedPeers};
use hyperlink_protocol::crypto::{
    check_peer_certificate, compute_fingerprint, fingerprint_to_string, generate_pairing_pin,
};
use hyperlink_protocol::pairing::{handshake_event, host_pairing_pin, is_affirmative, PairingError};

fn blank_config() -> DeviceConfig {
    DeviceConfig {
        device_name: "host".to_string(),
        cert_pem: String::new(),
        key_pem: String::new(),
        trusted_peers: TrustedPeers::new(),
    }
}

#[test]
fn handshake_event_outside_pairing_is_connected() {
    let event = handshake_event(false, None, b"own-cert").unwrap();
    assert!(matches!(event, ClientEvent::Connected));
    let event = handshake_event(false, Some([7u8; 32]), b"own-cert").unwrap();
    assert!(matches!(event, ClientEvent::Connected));
}

#[test]
fn handshake_event_without_captured_certificate_fails() {
    let r = handshake_event(true, None, b"own-cert");
    assert!(matches!(r, Err(PairingError::PeerCertificateNotCaptured)));
}

#[test]
fn both_sides_show_the_same_pin() {
    let client_cert = b"client-certificate-der";
    let host_cert = b"host-certificate-der";
    let client_fp = compute_fingerprint(client_cert);
    let host_fp = compute_fingerprint(host_cert);

    // The companion sees the host's fingerprint; the host sees the client's.
    let companion_event = handshake_event(true, Some(host_fp), client_cert).unwrap();
    let host_pin = host_pairing_pin(&client_fp, host_cert);
    match companion_event {
        ClientEvent::PairingPinGenerated(pin) => {
            assert_eq!(pin, host_pin);
            assert_eq!(pin, generate_pairing_pin(&client_fp, &host_fp));
            assert!(pin < 1_000_000);
        }
        other => panic!("unexpected event {:?}", other),
    }
}

#[test]
fn affirmative_answers() {
    assert!(is_affirmative("y"));
    assert!(is_affirmative("yes\n"));
    assert!(is_affirmative("  YES  "));
    assert!(is_affirmative("Y\r\n"));
    assert!(!is_affirmative("n"));
    assert!(!is_affirmative("no"));
    assert!(!is_affirmative("yes please"));
    assert!(!is_affirmative(""));
    assert!(is_affirmative("\u{3000}yes\u{a0}"));
    assert!(!is_affirmative("\u{200b}yes"));
}

#[test]
fn pinned_peer_is_accepted_afterwards() {
    let cert = b"companion-certificate";
    let fp = compute_fingerprint(cert);
    let mut config = blank_config();

    let before = config.get_trusted_fingerprints_set();
    assert!(!check_peer_certificate(cert, false, &before).accepted);

    config.pin_peer("Android-Companion", &fp);
    assert_eq!(
        config.trusted_peers.get("Android-Companion").map(|s| s.as_str()),
        Some(fingerprint_to_string(&fp).as_str())
    );
    let after = config.get_trusted_fingerprints_set();
    assert!(check_peer_certificate(cert, false, &after).accepted);

    config.remove_trusted_peer("Android-Companion");
    let revoked = config.get_trusted_fingerprints_set();
    assert!(!check_peer_certificate(cert, false, &revoked).accepted);
}
