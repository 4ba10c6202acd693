use hyperlink_protocol::crypto::{
    check_peer_certificate, compute_fingerprint, fingerprint_to_string, generate_pairing_pin,
    pairing_transcript, pin_from_digest, string_to_fingerprint, PendingPairingState,
};

#[test]
fn fingerprint_calculations() {
    let dummy_cert = b"my-dummy-certificate-der-bytes";
    let fp = compute_fingerprint(dummy_cert);
    let fp_str = fingerprint_to_string(&fp);
    assert_eq!(fp_str.split(':').count(), 32);

    let parsed = string_to_fingerprint(&fp_str).unwrap();
    assert_eq!(fp, parsed);
}

#[test]
fn pin_generation_is_symmetric() {
    let client_fp = [1u8; 32];
    let server_fp = [2u8; 32];

    let pin1 = generate_pairing_pin(&client_fp, &server_fp);
    let pin2 = generate_pairing_pin(&server_fp, &client_fp);

    assert_eq!(pin1, pin2);
    assert!(pin1 < 1_000_000);
}

#[test]
fn sha256_of_empty_input() {
    let fp = compute_fingerprint(b"");
    assert_eq!(
        fingerprint_to_string(&fp),
        "E3:B0:C4:42:98:FC:1C:14:9A:FB:F4:C8:99:6F:B9:24:27:AE:41:E4:64:9B:93:4C:A4:95:99:1B:78:52:B8:55"
    );
}

#[test]
fn fingerprint_string_format() {
    let mut fp = [0u8; 32];
    fp[0] = 0xAB;
    fp[1] = 0x0F;
    fp[31] = 0xFF;
    let s = fingerprint_to_string(&fp);
    assert!(s.starts_with("AB:0F:00:"));
    assert!(s.ends_with(":00:FF"));
    assert_eq!(s.len(), 32 * 3 - 1);
}

#[test]
fn fingerprint_parse_accepts_what_from_str_radix_accepts() {
    let base = "00:11:22:33:44:55:66:77:88:99:AA:BB:CC:DD:EE:FF:00:11:22:33:44:55:66:77:88:99:AA:BB:CC:DD:EE:FF";
    let fp = string_to_fingerprint(base).unwrap();
    assert_eq!(fp[10], 0xAA);
    let lower = base.to_lowercase();
    assert_eq!(string_to_fingerprint(&lower).unwrap(), fp);
    let plus = base.replacen("00", "+0", 1);
    assert_eq!(string_to_fingerprint(&plus).unwrap(), fp);
    let padded = base.replacen("11", "0011", 1);
    assert_eq!(string_to_fingerprint(&padded).unwrap(), fp);
    let short_digit = base.replacen("00", "0", 1);
    assert_eq!(string_to_fingerprint(&short_digit).unwrap(), fp);
}

#[test]
fn fingerprint_parse_errors() {
    let base = "00:11:22:33:44:55:66:77:88:99:AA:BB:CC:DD:EE:FF:00:11:22:33:44:55:66:77:88:99:AA:BB:CC:DD:EE:FF";
    assert_eq!(
        string_to_fingerprint("00:11"),
        Err("fingerprint must contain exactly 32 hex bytes separated by colons")
    );
    let extra = format!("{}:", base);
    assert_eq!(
        string_to_fingerprint(&extra),
        Err("fingerprint must contain exactly 32 hex bytes separated by colons")
    );
    let bad_digit = base.replacen("AA", "AG", 1);
    assert_eq!(string_to_fingerprint(&bad_digit), Err("invalid hex byte"));
    let overflow = base.replacen("AA", "100", 1);
    assert_eq!(string_to_fingerprint(&overflow), Err("invalid hex byte"));
    let empty_piece = base.replacen("AA", "", 1);
    assert_eq!(string_to_fingerprint(&empty_piece), Err("invalid hex byte"));
    let only_plus = base.replacen("AA", "+", 1);
    assert_eq!(string_to_fingerprint(&only_plus), Err("invalid hex byte"));
    let minus = base.replacen("AA", "-1", 1);
    assert_eq!(string_to_fingerprint(&minus), Err("invalid hex byte"));
}

#[test]
fn pairing_transcript_orders_fingerprints() {
    let a = [1u8; 32];
    let mut b = [1u8; 32];
    b[31] = 0;
    let t = pairing_transcript(&a, &b);
    assert_eq!(&t[..32], &b[..]);
    assert_eq!(&t[32..], &a[..]);
    assert_eq!(pairing_transcript(&b, &a), t);
}

#[test]
fn pin_from_digest_reads_first_four_bytes() {
    let mut d = [0u8; 32];
    d[0] = 0x00;
    d[1] = 0x0F;
    d[2] = 0x42;
    d[3] = 0x40; // 0x000F4240 = 1_000_000
    assert_eq!(pin_from_digest(&d), 0);
    d[3] = 0x41;
    assert_eq!(pin_from_digest(&d), 1);
    let d = [0xFFu8; 32]; // 4294967295 % 1000000
    assert_eq!(pin_from_digest(&d), 967_295);
}

#[test]
fn pin_is_the_digest_of_the_transcript() {
    let a = [7u8; 32];
    let b = [3u8; 32];
    let t = pairing_transcript(&a, &b);
    let digest = compute_fingerprint(&t);
    assert_eq!(generate_pairing_pin(&a, &b), pin_from_digest(&digest));
}

#[test]
fn tofu_pairing_accepts_and_records() {
    let cert = b"certificate";
    let check = check_peer_certificate(cert, true, &[]);
    assert!(check.accepted);
    assert!(check.record_as_pending);
    assert_eq!(check.fingerprint, compute_fingerprint(cert));
    let mut pending = PendingPairingState::default();
    assert!(pending.peer_fingerprint.is_none());
    pending.peer_fingerprint = Some(check.fingerprint);
    assert_eq!(pending.peer_fingerprint, Some(compute_fingerprint(cert)));
}

#[test]
fn tofu_normal_mode_accepts_only_pinned() {
    let cert = b"certificate";
    let pinned = compute_fingerprint(cert);
    let other = compute_fingerprint(b"other");
    assert!(check_peer_certificate(cert, false, &[other, pinned]).accepted);
    let rejected = check_peer_certificate(cert, false, &[other]);
    assert!(!rejected.accepted);
    assert!(!rejected.record_as_pending);
    assert!(!check_peer_certificate(cert, false, &[]).accepted);
}
