use hyperlink_protocol::bench::{
    classify_clock_reply, classify_echo_reply, clock_sync_reply_packet, clock_sync_request_packet,
    echo_reply_packet, echo_request_packet, echo_tally_finish, echo_tally_step, server_action,
    BenchError, ClockReply, EchoError, EchoOutcome, EchoReply, EchoTally, ServerAction,
};
use hyperlink_protocol::clock::{ClockSyncRequest, ClockSyncResponse};
use hyperlink_protocol::echo::{EchoRequest, EchoResponse};
use hyperlink_protocol::message::MessageType;
use hyperlink_protocol::version::Header;

#[test]
fn clock_sync_exchange() {
    let packet = clock_sync_request_packet(4, 1000);
    assert_eq!(packet.len(), 22);
    let req = match server_action(&packet) {
        ServerAction::ClockSync(r) => r,
        other => panic!("unexpected {:?}", other),
    };
    assert_eq!(req, ClockSyncRequest { seq: 4, t1_us: 1000 });
    let reply = clock_sync_reply_packet(&req, 1150, 1160);
    assert_eq!(
        classify_clock_reply(&reply, 4),
        ClockReply::Response(ClockSyncResponse {
            seq: 4,
            t1_us: 1000,
            t2_us: 1150,
            t3_us: 1160
        })
    );
    assert_eq!(
        classify_clock_reply(&reply, 5),
        ClockReply::Failed(BenchError::SequenceMismatch { expected: 5, got: 4 })
    );
}

#[test]
fn clock_client_skips_and_fails() {
    assert_eq!(classify_clock_reply(&[0u8; 9], 0), ClockReply::Ignore);
    assert!(matches!(classify_clock_reply(&[0u8; 10], 0), ClockReply::Failed(_)));
    let echo = Header::new(MessageType::EchoResponse, 0).to_bytes();
    assert_eq!(classify_clock_reply(&echo, 0), ClockReply::Ignore);
    let short = Header::new(MessageType::ClockSyncResponse, 0).to_bytes();
    assert!(matches!(
        classify_clock_reply(&short, 0),
        ClockReply::Failed(BenchError::Wire(_))
    ));
}

#[test]
fn echo_exchange_with_padding() {
    let packet = echo_request_packet(9, 5000, 4);
    assert_eq!(packet.len(), 10 + 16 + 4);
    assert_eq!(&packet[26..], &[0xAA; 4]);
    let req = match server_action(&packet) {
        ServerAction::Echo(r) => r,
        other => panic!("unexpected {:?}", other),
    };
    assert_eq!(
        req,
        EchoRequest {
            seq: 9,
            send_time_us: 5000,
            payload_size: 4
        }
    );
    let reply = echo_reply_packet(&req, 5100);
    assert_eq!(
        classify_echo_reply(&reply, 9),
        EchoReply::Matched(EchoResponse {
            seq: 9,
            send_time_us: 5000,
            server_recv_time_us: 5100,
            payload_size: 4
        })
    );
    assert_eq!(classify_echo_reply(&reply, 8), EchoReply::Ignore);
}

#[test]
fn echo_client_skips_garbage() {
    assert_eq!(classify_echo_reply(&[0u8; 3], 0), EchoReply::Ignore);
    assert_eq!(classify_echo_reply(&[0u8; 12], 0), EchoReply::Ignore);
    let short = Header::new(MessageType::EchoResponse, 0).to_bytes();
    assert!(matches!(classify_echo_reply(&short, 0), EchoReply::Failed(_)));
}

#[test]
fn server_ignores_other_traffic() {
    assert_eq!(server_action(&[1, 2]), ServerAction::Ignore);
    let hb = Header::new(MessageType::Heartbeat, 0).to_bytes();
    assert_eq!(server_action(&hb), ServerAction::Ignore);
    let truncated = Header::new(MessageType::EchoRequest, 16).to_bytes();
    assert_eq!(server_action(&truncated), ServerAction::Ignore);
}

#[test]
fn echo_tally_counts_replies_and_losses() {
    let mut t = EchoTally::new();
    echo_tally_step(&mut t, EchoOutcome::Reply { seq: 0, send_time_us: 1000, recv_time_us: 1250 });
    echo_tally_step(&mut t, EchoOutcome::Lost);
    echo_tally_step(&mut t, EchoOutcome::Reply { seq: 2, send_time_us: 2000, recv_time_us: 2100 });
    echo_tally_step(&mut t, EchoOutcome::Lost);
    assert_eq!(t.rtts, vec![250, 100]);
    assert_eq!(t.seqs, vec![0, 2]);
    assert_eq!(t.lost, 2);
    let s = echo_tally_finish(&t).unwrap();
    assert_eq!(s.sorted, vec![100, 250]);
    assert_eq!(s.count, 2);
    assert_eq!(s.sum_us, 350);
}

#[test]
fn echo_tally_all_lost_is_an_error() {
    let mut t = EchoTally::new();
    echo_tally_step(&mut t, EchoOutcome::Lost);
    echo_tally_step(&mut t, EchoOutcome::Lost);
    assert_eq!(t.lost, 2);
    assert!(matches!(echo_tally_finish(&t), Err(EchoError::AllLost)));
    assert!(matches!(echo_tally_finish(&EchoTally::new()), Err(EchoError::AllLost)));
}
