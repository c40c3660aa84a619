use tickstream::session::{handle_frame, FrameAction, InboundFrame};

#[test]
fn a_trade_frame_delivers_its_events() {
    let payload = br#"{"type":"trade","data":[{"p":1.5,"t":2000,"v":3}]}"#.to_vec();
    match handle_frame(InboundFrame::Text { payload }) {
        FrameAction::Deliver { events } => {
            assert_eq!(events.len(), 1);
            assert_eq!(events[0].price_scaled, 15_000);
            assert_eq!(events[0].epoch_secs, 2);
            assert_eq!(events[0].volume, Some(3));
        }
        _ => panic!("expected a delivery"),
    }
}

#[test]
fn non_trade_and_malformed_frames_are_ignored() {
    let ping = br#"{"type":"ping"}"#.to_vec();
    assert!(matches!(
        handle_frame(InboundFrame::Text { payload: ping }),
        FrameAction::Ignore
    ));
    let junk = b"not json at all".to_vec();
    assert!(matches!(
        handle_frame(InboundFrame::Text { payload: junk }),
        FrameAction::Ignore
    ));
    assert!(matches!(handle_frame(InboundFrame::Other), FrameAction::Ignore));
}

#[test]
fn a_ping_is_answered_with_the_same_payload() {
    let data = vec![1u8, 2, 3];
    match handle_frame(InboundFrame::Ping { payload: data.clone() }) {
        FrameAction::Pong { payload } => assert_eq!(payload, data),
        _ => panic!("expected a pong"),
    }
}

#[test]
fn stream_end_and_transport_errors_end_the_session() {
    assert!(matches!(
        handle_frame(InboundFrame::Closed),
        FrameAction::EndDisconnected
    ));
    match handle_frame(InboundFrame::TransportError { message: "connection reset".to_string() }) {
        FrameAction::EndError { message } => assert_eq!(message, "connection reset"),
        _ => panic!("expected the session to end with the error"),
    }
}
