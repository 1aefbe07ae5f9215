use viam_rust_utils::base_channel::WebRTCBaseChannel;
use viam_rust_utils::client_channel::{
    CallPlan, ChannelError, Delivery, InboundResponse, WebRTCClientChannel,
};
use viam_rust_utils::client_stream::{
    ClientStream, CloseReason, InboundFrame, Packet, SinkAction, StreamError, StreamPhase,
};
use viam_rust_utils::metadata::{metadata_from_parts, MetadataEntry, Status};

fn entry(k: &str, v: &str) -> MetadataEntry {
    MetadataEntry { key: k.to_string(), values: vec![v.to_string()] }
}

fn message(eom: bool, data: &[u8]) -> InboundFrame {
    InboundFrame::Message { eos: false, packet: Some(Packet { eom, data: data.to_vec() }) }
}

fn trailers(code: i32) -> InboundFrame {
    InboundFrame::Trailers {
        status: Some(Status { code, message: "m".to_string() }),
        metadata: vec![entry("t", "1")],
    }
}

#[test]
fn base_channel_close_is_idempotent() {
    let mut c = WebRTCBaseChannel::new();
    assert!(!c.is_closed());
    assert!(c.close());
    assert!(c.is_closed());
    assert!(!c.close());
    assert!(c.is_closed());
    assert_eq!(c.closed_reason(), None);
}

#[test]
fn base_channel_keeps_reported_error() {
    let mut c = WebRTCBaseChannel::new();
    c.record_error("sctp failure".to_string());
    assert!(!c.is_closed());
    assert_eq!(c.closed_reason(), Some("sctp failure".to_string()));
    c.close();
    assert_eq!(c.closed_reason(), Some("sctp failure".to_string()));
}

#[test]
fn stream_ids_strictly_increase() {
    let mut ch = WebRTCClientChannel::new(WebRTCBaseChannel::new());
    let a = ch.new_stream().unwrap();
    let b = ch.new_stream().unwrap();
    let c = ch.new_stream().unwrap();
    assert_eq!((a, b, c), (0, 1, 2));
    assert!(ch.has_stream(a) && ch.has_stream(b) && ch.has_stream(c));
}

#[test]
fn headers_messages_trailers_are_delivered() {
    let mut s = ClientStream::new(4);
    assert!(!s.headers_received());
    assert_eq!(s.on_frame(InboundFrame::Headers { metadata: vec![entry("h", "v")] }).unwrap().is_none(), true);
    assert!(s.headers_received());
    assert!(s.on_frame(message(false, b"ab")).unwrap().is_none());
    match s.on_frame(message(true, b"c")).unwrap() {
        Some(SinkAction::Data(d)) => assert_eq!(d, vec![0, 0, 0, 0, 3, b'a', b'b', b'c']),
        other => panic!("unexpected {:?}", other),
    }
    match s.on_frame(trailers(0)).unwrap() {
        Some(SinkAction::Trailers { code, message, metadata }) => {
            assert_eq!(code, 0);
            assert_eq!(message, "m");
            let keys: Vec<&str> = metadata.iter().map(|e| e.key.as_str()).collect();
            assert_eq!(keys, vec!["h", "t"]);
        }
        other => panic!("unexpected {:?}", other),
    }
    assert!(s.trailers_received());
    assert!(s.is_closed());
}

#[test]
fn trailers_without_status_report_ok() {
    let mut s = ClientStream::new(1);
    s.on_frame(InboundFrame::Headers { metadata: vec![] }).unwrap();
    match s.on_frame(InboundFrame::Trailers { status: None, metadata: vec![] }).unwrap() {
        Some(SinkAction::Trailers { code, message, .. }) => {
            assert_eq!(code, 0);
            assert!(message.is_empty());
        }
        other => panic!("unexpected {:?}", other),
    }
}

#[test]
fn message_before_headers_is_a_protocol_error() {
    let mut s = ClientStream::new(1);
    assert_eq!(s.on_frame(message(true, b"x")).err(), Some(StreamError::HeadersNotReceived));
    assert_eq!(s.phase(), StreamPhase::Failed);
    assert!(matches!(s.closed_reason(), Some(CloseReason::Protocol(StreamError::HeadersNotReceived))));
}

#[test]
fn repeated_headers_are_a_protocol_error() {
    let mut s = ClientStream::new(1);
    s.on_frame(InboundFrame::Headers { metadata: vec![] }).unwrap();
    assert_eq!(
        s.on_frame(InboundFrame::Headers { metadata: vec![] }).err(),
        Some(StreamError::HeadersAlreadyReceived)
    );
}

#[test]
fn nothing_is_accepted_after_trailers() {
    let mut s = ClientStream::new(1);
    s.on_frame(InboundFrame::Headers { metadata: vec![] }).unwrap();
    s.on_frame(trailers(0)).unwrap();
    assert_eq!(s.on_frame(message(true, b"late")).err(), Some(StreamError::StreamClosed));
}

#[test]
fn message_after_end_of_stream_is_a_protocol_error() {
    let mut s = ClientStream::new(1);
    s.on_frame(InboundFrame::Headers { metadata: vec![] }).unwrap();
    let last = InboundFrame::Message { eos: true, packet: Some(Packet { eom: true, data: vec![1] }) };
    assert!(s.on_frame(last).unwrap().is_some());
    assert_eq!(s.phase(), StreamPhase::AwaitingTrailers);
    assert_eq!(s.on_frame(message(true, b"x")).err(), Some(StreamError::MessageAfterEndOfStream));
}

#[test]
fn dispatch_routes_and_removes_on_trailers() {
    let mut ch = WebRTCClientChannel::new(WebRTCBaseChannel::new());
    let id = ch.new_stream().unwrap();
    let r = ch.on_channel_message(InboundResponse { stream_id: None, frame: Some(trailers(0)) });
    assert!(matches!(r, Ok(Delivery::Discarded)));
    let r = ch.on_channel_message(InboundResponse { stream_id: Some(99), frame: None });
    assert_eq!(r.err(), Some(ChannelError::NoSuchStream(99)));
    let r = ch.on_channel_message(InboundResponse {
        stream_id: Some(id),
        frame: Some(InboundFrame::Headers { metadata: vec![] }),
    });
    assert!(matches!(r, Ok(Delivery::Delivered { stream_id, action: None }) if stream_id == id));
    let r = ch.on_channel_message(InboundResponse { stream_id: Some(id), frame: Some(message(true, b"hi")) });
    match r {
        Ok(Delivery::Delivered { action: Some(SinkAction::Data(d)), .. }) => {
            assert_eq!(d, vec![0, 0, 0, 0, 2, b'h', b'i'])
        }
        other => panic!("unexpected {:?}", other),
    }
    let r = ch.on_channel_message(InboundResponse { stream_id: Some(id), frame: Some(trailers(0)) });
    assert!(matches!(r, Ok(Delivery::Delivered { action: Some(SinkAction::Trailers { .. }), .. })));
    assert!(!ch.has_stream(id));
}

#[test]
fn protocol_error_closes_only_that_stream() {
    let mut ch = WebRTCClientChannel::new(WebRTCBaseChannel::new());
    let a = ch.new_stream().unwrap();
    let b = ch.new_stream().unwrap();
    let r = ch.on_channel_message(InboundResponse { stream_id: Some(a), frame: Some(message(true, b"x")) });
    assert_eq!(
        r.err(),
        Some(ChannelError::Stream { stream_id: a, error: StreamError::HeadersNotReceived })
    );
    assert!(!ch.has_stream(a));
    assert!(ch.has_stream(b));
}

#[test]
fn close_stream_with_recv_error_removes_it() {
    let mut ch = WebRTCClientChannel::new(WebRTCBaseChannel::new());
    let id = ch.new_stream().unwrap();
    let s = ch.close_stream_with_recv_error(id, "send failed".to_string()).unwrap();
    assert_eq!(s.phase(), StreamPhase::Failed);
    assert!(matches!(s.closed_reason(), Some(CloseReason::Receive(m)) if m == "send failed"));
    assert!(!ch.has_stream(id));
    assert!(ch.close_stream_with_recv_error(id, "again".to_string()).is_none());
}

#[test]
fn client_channel_close_once() {
    let mut ch = WebRTCClientChannel::new(WebRTCBaseChannel::new());
    assert!(ch.close());
    assert!(!ch.close());
    assert!(ch.base_channel().is_closed());
}

#[test]
fn metadata_keeps_last_value_per_name() {
    let pairs = vec![
        ("a".to_string(), "1".to_string()),
        ("b".to_string(), "2".to_string()),
        ("a".to_string(), "3".to_string()),
    ];
    let md = metadata_from_parts(&pairs);
    assert_eq!(md.len(), 2);
    assert_eq!(md[0].key, "a");
    assert_eq!(md[0].values, vec!["3".to_string()]);
    assert_eq!(md[1].key, "b");
    assert_eq!(md[1].values, vec!["2".to_string()]);
    assert!(metadata_from_parts(&vec![]).is_empty());
}

#[test]
fn plan_call_frames_body_with_end_of_stream() {
    let mut ch = WebRTCClientChannel::new(WebRTCBaseChannel::new());
    let body = vec![0u8, 0, 0, 0, 2, b'h', b'i'];
    match ch.plan_call("/svc/Echo".to_string(), vec![entry("k", "v")], &body) {
        CallPlan::Send { stream_id, headers, frames } => {
            assert_eq!(stream_id, 0);
            assert_eq!(headers.method, "/svc/Echo");
            assert_eq!(headers.metadata.len(), 1);
            assert_eq!(frames.len(), 1);
            assert_eq!(frames[0].data, b"hi".to_vec());
            assert!(frames[0].eom && frames[0].eos && frames[0].has_message);
        }
        other => panic!("unexpected {:?}", other),
    }
    assert!(ch.has_stream(0));
}

#[test]
fn plan_call_rejects_malformed_body_with_unknown() {
    let mut ch = WebRTCClientChannel::new(WebRTCBaseChannel::new());
    match ch.plan_call("/svc/Echo".to_string(), vec![], &vec![0u8, 0]) {
        CallPlan::Reject { status } => assert_eq!(status, 2),
        other => panic!("unexpected {:?}", other),
    }
    assert!(!ch.has_stream(0));
    assert_eq!(ch.new_stream().unwrap(), 1);
}

#[test]
fn large_message_is_framed_with_its_length() {
    let mut s = ClientStream::new(1);
    s.on_frame(InboundFrame::Headers { metadata: vec![] }).unwrap();
    let big = vec![1u8; 100_000];
    match s.on_frame(message(true, &big)).unwrap() {
        Some(SinkAction::Data(d)) => {
            assert_eq!(&d[..5], &[0, 0, 1, 0x86, 0xa0]);
            assert_eq!(d.len(), 100_005);
        }
        other => panic!("unexpected {:?}", other),
    }
}

#[test]
fn absent_stream_after_many_calls_is_an_error_not_a_panic() {
    let mut ch = WebRTCClientChannel::new(WebRTCBaseChannel::new());
    for _ in 0..3000 {
        let id = ch.new_stream().unwrap();
        assert!(ch.close_stream_with_recv_error(id, "done".to_string()).is_some());
    }
    let r = ch.on_channel_message(InboundResponse { stream_id: Some(5), frame: Some(trailers(0)) });
    assert_eq!(r.err(), Some(ChannelError::NoSuchStream(5)));
    assert!(!ch.has_stream(5));
    assert!(ch.close_stream_with_recv_error(5, "again".to_string()).is_none());
    assert_eq!(ch.new_stream().unwrap(), 3000);
}
