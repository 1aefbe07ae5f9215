use viam_rust_utils::signaling::{
    decode_sdp, encode_sdp, ice_candidate_from_proto, ice_candidate_to_proto, CallStage, IceCandidate,
    IceCandidateInit, Negotiation, ResponseStep, SignalingError, UpdateKind,
};

fn proto_candidate() -> IceCandidate {
    IceCandidate {
        candidate: "candidate:1 1 udp 2130706431 10.0.0.2 5000 typ host".to_string(),
        sdp_mid: Some("0".to_string()),
        sdpm_line_index: Some(1),
        username_fragment: None,
    }
}

fn is_done(u: &Option<viam_rust_utils::signaling::CallUpdate>) -> bool {
    matches!(u, Some(c) if matches!(c.update, UpdateKind::Done))
}

fn is_error(u: &Option<viam_rust_utils::signaling::CallUpdate>) -> bool {
    matches!(u, Some(c) if matches!(c.update, UpdateKind::Error(_)))
}

#[test]
fn sdp_encoding_is_standard_base64() {
    let json = br#"{"type":"offer","sdp":"v=0"}"#.to_vec();
    assert_eq!(encode_sdp(&json), "eyJ0eXBlIjoib2ZmZXIiLCJzZHAiOiJ2PTAifQ==");
}

#[test]
fn sdp_round_trip() {
    let json = br#"{"type":"answer","sdp":"v=0\r\no=- 1 2 IN IP4 127.0.0.1\r\n"}"#.to_vec();
    let encoded = encode_sdp(&json);
    assert_ne!(encoded.as_bytes(), json.as_slice());
    assert_eq!(decode_sdp(&encoded).unwrap(), json);
}

#[test]
fn sdp_decode_rejects_invalid_text() {
    assert_eq!(decode_sdp("not base64!").err(), Some(SignalingError::InvalidSdpEncoding));
}

#[test]
fn candidate_from_proto_fills_defaults() {
    let c = ice_candidate_from_proto(Some(proto_candidate())).unwrap();
    assert_eq!(c.candidate, proto_candidate().candidate);
    assert_eq!(c.sdp_mid, Some("0".to_string()));
    assert_eq!(c.sdp_mline_index, Some(1));
    assert_eq!(c.username_fragment, Some(String::new()));
}

#[test]
fn candidate_line_index_beyond_u16_is_dropped() {
    let mut p = proto_candidate();
    p.sdpm_line_index = Some(70000);
    p.sdp_mid = None;
    let c = ice_candidate_from_proto(Some(p)).unwrap();
    assert_eq!(c.sdp_mline_index, None);
    assert_eq!(c.sdp_mid, Some(String::new()));
}

#[test]
fn missing_candidate_is_an_error() {
    assert_eq!(ice_candidate_from_proto(None).err(), Some(SignalingError::NoIceCandidate));
}

#[test]
fn candidate_to_proto_widens_line_index() {
    let init = IceCandidateInit {
        candidate: "c".to_string(),
        sdp_mid: Some("a".to_string()),
        sdp_mline_index: Some(3),
        username_fragment: Some("u".to_string()),
    };
    let p = ice_candidate_to_proto(init);
    assert_eq!(p.sdpm_line_index, Some(3));
    assert_eq!(p.sdp_mid, Some("a".to_string()));
    assert_eq!(p.username_fragment, Some("u".to_string()));
}

#[test]
fn init_then_updates_then_done_once() {
    let mut n = Negotiation::new(false);
    let answer = encode_sdp(&b"{}".to_vec());
    match n.on_call_response("u1".to_string(), Some(CallStage::Init { sdp: answer })) {
        ResponseStep::SetRemoteDescription { json } => assert_eq!(json, b"{}".to_vec()),
        other => panic!("unexpected {:?}", other),
    }
    assert_eq!(n.uuid(), "u1");
    assert!(n.on_local_candidate(None).is_none());
    let (stop, u) = n.on_remote_description_set();
    assert!(!stop && u.is_none());
    let step = n.on_call_response(
        "u1".to_string(),
        Some(CallStage::Update { candidate: Some(proto_candidate()) }),
    );
    assert!(matches!(step, ResponseStep::AddIceCandidate(_)));
    let local = IceCandidateInit {
        candidate: "local".to_string(),
        sdp_mid: None,
        sdp_mline_index: Some(0),
        username_fragment: None,
    };
    let u = n.on_local_candidate(Some(local));
    assert!(matches!(&u, Some(c) if c.uuid == "u1" && matches!(c.update, UpdateKind::Candidate(_))));
    assert!(is_done(&n.on_data_channel_open()));
    assert!(n.sent_done_or_error());
    assert!(n.on_local_candidate(None).is_none());
    assert!(n.send_done_once().is_none());
    assert!(n.send_error_once("late".to_string()).is_none());
}

#[test]
fn second_init_sends_one_error() {
    let mut n = Negotiation::new(false);
    let sdp = encode_sdp(&b"{}".to_vec());
    n.on_call_response("u".to_string(), Some(CallStage::Init { sdp: sdp.clone() }));
    match n.on_call_response("u".to_string(), Some(CallStage::Init { sdp: sdp.clone() })) {
        ResponseStep::Stop(u) => {
            assert!(is_error(&u));
            if let Some(c) = u {
                if let UpdateKind::Error(st) = c.update {
                    assert_eq!(st.code, 2);
                    assert_eq!(st.message, "Init received more than once");
                }
            }
        }
        other => panic!("unexpected {:?}", other),
    }
    match n.on_call_response("u".to_string(), Some(CallStage::Init { sdp })) {
        ResponseStep::Stop(u) => assert!(u.is_none()),
        other => panic!("unexpected {:?}", other),
    }
    assert!(n.on_data_channel_open().is_none());
}

#[test]
fn update_before_init_and_uuid_mismatch_stop() {
    let mut n = Negotiation::new(false);
    let step = n.on_call_response("u".to_string(), Some(CallStage::Update { candidate: None }));
    assert!(matches!(step, ResponseStep::Stop(ref u) if is_error(u)));
    let mut m = Negotiation::new(false);
    m.on_call_response("a".to_string(), Some(CallStage::Init { sdp: encode_sdp(&vec![1]) }));
    let step = m.on_call_response("b".to_string(), Some(CallStage::Update { candidate: None }));
    assert!(matches!(step, ResponseStep::Stop(ref u) if is_error(u)));
}

#[test]
fn invalid_answer_stops_with_error() {
    let mut n = Negotiation::new(false);
    let step = n.on_call_response("u".to_string(), Some(CallStage::Init { sdp: "%%%".to_string() }));
    assert!(matches!(step, ResponseStep::Stop(ref u) if is_error(u)));
}

#[test]
fn without_trickle_the_answer_ends_the_exchange() {
    let mut n = Negotiation::new(true);
    n.on_call_response("u".to_string(), Some(CallStage::Init { sdp: encode_sdp(&vec![]) }));
    let (stop, u) = n.on_remote_description_set();
    assert!(stop);
    assert!(is_done(&u));
    assert!(n.on_data_channel_open().is_none());
}

#[test]
fn empty_stage_continues() {
    let mut n = Negotiation::new(false);
    assert!(matches!(n.on_call_response("u".to_string(), None), ResponseStep::Continue));
}
