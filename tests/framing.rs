use viam_rust_utils::client_stream::{ClientStream, InboundFrame, Packet, SinkAction};
use viam_rust_utils::framing::{write_message, FramingError, MessageFrame, MAX_PACKET_DATA};

fn grpc_message(payload: &[u8]) -> Vec<u8> {
    let len = payload.len() as u32;
    let mut v = vec![0u8];
    v.extend_from_slice(&len.to_be_bytes());
    v.extend_from_slice(payload);
    v
}

fn sizes(frames: &[MessageFrame]) -> Vec<usize> {
    frames.iter().map(|f| f.data.len()).collect()
}

/// Feeds packets to a fresh stream after its headers and gathers what the
/// consumer receives.
fn reassemble(frames: &[MessageFrame]) -> Vec<Vec<u8>> {
    let mut s = ClientStream::new(1);
    s.on_frame(InboundFrame::Headers { metadata: vec![] }).unwrap();
    let mut out = vec![];
    for f in frames {
        let r = s
            .on_frame(InboundFrame::Message {
                eos: false,
                packet: Some(Packet { eom: f.eom, data: f.data.clone() }),
            })
            .unwrap();
        if let Some(SinkAction::Data(d)) = r {
            out.push(d);
        }
    }
    out
}

#[test]
fn short_input_is_a_framing_error() {
    for n in 0..5 {
        let data = vec![0u8; n];
        assert_eq!(write_message(false, &data).err(), Some(FramingError::IrregularLength));
    }
}

#[test]
fn truncated_header_after_a_message_is_a_framing_error() {
    let mut data = grpc_message(b"abc");
    data.extend_from_slice(&[0, 0, 0]);
    assert_eq!(write_message(true, &data).err(), Some(FramingError::IrregularLength));
}

#[test]
fn message_of_max_packet_size_is_one_packet() {
    let data = grpc_message(&vec![7u8; MAX_PACKET_DATA]);
    let frames = write_message(false, &data).unwrap();
    assert_eq!(sizes(&frames), vec![16373]);
    assert!(frames[0].eom);
    assert!(frames[0].has_message);
    assert!(!frames[0].eos);
}

#[test]
fn message_one_past_max_is_two_packets() {
    let data = grpc_message(&vec![9u8; MAX_PACKET_DATA + 1]);
    let frames = write_message(false, &data).unwrap();
    assert_eq!(sizes(&frames), vec![16373, 1]);
    assert!(!frames[0].eom);
    assert!(frames[1].eom);
    assert!(!frames[0].eos && !frames[1].eos);
}

#[test]
fn two_concatenated_messages_end_the_stream() {
    let mut data = grpc_message(&[1u8; 10]);
    data.extend(grpc_message(&[2u8; 10]));
    let frames = write_message(false, &data).unwrap();
    assert_eq!(sizes(&frames), vec![10, 10]);
    assert!(frames[0].eom && frames[1].eom);
    assert!(!frames[0].eos);
    assert!(frames[1].eos);
    assert_eq!(frames[0].data, vec![1u8; 10]);
    assert_eq!(frames[1].data, vec![2u8; 10]);
}

#[test]
fn caller_end_of_stream_marks_only_the_last_packet() {
    let data = grpc_message(&vec![3u8; 20000]);
    let frames = write_message(true, &data).unwrap();
    assert_eq!(sizes(&frames), vec![16373, 3627]);
    assert!(!frames[0].eos);
    assert!(frames[1].eos);
}

#[test]
fn empty_message_is_one_empty_packet() {
    let data = grpc_message(&[]);
    let frames = write_message(false, &data).unwrap();
    assert_eq!(frames.len(), 1);
    assert!(frames[0].data.is_empty());
    assert!(frames[0].eom);
}

#[test]
fn declared_length_beyond_buffer_sends_what_is_there() {
    let mut data = vec![0u8, 0, 0, 0, 100];
    data.extend_from_slice(&[5u8; 30]);
    let frames = write_message(false, &data).unwrap();
    assert_eq!(sizes(&frames), vec![30]);
    assert!(frames[0].eom);
}

#[test]
fn fragmentation_of_a_forty_thousand_byte_body() {
    let payload: Vec<u8> = (0..40000u32).map(|i| (i % 251) as u8).collect();
    let data = grpc_message(&payload);
    let frames = write_message(true, &data).unwrap();
    assert_eq!(sizes(&frames), vec![16373, 16373, 7254]);
    assert!(!frames[0].eom && !frames[1].eom);
    assert!(frames[2].eom && frames[2].eos);
    let joined: Vec<u8> = frames.iter().flat_map(|f| f.data.clone()).collect();
    assert_eq!(joined, payload);
    assert_eq!(reassemble(&frames), vec![data]);
}

#[test]
fn single_message_round_trip() {
    let data = grpc_message(b"hello world");
    let frames = write_message(false, &data).unwrap();
    assert_eq!(reassemble(&frames), vec![data]);
}

#[test]
fn many_messages_round_trip_in_order() {
    let msgs: Vec<Vec<u8>> = vec![
        grpc_message(b"0"),
        grpc_message(&vec![1u8; 20000]),
        grpc_message(b""),
        grpc_message(b"three"),
    ];
    let data: Vec<u8> = msgs.concat();
    let frames = write_message(false, &data).unwrap();
    assert_eq!(reassemble(&frames), msgs);
    assert!(frames.last().unwrap().eos);
    assert_eq!(frames.iter().filter(|f| f.eos).count(), 1);
}

#[test]
fn packet_count_per_message() {
    let mut data = grpc_message(&vec![1u8; 2 * MAX_PACKET_DATA + 5]);
    data.extend(grpc_message(&[]));
    data.extend(grpc_message(&vec![2u8; MAX_PACKET_DATA]));
    let frames = write_message(false, &data).unwrap();
    assert_eq!(sizes(&frames), vec![16373, 16373, 5, 0, 16373]);
    let eoms: Vec<bool> = frames.iter().map(|f| f.eom).collect();
    assert_eq!(eoms, vec![false, false, true, true, true]);
}
