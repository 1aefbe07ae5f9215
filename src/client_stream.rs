//! One inbound stream of a WebRTC client channel: the order in which header,
//! message and trailer frames may arrive, and the reassembly of message
//! packets into gRPC messages.

use crate::framing::{grpc_frame, reassemble_from};
use crate::metadata::{MetadataEntry, Status};
use vstd::prelude::*;

verus! {

/// Where a stream stands in the frame sequence `Headers Message* Trailers`.
#[derive(Debug, Clone, Copy, PartialEq, Eq, Structural)]
pub enum StreamPhase {
    /// Nothing has arrived yet; headers come first.
    AwaitingHeaders,
    /// Headers arrived; messages may follow.
    Receiving,
    /// A message carried end-of-stream; only trailers may follow.
    AwaitingTrailers,
    /// Trailers arrived; the stream is over.
    Finished,
    /// A frame arrived out of order; the stream is closed with an error.
    Failed,
}

/// A packet of a response message.
#[derive(Debug, Clone)]
pub struct Packet {
    pub eom: bool,
    pub data: Vec<u8>,
}

/// A frame that the server sent on one stream.
#[derive(Debug, Clone)]
pub enum InboundFrame {
    Headers { metadata: Vec<MetadataEntry> },
    Message { eos: bool, packet: Option<Packet> },
    Trailers { status: Option<Status>, metadata: Vec<MetadataEntry> },
}

/// What the consumer of a stream's response body is to receive.
#[derive(Debug, Clone)]
pub enum SinkAction {
    /// One whole gRPC message, header included.
    Data(Vec<u8>),
    /// The end of the body: the call's status, and the header and trailer
    /// metadata of the response.
    Trailers { code: i32, message: String, metadata: Vec<MetadataEntry> },
}

/// Why a frame broke the protocol of a stream.
#[derive(Debug, Clone, Copy, PartialEq, Eq, Structural)]
pub enum StreamError {
    HeadersAlreadyReceived,
    HeadersNotReceived,
    MessageAfterEndOfStream,
    StreamClosed,
    MessageTooLarge,
}

/// The phase that `f` moves a stream in phase `p` to, or `None` when `f` may
/// not arrive in that phase.
pub open spec fn next_phase(p: StreamPhase, f: InboundFrame) -> Option<StreamPhase> {
    match (p, f) {
        (StreamPhase::AwaitingHeaders, InboundFrame::Headers { .. }) => Some(StreamPhase::Receiving),
        (StreamPhase::Receiving, InboundFrame::Message { eos, .. }) => {
            if eos {
                Some(StreamPhase::AwaitingTrailers)
            } else {
                Some(StreamPhase::Receiving)
            }
        },
        (StreamPhase::Receiving, InboundFrame::Trailers { .. }) => Some(StreamPhase::Finished),
        (StreamPhase::AwaitingTrailers, InboundFrame::Trailers { .. }) => Some(StreamPhase::Finished),
        _ => None,
    }
}

/// The error for a frame `f` that may not arrive in phase `p`.
pub open spec fn violation(p: StreamPhase, f: InboundFrame) -> StreamError {
    match (p, f) {
        (StreamPhase::Finished, _) => StreamError::StreamClosed,
        (StreamPhase::Failed, _) => StreamError::StreamClosed,
        (_, InboundFrame::Headers { .. }) => StreamError::HeadersAlreadyReceived,
        (StreamPhase::AwaitingHeaders, _) => StreamError::HeadersNotReceived,
        _ => StreamError::MessageAfterEndOfStream,
    }
}

/// The phase reached from `p` through the frames `fs`, or `None` when one of
/// them breaks the order.
pub open spec fn run_phases(p: StreamPhase, fs: Seq<InboundFrame>) -> Option<StreamPhase>
    decreases fs.len(),
{
    if fs.len() == 0 {
        Some(p)
    } else {
        match next_phase(p, fs[0]) {
            Some(q) => run_phases(q, fs.skip(1)),
            None => None,
        }
    }
}

/// `fs` is headers first, then messages, then at most one trailers frame,
/// which is last.
pub open spec fn well_ordered(fs: Seq<InboundFrame>) -> bool {
    fs.len() > 0 ==> {
        &&& fs[0] is Headers
        &&& forall|i: int|
            1 <= i < fs.len() ==> (#[trigger] fs[i] is Message) || (fs[i] is Trailers && i
                == fs.len() - 1)
    }
}

/// Why a stream was closed with an error.
#[derive(Debug, Clone)]
pub enum CloseReason {
    /// A frame arrived that the protocol does not allow there.
    Protocol(StreamError),
    /// The transport failed while the call was being sent or received.
    Receive(String),
}

/// The bytes of a packet, or none when the frame carried no packet.
pub open spec fn packet_bytes(p: Option<Packet>) -> Seq<u8> {
    match p {
        Some(pk) => pk.data@,
        None => Seq::empty(),
    }
}

/// The packet closes a message.
pub open spec fn packet_eom(p: Option<Packet>) -> bool {
    match p {
        Some(pk) => pk.eom,
        None => false,
    }
}

/// What taking frame `frame` does: from stream `s` it leads to stream `s2`
/// with result `r`.
pub open spec fn on_frame_post(
    s: ClientStream,
    frame: InboundFrame,
    s2: ClientStream,
    r: Result<Option<SinkAction>, StreamError>,
) -> bool {
    &&& s2.spec_id() == s.spec_id()
    &&& match next_phase(s.spec_phase(), frame) {
        None => {
            &&& r == Err::<Option<SinkAction>, StreamError>(violation(s.spec_phase(), frame))
            &&& s2.spec_phase() == StreamPhase::Failed
            &&& s2.spec_closed_reason() == Some(CloseReason::Protocol(violation(s.spec_phase(), frame)))
            &&& s2.spec_buffer().len() == 0
        },
        Some(q) => match frame {
            InboundFrame::Headers { metadata } => {
                &&& r == Ok::<Option<SinkAction>, StreamError>(None)
                &&& s2.spec_phase() == q
                &&& s2.spec_headers() == metadata@
                &&& s2.spec_buffer() == s.spec_buffer()
            },
            InboundFrame::Message { eos, packet } => {
                let b = s.spec_buffer() + packet_bytes(packet);
                if b.len() > u32::MAX {
                    &&& r == Err::<Option<SinkAction>, StreamError>(StreamError::MessageTooLarge)
                    &&& s2.spec_phase() == StreamPhase::Failed
                    &&& s2.spec_closed_reason() == Some(CloseReason::Protocol(StreamError::MessageTooLarge))
                    &&& s2.spec_buffer().len() == 0
                } else if packet_eom(packet) {
                    &&& s2.spec_phase() == q
                    &&& s2.spec_buffer().len() == 0
                    &&& s2.spec_headers() == s.spec_headers()
                    &&& match r {
                        Ok(Some(SinkAction::Data(d))) => d@ == grpc_frame(b),
                        _ => false,
                    }
                } else {
                    &&& r == Ok::<Option<SinkAction>, StreamError>(None)
                    &&& s2.spec_phase() == q
                    &&& s2.spec_buffer() == b
                    &&& s2.spec_headers() == s.spec_headers()
                }
            },
            InboundFrame::Trailers { status, metadata } => {
                &&& s2.spec_phase() == StreamPhase::Finished
                &&& s2.spec_buffer().len() == 0
                &&& match r {
                    Ok(Some(SinkAction::Trailers { code, message, metadata: md })) => {
                        &&& code == (match status {
                            Some(st) => st.code,
                            None => 0,
                        })
                        &&& message@ == (match status {
                            Some(st) => st.message@,
                            None => Seq::<char>::empty(),
                        })
                        &&& md@ == s.spec_headers() + metadata@
                    },
                    _ => false,
                }
            },
        },
    }
}

/// The client half of one stream.
pub struct ClientStream {
    stream_id: u64,
    phase: StreamPhase,
    headers: Vec<MetadataEntry>,
    packet_buffer: Vec<u8>,
    closed_reason: Option<CloseReason>,
}

impl ClientStream {
    pub closed spec fn spec_id(&self) -> u64 {
        self.stream_id
    }

    pub closed spec fn spec_phase(&self) -> StreamPhase {
        self.phase
    }

    /// The payload bytes of the message being gathered.
    pub closed spec fn spec_buffer(&self) -> Seq<u8> {
        self.packet_buffer@
    }

    /// The metadata that the headers frame carried.
    pub closed spec fn spec_headers(&self) -> Seq<MetadataEntry> {
        self.headers@
    }

    pub closed spec fn spec_closed_reason(&self) -> Option<CloseReason> {
        self.closed_reason
    }

    /// A stream that waits for its headers.
    pub fn new(stream_id: u64) -> (r: ClientStream)
        ensures
            r.spec_id() == stream_id,
            r.spec_phase() == StreamPhase::AwaitingHeaders,
            r.spec_buffer().len() == 0,
            r.spec_headers().len() == 0,
            r.spec_closed_reason() is None,
    {
        ClientStream {
            stream_id,
            phase: StreamPhase::AwaitingHeaders,
            headers: Vec::new(),
            packet_buffer: Vec::new(),
            closed_reason: None,
        }
    }

    pub fn stream_id(&self) -> (r: u64)
        ensures
            r == self.spec_id(),
    {
        self.stream_id
    }

    pub fn phase(&self) -> (r: StreamPhase)
        ensures
            r == self.spec_phase(),
    {
        self.phase
    }

    /// Whether the headers frame has arrived.
    pub fn headers_received(&self) -> (r: bool)
        ensures
            r == (self.spec_phase() != StreamPhase::AwaitingHeaders),
    {
        !matches!(self.phase, StreamPhase::AwaitingHeaders)
    }

    /// Whether the trailers frame has arrived.
    pub fn trailers_received(&self) -> (r: bool)
        ensures
            r == (self.spec_phase() == StreamPhase::Finished),
    {
        matches!(self.phase, StreamPhase::Finished)
    }

    /// Whether the stream is over, cleanly or not.
    pub fn is_closed(&self) -> (r: bool)
        ensures
            r == (self.spec_phase() == StreamPhase::Finished || self.spec_phase()
                == StreamPhase::Failed),
    {
        matches!(self.phase, StreamPhase::Finished | StreamPhase::Failed)
    }

    pub fn closed_reason(&self) -> (r: &Option<CloseReason>)
        ensures
            *r == self.spec_closed_reason(),
    {
        &self.closed_reason
    }

    /// Closes the stream with an error; the consumer sees the call fail.
    pub fn close_with_recv_error(&mut self, reason: String)
        ensures
            final(self).spec_phase() == StreamPhase::Failed,
            final(self).spec_closed_reason() == Some(CloseReason::Receive(reason)),
            final(self).spec_id() == old(self).spec_id(),
            final(self).spec_buffer().len() == 0,
            final(self).spec_headers() == old(self).spec_headers(),
    {
        self.phase = StreamPhase::Failed;
        self.packet_buffer = Vec::new();
        self.closed_reason = Some(CloseReason::Receive(reason));
    }

    fn fail(&mut self, e: StreamError)
        ensures
            final(self).spec_phase() == StreamPhase::Failed,
            final(self).spec_closed_reason() == Some(CloseReason::Protocol(e)),
            final(self).spec_id() == old(self).spec_id(),
            final(self).spec_buffer().len() == 0,
            final(self).spec_headers() == old(self).spec_headers(),
    {
        self.phase = StreamPhase::Failed;
        self.packet_buffer = Vec::new();
        self.closed_reason = Some(CloseReason::Protocol(e));
    }

    /// Takes one frame from the server. Headers are recorded; message packets
    /// gather until `eom`, which hands the consumer the whole gRPC message;
    /// trailers hand the consumer the status and all metadata and end the
    /// stream. A frame out of order, or a message too long for the four-byte
    /// length of its header, closes the stream with an error, which is
    /// returned.
    pub fn on_frame(&mut self, frame: InboundFrame) -> (r: Result<Option<SinkAction>, StreamError>)
        ensures
            on_frame_post(*old(self), frame, *final(self), r),
    {
        match frame {
            InboundFrame::Headers { metadata } => {
                if !matches!(self.phase, StreamPhase::AwaitingHeaders) {
                    let e = if matches!(self.phase, StreamPhase::Finished | StreamPhase::Failed) {
                        StreamError::StreamClosed
                    } else {
                        StreamError::HeadersAlreadyReceived
                    };
                    self.fail(e);
                    return Err(e);
                }
                self.headers = metadata;
                self.phase = StreamPhase::Receiving;
                Ok(None)
            },
            InboundFrame::Message { eos, packet } => {
                if !matches!(self.phase, StreamPhase::Receiving) {
                    let e = match self.phase {
                        StreamPhase::AwaitingHeaders => StreamError::HeadersNotReceived,
                        StreamPhase::AwaitingTrailers => StreamError::MessageAfterEndOfStream,
                        _ => StreamError::StreamClosed,
                    };
                    self.fail(e);
                    return Err(e);
                }
                let next = if eos {
                    StreamPhase::AwaitingTrailers
                } else {
                    StreamPhase::Receiving
                };
                let extra: usize = match &packet {
                    Some(pk) => pk.data.len(),
                    None => 0,
                };
                if extra > 0xffff_ffff || self.packet_buffer.len() > 0xffff_ffff - extra {
                    self.fail(StreamError::MessageTooLarge);
                    return Err(StreamError::MessageTooLarge);
                }
                match packet {
                    None => {
                        proof {
                            assert(old(self).spec_buffer() + packet_bytes(packet) =~= old(self).spec_buffer());
                        }
                        self.phase = next;
                        Ok(None)
                    },
                    Some(pk) => {
                        let Packet { eom, data } = pk;
                        let mut data = data;
                        self.packet_buffer.append(&mut data);
                        self.phase = next;
                        if eom {
                            let len = self.packet_buffer.len() as u32;
                            let mut out: Vec<u8> = Vec::new();
                            out.push(0u8);
                            out.push((len / 16777216 % 256) as u8);
                            out.push((len / 65536 % 256) as u8);
                            out.push((len / 256 % 256) as u8);
                            out.push((len % 256) as u8);
                            let ghost b = self.packet_buffer@;
                            let mut buf = Vec::new();
                            std::mem::swap(&mut buf, &mut self.packet_buffer);
                            out.append(&mut buf);
                            proof {
                                assert(out@ =~= grpc_frame(b));
                            }
                            Ok(Some(SinkAction::Data(out)))
                        } else {
                            Ok(None)
                        }
                    },
                }
            },
            InboundFrame::Trailers { status, metadata } => {
                if !matches!(self.phase, StreamPhase::Receiving | StreamPhase::AwaitingTrailers) {
                    let e = if matches!(self.phase, StreamPhase::AwaitingHeaders) {
                        StreamError::HeadersNotReceived
                    } else {
                        StreamError::StreamClosed
                    };
                    self.fail(e);
                    return Err(e);
                }
                let (code, message) = match status {
                    Some(st) => (st.code, st.message),
                    None => (0i32, String::new()),
                };
                let mut md: Vec<MetadataEntry> = Vec::new();
                std::mem::swap(&mut md, &mut self.headers);
                let mut trailer_md = metadata;
                md.append(&mut trailer_md);
                self.phase = StreamPhase::Finished;
                self.packet_buffer = Vec::new();
                Ok(Some(SinkAction::Trailers { code, message, metadata: md }))
            },
        }
    }
}


proof fn lemma_after_headers(p: StreamPhase, fs: Seq<InboundFrame>)
    requires
        p == StreamPhase::Receiving || p == StreamPhase::AwaitingTrailers || p == StreamPhase::Finished,
        run_phases(p, fs) is Some,
    ensures
        p == StreamPhase::Finished ==> fs.len() == 0,
        forall|i: int|
            0 <= i < fs.len() ==> (#[trigger] fs[i] is Message) || (fs[i] is Trailers && i == fs.len()
                - 1),
    decreases fs.len(),
{
    if fs.len() > 0 {
        let q = next_phase(p, fs[0]).unwrap();
        let t = fs.skip(1);
        lemma_after_headers(q, t);
        assert forall|i: int| 0 <= i < fs.len() implies (#[trigger] fs[i] is Message) || (fs[i] is Trailers
            && i == fs.len() - 1) by {
            if i > 0 {
                assert(fs[i] == t[i - 1]);
            }
            if fs[0] is Trailers {
                assert(t.len() == 0);
            }
        }
    }
}

/// Every frame sequence that a fresh stream takes without a protocol error
/// starts with headers, goes on with messages, and holds at most one
/// trailers frame, which is the last: nothing is accepted after trailers.
pub proof fn lemma_accepted_frames_well_ordered(fs: Seq<InboundFrame>)
    requires
        run_phases(StreamPhase::AwaitingHeaders, fs) is Some,
    ensures
        well_ordered(fs),
{
    if fs.len() > 0 {
        assert(fs[0] is Headers);
        let t = fs.skip(1);
        lemma_after_headers(StreamPhase::Receiving, t);
        assert forall|i: int| 1 <= i < fs.len() implies (#[trigger] fs[i] is Message) || (fs[i] is Trailers
            && i == fs.len() - 1) by {
            assert(fs[i] == t[i - 1]);
        }
    }
}


/// The gRPC messages that results `rs` hand to the consumer, in order.
pub open spec fn emitted(rs: Seq<Result<Option<SinkAction>, StreamError>>) -> Seq<Seq<u8>>
    decreases rs.len(),
{
    if rs.len() == 0 {
        Seq::empty()
    } else {
        (match rs[0] {
            Ok(Some(SinkAction::Data(d))) => seq![d@],
            _ => Seq::empty(),
        }) + emitted(rs.skip(1))
    }
}

/// The packets that message frames `fs` carry, with their `eom` marks.
pub open spec fn frame_packets(fs: Seq<InboundFrame>) -> Seq<(bool, Seq<u8>)> {
    fs.map_values(
        |f: InboundFrame|
            match f {
                InboundFrame::Message { packet, .. } => (packet_eom(packet), packet_bytes(packet)),
                _ => (false, Seq::empty()),
            },
    )
}

/// A stream that takes message frames one after another, each with its
/// result, without a protocol error, hands its consumer exactly the messages
/// that `reassemble_from` rebuilds from their packets.
pub proof fn lemma_stream_reassembles(
    states: Seq<ClientStream>,
    frames: Seq<InboundFrame>,
    results: Seq<Result<Option<SinkAction>, StreamError>>,
)
    requires
        states.len() == frames.len() + 1,
        results.len() == frames.len(),
        states[0].spec_phase() == StreamPhase::Receiving,
        forall|i: int|
            0 <= i < frames.len() ==> on_frame_post(states[i], #[trigger] frames[i], states[i + 1], results[i]),
        forall|i: int| 0 <= i < frames.len() ==> (#[trigger] frames[i] is Message) && !frames[i]->eos,
        forall|i: int| 0 <= i < results.len() ==> #[trigger] results[i] is Ok,
    ensures
        emitted(results) == reassemble_from(states[0].spec_buffer(), frame_packets(frames)),
    decreases frames.len(),
{
    let p = frame_packets(frames);
    if frames.len() == 0 {
        assert(p.len() == 0);
        assert(emitted(results) =~= Seq::<Seq<u8>>::empty());
    } else {
        let st = states.skip(1);
        let ft = frames.skip(1);
        let rt = results.skip(1);
        assert forall|i: int| 0 <= i < ft.len() implies on_frame_post(st[i], #[trigger] ft[i], st[i + 1], rt[i]) by {
            assert(ft[i] == frames[i + 1]);
            assert(on_frame_post(states[i + 1], frames[i + 1], states[i + 2], results[i + 1]));
        }
        assert forall|i: int| 0 <= i < ft.len() implies (#[trigger] ft[i] is Message) && !ft[i]->eos by {
            assert(ft[i] == frames[i + 1]);
        }
        assert forall|i: int| 0 <= i < rt.len() implies #[trigger] rt[i] is Ok by {
            assert(rt[i] == results[i + 1]);
        }
        assert(frames[0] is Message);
        assert(on_frame_post(states[0], frames[0], states[1], results[0]));
        assert(results[0] is Ok);
        assert(st[0] == states[1]);
        assert(states[1].spec_phase() == StreamPhase::Receiving);
        lemma_stream_reassembles(st, ft, rt);
        assert(frame_packets(ft) =~= p.skip(1));
        let b = states[0].spec_buffer() + p[0].1;
        if p[0].0 {
            assert(emitted(results) =~= seq![grpc_frame(b)] + emitted(rt));
            assert(states[1].spec_buffer() =~= Seq::<u8>::empty());
        } else {
            assert(emitted(results) =~= emitted(rt));
        }
    }
}

} // verus!
