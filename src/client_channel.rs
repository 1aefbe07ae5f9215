//! The client side of a WebRTC channel: stream allocation, the table of open
//! streams, and the dispatch of inbound frames to them.

use crate::base_channel::WebRTCBaseChannel;
use crate::framing::{frames_match, grpc_frame, reassemble_from, well_framed, write_message, MessageFrame};
use crate::metadata::{MetadataEntry, STATUS_CODE_RESOURCE_EXHAUSTED, STATUS_CODE_UNKNOWN};
use crate::client_stream::{
    frame_packets, on_frame_post, ClientStream, InboundFrame, SinkAction, StreamError, StreamPhase,
};
use chashmap::CHashMap;
use vstd::prelude::*;

verus! {

#[verifier::external_type_specification]
#[verifier::external_body]
#[verifier::reject_recursive_types(K)]
#[verifier::reject_recursive_types(V)]
pub struct ExCHashMap<K, V>(CHashMap<K, V>);

/// The entries of a stream table.
pub uninterp spec fn stream_table(m: CHashMap<u64, ClientStream>) -> Map<u64, ClientStream>;

/// Relies on `chashmap::CHashMap::new`: a new map holds no entry.
#[verifier::external_body]
fn table_new() -> (r: CHashMap<u64, ClientStream>)
    ensures
        stream_table(r).dom().is_empty(),
{
    CHashMap::new()
}

/// Relies on `chashmap::CHashMap::insert`: the key then maps to the value, the
/// other entries stay, and the entry that was replaced, if any, comes back.
#[verifier::external_body]
fn table_insert(m: &mut CHashMap<u64, ClientStream>, k: u64, v: ClientStream) -> (r: Option<
    ClientStream,
>)
    ensures
        stream_table(*final(m)) == stream_table(*old(m)).insert(k, v),
        r == (if stream_table(*old(m)).contains_key(k) {
            Some(stream_table(*old(m))[k])
        } else {
            None
        }),
{
    m.insert(k, v)
}

/// Relies on `chashmap::CHashMap::alter` with a closure that keeps what it is
/// handed and answers `None`: `alter` finds the key's bucket or a free one
/// through `lookup_or_free`, which a table kept below its load factor always
/// has, so an absent key does not panic; a present entry is passed to the
/// closure and, on `None`, removed; an absent one stays absent. The entry of
/// the key, if any, comes back; the other entries stay.
#[verifier::external_body]
fn table_remove(m: &mut CHashMap<u64, ClientStream>, k: u64) -> (r: Option<ClientStream>)
    ensures
        stream_table(*final(m)) == stream_table(*old(m)).remove(k),
        r == (if stream_table(*old(m)).contains_key(k) {
            Some(stream_table(*old(m))[k])
        } else {
            None
        }),
{
    let mut taken = None;
    m.alter(k, |v| {
        taken = v;
        None
    });
    taken
}

/// A datagram from the server as the data channel delivered it: the stream it
/// names, if any, and its frame, if any.
pub struct InboundResponse {
    pub stream_id: Option<u64>,
    pub frame: Option<InboundFrame>,
}

/// What became of an inbound datagram.
#[derive(Debug)]
pub enum Delivery {
    /// It named no stream and was dropped.
    Discarded,
    /// It went to the stream with this id; the action, if any, is for the
    /// consumer of that stream's response body.
    Delivered { stream_id: u64, action: Option<SinkAction> },
}

/// Errors of a client channel.
#[derive(Debug, Clone, Copy, PartialEq, Eq, Structural)]
pub enum ChannelError {
    /// No stream id is left to allocate.
    ResourceExhausted,
    /// A datagram named a stream that is not open.
    NoSuchStream(u64),
    /// A frame broke the protocol of an open stream, which is now closed and
    /// removed; its consumer is to see the call fail.
    Stream { stream_id: u64, error: StreamError },
}

/// The headers frame that opens a call.
#[derive(Debug)]
pub struct RequestHeaders {
    /// The request path, naming the method called.
    pub method: String,
    pub metadata: Vec<MetadataEntry>,
}

/// How a call on a WebRTC channel goes out.
#[derive(Debug)]
pub enum CallPlan {
    /// Send the headers, then the packets, on this stream; the stream's
    /// response body is the call's.
    Send { stream_id: u64, headers: RequestHeaders, frames: Vec<MessageFrame> },
    /// Answer the call at once with this `grpc-status` and an empty body.
    Reject { status: i32 },
}

/// A stream in phase `p` is still open: its trailers have not arrived and no
/// frame has broken its protocol.
pub open spec fn open_phase(p: StreamPhase) -> bool {
    p == StreamPhase::AwaitingHeaders || p == StreamPhase::Receiving || p
        == StreamPhase::AwaitingTrailers
}

/// What dispatching `response` does to the stream table `t`, leaving `t2`
/// and result `r`: a datagram without a stream is dropped, one for a stream
/// that is not open is an error, and otherwise the stream takes the frame as
/// `on_frame_post` says, leaving the table when its trailers arrive or when
/// the frame broke its protocol.
pub open spec fn dispatch_post(
    t: Map<u64, ClientStream>,
    response: InboundResponse,
    t2: Map<u64, ClientStream>,
    r: Result<Delivery, ChannelError>,
) -> bool {
    match response.stream_id {
        None => r == Ok::<Delivery, ChannelError>(Delivery::Discarded)
            && t2 == t,
        Some(id) => if !t.contains_key(id) {
            &&& r == Err::<Delivery, ChannelError>(ChannelError::NoSuchStream(id))
            &&& t2 == t
        } else {
            match response.frame {
                None => {
                    &&& r == Ok::<Delivery, ChannelError>(
                        Delivery::Delivered { stream_id: id, action: None },
                    )
                    &&& t2 == t
                },
                Some(f) => exists|s2: ClientStream, rr: Result<Option<SinkAction>, StreamError>|
                    {
                        &&& on_frame_post(t[id], f, s2, rr)
                        &&& r == match rr {
                            Ok(a) => Ok::<Delivery, ChannelError>(
                                Delivery::Delivered { stream_id: id, action: a },
                            ),
                            Err(e) => Err::<Delivery, ChannelError>(
                                ChannelError::Stream { stream_id: id, error: e },
                            ),
                        }
                        &&& t2 == if f is Trailers || rr is Err {
                            t.remove(id)
                        } else {
                            t.insert(id, s2)
                        }
                    },
            }
        },
    }
}

/// Trailers for an open stream whose headers have arrived are always handed
/// to its consumer, and the stream leaves the table.
pub open spec fn trailers_delivered(
    c: WebRTCClientChannel,
    response: InboundResponse,
    c2: WebRTCClientChannel,
    r: Result<Delivery, ChannelError>,
) -> bool {
    match (response.stream_id, response.frame) {
        (Some(id), Some(InboundFrame::Trailers { .. })) => {
            (c.spec_streams().contains_key(id) && c.spec_streams()[id].spec_phase()
                != StreamPhase::AwaitingHeaders) ==> {
                &&& !c2.spec_streams().contains_key(id)
                &&& match r {
                    Ok(Delivery::Delivered { stream_id, action: Some(SinkAction::Trailers { .. }) }) => stream_id == id,
                    _ => false,
                }
            }
        },
        _ => true,
    }
}

/// The client channel: a base channel, the stream id counter, and the table
/// of open streams.
pub struct WebRTCClientChannel {
    base_channel: WebRTCBaseChannel,
    stream_id_counter: u64,
    streams: CHashMap<u64, ClientStream>,
    allocated: Ghost<Seq<u64>>,
}

impl WebRTCClientChannel {
    /// The ids handed out so far, in the order they were handed out.
    pub closed spec fn spec_allocated(&self) -> Seq<u64> {
        self.allocated@
    }

    /// The next id to hand out.
    pub closed spec fn spec_counter(&self) -> u64 {
        self.stream_id_counter
    }

    /// The open streams by id.
    pub closed spec fn spec_streams(&self) -> Map<u64, ClientStream> {
        stream_table(self.streams)
    }

    pub closed spec fn spec_base(&self) -> WebRTCBaseChannel {
        self.base_channel
    }

    /// Ids are handed out in increasing order, each below the counter, and
    /// every open stream is filed under its own id.
    pub closed spec fn wf(&self) -> bool {
        &&& forall|i: int, j: int|
            0 <= i < j < self.allocated@.len() ==> self.allocated@[i] < self.allocated@[j]
        &&& forall|i: int|
            0 <= i < self.allocated@.len() ==> self.allocated@[i] < self.stream_id_counter
        &&& forall|k: u64| #[trigger]
            stream_table(self.streams).contains_key(k) ==> k < self.stream_id_counter
                && stream_table(self.streams)[k].spec_id() == k
                && open_phase(stream_table(self.streams)[k].spec_phase())
    }

    /// A channel with no stream yet.
    pub fn new(base_channel: WebRTCBaseChannel) -> (r: WebRTCClientChannel)
        ensures
            r.wf(),
            r.spec_allocated().len() == 0,
            r.spec_counter() == 0,
            r.spec_streams() == Map::<u64, ClientStream>::empty(),
            r.spec_base() == base_channel,
    {
        WebRTCClientChannel {
            base_channel,
            stream_id_counter: 0,
            streams: table_new(),
            allocated: Ghost(Seq::empty()),
        }
    }

    pub fn base_channel(&self) -> (r: &WebRTCBaseChannel)
        ensures
            *r == self.spec_base(),
    {
        &self.base_channel
    }

    /// Marks the base channel closed; true when this call closed it.
    pub fn close(&mut self) -> (must_close_peer: bool)
        ensures
            final(self).spec_base().spec_closed(),
            must_close_peer == !old(self).spec_base().spec_closed(),
            final(self).spec_streams() == old(self).spec_streams(),
            final(self).spec_allocated() == old(self).spec_allocated(),
            final(self).spec_counter() == old(self).spec_counter(),
            old(self).wf() ==> final(self).wf(),
    {
        self.base_channel.close()
    }

    /// Stores an error that the data channel reported; the channel stays
    /// open until it is closed.
    pub fn record_error(&mut self, message: String)
        ensures
            final(self).spec_base().spec_closed() == old(self).spec_base().spec_closed(),
            final(self).spec_base().spec_closed_reason() == Some(message),
            final(self).spec_streams() == old(self).spec_streams(),
            final(self).spec_allocated() == old(self).spec_allocated(),
            final(self).spec_counter() == old(self).spec_counter(),
            old(self).wf() ==> final(self).wf(),
    {
        self.base_channel.record_error(message)
    }

    /// Whether a stream with this id is open; the channel is left as it was.
    pub fn has_stream(&mut self, stream_id: u64) -> (r: bool)
        ensures
            r == old(self).spec_streams().contains_key(stream_id),
            final(self).spec_streams() == old(self).spec_streams(),
            final(self).spec_base() == old(self).spec_base(),
            final(self).spec_counter() == old(self).spec_counter(),
            final(self).spec_allocated() == old(self).spec_allocated(),
            old(self).wf() ==> final(self).wf(),
    {
        match table_remove(&mut self.streams, stream_id) {
            Some(s) => {
                table_insert(&mut self.streams, stream_id, s);
                proof {
                    assert(stream_table(self.streams) =~= old(self).spec_streams());
                }
                true
            },
            None => {
                proof {
                    assert(stream_table(self.streams) =~= old(self).spec_streams());
                }
                false
            },
        }
    }

    /// Opens a stream under a fresh id, greater than every id handed out
    /// before on this channel. Fails with `ResourceExhausted` once the counter
    /// has reached its largest value.
    pub fn new_stream(&mut self) -> (r: Result<u64, ChannelError>)
        requires
            old(self).wf(),
        ensures
            final(self).wf(),
            final(self).spec_base() == old(self).spec_base(),
            match r {
                Ok(id) => {
                    &&& old(self).spec_counter() < u64::MAX
                    &&& id == old(self).spec_counter()
                    &&& final(self).spec_counter() == id + 1
                    &&& forall|i: int|
                        0 <= i < old(self).spec_allocated().len() ==> old(self).spec_allocated()[i]
                            < id
                    &&& final(self).spec_allocated() == old(self).spec_allocated().push(id)
                    &&& !old(self).spec_streams().contains_key(id)
                    &&& final(self).spec_streams().contains_key(id)
                    &&& final(self).spec_streams().remove(id) == old(self).spec_streams()
                    &&& final(self).spec_streams()[id].spec_id() == id
                    &&& final(self).spec_streams()[id].spec_phase() == StreamPhase::AwaitingHeaders
                    &&& final(self).spec_streams()[id].spec_buffer().len() == 0
                },
                Err(e) => {
                    &&& old(self).spec_counter() == u64::MAX
                    &&& e == ChannelError::ResourceExhausted
                    &&& *final(self) == *old(self)
                },
            },
    {
        if self.stream_id_counter == u64::MAX {
            return Err(ChannelError::ResourceExhausted);
        }
        let id = self.stream_id_counter;
        self.stream_id_counter = id + 1;
        self.allocated = Ghost(self.allocated@.push(id));
        let stream = ClientStream::new(id);
        let ghost before = stream_table(self.streams);
        table_insert(&mut self.streams, id, stream);
        proof {
            assert(!before.contains_key(id));
            assert(stream_table(self.streams).remove(id) =~= before);
            assert forall|k: u64| #[trigger]
                stream_table(self.streams).contains_key(k) implies k < self.stream_id_counter
                && stream_table(self.streams)[k].spec_id() == k && open_phase(
                stream_table(self.streams)[k].spec_phase(),
            ) by {
                if k != id {
                    assert(before.contains_key(k));
                }
            }
        }
        Ok(id)
    }

    /// Hands an inbound datagram to the stream it names. A datagram without a
    /// stream is dropped; one for a stream that is not open is an error. The
    /// stream is removed from the table when its trailers arrive or when the
    /// frame broke its protocol.
    pub fn on_channel_message(&mut self, response: InboundResponse) -> (r: Result<
        Delivery,
        ChannelError,
    >)
        requires
            old(self).wf(),
        ensures
            final(self).wf(),
            final(self).spec_base() == old(self).spec_base(),
            final(self).spec_counter() == old(self).spec_counter(),
            final(self).spec_allocated() == old(self).spec_allocated(),
            trailers_delivered(*old(self), response, *final(self), r),
            dispatch_post(old(self).spec_streams(), response, final(self).spec_streams(), r),
    {
        let id = match response.stream_id {
            None => {
                return Ok(Delivery::Discarded);
            },
            Some(id) => id,
        };
        let ghost before = stream_table(self.streams);
        let mut stream = match table_remove(&mut self.streams, id) {
            None => {
                proof {
                    assert(stream_table(self.streams) =~= before);
                }
                return Err(ChannelError::NoSuchStream(id));
            },
            Some(s) => s,
        };
        let frame = match response.frame {
            None => {
                table_insert(&mut self.streams, id, stream);
                proof {
                    assert(stream_table(self.streams) =~= before);
                }
                return Ok(Delivery::Delivered { stream_id: id, action: None });
            },
            Some(f) => f,
        };
        let drop_stream = matches!(frame, InboundFrame::Trailers { .. });
        let ghost s1 = stream;
        let result = stream.on_frame(frame);
        let ghost s2 = stream;
        match result {
            Ok(action) => {
                if !drop_stream {
                    table_insert(&mut self.streams, id, stream);
                    proof {
                        assert(stream_table(self.streams) =~= before.insert(id, s2));
                    }
                }
                proof {
                    assert(on_frame_post(s1, frame, s2, result));
                }
                Ok(Delivery::Delivered { stream_id: id, action })
            },
            Err(e) => {
                proof {
                    assert(on_frame_post(s1, frame, s2, result));
                }
                Err(ChannelError::Stream { stream_id: id, error: e })
            },
        }
    }

    /// Prepares a call: allocates its stream, builds its headers frame, and
    /// cuts the whole request body into packets with end-of-stream. Without a
    /// stream id left the call is rejected with `RESOURCE_EXHAUSTED`; a body
    /// that is not a run of gRPC messages closes the new stream and rejects
    /// the call with `UNKNOWN`.
    pub fn plan_call(&mut self, method: String, metadata: Vec<MetadataEntry>, body: &Vec<u8>) -> (r:
        CallPlan)
        requires
            old(self).wf(),
        ensures
            final(self).wf(),
            final(self).spec_base() == old(self).spec_base(),
            if old(self).spec_counter() == u64::MAX {
                &&& r == CallPlan::Reject { status: STATUS_CODE_RESOURCE_EXHAUSTED }
                &&& final(self).spec_streams() == old(self).spec_streams()
                &&& final(self).spec_counter() == old(self).spec_counter()
            } else {
                &&& final(self).spec_counter() == old(self).spec_counter() + 1
                &&& final(self).spec_allocated() == old(self).spec_allocated().push(
                    old(self).spec_counter(),
                )
                &&& if body@.len() >= 5 && well_framed(body@) {
                    &&& final(self).spec_streams().contains_key(old(self).spec_counter())
                    &&& final(self).spec_streams().remove(old(self).spec_counter())
                        == old(self).spec_streams()
                    &&& match r {
                        CallPlan::Send { stream_id, headers, frames } => {
                            &&& stream_id == old(self).spec_counter()
                            &&& headers.method == method
                            &&& headers.metadata == metadata
                            &&& frames_match(frames@, true, body@)
                        },
                        _ => false,
                    }
                } else {
                    &&& r == CallPlan::Reject { status: STATUS_CODE_UNKNOWN }
                    &&& final(self).spec_streams() == old(self).spec_streams()
                }
            },
    {
        let stream_id = match self.new_stream() {
            Ok(id) => id,
            Err(_) => {
                return CallPlan::Reject { status: STATUS_CODE_RESOURCE_EXHAUSTED };
            },
        };
        match write_message(true, body) {
            Ok(frames) => CallPlan::Send {
                stream_id,
                headers: RequestHeaders { method, metadata },
                frames,
            },
            Err(_) => {
                let ghost before = self.spec_streams();
                self.close_stream_with_recv_error(stream_id, "malformed request body".to_string());
                proof {
                    assert(before.remove(stream_id) =~= old(self).spec_streams());
                }
                CallPlan::Reject { status: STATUS_CODE_UNKNOWN }
            },
        }
    }

    /// Closes the stream with this id with a receive error and removes it from
    /// the table; the closed stream comes back, or `None` when no such stream
    /// was open.
    pub fn close_stream_with_recv_error(&mut self, stream_id: u64, error: String) -> (r: Option<
        ClientStream,
    >)
        requires
            old(self).wf(),
        ensures
            final(self).wf(),
            final(self).spec_base() == old(self).spec_base(),
            final(self).spec_counter() == old(self).spec_counter(),
            final(self).spec_allocated() == old(self).spec_allocated(),
            final(self).spec_streams() == old(self).spec_streams().remove(stream_id),
            match r {
                Some(s) => {
                    &&& old(self).spec_streams().contains_key(stream_id)
                    &&& s.spec_id() == stream_id
                    &&& s.spec_phase() == StreamPhase::Failed
                    &&& s.spec_closed_reason() == Some(
                        crate::client_stream::CloseReason::Receive(error),
                    )
                },
                None => !old(self).spec_streams().contains_key(stream_id),
            },
    {
        match table_remove(&mut self.streams, stream_id) {
            Some(s) => {
                let mut s = s;
                s.close_with_recv_error(error);
                Some(s)
            },
            None => None,
        }
    }
}


/// The gRPC messages that dispatch results `rs` hand to consumers, in order.
pub open spec fn delivered_data(rs: Seq<Result<Delivery, ChannelError>>) -> Seq<Seq<u8>>
    decreases rs.len(),
{
    if rs.len() == 0 {
        Seq::empty()
    } else {
        (match rs[0] {
            Ok(Delivery::Delivered { action: Some(SinkAction::Data(d)), .. }) => seq![d@],
            _ => Seq::empty(),
        }) + delivered_data(rs.skip(1))
    }
}

/// Message datagrams for one open stream that has its headers, dispatched
/// one after another without error, hand that stream's consumer exactly the
/// messages that `reassemble_from` rebuilds from their packets: packets
/// gather until `eom`, which delivers one frame `[0][length][bytes]` and
/// empties the buffer.
pub proof fn lemma_channel_reassembles(
    tables: Seq<Map<u64, ClientStream>>,
    id: u64,
    frames: Seq<InboundFrame>,
    results: Seq<Result<Delivery, ChannelError>>,
)
    requires
        tables.len() == frames.len() + 1,
        results.len() == frames.len(),
        tables[0].contains_key(id),
        tables[0][id].spec_phase() == StreamPhase::Receiving,
        forall|i: int|
            0 <= i < frames.len() ==> dispatch_post(
                tables[i],
                InboundResponse { stream_id: Some(id), frame: Some(#[trigger] frames[i]) },
                tables[i + 1],
                results[i],
            ),
        forall|i: int| 0 <= i < frames.len() ==> (#[trigger] frames[i] is Message) && !frames[i]->eos,
        forall|i: int| 0 <= i < results.len() ==> #[trigger] results[i] is Ok,
    ensures
        delivered_data(results) == reassemble_from(tables[0][id].spec_buffer(), frame_packets(frames)),
    decreases frames.len(),
{
    let p = frame_packets(frames);
    if frames.len() == 0 {
        assert(p.len() == 0);
        assert(delivered_data(results) =~= Seq::<Seq<u8>>::empty());
    } else {
        let tt = tables.skip(1);
        let ft = frames.skip(1);
        let rt = results.skip(1);
        assert(frames[0] is Message);
        assert(results[0] is Ok);
        assert(dispatch_post(
            tables[0],
            InboundResponse { stream_id: Some(id), frame: Some(frames[0]) },
            tables[1],
            results[0],
        ));
        let (s2, rr) = choose|s2: ClientStream, rr: Result<Option<SinkAction>, StreamError>|
            {
                &&& on_frame_post(tables[0][id], frames[0], s2, rr)
                &&& results[0] == match rr {
                    Ok(a) => Ok::<Delivery, ChannelError>(Delivery::Delivered { stream_id: id, action: a }),
                    Err(e) => Err::<Delivery, ChannelError>(ChannelError::Stream { stream_id: id, error: e }),
                }
                &&& tables[1] == if frames[0] is Trailers || rr is Err {
                    tables[0].remove(id)
                } else {
                    tables[0].insert(id, s2)
                }
            };
        assert(rr is Ok);
        assert(tables[1] == tables[0].insert(id, s2));
        assert(tt[0] == tables[1]);
        assert(s2.spec_phase() == StreamPhase::Receiving);
        assert forall|i: int| 0 <= i < ft.len() implies dispatch_post(
            tt[i],
            InboundResponse { stream_id: Some(id), frame: Some(#[trigger] ft[i]) },
            tt[i + 1],
            rt[i],
        ) by {
            assert(ft[i] == frames[i + 1]);
            assert(dispatch_post(
                tables[i + 1],
                InboundResponse { stream_id: Some(id), frame: Some(frames[i + 1]) },
                tables[i + 2],
                results[i + 1],
            ));
        }
        assert forall|i: int| 0 <= i < ft.len() implies (#[trigger] ft[i] is Message) && !ft[i]->eos by {
            assert(ft[i] == frames[i + 1]);
        }
        assert forall|i: int| 0 <= i < rt.len() implies #[trigger] rt[i] is Ok by {
            assert(rt[i] == results[i + 1]);
        }
        lemma_channel_reassembles(tt, id, ft, rt);
        assert(frame_packets(ft) =~= p.skip(1));
        let b = tables[0][id].spec_buffer() + p[0].1;
        if p[0].0 {
            assert(delivered_data(results) =~= seq![grpc_frame(b)] + delivered_data(rt));
            assert(s2.spec_buffer() =~= Seq::<u8>::empty());
        } else {
            assert(delivered_data(results) =~= delivered_data(rt));
        }
    }
}

} // verus!
