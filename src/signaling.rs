//! The client half of the signalling exchange: SDP encoding, ICE candidate
//! conversion, and the decisions of one negotiation, whose steps the
//! asynchronous driver feeds with what the signalling service and the peer
//! connection report.

use crate::metadata::{Status, STATUS_CODE_UNKNOWN};
use base64::engine::general_purpose::STANDARD;
use base64::{DecodeError, Engine};
use vstd::prelude::*;

verus! {

#[verifier::external_type_specification]
#[verifier::external_body]
pub struct ExDecodeError(DecodeError);

/// The standard base64 text of `b`, with padding.
pub uninterp spec fn base64_of(b: Seq<u8>) -> Seq<char>;

/// Relies on `base64::Engine::encode` with the `STANDARD` engine: the padded
/// standard base64 text of the bytes.
#[verifier::external_body]
fn base64_encode(b: &Vec<u8>) -> (r: String)
    ensures
        r@ == base64_of(b@),
{
    STANDARD.encode(b)
}

/// Relies on `base64::Engine::decode` with the `STANDARD` engine, whose `PAD`
/// configuration requires canonical padding and rejects trailing bits: it
/// gives back the bytes whose encoding the text is, and fails on any other
/// text.
#[verifier::external_body]
fn base64_decode(s: &str) -> (r: Result<Vec<u8>, DecodeError>)
    ensures
        r is Ok ==> base64_of(r->Ok_0@) == s@,
        forall|b: Seq<u8>| base64_of(b) == s@ ==> r is Ok && r->Ok_0@ == b,
{
    STANDARD.decode(s)
}

/// Errors of the signalling exchange.
#[derive(Debug, Clone, Copy, PartialEq, Eq, Structural)]
pub enum SignalingError {
    /// A session description was not valid base64.
    InvalidSdpEncoding,
    /// An update named no ICE candidate.
    NoIceCandidate,
}

/// Encodes the JSON text of a session description for the signalling
/// service: its standard base64 form.
pub fn encode_sdp(json: &Vec<u8>) -> (r: String)
    ensures
        r@ == base64_of(json@),
{
    base64_encode(json)
}

/// What `decode_sdp` returns for text `s`: the bytes whose encoding `s` is,
/// and `InvalidSdpEncoding` when `s` is the encoding of no bytes.
pub open spec fn sdp_decoding(s: Seq<char>, r: Result<Seq<u8>, SignalingError>) -> bool {
    &&& r is Ok ==> base64_of(r->Ok_0) == s
    &&& forall|b: Seq<u8>| base64_of(b) == s ==> r == Ok::<Seq<u8>, SignalingError>(b)
    &&& r is Err ==> r == Err::<Seq<u8>, SignalingError>(SignalingError::InvalidSdpEncoding)
}

/// Decodes a session description received from the signalling service back
/// to its JSON text.
pub fn decode_sdp(sdp: &str) -> (r: Result<Vec<u8>, SignalingError>)
    ensures
        sdp_decoding(
            sdp@,
            match r {
                Ok(v) => Ok(v@),
                Err(e) => Err(e),
            },
        ),
{
    match base64_decode(sdp) {
        Ok(v) => Ok(v),
        Err(_) => Err(SignalingError::InvalidSdpEncoding),
    }
}

/// Decoding what `encode_sdp` produced gives back the same bytes: whatever
/// `decode_sdp` returns for the encoding of `json` is `json` itself.
pub proof fn lemma_sdp_round_trip(json: Seq<u8>, r: Result<Seq<u8>, SignalingError>)
    requires
        sdp_decoding(base64_of(json), r),
    ensures
        r == Ok::<Seq<u8>, SignalingError>(json),
{
}

/// An ICE candidate as the signalling service carries it.
#[derive(Debug, Clone, PartialEq, Eq)]
pub struct IceCandidate {
    pub candidate: String,
    pub sdp_mid: Option<String>,
    pub sdpm_line_index: Option<u32>,
    pub username_fragment: Option<String>,
}

/// An ICE candidate as the peer connection takes it.
#[derive(Debug, Clone, PartialEq, Eq)]
pub struct IceCandidateInit {
    pub candidate: String,
    pub sdp_mid: Option<String>,
    pub sdp_mline_index: Option<u16>,
    pub username_fragment: Option<String>,
}

/// The string in `o`, or the empty string.
pub open spec fn string_or_empty(o: Option<String>) -> Seq<char> {
    match o {
        Some(s) => s@,
        None => Seq::empty(),
    }
}

fn take_or_empty(o: Option<String>) -> (r: String)
    ensures
        r@ == string_or_empty(o),
{
    match o {
        Some(s) => s,
        None => String::new(),
    }
}

/// `c` is candidate `p` in the form the peer connection takes: a missing mid
/// or username fragment becomes the empty string; a missing line index counts
/// as 0, and one beyond `u16` is dropped.
pub open spec fn init_of(c: IceCandidateInit, p: IceCandidate) -> bool {
    &&& c.candidate == p.candidate
    &&& c.sdp_mid is Some && c.sdp_mid->Some_0@ == string_or_empty(p.sdp_mid)
    &&& c.username_fragment is Some && c.username_fragment->Some_0@ == string_or_empty(
        p.username_fragment,
    )
    &&& c.sdp_mline_index == {
        let idx: u32 = match p.sdpm_line_index {
            Some(i) => i,
            None => 0,
        };
        if idx <= u16::MAX {
            Some(idx as u16)
        } else {
            None::<u16>
        }
    }
}

/// `p` is local candidate `c` in the form the signalling service carries.
pub open spec fn proto_of(p: IceCandidate, c: IceCandidateInit) -> bool {
    &&& p.candidate == c.candidate
    &&& p.sdp_mid == c.sdp_mid
    &&& p.username_fragment == c.username_fragment
    &&& p.sdpm_line_index == match c.sdp_mline_index {
        Some(i) => Some(i as u32),
        None => None::<u32>,
    }
}

/// Turns a candidate received from the signalling service into the form the
/// peer connection takes; fails when there is no candidate.
pub fn ice_candidate_from_proto(proto: Option<IceCandidate>) -> (r: Result<
    IceCandidateInit,
    SignalingError,
>)
    ensures
        match proto {
            None => r == Err::<IceCandidateInit, SignalingError>(SignalingError::NoIceCandidate),
            Some(p) => r is Ok && init_of(r->Ok_0, p),
        },
{
    match proto {
        None => Err(SignalingError::NoIceCandidate),
        Some(p) => {
            let idx: u32 = match p.sdpm_line_index {
                Some(i) => i,
                None => 0,
            };
            let sdp_mline_index = if idx <= 0xffff {
                Some(idx as u16)
            } else {
                None
            };
            Ok(
                IceCandidateInit {
                    candidate: p.candidate,
                    sdp_mid: Some(take_or_empty(p.sdp_mid)),
                    sdp_mline_index,
                    username_fragment: Some(take_or_empty(p.username_fragment)),
                },
            )
        },
    }
}

/// Turns a local candidate into the form the signalling service carries.
pub fn ice_candidate_to_proto(c: IceCandidateInit) -> (r: IceCandidate)
    ensures
        proto_of(r, c),
{
    let sdpm_line_index = match c.sdp_mline_index {
        Some(i) => Some(i as u32),
        None => None,
    };
    IceCandidate {
        candidate: c.candidate,
        sdp_mid: c.sdp_mid,
        sdpm_line_index,
        username_fragment: c.username_fragment,
    }
}


/// What a client tells the signalling service about a session.
#[derive(Debug, Clone)]
pub enum UpdateKind {
    /// A local ICE candidate.
    Candidate(IceCandidate),
    /// The client is done with the exchange.
    Done,
    /// The client gave up on the exchange.
    Error(Status),
}

/// An update for the session with this uuid.
#[derive(Debug, Clone)]
pub struct CallUpdate {
    pub uuid: String,
    pub update: UpdateKind,
}

/// A stage of a call response from the signalling service.
#[derive(Debug, Clone)]
pub enum CallStage {
    /// The answer to the offer, as sent: base64 of the JSON session description.
    Init { sdp: String },
    /// A remote ICE candidate.
    Update { candidate: Option<IceCandidate> },
}

/// What the driver of a negotiation is to do after a call response.
#[derive(Debug)]
pub enum ResponseStep {
    /// Nothing; wait for the next response.
    Continue,
    /// Set this session description, JSON text, as the remote description,
    /// then report the outcome.
    SetRemoteDescription { json: Vec<u8> },
    /// Add this remote candidate to the peer connection.
    AddIceCandidate(IceCandidateInit),
    /// The exchange failed: send the update, if any, and stop reading.
    Stop(Option<CallUpdate>),
}

/// Why a negotiation was abandoned.
#[derive(Debug, Clone, Copy, PartialEq, Eq, Structural)]
pub enum NegotiationFault {
    InitReceivedTwice,
    UpdateBeforeInit,
    UuidMismatch,
    InvalidSdp,
}

/// The update is a done or an error update.
pub open spec fn is_done_or_error(u: Option<CallUpdate>) -> bool {
    match u {
        Some(c) => c.update is Done || c.update is Error,
        None => false,
    }
}

/// The update is the done update for session `uuid`.
pub open spec fn is_done_for(u: Option<CallUpdate>, uuid: Seq<char>) -> bool {
    match u {
        Some(c) => c.update is Done && c.uuid@ == uuid,
        None => false,
    }
}

/// The text of the error update for fault `f`.
pub open spec fn fault_text(f: NegotiationFault) -> Seq<char> {
    match f {
        NegotiationFault::InitReceivedTwice => "Init received more than once"@,
        NegotiationFault::UpdateBeforeInit => "Got update before init stage"@,
        NegotiationFault::UuidMismatch => "uuid mismatch"@,
        NegotiationFault::InvalidSdp => "invalid session description"@,
    }
}

fn fault_message(f: NegotiationFault) -> (r: String)
    ensures
        r@ == fault_text(f),
{
    match f {
        NegotiationFault::InitReceivedTwice => "Init received more than once".to_string(),
        NegotiationFault::UpdateBeforeInit => "Got update before init stage".to_string(),
        NegotiationFault::UuidMismatch => "uuid mismatch".to_string(),
        NegotiationFault::InvalidSdp => "invalid session description".to_string(),
    }
}

/// `r` stops the exchange for fault `f`: with the error update when none had
/// gone out, with nothing otherwise.
pub open spec fn stops_with(r: ResponseStep, s: Negotiation, s2: Negotiation, f: NegotiationFault) -> bool {
    &&& s2.spec_sent()
    &&& match r {
        ResponseStep::Stop(u) => if s.spec_sent() {
            u is None
        } else {
            match u {
                Some(c) => c.uuid@ == s2.spec_uuid() && c.update is Error
                    && c.update->Error_0.code == STATUS_CODE_UNKNOWN
                    && c.update->Error_0.message@ == fault_text(f),
                None => false,
            }
        },
        _ => false,
    }
}

/// The state of one negotiation with the signalling service.
pub struct Negotiation {
    uuid: String,
    disable_trickle: bool,
    init_received: bool,
    remote_description_set: bool,
    ice_done: bool,
    exchange_done: bool,
    sent_done_or_error: bool,
}

/// A step of a negotiation from `s` to `s2` that emitted `u`: the flags only
/// ever go from false to true, and a done or error update goes out only while
/// none has gone out before, and marks that one has.
pub open spec fn guarded_step(s: Negotiation, u: Option<CallUpdate>, s2: Negotiation) -> bool {
    &&& s.spec_sent() ==> s2.spec_sent()
    &&& s.spec_init_received() ==> s2.spec_init_received()
    &&& s.spec_remote_description_set() ==> s2.spec_remote_description_set()
    &&& s.spec_ice_done() ==> s2.spec_ice_done()
    &&& s.spec_exchange_done() ==> s2.spec_exchange_done()
    &&& s2.spec_disable_trickle() == s.spec_disable_trickle()
    &&& is_done_or_error(u) ==> !s.spec_sent() && s2.spec_sent()
}

impl Negotiation {
    pub closed spec fn spec_uuid(&self) -> Seq<char> {
        self.uuid@
    }

    pub closed spec fn spec_disable_trickle(&self) -> bool {
        self.disable_trickle
    }

    pub closed spec fn spec_init_received(&self) -> bool {
        self.init_received
    }

    pub closed spec fn spec_remote_description_set(&self) -> bool {
        self.remote_description_set
    }

    pub closed spec fn spec_ice_done(&self) -> bool {
        self.ice_done
    }

    pub closed spec fn spec_exchange_done(&self) -> bool {
        self.exchange_done
    }

    pub closed spec fn spec_sent(&self) -> bool {
        self.sent_done_or_error
    }

    /// A negotiation that has sent its offer and heard nothing yet.
    pub fn new(disable_trickle: bool) -> (r: Negotiation)
        ensures
            r.spec_uuid().len() == 0,
            r.spec_disable_trickle() == disable_trickle,
            !r.spec_init_received(),
            !r.spec_remote_description_set(),
            !r.spec_ice_done(),
            !r.spec_exchange_done(),
            !r.spec_sent(),
    {
        Negotiation {
            uuid: String::new(),
            disable_trickle,
            init_received: false,
            remote_description_set: false,
            ice_done: false,
            exchange_done: false,
            sent_done_or_error: false,
        }
    }

    pub fn uuid(&self) -> (r: &String)
        ensures
            r@ == self.spec_uuid(),
    {
        &self.uuid
    }

    pub fn remote_description_set(&self) -> (r: bool)
        ensures
            r == self.spec_remote_description_set(),
    {
        self.remote_description_set
    }

    pub fn ice_done(&self) -> (r: bool)
        ensures
            r == self.spec_ice_done(),
    {
        self.ice_done
    }

    pub fn sent_done_or_error(&self) -> (r: bool)
        ensures
            r == self.spec_sent(),
    {
        self.sent_done_or_error
    }

    /// The done update for the session, unless a done or error update has
    /// gone out already.
    pub fn send_done_once(&mut self) -> (r: Option<CallUpdate>)
        ensures
            guarded_step(*old(self), r, *final(self)),
            final(self).spec_sent(),
            final(self).spec_uuid() == old(self).spec_uuid(),
            old(self).spec_sent() ==> r is None,
            !old(self).spec_sent() ==> is_done_for(r, old(self).spec_uuid()),
            final(self).spec_init_received() == old(self).spec_init_received(),
            final(self).spec_remote_description_set() == old(self).spec_remote_description_set(),
            final(self).spec_ice_done() == old(self).spec_ice_done(),
            final(self).spec_exchange_done() == old(self).spec_exchange_done(),
    {
        if self.sent_done_or_error {
            return None;
        }
        self.sent_done_or_error = true;
        Some(CallUpdate { uuid: self.uuid.clone(), update: UpdateKind::Done })
    }

    /// The error update for the session, with status unknown and this
    /// message, unless a done or error update has gone out already.
    pub fn send_error_once(&mut self, message: String) -> (r: Option<CallUpdate>)
        ensures
            guarded_step(*old(self), r, *final(self)),
            final(self).spec_sent(),
            final(self).spec_uuid() == old(self).spec_uuid(),
            old(self).spec_sent() ==> r is None,
            !old(self).spec_sent() ==> match r {
                Some(c) => c.uuid@ == old(self).spec_uuid() && c.update is Error
                    && c.update->Error_0.code == STATUS_CODE_UNKNOWN
                    && c.update->Error_0.message == message,
                None => false,
            },
            final(self).spec_init_received() == old(self).spec_init_received(),
            final(self).spec_remote_description_set() == old(self).spec_remote_description_set(),
            final(self).spec_ice_done() == old(self).spec_ice_done(),
            final(self).spec_exchange_done() == old(self).spec_exchange_done(),
    {
        if self.sent_done_or_error {
            return None;
        }
        self.sent_done_or_error = true;
        Some(
            CallUpdate {
                uuid: self.uuid.clone(),
                update: UpdateKind::Error(Status { code: STATUS_CODE_UNKNOWN, message }),
            },
        )
    }

    /// What the driver does with one call response. The first `Init` stage
    /// records the session uuid and hands back the decoded answer; a second
    /// `Init`, an `Update` before `Init`, an `Update` for another session, or
    /// an answer that is not valid base64 abandon the exchange with one error
    /// update. An `Update` hands back its candidate; one without a candidate
    /// is skipped.
    pub fn on_call_response(&mut self, uuid: String, stage: Option<CallStage>) -> (r: ResponseStep)
        ensures
            final(self).spec_disable_trickle() == old(self).spec_disable_trickle(),
            final(self).spec_remote_description_set() == old(self).spec_remote_description_set(),
            final(self).spec_ice_done() == old(self).spec_ice_done(),
            final(self).spec_exchange_done() == old(self).spec_exchange_done(),
            match r {
                ResponseStep::Stop(u) => guarded_step(*old(self), u, *final(self)),
                _ => guarded_step(*old(self), None, *final(self)),
            },
            match stage {
                None => r is Continue && *final(self) == *old(self),
                Some(CallStage::Init { sdp }) => if old(self).spec_init_received() {
                    stops_with(r, *old(self), *final(self), NegotiationFault::InitReceivedTwice)
                } else {
                    &&& final(self).spec_init_received()
                    &&& final(self).spec_uuid() == uuid@
                    &&& match r {
                        ResponseStep::SetRemoteDescription { json } => base64_of(json@) == sdp@,
                        ResponseStep::Stop(_) => {
                            &&& forall|b: Seq<u8>| base64_of(b) != sdp@
                            &&& stops_with(r, *old(self), *final(self), NegotiationFault::InvalidSdp)
                        },
                        _ => false,
                    }
                },
                Some(CallStage::Update { candidate }) => if !old(self).spec_init_received() {
                    stops_with(r, *old(self), *final(self), NegotiationFault::UpdateBeforeInit)
                } else if uuid@ != old(self).spec_uuid() {
                    stops_with(r, *old(self), *final(self), NegotiationFault::UuidMismatch)
                } else {
                    &&& *final(self) == *old(self)
                    &&& match candidate {
                        None => r is Continue,
                        Some(c) => match r {
                            ResponseStep::AddIceCandidate(init) => init_of(init, c),
                            _ => false,
                        },
                    }
                },
            },
    {
        match stage {
            None => ResponseStep::Continue,
            Some(CallStage::Init { sdp }) => {
                if self.init_received {
                    return ResponseStep::Stop(self.send_error_once(fault_message(NegotiationFault::InitReceivedTwice)));
                }
                self.init_received = true;
                self.uuid = uuid;
                match decode_sdp(sdp.as_str()) {
                    Ok(json) => ResponseStep::SetRemoteDescription { json },
                    Err(_) => ResponseStep::Stop(self.send_error_once(fault_message(NegotiationFault::InvalidSdp))),
                }
            },
            Some(CallStage::Update { candidate }) => {
                if !self.init_received {
                    return ResponseStep::Stop(self.send_error_once(fault_message(NegotiationFault::UpdateBeforeInit)));
                }
                if uuid != self.uuid {
                    return ResponseStep::Stop(self.send_error_once(fault_message(NegotiationFault::UuidMismatch)));
                }
                match ice_candidate_from_proto(candidate) {
                    Ok(init) => ResponseStep::AddIceCandidate(init),
                    Err(_) => ResponseStep::Continue,
                }
            },
        }
    }

    /// Records that the remote description is set. Without trickle ICE the
    /// exchange is then over: the done update, if none has gone out, and
    /// `true` to stop reading responses.
    pub fn on_remote_description_set(&mut self) -> (r: (bool, Option<CallUpdate>))
        ensures
            guarded_step(*old(self), r.1, *final(self)),
            final(self).spec_remote_description_set(),
            final(self).spec_uuid() == old(self).spec_uuid(),
            r.0 == old(self).spec_disable_trickle(),
            !old(self).spec_disable_trickle() ==> r.1 is None && final(self).spec_sent() == old(self).spec_sent(),
            old(self).spec_disable_trickle() ==> (if old(self).spec_sent() {
                r.1 is None
            } else {
                is_done_for(r.1, old(self).spec_uuid())
            }),
    {
        self.remote_description_set = true;
        if self.disable_trickle {
            (true, self.send_done_once())
        } else {
            (false, None)
        }
    }

    /// What to send for a local ICE candidate, the driver having waited for
    /// the remote description. Nothing once the exchange is over, while the
    /// remote description is not set, or once gathering has finished; a
    /// candidate goes out while no done or error update has; the end of
    /// gathering marks ICE done and sends the done update once.
    pub fn on_local_candidate(&mut self, candidate: Option<IceCandidateInit>) -> (r: Option<CallUpdate>)
        ensures
            guarded_step(*old(self), r, *final(self)),
            final(self).spec_uuid() == old(self).spec_uuid(),
            if old(self).spec_exchange_done() || !old(self).spec_remote_description_set()
                || old(self).spec_ice_done() {
                r is None && *final(self) == *old(self)
            } else {
                match candidate {
                    Some(c) => {
                        &&& *final(self) == *old(self)
                        &&& if old(self).spec_sent() {
                            r is None
                        } else {
                            match r {
                                Some(u) => u.uuid@ == old(self).spec_uuid() && u.update is Candidate
                                    && proto_of(u.update->Candidate_0, c),
                                None => false,
                            }
                        }
                    },
                    None => {
                        &&& final(self).spec_ice_done()
                        &&& final(self).spec_sent()
                        &&& if old(self).spec_sent() {
                            r is None
                        } else {
                            is_done_for(r, old(self).spec_uuid())
                        }
                    },
                }
            },
    {
        if self.exchange_done || !self.remote_description_set || self.ice_done {
            return None;
        }
        match candidate {
            Some(c) => {
                if self.sent_done_or_error {
                    return None;
                }
                Some(
                    CallUpdate {
                        uuid: self.uuid.clone(),
                        update: UpdateKind::Candidate(ice_candidate_to_proto(c)),
                    },
                )
            },
            None => {
                self.ice_done = true;
                self.send_done_once()
            },
        }
    }

    /// Records that the data channel opened: the exchange is over, and the
    /// done update goes out unless one or an error update has.
    pub fn on_data_channel_open(&mut self) -> (r: Option<CallUpdate>)
        ensures
            guarded_step(*old(self), r, *final(self)),
            final(self).spec_exchange_done(),
            final(self).spec_sent(),
            final(self).spec_uuid() == old(self).spec_uuid(),
            old(self).spec_sent() ==> r is None,
            !old(self).spec_sent() ==> is_done_for(r, old(self).spec_uuid()),
    {
        self.exchange_done = true;
        self.send_done_once()
    }
}


/// How many done or error updates `us` holds.
pub open spec fn done_or_error_count(us: Seq<Option<CallUpdate>>) -> nat
    decreases us.len(),
{
    if us.len() == 0 {
        0
    } else {
        (if is_done_or_error(us[0]) {
            1nat
        } else {
            0nat
        }) + done_or_error_count(us.skip(1))
    }
}

/// Over any run of a negotiation, whatever its steps (each step being one of
/// the methods of `Negotiation`, which all take guarded steps), at most one
/// done or error update goes out, and none when one had gone out before the
/// run.
pub proof fn lemma_done_or_error_at_most_once(
    states: Seq<Negotiation>,
    updates: Seq<Option<CallUpdate>>,
)
    requires
        states.len() == updates.len() + 1,
        forall|i: int|
            0 <= i < updates.len() ==> guarded_step(states[i], #[trigger] updates[i], states[i + 1]),
    ensures
        done_or_error_count(updates) <= (if states[0].spec_sent() {
            0nat
        } else {
            1nat
        }),
    decreases updates.len(),
{
    if updates.len() > 0 {
        let st = states.skip(1);
        let ut = updates.skip(1);
        assert forall|i: int| 0 <= i < ut.len() implies guarded_step(st[i], #[trigger] ut[i], st[i + 1]) by {
            assert(ut[i] == updates[i + 1]);
            assert(guarded_step(states[i + 1], updates[i + 1], states[i + 2]));
        }
        lemma_done_or_error_at_most_once(st, ut);
        assert(guarded_step(states[0], updates[0], states[1]));
    }
}

} // verus!
