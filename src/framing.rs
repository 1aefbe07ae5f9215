//! Packetisation of outbound gRPC messages and reassembly of inbound ones.
//!
//! A gRPC message on HTTP/2 is framed as `[compressed:1][length:4 big-endian][payload]`.
//! Over the data channel each message travels as one or more packets of at
//! most `MAX_PACKET_DATA` bytes, the last of which carries `eom`.

use vstd::arithmetic::div_mod::{
    lemma_div_plus_one, lemma_fundamental_div_mod_converse, lemma_small_mod,
};
use vstd::prelude::*;

verus! {

/// The largest number of payload bytes carried by one outbound packet.
pub const MAX_PACKET_DATA: usize = 16373;

/// Big-endian value of four bytes.
pub open spec fn be_value(b0: u8, b1: u8, b2: u8, b3: u8) -> nat {
    b0 as nat * 16777216 + b1 as nat * 65536 + b2 as nat * 256 + b3 as nat
}

/// Big-endian encoding of `n` in four bytes.
pub open spec fn be_bytes(n: nat) -> Seq<u8> {
    seq![
        (n / 16777216 % 256) as u8,
        (n / 65536 % 256) as u8,
        (n / 256 % 256) as u8,
        (n % 256) as u8,
    ]
}

/// The length field of the gRPC message at the start of `s`.
pub open spec fn declared_len(s: Seq<u8>) -> nat
    recommends
        s.len() >= 5,
{
    be_value(s[1], s[2], s[3], s[4])
}

/// How many payload bytes of the first message `s` holds: the declared length,
/// cut short where the buffer ends first.
pub open spec fn first_body_len(s: Seq<u8>) -> int
    recommends
        s.len() >= 5,
{
    if declared_len(s) <= s.len() - 5 {
        declared_len(s) as int
    } else {
        s.len() - 5
    }
}

/// The payload of the first message of `s`.
pub open spec fn first_body(s: Seq<u8>) -> Seq<u8> {
    s.subrange(5, 5 + first_body_len(s))
}

/// What follows the first message of `s`.
pub open spec fn after_first(s: Seq<u8>) -> Seq<u8> {
    s.subrange(5 + first_body_len(s), s.len() as int)
}

/// `s` is a run of gRPC messages, each with its full five-byte header.
pub open spec fn well_framed(s: Seq<u8>) -> bool
    decreases s.len(),
{
    if s.len() == 0 {
        true
    } else if s.len() < 5 {
        false
    } else {
        well_framed(after_first(s))
    }
}

/// The number of gRPC messages at the start of `s`.
pub open spec fn frame_count(s: Seq<u8>) -> nat
    decreases s.len(),
{
    if s.len() < 5 {
        0
    } else {
        1 + frame_count(after_first(s))
    }
}

/// The payloads of the messages of `s`, one after another.
pub open spec fn payloads(s: Seq<u8>) -> Seq<u8>
    decreases s.len(),
{
    if s.len() < 5 {
        Seq::empty()
    } else {
        first_body(s) + payloads(after_first(s))
    }
}

/// A payload cut into packets of at most `MAX_PACKET_DATA` bytes, each paired
/// with its end-of-message mark. An empty payload still gives one packet.
pub open spec fn chunks(body: Seq<u8>) -> Seq<(bool, Seq<u8>)>
    decreases body.len(),
{
    if body.len() <= MAX_PACKET_DATA {
        seq![(true, body)]
    } else {
        seq![(false, body.take(MAX_PACKET_DATA as int))] + chunks(body.skip(MAX_PACKET_DATA as int))
    }
}

/// The packets for all messages of `s`, in order.
pub open spec fn packets(s: Seq<u8>) -> Seq<(bool, Seq<u8>)>
    decreases s.len(),
{
    if s.len() < 5 {
        Seq::empty()
    } else {
        chunks(first_body(s)) + packets(after_first(s))
    }
}

/// One outbound message packet as a mathematical value.
pub struct PacketView {
    pub has_message: bool,
    pub eos: bool,
    pub eom: bool,
    pub data: Seq<u8>,
}

/// The packets that writing `s` with end-of-stream `eos` emits: every packet
/// has a message, `eom` closes each gRPC message, and end-of-stream is set on
/// the last packet alone, when the caller asked for it or when the buffer held
/// more than one message.
pub open spec fn planned_packets(eos: bool, s: Seq<u8>) -> Seq<PacketView> {
    let p = packets(s);
    Seq::new(
        p.len(),
        |i: int|
            PacketView {
                has_message: true,
                eos: i == p.len() - 1 && (eos || frame_count(s) > 1),
                eom: p[i].0,
                data: p[i].1,
            },
    )
}

/// All packet payloads of `p`, one after another.
pub open spec fn concat_data(p: Seq<PacketView>) -> Seq<u8>
    decreases p.len(),
{
    if p.len() == 0 {
        Seq::empty()
    } else {
        p[0].data + concat_data(p.skip(1))
    }
}

/// All payloads of `c`, one after another.
pub open spec fn concat_chunks(c: Seq<(bool, Seq<u8>)>) -> Seq<u8>
    decreases c.len(),
{
    if c.len() == 0 {
        Seq::empty()
    } else {
        c[0].1 + concat_chunks(c.skip(1))
    }
}

/// The framed gRPC message around `body`: an uncompressed flag, the length,
/// then the bytes.
pub open spec fn grpc_frame(body: Seq<u8>) -> Seq<u8> {
    seq![0u8] + be_bytes(body.len()) + body
}

/// The messages that a receiver rebuilds from packets `p`, starting with the
/// partial message `buf`: packet payloads gather until `eom`, which closes one
/// message.
pub open spec fn reassemble_from(buf: Seq<u8>, p: Seq<(bool, Seq<u8>)>) -> Seq<Seq<u8>>
    decreases p.len(),
{
    if p.len() == 0 {
        Seq::empty()
    } else if p[0].0 {
        seq![grpc_frame(buf + p[0].1)] + reassemble_from(Seq::empty(), p.skip(1))
    } else {
        reassemble_from(buf + p[0].1, p.skip(1))
    }
}

/// The messages rebuilt from the packets `p` of a stream.
pub open spec fn reassemble(p: Seq<PacketView>) -> Seq<Seq<u8>> {
    reassemble_from(Seq::empty(), p.map_values(|v: PacketView| (v.eom, v.data)))
}

/// One packet of an outbound gRPC message.
#[derive(Debug)]
pub struct MessageFrame {
    pub has_message: bool,
    pub eos: bool,
    pub eom: bool,
    pub data: Vec<u8>,
}

impl View for MessageFrame {
    type V = PacketView;

    open spec fn view(&self) -> PacketView {
        PacketView { has_message: self.has_message, eos: self.eos, eom: self.eom, data: self.data@ }
    }
}

/// The packets in `v` are those planned for `s`.
pub open spec fn frames_match(v: Seq<MessageFrame>, eos: bool, s: Seq<u8>) -> bool {
    &&& v.len() == planned_packets(eos, s).len()
    &&& forall|i: int| 0 <= i < v.len() ==> #[trigger] v[i]@ == planned_packets(eos, s)[i]
}

/// Why a buffer could not be cut into packets.
#[derive(Debug, Clone, Copy, PartialEq, Eq, Structural)]
pub enum FramingError {
    /// A gRPC message header was cut short: fewer than five bytes remained.
    IrregularLength,
}


/// The payloads and `eom` marks of `v`.
pub open spec fn frame_chunks(v: Seq<MessageFrame>) -> Seq<(bool, Seq<u8>)> {
    v.map_values(|f: MessageFrame| (f.eom, f.data@))
}

/// Reads the four bytes at `at` as a big-endian length.
fn read_be_u32(data: &Vec<u8>, at: usize) -> (r: u32)
    requires
        at + 4 <= data.len(),
    ensures
        r as nat == be_value(data@[at as int], data@[at + 1], data@[at + 2], data@[at + 3]),
{
    let n = data.len();
    let b0 = data[at] as u32;
    let b1 = data[at + 1] as u32;
    let b2 = data[at + 2] as u32;
    let b3 = data[at + 3] as u32;
    assert(b0 * 16777216 + b1 * 65536 + b2 * 256 + b3 <= 0xffff_ffff) by (nonlinear_arith)
        requires
            b0 <= 255,
            b1 <= 255,
            b2 <= 255,
            b3 <= 255,
    ;
    b0 * 16777216 + b1 * 65536 + b2 * 256 + b3
}

/// A copy of `data[start..end]`.
pub fn copy_range(data: &Vec<u8>, start: usize, end: usize) -> (r: Vec<u8>)
    requires
        start <= end <= data@.len(),
    ensures
        r@ == data@.subrange(start as int, end as int),
{
    let mut r: Vec<u8> = Vec::with_capacity(end - start);
    let mut i: usize = start;
    while i < end
        invariant
            start <= i <= end <= data@.len(),
            r@ == data@.subrange(start as int, i as int),
        decreases end - i,
    {
        r.push(data[i]);
        i += 1;
        assert(r@ =~= data@.subrange(start as int, i as int));
    }
    r
}

proof fn lemma_well_framed_count(s: Seq<u8>)
    requires
        s.len() >= 5,
        well_framed(s),
    ensures
        frame_count(s) > 1 <==> declared_len(s) + 5 < s.len(),
{
    let a = after_first(s);
    assert(well_framed(a));
    if a.len() > 0 {
        assert(a.len() >= 5);
        assert(frame_count(a) >= 1);
    } else {
        assert(frame_count(a) == 0);
    }
}

proof fn lemma_packets_nonempty(s: Seq<u8>)
    requires
        s.len() >= 5,
    ensures
        packets(s).len() >= 1,
{
    assert(chunks(first_body(s)).len() >= 1) by {
        reveal_with_fuel(chunks, 1);
    }
}

/// Cuts `data`, a run of gRPC messages, into the packets that carry it over a
/// data channel: each message loses its five-byte header and its payload is
/// split at `MAX_PACKET_DATA` bytes. Fails when a message header is cut short,
/// and then emits nothing.
pub fn write_message(eos: bool, data: &Vec<u8>) -> (r: Result<Vec<MessageFrame>, FramingError>)
    ensures
        match r {
            Ok(v) => data@.len() >= 5 && well_framed(data@) && frames_match(v@, eos, data@),
            Err(e) => !(data@.len() >= 5 && well_framed(data@)) && e == FramingError::IrregularLength,
        },
{
    let n = data.len();
    if n < 5 {
        proof {
            if n > 0 {
                assert(!well_framed(data@));
            }
        }
        return Err(FramingError::IrregularLength);
    }
    let first_len = read_be_u32(data, 1);
    let was_a_stream = (first_len as u64) + 5 < n as u64;
    proof {
        assert(declared_len(data@) == first_len as nat);
    }
    let mut out: Vec<MessageFrame> = Vec::new();
    let mut pos: usize = 0;
    assert(data@.skip(0) =~= data@);
    while pos < n
        invariant
            pos <= n == data@.len(),
            well_framed(data@) == well_framed(data@.skip(pos as int)),
            frame_chunks(out@) + packets(data@.skip(pos as int)) == packets(data@),
            forall|i: int| 0 <= i < out@.len() ==> (#[trigger] out@[i]).has_message && !out@[i].eos,
        decreases n - pos,
    {
        if n - pos < 5 {
            proof {
                assert(!well_framed(data@.skip(pos as int)));
            }
            return Err(FramingError::IrregularLength);
        }
        let ghost rest = data@.skip(pos as int);
        let len = read_be_u32(data, pos + 1);
        let body_start = pos + 5;
        let avail = n - body_start;
        let body_end: usize = if (len as u64) < avail as u64 { body_start + len as usize } else { n };
        proof {
            assert(declared_len(rest) == len as nat);
            assert(first_body(rest) =~= data@.subrange(body_start as int, body_end as int));
            assert(after_first(rest) =~= data@.skip(body_end as int));
            assert(packets(rest) == chunks(first_body(rest)) + packets(after_first(rest)));
            assert(frame_chunks(out@) + chunks(data@.subrange(body_start as int, body_end as int))
                + packets(data@.skip(body_end as int)) =~= packets(data@));
        }
        let mut k: usize = body_start;
        loop
            invariant_except_break
                frame_chunks(out@) + chunks(data@.subrange(k as int, body_end as int))
                    + packets(data@.skip(body_end as int)) == packets(data@),
            invariant
                body_start <= k <= body_end <= n == data@.len(),
                forall|i: int| 0 <= i < out@.len() ==> (#[trigger] out@[i]).has_message && !out@[i].eos,
            ensures
                frame_chunks(out@) + packets(data@.skip(body_end as int)) == packets(data@),
            decreases body_end - k,
        {
            let remaining = body_end - k;
            let eom = remaining <= MAX_PACKET_DATA;
            let split = if eom { remaining } else { MAX_PACKET_DATA };
            let chunk = copy_range(data, k, k + split);
            let ghost before = out@;
            let ghost sub = data@.subrange(k as int, body_end as int);
            out.push(MessageFrame { has_message: true, eos: false, eom, data: chunk });
            proof {
                assert(frame_chunks(out@) =~= frame_chunks(before).push((eom, chunk@)));
                if eom {
                    assert(chunk@ =~= sub);
                    assert(chunks(sub) == seq![(true, sub)]);
                    assert(frame_chunks(out@) + packets(data@.skip(body_end as int)) =~= packets(data@));
                } else {
                    assert(chunk@ =~= sub.take(MAX_PACKET_DATA as int));
                    assert(sub.skip(MAX_PACKET_DATA as int) =~= data@.subrange(k + split, body_end as int));
                    assert(chunks(sub) == seq![(false, sub.take(MAX_PACKET_DATA as int))] + chunks(sub.skip(MAX_PACKET_DATA as int)));
                    assert(frame_chunks(out@) + chunks(data@.subrange(k + split, body_end as int))
                        + packets(data@.skip(body_end as int)) =~= packets(data@));
                }
            }
            k = k + split;
            if eom {
                break;
            }
        }
        pos = body_end;
    }
    proof {
        assert(data@.skip(n as int) =~= Seq::<u8>::empty());
        assert(frame_chunks(out@) =~= packets(data@));
        lemma_packets_nonempty(data@);
        lemma_well_framed_count(data@);
    }
    if eos || was_a_stream {
        let last = out.pop().unwrap();
        out.push(MessageFrame { has_message: last.has_message, eos: true, eom: last.eom, data: last.data });
    }
    proof {
        let p = packets(data@);
        assert(out@.len() == p.len());
        assert forall|i: int| 0 <= i < out@.len() implies #[trigger] out@[i]@ == planned_packets(eos, data@)[i] by {
            assert(frame_chunks(out@)[i] == p[i]);
        }
    }
    Ok(out)
}


/// All of the sequences in `f`, one after another.
pub open spec fn concat_all(f: Seq<Seq<u8>>) -> Seq<u8>
    decreases f.len(),
{
    if f.len() == 0 {
        Seq::empty()
    } else {
        f[0] + concat_all(f.skip(1))
    }
}

/// `f` is one whole uncompressed gRPC message whose length field matches its
/// payload.
pub open spec fn exact_frame(f: Seq<u8>) -> bool {
    &&& f.len() >= 5
    &&& f[0] == 0u8
    &&& declared_len(f) == f.len() - 5
}

proof fn lemma_concat_chunks_append(a: Seq<(bool, Seq<u8>)>, b: Seq<(bool, Seq<u8>)>)
    ensures
        concat_chunks(a + b) == concat_chunks(a) + concat_chunks(b),
    decreases a.len(),
{
    if a.len() == 0 {
        assert(a + b =~= b);
        assert(concat_chunks(a) + concat_chunks(b) =~= concat_chunks(b));
    } else {
        assert((a + b).skip(1) =~= a.skip(1) + b);
        lemma_concat_chunks_append(a.skip(1), b);
        assert(concat_chunks(a + b) =~= concat_chunks(a) + concat_chunks(b));
    }
}

proof fn lemma_concat_chunks_single(x: (bool, Seq<u8>))
    ensures
        concat_chunks(seq![x]) == x.1,
{
    let c = seq![x];
    assert(c.skip(1) =~= Seq::<(bool, Seq<u8>)>::empty());
    assert(concat_chunks(c.skip(1)) == Seq::<u8>::empty());
    assert(x.1 + Seq::<u8>::empty() =~= x.1);
}

proof fn lemma_chunks_props(b: Seq<u8>)
    ensures
        concat_chunks(chunks(b)) == b,
        chunks(b).len() >= 1,
        chunks(b).last().0,
        forall|i: int| 0 <= i < chunks(b).len() ==> (#[trigger] chunks(b)[i]).1.len() <= MAX_PACKET_DATA,
    decreases b.len(),
{
    if b.len() <= MAX_PACKET_DATA {
        lemma_concat_chunks_single((true, b));
    } else {
        let t = b.skip(MAX_PACKET_DATA as int);
        lemma_chunks_props(t);
        let head = seq![(false, b.take(MAX_PACKET_DATA as int))];
        assert(chunks(b) == head + chunks(t));
        lemma_concat_chunks_append(head, chunks(t));
        lemma_concat_chunks_single((false, b.take(MAX_PACKET_DATA as int)));
        assert(concat_chunks(chunks(b)) =~= b);
        assert forall|i: int| 0 <= i < chunks(b).len() implies (#[trigger] chunks(b)[i]).1.len()
            <= MAX_PACKET_DATA by {
            if i > 0 {
                assert(chunks(b)[i] == chunks(t)[i - 1]);
            }
        }
    }
}

proof fn lemma_packets_props(s: Seq<u8>)
    ensures
        concat_chunks(packets(s)) == payloads(s),
        s.len() >= 5 ==> packets(s).len() >= 1 && packets(s).last().0,
        forall|i: int| 0 <= i < packets(s).len() ==> (#[trigger] packets(s)[i]).1.len() <= MAX_PACKET_DATA,
    decreases s.len(),
{
    if s.len() < 5 {
        assert(concat_chunks(packets(s)) =~= payloads(s));
    } else {
        let a = after_first(s);
        let c = chunks(first_body(s));
        lemma_packets_props(a);
        lemma_chunks_props(first_body(s));
        lemma_concat_chunks_append(c, packets(a));
        assert forall|i: int| 0 <= i < packets(s).len() implies (#[trigger] packets(s)[i]).1.len()
            <= MAX_PACKET_DATA by {
            if i >= c.len() {
                assert(packets(s)[i] == packets(a)[i - c.len()]);
            } else {
                assert(packets(s)[i] == c[i]);
            }
        }
    }
}

proof fn lemma_concat_data_planned(p: Seq<PacketView>, c: Seq<(bool, Seq<u8>)>)
    requires
        p.len() == c.len(),
        forall|i: int| 0 <= i < p.len() ==> (#[trigger] p[i]).data == c[i].1,
    ensures
        concat_data(p) == concat_chunks(c),
    decreases p.len(),
{
    if p.len() > 0 {
        lemma_concat_data_planned(p.skip(1), c.skip(1));
    }
}

/// The packets that `write_message` emits for a well-framed buffer carry the
/// buffer's payloads byte for byte, in order; each carries at most
/// `MAX_PACKET_DATA` bytes; the last one closes its message; and the last one
/// ends the stream when the caller asked for that or when the buffer held more
/// than one message.
pub proof fn lemma_packets_carry_payloads(eos: bool, s: Seq<u8>)
    requires
        s.len() >= 5,
        well_framed(s),
    ensures
        planned_packets(eos, s).len() >= 1,
        concat_data(planned_packets(eos, s)) == payloads(s),
        planned_packets(eos, s).last().eom,
        (eos || frame_count(s) > 1) ==> planned_packets(eos, s).last().eos,
        forall|i: int|
            0 <= i < planned_packets(eos, s).len() ==> (#[trigger] planned_packets(eos, s)[i]).data.len()
                <= MAX_PACKET_DATA,
{
    lemma_packets_props(s);
    lemma_concat_data_planned(planned_packets(eos, s), packets(s));
}

proof fn lemma_reassemble_chunks(buf: Seq<u8>, b: Seq<u8>, rest: Seq<(bool, Seq<u8>)>)
    ensures
        reassemble_from(buf, chunks(b) + rest) == seq![grpc_frame(buf + b)] + reassemble_from(
            Seq::empty(),
            rest,
        ),
    decreases b.len(),
{
    if b.len() <= MAX_PACKET_DATA {
        assert((chunks(b) + rest).skip(1) =~= rest);
    } else {
        let head = b.take(MAX_PACKET_DATA as int);
        let t = b.skip(MAX_PACKET_DATA as int);
        assert(chunks(b) + rest =~= seq![(false, head)] + (chunks(t) + rest));
        assert((seq![(false, head)] + (chunks(t) + rest)).skip(1) =~= chunks(t) + rest);
        lemma_reassemble_chunks(buf + head, t, rest);
        assert(buf + head + t =~= buf + b);
    }
}

proof fn lemma_be_round_trip(b0: u8, b1: u8, b2: u8, b3: u8)
    ensures
        be_bytes(be_value(b0, b1, b2, b3)) == seq![b0, b1, b2, b3],
{
    let n = be_value(b0, b1, b2, b3) as int;
    let (x0, x1, x2, x3) = (b0 as int, b1 as int, b2 as int, b3 as int);
    lemma_fundamental_div_mod_converse(n, 16777216, x0, x1 * 65536 + x2 * 256 + x3);
    lemma_small_mod(x0 as nat, 256);
    lemma_fundamental_div_mod_converse(n, 65536, x0 * 256 + x1, x2 * 256 + x3);
    lemma_fundamental_div_mod_converse(x0 * 256 + x1, 256, x0, x1);
    lemma_fundamental_div_mod_converse(n, 256, x0 * 65536 + x1 * 256 + x2, x3);
    lemma_fundamental_div_mod_converse(x0 * 65536 + x1 * 256 + x2, 256, x0 * 256 + x1, x2);
    assert(be_bytes(be_value(b0, b1, b2, b3)) =~= seq![b0, b1, b2, b3]);
}

proof fn lemma_exact_frame_is_framed(f: Seq<u8>)
    requires
        exact_frame(f),
    ensures
        grpc_frame(first_body(f)) == f,
{
    lemma_be_round_trip(f[1], f[2], f[3], f[4]);
    assert(first_body(f).len() == declared_len(f));
    assert(grpc_frame(first_body(f)) =~= f);
}

/// Reassembling the packets written for one whole uncompressed gRPC message,
/// without end-of-stream, gives back that message.
pub proof fn lemma_single_message_round_trip(m: Seq<u8>)
    requires
        exact_frame(m),
    ensures
        reassemble(planned_packets(false, m)) == seq![m],
{
    let p = planned_packets(false, m);
    assert(p.map_values(|v: PacketView| (v.eom, v.data)) =~= packets(m));
    assert(after_first(m) =~= Seq::<u8>::empty());
    assert(packets(after_first(m)) =~= Seq::<(bool, Seq<u8>)>::empty());
    assert(packets(m) =~= chunks(first_body(m)) + Seq::empty());
    lemma_reassemble_chunks(Seq::empty(), first_body(m), Seq::empty());
    assert(Seq::<u8>::empty() + first_body(m) =~= first_body(m));
    lemma_exact_frame_is_framed(m);
    assert(seq![m] + Seq::<Seq<u8>>::empty() =~= seq![m]);
}

proof fn lemma_concat_frames(f: Seq<Seq<u8>>)
    requires
        forall|i: int| 0 <= i < f.len() ==> exact_frame(#[trigger] f[i]),
    ensures
        well_framed(concat_all(f)),
        frame_count(concat_all(f)) == f.len(),
        reassemble_from(Seq::empty(), packets(concat_all(f))) == f,
    decreases f.len(),
{
    let s = concat_all(f);
    if f.len() == 0 {
        assert(reassemble_from(Seq::empty(), packets(s)) =~= f);
    } else {
        let f0 = f[0];
        let r = f.skip(1);
        assert forall|i: int| 0 <= i < r.len() implies exact_frame(#[trigger] r[i]) by {
            assert(r[i] == f[i + 1]);
        }
        lemma_concat_frames(r);
        assert(exact_frame(f0));
        assert(s == f0 + concat_all(r));
        assert(s[1] == f0[1] && s[2] == f0[2] && s[3] == f0[3] && s[4] == f0[4]);
        assert(declared_len(s) == declared_len(f0));
        assert(first_body(s) =~= first_body(f0));
        assert(after_first(s) =~= concat_all(r));
        lemma_reassemble_chunks(Seq::empty(), first_body(f0), packets(concat_all(r)));
        assert(Seq::<u8>::empty() + first_body(f0) =~= first_body(f0));
        lemma_exact_frame_is_framed(f0);
        assert(seq![f0] + r =~= f);
    }
}

/// Writing several whole uncompressed gRPC messages in one buffer, then
/// reassembling the packets, gives back the same messages in the same order;
/// and the last packet ends the stream whenever there were two messages or
/// more, or the caller asked for end-of-stream.
pub proof fn lemma_many_messages_round_trip(eos: bool, f: Seq<Seq<u8>>)
    requires
        f.len() >= 1,
        forall|i: int| 0 <= i < f.len() ==> exact_frame(#[trigger] f[i]),
    ensures
        concat_all(f).len() >= 5,
        well_framed(concat_all(f)),
        reassemble(planned_packets(eos, concat_all(f))) == f,
        (eos || f.len() >= 2) ==> planned_packets(eos, concat_all(f)).last().eos,
{
    let s = concat_all(f);
    lemma_concat_frames(f);
    assert(exact_frame(f[0]));
    assert(s == f[0] + concat_all(f.skip(1)));
    let p = planned_packets(eos, s);
    assert(p.map_values(|v: PacketView| (v.eom, v.data)) =~= packets(s));
    lemma_packets_nonempty(s);
}


/// How many packets carry a payload of `n` bytes: `max(1, ceil(n / MAX_PACKET_DATA))`.
pub open spec fn packet_count(n: nat) -> nat {
    if n == 0 {
        1
    } else {
        ((n + MAX_PACKET_DATA - 1) / MAX_PACKET_DATA as int) as nat
    }
}

/// A payload of `n` bytes travels in exactly `max(1, ceil(n / MAX_PACKET_DATA))`
/// consecutive packets, of which only the last closes the message; each
/// message of a buffer is carried by its own such run of packets, in order.
pub proof fn lemma_packets_per_message(body: Seq<u8>, s: Seq<u8>)
    ensures
        chunks(body).len() == packet_count(body.len()),
        forall|i: int| 0 <= i < chunks(body).len() ==> ((#[trigger] chunks(body)[i]).0 <==> i == chunks(body).len() - 1),
        s.len() >= 5 ==> packets(s) == chunks(first_body(s)) + packets(after_first(s)),
    decreases body.len(),
{
    let m = MAX_PACKET_DATA as int;
    if body.len() <= MAX_PACKET_DATA {
        if body.len() > 0 {
            assert((body.len() + m - 1) / m == 1) by {
                lemma_fundamental_div_mod_converse(body.len() + m - 1, m, 1, body.len() - 1);
            }
        }
    } else {
        let t = body.skip(m);
        lemma_packets_per_message(t, s);
        lemma_div_plus_one(t.len() + m - 1, m);
        assert(t.len() + m - 1 + m == body.len() + m - 1);
        assert forall|i: int| 0 <= i < chunks(body).len() implies ((#[trigger] chunks(body)[i]).0 <==> i
            == chunks(body).len() - 1) by {
            if i > 0 {
                assert(chunks(body)[i] == chunks(t)[i - 1]);
            }
        }
    }
}

} // verus!
