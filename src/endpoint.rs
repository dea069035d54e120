//! The decisions an endpoint takes around its ARQ engine: when a sender
//! must wait, how large the first datagram may be, which waiters to wake,
//! how ARQ segments turn into controller events, and what one periodic tick
//! asks of the controller.

use vstd::prelude::*;

use crate::feedback::encode_records;
use crate::le::{le_bytes, le_value, lemma_le_bytes_len, lemma_le_round_trip, pow256};
use crate::scream::{
    ack_kcp_step, elapsed, loss_step, packet_sent_step, pacing_rate, rtt_step, target_bitrate,
    FeedbackPacketInfo, ScreamCongestionControl, ScreamView, SCREAM_FEEDBACK_HEADER,
};
use crate::segment::{SegmentHeader, CMD_ACK, CMD_PUSH, SEGMENT_HEADER_LEN};

verus! {

/// Least time between two feedback datagrams.
pub const FEEDBACK_INTERVAL_US: u64 = 10_000;

/// Smallest send window, in segments.
pub const MIN_SND_WND: u16 = 2;

/// Relies on bytes::BufMut::put_u32_le for Vec<u8>: appends the four
/// little-endian bytes of `n`.
#[verifier::external_body]
fn put_u32_le(buf: &mut Vec<u8>, n: u32)
    requires
        old(buf)@.len() + 4 <= isize::MAX,
    ensures
        final(buf)@ == old(buf)@.add(le_bytes(n as nat, 4)),
{
    bytes::BufMut::put_u32_le(buf, n)
}

/// A feedback datagram: the magic word, then the payload.
pub open spec fn framed_feedback(payload: Seq<u8>) -> Seq<u8> {
    le_bytes(SCREAM_FEEDBACK_HEADER as nat, 4).add(payload)
}

/// Prefixes a feedback payload with the magic word.
pub fn frame_feedback(payload: &[u8]) -> (r: Vec<u8>)
    ensures
        r@ == framed_feedback(payload@),
{
    let mut packet: Vec<u8> = Vec::new();
    put_u32_le(&mut packet, SCREAM_FEEDBACK_HEADER);
    let mut i: usize = 0;
    while i < payload.len()
        invariant
            i <= payload@.len(),
            packet@ == framed_feedback(payload@.subrange(0, i as int)),
        decreases payload@.len() - i,
    {
        packet.push(payload[i]);
        i = i + 1;
        assert(packet@ =~= framed_feedback(payload@.subrange(0, i as int)));
    }
    assert(payload@.subrange(0, i as int) =~= payload@);
    packet
}

/// Every framed feedback datagram opens with the magic word, so a receiver
/// tells it from an ARQ datagram by its first four bytes.
pub proof fn lemma_framed_feedback_magic(payload: Seq<u8>)
    ensures
        framed_feedback(payload).len() >= 4,
        framed_feedback(payload).subrange(0, 4) == le_bytes(SCREAM_FEEDBACK_HEADER as nat, 4),
        le_value(framed_feedback(payload).subrange(0, 4)) == SCREAM_FEEDBACK_HEADER,
{
    let m = le_bytes(SCREAM_FEEDBACK_HEADER as nat, 4);
    lemma_le_bytes_len(SCREAM_FEEDBACK_HEADER as nat, 4);
    assert(framed_feedback(payload).subrange(0, 4) =~= m);
    reveal_with_fuel(pow256, 5);
    lemma_le_round_trip(SCREAM_FEEDBACK_HEADER as nat, 4);
}

/// Whether a sender must wait: after the first datagram, while the
/// engine's queue has reached the local or the remote window, or while the
/// conversation id is still unassigned.
pub open spec fn send_must_wait_spec(
    sent_first: bool,
    wait_snd: int,
    snd_wnd: int,
    rmt_wnd: int,
    waiting_conv: bool,
) -> bool {
    sent_first && (wait_snd >= snd_wnd || wait_snd >= rmt_wnd || waiting_conv)
}

pub fn send_must_wait(
    sent_first: bool,
    wait_snd: usize,
    snd_wnd: u16,
    rmt_wnd: u16,
    waiting_conv: bool,
) -> (r: bool)
    ensures
        r == send_must_wait_spec(sent_first, wait_snd as int, snd_wnd as int, rmt_wnd as int, waiting_conv),
{
    sent_first && (wait_snd >= snd_wnd as usize || wait_snd >= rmt_wnd as usize || waiting_conv)
}

/// How many bytes of a write of `len` go to the engine: the first write of
/// a client still waiting for its conversation id is cut to one MSS.
pub fn first_send_len(sent_first: bool, waiting_conv: bool, len: usize, mss: usize) -> (r: usize)
    ensures
        r == (if !sent_first && waiting_conv && len > mss { mss } else { len }),
        r <= len,
{
    if !sent_first && waiting_conv && len > mss {
        mss
    } else {
        len
    }
}

/// Whether the engine's queue has reached the local or the remote window.
pub fn window_full(wait_snd: usize, snd_wnd: u16, rmt_wnd: u16) -> (r: bool)
    ensures
        r == (wait_snd >= snd_wnd || wait_snd >= rmt_wnd),
{
    wait_snd >= snd_wnd as usize || wait_snd >= rmt_wnd as usize
}

/// Whether queued data should be flushed now: the window is full and the
/// conversation id is known.
pub fn need_flush(wait_snd: usize, snd_wnd: u16, rmt_wnd: u16, waiting_conv: bool) -> (r: bool)
    ensures
        r == ((wait_snd >= snd_wnd || wait_snd >= rmt_wnd) && !waiting_conv),
{
    window_full(wait_snd, snd_wnd, rmt_wnd) && !waiting_conv
}

/// Whether a waiting sender can go on: one waits, and the queue is below
/// both windows with the conversation id known.
pub fn should_wake_sender(
    pending: bool,
    wait_snd: usize,
    snd_wnd: u16,
    rmt_wnd: u16,
    waiting_conv: bool,
) -> (r: bool)
    ensures
        r == (pending && wait_snd < snd_wnd && wait_snd < rmt_wnd && !waiting_conv),
{
    pending && wait_snd < snd_wnd as usize && wait_snd < rmt_wnd as usize && !waiting_conv
}

/// Whether a waiting receiver can go on: one waits, and a message of
/// `peek` bytes is ready that the receive policy lets through.
pub fn should_wake_receiver(pending: bool, peek: Option<usize>, allow_recv_empty_packet: bool) -> (r:
    bool)
    ensures
        r == (pending && peek.is_some() && (allow_recv_empty_packet || peek.unwrap() > 0)),
{
    match peek {
        Some(n) => pending && (allow_recv_empty_packet || n > 0),
        None => false,
    }
}

/// Whether a received message of `n` bytes is handed to the reader.
pub fn recv_delivers(n: usize, allow_recv_empty_packet: bool) -> (r: bool)
    ensures
        r == (n > 0 || allow_recv_empty_packet),
{
    n > 0 || allow_recv_empty_packet
}

/// Send window, in segments, for a reference window of `ref_wnd` bytes: as
/// many MSS as fit, at least two, at most what the engine can hold.
pub open spec fn snd_window(ref_wnd: int, mss: int) -> int {
    let w = ref_wnd / mss;
    if w < MIN_SND_WND {
        MIN_SND_WND as int
    } else if w > u16::MAX {
        u16::MAX as int
    } else {
        w
    }
}

pub fn snd_window_for(ref_wnd: u64, mss: usize) -> (r: u16)
    requires
        mss > 0,
    ensures
        r == snd_window(ref_wnd as int, mss as int),
{
    let w = ref_wnd / (mss as u64);
    if w < MIN_SND_WND as u64 {
        MIN_SND_WND
    } else if w > u16::MAX as u64 {
        u16::MAX
    } else {
        w as u16
    }
}

/// Losses of each of `sns` in turn, at `now`.
pub open spec fn losses_step(s: ScreamView, sns: Seq<u32>, now: int) -> ScreamView
    decreases sns.len(),
{
    if sns.len() == 0 {
        s
    } else {
        loss_step(losses_step(s, sns.drop_last(), now), sns.last(), now)
    }
}

/// First transmissions of each of `pkts` (sequence number, size) in turn,
/// at `now`.
pub open spec fn sends_step(s: ScreamView, pkts: Seq<(u32, usize)>, now: u64) -> ScreamView
    decreases pkts.len(),
{
    if pkts.len() == 0 {
        s
    } else {
        let p = pkts.last();
        packet_sent_step(sends_step(s, pkts.drop_last(), now), p.0, p.1 as int, now)
    }
}

/// What one flush of the engine tells the controller: the losses it
/// detected, if any, then the packets it sent for the first time.
pub open spec fn flush_result_step(
    s: ScreamView,
    loss_detected: bool,
    lost: Seq<u32>,
    sent: Seq<(u32, usize)>,
    now: u64,
) -> ScreamView {
    let s1 = if loss_detected { losses_step(s, lost, now as int) } else { s };
    sends_step(s1, sent, now)
}

/// Hands the outcome of one flush of the engine to the controller.
pub fn process_flush_result(
    scream: &mut ScreamCongestionControl,
    packet_loss_detected: &(bool, Vec<u32>),
    new_packets: &Vec<(u32, usize)>,
    now_us: u64,
)
    requires
        old(scream).wf(),
    ensures
        final(scream).wf(),
        final(scream)@ == flush_result_step(
            old(scream)@,
            packet_loss_detected.0,
            packet_loss_detected.1@,
            new_packets@,
            now_us,
        ),
{
    let ghost s0 = scream@;
    if packet_loss_detected.0 {
        let lost = &packet_loss_detected.1;
        let mut i: usize = 0;
        while i < lost.len()
            invariant
                scream.wf(),
                i <= lost@.len(),
                scream@ == losses_step(s0, lost@.subrange(0, i as int), now_us as int),
            decreases lost@.len() - i,
        {
            scream.on_packet_loss(lost[i], now_us);
            assert(lost@.subrange(0, i + 1).drop_last() =~= lost@.subrange(0, i as int));
            i = i + 1;
        }
        assert(lost@.subrange(0, i as int) =~= lost@);
    }
    let ghost s1 = scream@;
    let mut j: usize = 0;
    while j < new_packets.len()
        invariant
            scream.wf(),
            j <= new_packets@.len(),
            scream@ == sends_step(s1, new_packets@.subrange(0, j as int), now_us),
        decreases new_packets@.len() - j,
    {
        let (sn, size) = new_packets[j];
        scream.on_packet_sent(sn, size, now_us);
        assert(new_packets@.subrange(0, j + 1).drop_last() =~= new_packets@.subrange(0, j as int));
        j = j + 1;
    }
    assert(new_packets@.subrange(0, j as int) =~= new_packets@);
}

/// Bytes a segment takes on the wire.
pub open spec fn wire_size(h: SegmentHeader) -> int {
    if SEGMENT_HEADER_LEN + h.len > usize::MAX {
        usize::MAX as int
    } else {
        SEGMENT_HEADER_LEN + h.len
    }
}

/// Whether a data segment goes out for the first time: its sequence
/// number is above every one sent before (the engine numbers new segments
/// consecutively).
pub open spec fn is_first_send(next_new_sn: int, h: SegmentHeader) -> bool {
    h.cmd == CMD_PUSH && h.sn >= next_new_sn
}

/// Data segments among `segs` sent before and still held in flight: the
/// engine sends them again because it found them lost. A resent segment
/// whose record is gone (acked or already lost) is neither.
pub open spec fn resent_seq_numbers(s: ScreamView, segs: Seq<SegmentHeader>) -> Seq<u32>
    decreases segs.len(),
{
    if segs.len() == 0 {
        Seq::empty()
    } else {
        let h = segs.last();
        let init = resent_seq_numbers(s, segs.drop_last());
        if h.cmd == CMD_PUSH && h.sn < s.next_new_sn && s.packets_in_flight.contains_key(h.sn) {
            init.push(h.sn)
        } else {
            init
        }
    }
}

/// Data segments among `segs` that go out for the first time, with their
/// wire sizes.
pub open spec fn first_sends(s: ScreamView, segs: Seq<SegmentHeader>) -> Seq<(u32, usize)>
    decreases segs.len(),
{
    if segs.len() == 0 {
        Seq::empty()
    } else {
        let h = segs.last();
        let init = first_sends(s, segs.drop_last());
        if is_first_send(s.next_new_sn, h) {
            init.push((h.sn, wire_size(h) as usize))
        } else {
            init
        }
    }
}

/// Sorts the segments of outgoing datagrams into losses (data segments
/// sent again) and first transmissions, in the shape that
/// `process_flush_result` takes. Retransmissions never count as first
/// transmissions.
pub fn flush_result_from_segments(scream: &ScreamCongestionControl, segs: &Vec<SegmentHeader>) -> (r: (
    (bool, Vec<u32>),
    Vec<(u32, usize)>,
))
    ensures
        r.0.1@ == resent_seq_numbers(scream@, segs@),
        r.0.0 == (r.0.1@.len() > 0),
        r.1@ == first_sends(scream@, segs@),
{
    let mut lost: Vec<u32> = Vec::new();
    let mut sent: Vec<(u32, usize)> = Vec::new();
    let next_new_sn = scream.get_next_new_sn();
    let mut i: usize = 0;
    while i < segs.len()
        invariant
            i <= segs@.len(),
            next_new_sn == scream@.next_new_sn,
            lost@ == resent_seq_numbers(scream@, segs@.subrange(0, i as int)),
            sent@ == first_sends(scream@, segs@.subrange(0, i as int)),
        decreases segs@.len() - i,
    {
        let h = segs[i];
        assert(segs@.subrange(0, i + 1).drop_last() =~= segs@.subrange(0, i as int));
        if h.cmd == CMD_PUSH {
            if h.sn as u64 >= next_new_sn {
                sent.push((h.sn, (h.len as usize).saturating_add(SEGMENT_HEADER_LEN)));
            } else if scream.is_in_flight(h.sn) {
                lost.push(h.sn);
            }
        }
        i = i + 1;
    }
    assert(segs@.subrange(0, i as int) =~= segs@);
    let detected = lost.len() > 0;
    ((detected, lost), sent)
}

/// Acknowledgements that incoming segments carry, in turn.
pub open spec fn input_acks_step(s: ScreamView, segs: Seq<SegmentHeader>) -> ScreamView
    decreases segs.len(),
{
    if segs.len() == 0 {
        s
    } else {
        let h = segs.last();
        let s1 = input_acks_step(s, segs.drop_last());
        if h.cmd == CMD_ACK { ack_kcp_step(s1, h.sn) } else { s1 }
    }
}

/// Feedback records for the data segments among `segs`, in order.
pub open spec fn pushed_records(segs: Seq<SegmentHeader>, reception_time_ms: u64) -> Seq<FeedbackPacketInfo>
    decreases segs.len(),
{
    if segs.len() == 0 {
        Seq::empty()
    } else {
        let h = segs.last();
        let init = pushed_records(segs.drop_last(), reception_time_ms);
        if h.cmd == CMD_PUSH {
            init.push(FeedbackPacketInfo { seq_number: h.sn, reception_time_ms })
        } else {
            init
        }
    }
}

/// Hands the segments of an incoming ARQ datagram to the controller: each
/// acknowledgement deducts its packet from the bytes in flight, then each
/// data segment is queued for feedback.
pub fn on_input_segments(
    scream: &mut ScreamCongestionControl,
    segs: &Vec<SegmentHeader>,
    reception_time_ms: u64,
)
    requires
        old(scream).wf(),
    ensures
        final(scream).wf(),
        final(scream)@ == (ScreamView {
            feedback: input_acks_step(old(scream)@, segs@).feedback.add(
                pushed_records(segs@, reception_time_ms),
            ),
            ..input_acks_step(old(scream)@, segs@)
        }),
{
    let ghost s0 = scream@;
    let mut i: usize = 0;
    while i < segs.len()
        invariant
            scream.wf(),
            i <= segs@.len(),
            scream@ == input_acks_step(s0, segs@.subrange(0, i as int)),
        decreases segs@.len() - i,
    {
        assert(segs@.subrange(0, i + 1).drop_last() =~= segs@.subrange(0, i as int));
        if segs[i].cmd == CMD_ACK {
            scream.on_ack_kcp(segs[i].sn);
        }
        i = i + 1;
    }
    assert(segs@.subrange(0, i as int) =~= segs@);
    let ghost s1 = scream@;
    let mut j: usize = 0;
    assert(s1.feedback.add(pushed_records(segs@.subrange(0, 0), reception_time_ms)) =~= s1.feedback);
    while j < segs.len()
        invariant
            scream.wf(),
            j <= segs@.len(),
            scream@ == (ScreamView {
                feedback: s1.feedback.add(pushed_records(segs@.subrange(0, j as int), reception_time_ms)),
                ..s1
            }),
        decreases segs@.len() - j,
    {
        assert(segs@.subrange(0, j + 1).drop_last() =~= segs@.subrange(0, j as int));
        if segs[j].cmd == CMD_PUSH {
            scream.on_packet_received(segs[j].sn, reception_time_ms);
        }
        j = j + 1;
        assert(scream@.feedback =~= s1.feedback.add(pushed_records(segs@.subrange(0, j as int), reception_time_ms)));
    }
    assert(segs@.subrange(0, j as int) =~= segs@);
}

/// Whether feedback is due at `now`: at least the feedback interval since
/// it was last drained.
pub open spec fn feedback_due(s: ScreamView, now: int) -> bool {
    elapsed(now, s.last_feedback_time) >= FEEDBACK_INTERVAL_US
}

/// Whether an RTT rollover is due at `now`: at least one sRTT since the
/// last one.
pub open spec fn rtt_due(s: ScreamView, now: int) -> bool {
    elapsed(now, s.last_periodic_update_time) >= s.s_rtt
}

/// Whether a tick at `now` emits a feedback datagram.
pub open spec fn tick_emits_feedback(s: ScreamView, now: int) -> bool {
    feedback_due(s, now) && s.feedback.len() > 0
}

/// The controller state after a tick at `now`.
pub open spec fn tick_step(s: ScreamView, now: int) -> ScreamView {
    let s1 = if tick_emits_feedback(s, now) {
        ScreamView { feedback: Seq::empty(), last_feedback_time: now, ..s }
    } else {
        s
    };
    if rtt_due(s1, now) { rtt_step(s1, now) } else { s1 }
}

/// What a periodic tick hands back to the endpoint.
pub struct TickOutput {
    /// A feedback datagram to send to the peer past the ARQ framing.
    pub feedback_datagram: Option<Vec<u8>>,
    /// The send window to apply to the engine, when its MSS is known.
    pub snd_wnd: Option<u16>,
    /// Rate for the pacer, bits per second.
    pub pacing_rate: u64,
    /// Target bitrate for the application, bits per second.
    pub target_bitrate: u64,
}

/// The controller's part of a periodic tick at `now_us`: drain pending
/// feedback into a datagram when due, roll the RTT over when due, size the
/// engine's send window from the reference window, and publish the rates.
pub fn controller_tick(scream: &mut ScreamCongestionControl, now_us: u64, mss: usize) -> (r:
    TickOutput)
    requires
        old(scream).wf(),
    ensures
        final(scream).wf(),
        final(scream)@ == tick_step(old(scream)@, now_us as int),
        r.feedback_datagram.is_some() == tick_emits_feedback(old(scream)@, now_us as int),
        r.feedback_datagram.is_some() ==> r.feedback_datagram.unwrap()@ == framed_feedback(
            encode_records(old(scream)@.feedback),
        ),
        r.snd_wnd == (if mss > 0 {
            Some(snd_window(final(scream)@.ref_wnd, mss as int) as u16)
        } else {
            None
        }),
        r.pacing_rate == pacing_rate(final(scream)@),
        r.target_bitrate == target_bitrate(final(scream)@),
{
    let mut feedback_datagram: Option<Vec<u8>> = None;
    if now_us.saturating_sub(scream.get_last_feedback_time()) >= FEEDBACK_INTERVAL_US {
        match scream.create_feedback_packet(now_us) {
            Some(payload) => {
                feedback_datagram = Some(frame_feedback(payload.as_slice()));
            },
            None => {},
        }
    }
    if now_us.saturating_sub(scream.get_last_periodic_update_time()) >= scream.get_s_rtt() {
        scream.on_rtt(now_us);
    }
    let snd_wnd = if mss > 0 {
        Some(snd_window_for(scream.get_ref_wnd(), mss))
    } else {
        None
    };
    TickOutput {
        feedback_datagram,
        snd_wnd,
        pacing_rate: scream.get_pacing_rate(),
        target_bitrate: scream.get_target_bitrate(),
    }
}

/// Feedback built from a list of records and handed to a peer's controller
/// acknowledges exactly the recorded sequence numbers, in order.
pub proof fn lemma_feedback_acks_recorded(peer: ScreamView, records: Seq<FeedbackPacketInfo>, now: int)
    ensures
        crate::scream::acks_step(
            peer,
            crate::feedback::chunk_seq_numbers(encode_records(records)),
            now,
        ) == crate::scream::acks_step(peer, crate::feedback::record_seq_numbers(records), now),
{
    crate::feedback::lemma_feedback_round_trip(records);
}

/// A feedback datagram, with its magic word taken off, is the payload again.
pub proof fn lemma_framed_feedback_payload(payload: Seq<u8>)
    ensures
        framed_feedback(payload).subrange(4, framed_feedback(payload).len() as int) == payload,
{
    lemma_le_bytes_len(SCREAM_FEEDBACK_HEADER as nat, 4);
    assert(framed_feedback(payload).subrange(4, framed_feedback(payload).len() as int) =~= payload);
}

/// Where an endpoint stands in its life.
#[derive(Debug, Clone, Copy, PartialEq, Eq)]
pub enum ConnState {
    /// A client before the server assigned its conversation id.
    WaitingConv,
    Established,
    /// Closed by the application; queued data still drains.
    Closing,
    /// Closed, with nothing left to send.
    Closed,
}

pub open spec fn conn_state_spec(closed: bool, waiting_conv: bool, wait_snd: int) -> ConnState {
    if closed {
        if wait_snd == 0 { ConnState::Closed } else { ConnState::Closing }
    } else if waiting_conv {
        ConnState::WaitingConv
    } else {
        ConnState::Established
    }
}

/// The state of an endpoint from its close mark, whether its engine waits
/// for a conversation id, and how many segments wait to be sent.
pub fn conn_state(closed: bool, waiting_conv: bool, wait_snd: usize) -> (r: ConnState)
    ensures
        r == conn_state_spec(closed, waiting_conv, wait_snd as int),
{
    if closed {
        if wait_snd == 0 { ConnState::Closed } else { ConnState::Closing }
    } else if waiting_conv {
        ConnState::WaitingConv
    } else {
        ConnState::Established
    }
}

/// Closing is reached from every state, and it ends in Closed exactly when
/// the send queue has drained; a server reply that assigns the conversation
/// id moves a waiting client to Established.
pub proof fn lemma_conn_transitions(waiting_conv: bool, wait_snd: int)
    ensures
        conn_state_spec(true, waiting_conv, wait_snd) == (if wait_snd == 0 {
            ConnState::Closed
        } else {
            ConnState::Closing
        }),
        conn_state_spec(false, true, wait_snd) == ConnState::WaitingConv,
        conn_state_spec(false, false, wait_snd) == ConnState::Established,
{
}

/// What a write does.
#[derive(Debug, Clone, Copy, PartialEq, Eq)]
pub enum SendStep {
    /// The endpoint is closed: the write fails with a broken pipe.
    BrokenPipe,
    /// No room: the writer waits to be woken.
    Wait,
    /// Hand this many bytes to the engine.
    Send(usize),
}

pub open spec fn send_step_spec(
    closed: bool,
    sent_first: bool,
    wait_snd: int,
    snd_wnd: int,
    rmt_wnd: int,
    waiting_conv: bool,
    len: int,
    mss: int,
) -> SendStep {
    if closed {
        SendStep::BrokenPipe
    } else if send_must_wait_spec(sent_first, wait_snd, snd_wnd, rmt_wnd, waiting_conv) {
        SendStep::Wait
    } else if !sent_first && waiting_conv && len > mss {
        SendStep::Send(mss as usize)
    } else {
        SendStep::Send(len as usize)
    }
}

/// Decides a write of `len` bytes.
pub fn send_step(
    closed: bool,
    sent_first: bool,
    wait_snd: usize,
    snd_wnd: u16,
    rmt_wnd: u16,
    waiting_conv: bool,
    len: usize,
    mss: usize,
) -> (r: SendStep)
    ensures
        r == send_step_spec(
            closed,
            sent_first,
            wait_snd as int,
            snd_wnd as int,
            rmt_wnd as int,
            waiting_conv,
            len as int,
            mss as int,
        ),
{
    if closed {
        SendStep::BrokenPipe
    } else if send_must_wait(sent_first, wait_snd, snd_wnd, rmt_wnd, waiting_conv) {
        SendStep::Wait
    } else {
        SendStep::Send(first_send_len(sent_first, waiting_conv, len, mss))
    }
}

/// What a read does.
#[derive(Debug, Clone, Copy, PartialEq, Eq)]
pub enum RecvStep {
    /// The endpoint is closed: the read returns 0.
    Closed,
    /// Hand the message just read to the reader.
    Deliver,
    /// Nothing to hand over: the reader waits to be woken.
    Wait,
}

/// Decides a read from the outcome of the engine's receive: `Some(n)` for a
/// message of `n` bytes, `None` when no whole message is queued.
pub fn recv_step(closed: bool, received: Option<usize>, allow_recv_empty_packet: bool) -> (r:
    RecvStep)
    ensures
        r == (if closed {
            RecvStep::Closed
        } else if received.is_some() && (received.unwrap() > 0 || allow_recv_empty_packet) {
            RecvStep::Deliver
        } else {
            RecvStep::Wait
        }),
{
    if closed {
        return RecvStep::Closed;
    }
    match received {
        Some(n) => {
            if recv_delivers(n, allow_recv_empty_packet) {
                RecvStep::Deliver
            } else {
                RecvStep::Wait
            }
        },
        None => RecvStep::Wait,
    }
}

} // verus!
