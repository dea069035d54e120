//! Delay-based congestion control: RTT smoothing, base-RTT tracking,
//! queuing-delay averaging, a reference window that grows with acked bytes and
//! shrinks on queuing pressure or loss, and per-packet reception feedback.
//!
//! Times are microseconds on a monotonic clock and are handed in by the
//! caller; windows and byte counts are whole bytes.

use std::collections::HashMap;
use vstd::prelude::*;

use crate::feedback::{
    chunk_seq_numbers, encode_feedback, encode_records, parse_feedback, RECORD_LEN,
};

verus! {

broadcast use vstd::std_specs::hash::group_hash_axioms;

/// Magic word that opens every feedback datagram ("SCMFB").
pub const SCREAM_FEEDBACK_HEADER: u32 = 0x5C4D4642;

/// Maximum segment size in bytes.
pub const MSS: u64 = 1000;

/// Absolute floor of the reference window, in bytes.
pub const MIN_REF_WND: u64 = 2000;

/// Ceiling of the reference window, above one and a half times the largest
/// byte count that the in-flight counters can hold.
pub const MAX_REF_WND: u64 = 0x2_0000_0000;

/// Length of the sliding window over which the base RTT is the minimum RTT.
pub const BASE_RTT_WINDOW_US: u64 = 10_000_000;

/// Base RTT and windowed minimum before any sample arrives.
pub const INITIAL_BASE_RTT_US: u64 = 10_000_000;

/// Queuing-delay target; pressure starts at half of it.
pub const QDELAY_TARGET_US: u64 = 60_000;

/// Reduction factors are fractions with the queuing-delay target as
/// denominator, so that the queuing-pressure factor is exact.
pub const REDUCTION_SCALE: u64 = QDELAY_TARGET_US;

/// Reduction factor on loss (0.7).
pub const BETA_LOSS: u64 = REDUCTION_SCALE * 7 / 10;

/// Reduction factor on congestion-experienced feedback (0.8).
pub const BETA_ECN: u64 = REDUCTION_SCALE * 8 / 10;

/// Floor of the smoothed RTT used to scale the post-congestion ramp.
pub const MIN_RAMP_RTT_US: u64 = 10_000;

/// Number of RTTs over which growth ramps back up after congestion.
pub const POST_CONGESTION_DELAY_RTT: u64 = 4;

/// Multiplicative increase per acked byte (0.02), as a percentage.
pub const MUL_INCREASE_PERCENT: u64 = 2;

/// Target bitrate bounds, bits per second.
pub const MIN_TARGET_BITRATE: u64 = 500_000;
pub const MAX_TARGET_BITRATE: u64 = 10_000_000;

/// One record of the feedback list: a received sequence number and the
/// wall-clock reception time in milliseconds since the UNIX epoch.
#[derive(Debug, Clone, Copy, PartialEq, Eq)]
pub struct FeedbackPacketInfo {
    pub seq_number: u32,
    pub reception_time_ms: u64,
}

/// What the controller remembers of a packet in flight.
#[derive(Debug, Clone, Copy, PartialEq, Eq)]
pub struct PacketInfo {
    pub timestamp_us: u64,
    pub size: u32,
    pub acked_by_kcp: bool,
}

/// The mathematical state of a controller.
pub struct ScreamView {
    pub s_rtt: int,
    pub rtt_var: int,
    pub base_rtt: int,
    pub min_rtt_in_window: int,
    pub base_rtt_update_time: int,
    pub qdelay: int,
    pub qdelay_avg: int,
    pub ref_wnd: int,
    pub ref_wnd_i: int,
    pub bytes_in_flight: int,
    pub max_bytes_in_flight: int,
    pub max_bytes_in_flight_prev: int,
    pub bytes_newly_acked: int,
    pub bytes_newly_acked_ce: int,
    pub loss_occured_in_rtt: bool,
    pub last_congestion_detected_time: int,
    pub last_ref_wnd_i_update_time: int,
    pub last_periodic_update_time: int,
    pub packets_in_flight: Map<u32, PacketInfo>,
    pub first_rtt_measurement: bool,
    pub loss_for_log: bool,
    pub feedback: Seq<FeedbackPacketInfo>,
    pub last_feedback_time: int,
    /// One past the highest sequence number sent so far: sequence numbers
    /// below it have been on the wire before.
    pub next_new_sn: int,
    /// Smallest and largest RTT sample seen so far.
    pub rtt_lo: int,
    pub rtt_hi: int,
}

/// Congestion-control state of one endpoint.
pub struct ScreamCongestionControl {
    s_rtt_us: u64,
    rtt_var_us: u64,
    base_rtt_us: u64,
    min_rtt_in_window_us: u64,
    base_rtt_update_time_us: u64,
    qdelay_us: u64,
    qdelay_avg_us: u64,
    ref_wnd: u64,
    ref_wnd_i: u64,
    bytes_in_flight: u32,
    max_bytes_in_flight: u32,
    max_bytes_in_flight_prev: u32,
    bytes_newly_acked: u32,
    bytes_newly_acked_ce: u32,
    loss_occured_in_rtt: bool,
    last_congestion_detected_time_us: u64,
    last_ref_wnd_i_update_time_us: u64,
    last_periodic_update_time_us: u64,
    packets_in_flight: HashMap<u32, PacketInfo>,
    first_rtt_measurement: bool,
    loss_for_log: bool,
    received_packets_for_feedback: Vec<FeedbackPacketInfo>,
    last_feedback_time_us: u64,
    next_new_sn: u64,
    rtt_lo: Ghost<int>,
    rtt_hi: Ghost<int>,
}

impl View for ScreamCongestionControl {
    type V = ScreamView;

    closed spec fn view(&self) -> ScreamView {
        ScreamView {
            s_rtt: self.s_rtt_us as int,
            rtt_var: self.rtt_var_us as int,
            base_rtt: self.base_rtt_us as int,
            min_rtt_in_window: self.min_rtt_in_window_us as int,
            base_rtt_update_time: self.base_rtt_update_time_us as int,
            qdelay: self.qdelay_us as int,
            qdelay_avg: self.qdelay_avg_us as int,
            ref_wnd: self.ref_wnd as int,
            ref_wnd_i: self.ref_wnd_i as int,
            bytes_in_flight: self.bytes_in_flight as int,
            max_bytes_in_flight: self.max_bytes_in_flight as int,
            max_bytes_in_flight_prev: self.max_bytes_in_flight_prev as int,
            bytes_newly_acked: self.bytes_newly_acked as int,
            bytes_newly_acked_ce: self.bytes_newly_acked_ce as int,
            loss_occured_in_rtt: self.loss_occured_in_rtt,
            last_congestion_detected_time: self.last_congestion_detected_time_us as int,
            last_ref_wnd_i_update_time: self.last_ref_wnd_i_update_time_us as int,
            last_periodic_update_time: self.last_periodic_update_time_us as int,
            packets_in_flight: self.packets_in_flight@,
            first_rtt_measurement: self.first_rtt_measurement,
            loss_for_log: self.loss_for_log,
            feedback: self.received_packets_for_feedback@,
            last_feedback_time: self.last_feedback_time_us as int,
            next_new_sn: self.next_new_sn as int,
            rtt_lo: self.rtt_lo@,
            rtt_hi: self.rtt_hi@,
        }
    }
}

/// The controller's invariant.
pub open spec fn view_wf(s: ScreamView) -> bool {
    &&& 0 <= s.bytes_in_flight <= u32::MAX
    &&& 0 <= s.max_bytes_in_flight_prev <= u32::MAX
    &&& 0 <= s.bytes_newly_acked <= u32::MAX
    &&& 0 <= s.s_rtt
    &&& MIN_REF_WND <= s.ref_wnd <= MAX_REF_WND
    &&& MIN_REF_WND <= s.ref_wnd_i <= MAX_REF_WND
    &&& !s.first_rtt_measurement ==> 0 < s.rtt_lo <= s.s_rtt <= s.rtt_hi
}

/// The state of a controller created at `now`.
pub open spec fn initial_view(s: ScreamView, now: int) -> bool {
    &&& s.s_rtt == 0
    &&& s.rtt_var == 0
    &&& s.base_rtt == INITIAL_BASE_RTT_US
    &&& s.min_rtt_in_window == INITIAL_BASE_RTT_US
    &&& s.base_rtt_update_time == now
    &&& s.qdelay == 0
    &&& s.qdelay_avg == 0
    &&& s.ref_wnd == 2 * MSS
    &&& s.ref_wnd_i == 2 * MSS
    &&& s.bytes_in_flight == 0
    &&& s.max_bytes_in_flight == 0
    &&& s.max_bytes_in_flight_prev == 0
    &&& s.bytes_newly_acked == 0
    &&& s.bytes_newly_acked_ce == 0
    &&& !s.loss_occured_in_rtt
    &&& s.last_congestion_detected_time == now
    &&& s.last_ref_wnd_i_update_time == now
    &&& s.last_periodic_update_time == now
    &&& s.packets_in_flight == Map::<u32, PacketInfo>::empty()
    &&& s.first_rtt_measurement
    &&& !s.loss_for_log
    &&& s.feedback == Seq::<FeedbackPacketInfo>::empty()
    &&& s.last_feedback_time == now
    &&& s.next_new_sn == 0
}


pub open spec fn min(a: int, b: int) -> int {
    if a <= b { a } else { b }
}

pub open spec fn max(a: int, b: int) -> int {
    if a >= b { a } else { b }
}

/// Time from `then` to `now`, zero if `now` is not later.
pub open spec fn elapsed(now: int, then: int) -> int {
    if now > then { now - then } else { 0 }
}

pub open spec fn sat_sub(a: int, b: int) -> int {
    if a > b { a - b } else { 0 }
}

pub open spec fn sat_add_u32(a: int, b: int) -> int {
    if a + b > u32::MAX { u32::MAX as int } else { a + b }
}

pub open spec fn abs_diff(a: int, b: int) -> int {
    if a >= b { a - b } else { b - a }
}

/// sRTT <- 7/8 sRTT + 1/8 sample.
pub open spec fn smooth_rtt(s_rtt: int, rtt: int) -> int {
    (7 * s_rtt + rtt) / 8
}

/// rttVar <- 3/4 rttVar + 1/4 |sRTT - sample|.
pub open spec fn smooth_rtt_var(rtt_var: int, s_rtt: int, rtt: int) -> int {
    (3 * rtt_var + abs_diff(s_rtt, rtt)) / 4
}

/// qdelay_avg <- 9/10 qdelay_avg + 1/10 qdelay.
pub open spec fn smooth_qdelay(avg: int, qdelay: int) -> int {
    (9 * avg + qdelay) / 10
}

/// Folds one non-zero RTT sample, taken at `now`, into the estimates.
pub open spec fn rtt_sample_step(s: ScreamView, rtt: int, now: int) -> ScreamView {
    let s1 = if s.first_rtt_measurement {
        ScreamView {
            s_rtt: rtt,
            base_rtt: rtt,
            rtt_var: rtt / 2,
            first_rtt_measurement: false,
            rtt_lo: rtt,
            rtt_hi: rtt,
            ..s
        }
    } else {
        ScreamView {
            rtt_var: smooth_rtt_var(s.rtt_var, s.s_rtt, rtt),
            s_rtt: smooth_rtt(s.s_rtt, rtt),
            rtt_lo: min(s.rtt_lo, rtt),
            rtt_hi: max(s.rtt_hi, rtt),
            ..s
        }
    };
    let m = min(s1.min_rtt_in_window, rtt);
    let s2 = if elapsed(now, s1.base_rtt_update_time) >= BASE_RTT_WINDOW_US {
        ScreamView {
            base_rtt: m,
            min_rtt_in_window: INITIAL_BASE_RTT_US as int,
            base_rtt_update_time: now,
            ..s1
        }
    } else {
        ScreamView { min_rtt_in_window: m, ..s1 }
    };
    let q = sat_sub(rtt, s2.base_rtt);
    ScreamView { qdelay: q, qdelay_avg: smooth_qdelay(s2.qdelay_avg, q), ..s2 }
}

/// Feedback from the peer acknowledges `sn` at `now`.
pub open spec fn ack_scream_step(s: ScreamView, sn: u32, now: int) -> ScreamView {
    if !s.packets_in_flight.contains_key(sn) {
        s
    } else {
        let info = s.packets_in_flight[sn];
        let s1 = ScreamView {
            packets_in_flight: s.packets_in_flight.remove(sn),
            bytes_in_flight: if info.acked_by_kcp {
                s.bytes_in_flight
            } else {
                sat_sub(s.bytes_in_flight, info.size as int)
            },
            bytes_newly_acked: sat_add_u32(s.bytes_newly_acked, info.size as int),
            ..s
        };
        let rtt = elapsed(now, info.timestamp_us as int);
        if rtt == 0 {
            s1
        } else {
            rtt_sample_step(s1, rtt, now)
        }
    }
}

/// Reduction factor (over REDUCTION_SCALE) that the averaged queuing delay
/// asks for: 1 - backoff / 2, with backoff the clamped excess over half the
/// target, relative to half the target.
pub open spec fn qdelay_reduction(qdelay_avg: int) -> int {
    let half = QDELAY_TARGET_US / 2;
    if qdelay_avg > half {
        REDUCTION_SCALE - min(qdelay_avg - half, half as int)
    } else {
        REDUCTION_SCALE as int
    }
}

/// Reduction factor of one decrease: the queuing-delay factor, lowered to
/// the loss factor on loss, else to the ECN factor on congestion experienced.
pub open spec fn reduction_factor(qdelay_avg: int, is_loss: bool, is_ce: bool) -> int {
    let rf = qdelay_reduction(qdelay_avg);
    if is_loss {
        min(rf, BETA_LOSS as int)
    } else if is_ce {
        min(rf, BETA_ECN as int)
    } else {
        rf
    }
}

/// Whether a decrease at `now` fires: some trigger holds and more than one
/// sRTT has passed since the last congestion event.
pub open spec fn congestion_event(s: ScreamView, now: int, is_loss: bool, is_ce: bool) -> bool {
    &&& s.qdelay_avg > QDELAY_TARGET_US / 2 || is_loss || is_ce
    &&& elapsed(now, s.last_congestion_detected_time) > s.s_rtt
}

pub open spec fn decrease_step(s: ScreamView, now: int, is_loss: bool, is_ce: bool) -> ScreamView {
    if !congestion_event(s, now, is_loss, is_ce) {
        s
    } else {
        let s1 = if elapsed(now, s.last_ref_wnd_i_update_time) >= 10 * s.s_rtt {
            ScreamView { ref_wnd_i: s.ref_wnd, last_ref_wnd_i_update_time: now, ..s }
        } else {
            s
        };
        let rf = reduction_factor(s.qdelay_avg, is_loss, is_ce);
        ScreamView {
            ref_wnd: max(MIN_REF_WND as int, s1.ref_wnd * rf / REDUCTION_SCALE as int),
            last_congestion_detected_time: now,
            ..s1
        }
    }
}

/// Growth of the window for the bytes acked in this RTT, before damping:
/// an additive part, MSS per window of acked bytes, and a multiplicative
/// part, 2% of the acked bytes, scaled by the time since the last
/// congestion event over four sRTTs (at most 1).
pub open spec fn raw_increment(s: ScreamView, now: int) -> int {
    let den = POST_CONGESTION_DELAY_RTT * max(MIN_RAMP_RTT_US as int, s.s_rtt);
    let num = min(elapsed(now, s.last_congestion_detected_time), den);
    let additive = s.bytes_newly_acked * MSS / max(s.ref_wnd, MSS as int);
    let multiplicative = s.bytes_newly_acked * MUL_INCREASE_PERCENT * num / (100 * den);
    additive + multiplicative
}

/// Damping near the last inflection point: with scale the clamped relative
/// excess over ref_wnd_i (at most 4), the increment is multiplied by
/// max(1/4, 1 - (scale/4)^2).
pub open spec fn damped_increment(inc: int, ref_wnd: int, ref_wnd_i: int) -> int {
    if ref_wnd > ref_wnd_i {
        let d = min(ref_wnd - ref_wnd_i, 4 * ref_wnd_i);
        let full = 16 * ref_wnd_i * ref_wnd_i;
        inc * max(full - d * d, 4 * ref_wnd_i * ref_wnd_i) / full
    } else {
        inc
    }
}

/// The most the window may grow to: one and a half times the largest
/// number of bytes in flight in the previous RTT, or the window itself.
pub open spec fn max_allowed_wnd(s: ScreamView) -> int {
    max(s.ref_wnd, s.max_bytes_in_flight_prev * 3 / 2)
}

pub open spec fn increase_step(s: ScreamView, now: int) -> ScreamView {
    if s.bytes_newly_acked == 0 {
        s
    } else {
        let inc = damped_increment(raw_increment(s, now), s.ref_wnd, s.ref_wnd_i);
        let cap = max_allowed_wnd(s);
        ScreamView { ref_wnd: if s.ref_wnd + inc <= cap { s.ref_wnd + inc } else { cap }, ..s }
    }
}

/// The packet `sn` of `size` bytes goes on the wire at `now`.
pub open spec fn packet_sent_step(s: ScreamView, sn: u32, size: int, now: u64) -> ScreamView {
    let sz = min(size, u32::MAX as int);
    let bif = sat_add_u32(s.bytes_in_flight, sz);
    ScreamView {
        packets_in_flight: s.packets_in_flight.insert(
            sn,
            PacketInfo { timestamp_us: now, size: sz as u32, acked_by_kcp: false },
        ),
        bytes_in_flight: bif,
        max_bytes_in_flight: max(s.max_bytes_in_flight, bif),
        next_new_sn: max(s.next_new_sn, sn + 1),
        ..s
    }
}

/// The ARQ engine reports `sn` acked: its bytes leave the in-flight count
/// once, and its record stays until feedback or loss resolves it.
pub open spec fn ack_kcp_step(s: ScreamView, sn: u32) -> ScreamView {
    if s.packets_in_flight.contains_key(sn) && !s.packets_in_flight[sn].acked_by_kcp {
        let info = s.packets_in_flight[sn];
        ScreamView {
            bytes_in_flight: sat_sub(s.bytes_in_flight, info.size as int),
            packets_in_flight: s.packets_in_flight.insert(
                sn,
                PacketInfo { acked_by_kcp: true, ..info },
            ),
            ..s
        }
    } else {
        s
    }
}

/// The ARQ engine reports `sn` lost at `now`: its record goes, and its
/// bytes leave the in-flight count unless an ARQ ack already took them.
pub open spec fn loss_step(s: ScreamView, sn: u32, now: int) -> ScreamView {
    if s.packets_in_flight.contains_key(sn) {
        let info = s.packets_in_flight[sn];
        let s1 = ScreamView {
            packets_in_flight: s.packets_in_flight.remove(sn),
            bytes_in_flight: if info.acked_by_kcp {
                s.bytes_in_flight
            } else {
                sat_sub(s.bytes_in_flight, info.size as int)
            },
            loss_occured_in_rtt: true,
            loss_for_log: true,
            ..s
        };
        decrease_step(s1, now, true, false)
    } else {
        s
    }
}

/// RTT rollover at `now`: grow, then shrink if due, then start a new RTT.
pub open spec fn rtt_step(s: ScreamView, now: int) -> ScreamView {
    let s1 = increase_step(s, now);
    let s2 = decrease_step(s1, now, s.loss_occured_in_rtt, false);
    ScreamView {
        max_bytes_in_flight_prev: s2.max_bytes_in_flight,
        max_bytes_in_flight: s2.bytes_in_flight,
        bytes_newly_acked: 0,
        bytes_newly_acked_ce: 0,
        loss_occured_in_rtt: false,
        last_periodic_update_time: now,
        ..s2
    }
}

/// Feedback acknowledging each of `sns` in turn, all arriving at `now`.
pub open spec fn acks_step(s: ScreamView, sns: Seq<u32>, now: int) -> ScreamView
    decreases sns.len(),
{
    if sns.len() == 0 {
        s
    } else {
        ack_scream_step(acks_step(s, sns.drop_last(), now), sns.last(), now)
    }
}

/// Target bitrate in bits per second: the window per sRTT, clamped.
pub open spec fn target_bitrate(s: ScreamView) -> int {
    if s.s_rtt <= 0 {
        MIN_TARGET_BITRATE as int
    } else {
        let raw = s.ref_wnd * 8 * 1_000_000 / s.s_rtt;
        if raw < MIN_TARGET_BITRATE {
            MIN_TARGET_BITRATE as int
        } else if raw > MAX_TARGET_BITRATE {
            MAX_TARGET_BITRATE as int
        } else {
            raw
        }
    }
}

/// Pacing rate: the target bitrate with 25% headroom.
pub open spec fn pacing_rate(s: ScreamView) -> int {
    target_bitrate(s) * 5 / 4
}

/// The reference window after a step stays at or above its floor and at or
/// below the larger of the window before it and one and a half times the
/// previous RTT's largest bytes in flight.
pub open spec fn ref_wnd_within(before: ScreamView, after: ScreamView) -> bool {
    &&& MIN_REF_WND <= after.ref_wnd
    &&& after.ref_wnd <= max(before.ref_wnd, before.max_bytes_in_flight_prev * 3 / 2)
}

/// The bytes in flight are never negative in a well-formed controller.
pub proof fn lemma_bytes_in_flight_nonnegative(s: ScreamView)
    requires
        view_wf(s),
    ensures
        s.bytes_in_flight >= 0,
{
}

proof fn lemma_decrease_lowers(s: ScreamView, now: int, is_loss: bool, is_ce: bool)
    requires
        view_wf(s),
    ensures
        MIN_REF_WND <= decrease_step(s, now, is_loss, is_ce).ref_wnd <= s.ref_wnd,
        decrease_step(s, now, is_loss, is_ce).max_bytes_in_flight_prev == s.max_bytes_in_flight_prev,
{
    let rf = reduction_factor(s.qdelay_avg, is_loss, is_ce);
    assert(s.ref_wnd * rf <= s.ref_wnd * REDUCTION_SCALE) by (nonlinear_arith)
        requires rf <= REDUCTION_SCALE, s.ref_wnd >= 0;
    assert(s.ref_wnd * rf / (REDUCTION_SCALE as int) <= s.ref_wnd) by (nonlinear_arith)
        requires s.ref_wnd * rf <= s.ref_wnd * REDUCTION_SCALE;
}

/// A reference-window decrease keeps the window within its bounds, never
/// below half of it, and moves the inflection point to the window only
/// when it fires at least ten sRTTs after the inflection point's last move.
pub proof fn lemma_ref_wnd_bounds_decrease(s: ScreamView, now: int, is_loss: bool, is_ce: bool)
    requires
        view_wf(s),
    ensures
        ref_wnd_within(s, decrease_step(s, now, is_loss, is_ce)),
        decrease_step(s, now, is_loss, is_ce).ref_wnd <= s.ref_wnd,
        decrease_step(s, now, is_loss, is_ce).ref_wnd >= s.ref_wnd / 2,
        decrease_step(s, now, is_loss, is_ce).ref_wnd_i == (if congestion_event(s, now, is_loss, is_ce)
            && elapsed(now, s.last_ref_wnd_i_update_time) >= 10 * s.s_rtt {
            s.ref_wnd
        } else {
            s.ref_wnd_i
        }),
{
    lemma_decrease_lowers(s, now, is_loss, is_ce);
    let rf = reduction_factor(s.qdelay_avg, is_loss, is_ce);
    assert(rf >= REDUCTION_SCALE / 2);
    assert(s.ref_wnd * rf >= s.ref_wnd * (REDUCTION_SCALE / 2)) by (nonlinear_arith)
        requires rf >= REDUCTION_SCALE / 2, s.ref_wnd >= 0;
    assert(s.ref_wnd * rf / (REDUCTION_SCALE as int) >= s.ref_wnd / 2) by (nonlinear_arith)
        requires s.ref_wnd * rf >= s.ref_wnd * (REDUCTION_SCALE / 2), s.ref_wnd >= 0;
}

/// A window increase never passes one and a half times the previous RTT's
/// largest bytes in flight, unless the window already stood above it.
pub proof fn lemma_ref_wnd_bounds_increase(s: ScreamView, now: int)
    requires
        view_wf(s),
    ensures
        ref_wnd_within(s, increase_step(s, now)),
        view_wf(increase_step(s, now)),
        s.bytes_newly_acked == 0 ==> increase_step(s, now) == s,
        s.ref_wnd <= increase_step(s, now).ref_wnd,
{
    lemma_increment_nonnegative(s, now);
}

proof fn lemma_increment_nonnegative(s: ScreamView, now: int)
    requires
        view_wf(s),
    ensures
        damped_increment(raw_increment(s, now), s.ref_wnd, s.ref_wnd_i) >= 0,
{
    let den = POST_CONGESTION_DELAY_RTT * max(MIN_RAMP_RTT_US as int, s.s_rtt);
    let num = min(elapsed(now, s.last_congestion_detected_time), den);
    let bna = s.bytes_newly_acked;
    assert(bna * MSS / max(s.ref_wnd, MSS as int) >= 0) by (nonlinear_arith)
        requires bna >= 0, max(s.ref_wnd, MSS as int) > 0;
    assert(bna * MUL_INCREASE_PERCENT * num / (100 * den) >= 0) by (nonlinear_arith)
        requires bna >= 0, num >= 0, den > 0;
    let inc = raw_increment(s, now);
    if s.ref_wnd > s.ref_wnd_i {
        let i = s.ref_wnd_i;
        let d = min(s.ref_wnd - i, 4 * i);
        let full = 16 * i * i;
        let f = max(full - d * d, 4 * i * i);
        assert(full > 0 && f >= 0) by (nonlinear_arith)
            requires i > 0, f == max(full - d * d, 4 * i * i), full == 16 * i * i;
        assert(inc * f / full >= 0) by (nonlinear_arith)
            requires inc >= 0, f >= 0, full > 0;
    }
}

/// An RTT rollover keeps the window within its bounds.
pub proof fn lemma_ref_wnd_bounds_rtt(s: ScreamView, now: int)
    requires
        view_wf(s),
    ensures
        ref_wnd_within(s, rtt_step(s, now)),
{
    let s1 = increase_step(s, now);
    lemma_ref_wnd_bounds_increase(s, now);
    lemma_decrease_lowers(s1, now, s.loss_occured_in_rtt, false);
}

/// A loss keeps the window within its bounds.
pub proof fn lemma_ref_wnd_bounds_loss(s: ScreamView, sn: u32, now: int)
    requires
        view_wf(s),
    ensures
        ref_wnd_within(s, loss_step(s, sn, now)),
{
    if s.packets_in_flight.contains_key(sn) {
        let info = s.packets_in_flight[sn];
        let s1 = ScreamView {
            packets_in_flight: s.packets_in_flight.remove(sn),
            bytes_in_flight: if info.acked_by_kcp {
                s.bytes_in_flight
            } else {
                sat_sub(s.bytes_in_flight, info.size as int)
            },
            loss_occured_in_rtt: true,
            loss_for_log: true,
            ..s
        };
        lemma_decrease_lowers(s1, now, true, false);
    }
}

/// Loss backoff: a loss of a packet in flight, more than one sRTT after the
/// last congestion event, with no queuing pressure and nothing acked in the
/// RTT, followed by the RTT rollover within one sRTT of the loss, leaves the
/// window at 0.7 of what it was, but not below its floor; the reduction
/// applies once.
pub proof fn lemma_loss_backoff(s: ScreamView, sn: u32, t_loss: int, t_rtt: int)
    requires
        view_wf(s),
        s.packets_in_flight.contains_key(sn),
        elapsed(t_loss, s.last_congestion_detected_time) > s.s_rtt,
        s.qdelay_avg <= QDELAY_TARGET_US / 2,
        s.bytes_newly_acked == 0,
        elapsed(t_rtt, t_loss) <= s.s_rtt,
    ensures
        rtt_step(loss_step(s, sn, t_loss), t_rtt).ref_wnd == max(
            MIN_REF_WND as int,
            s.ref_wnd * BETA_LOSS / REDUCTION_SCALE as int,
        ),
{
    let l = loss_step(s, sn, t_loss);
    lemma_ref_wnd_bounds_loss(s, sn, t_loss);
    assert(l.bytes_newly_acked == 0);
    assert(increase_step(l, t_rtt) == l);
    assert(l.last_congestion_detected_time == t_loss);
    assert(!congestion_event(l, t_rtt, true, false));
}

/// Sending, ARQ acknowledgements and feedback acknowledgements leave the reference window as it is.
pub proof fn lemma_ref_wnd_untouched(s: ScreamView, sn: u32, size: int, now: u64, rtt_now: int)
    ensures
        packet_sent_step(s, sn, size, now).ref_wnd == s.ref_wnd,
        ack_kcp_step(s, sn).ref_wnd == s.ref_wnd,
        ack_scream_step(s, sn, rtt_now).ref_wnd == s.ref_wnd,
{
}

/// After at least one RTT sample, the smoothed RTT lies between the
/// smallest and the largest sample seen; a new sample widens that range
/// to include itself.
pub proof fn lemma_srtt_between_samples(s: ScreamView, rtt: int, now: int)
    requires
        view_wf(s),
        rtt > 0,
    ensures
        ({
            let t = rtt_sample_step(s, rtt, now);
            &&& t.rtt_lo <= t.s_rtt <= t.rtt_hi
            &&& t.rtt_lo == (if s.first_rtt_measurement { rtt } else { min(s.rtt_lo, rtt) })
            &&& t.rtt_hi == (if s.first_rtt_measurement { rtt } else { max(s.rtt_hi, rtt) })
        }),
{
}

/// A packet in flight is resolved once: after feedback acknowledges it, a
/// loss report for it changes nothing, and after a loss report, feedback
/// for it changes nothing.
pub proof fn lemma_resolved_once(s: ScreamView, sn: u32, now: int, later: int)
    ensures
        loss_step(ack_scream_step(s, sn, now), sn, later) == ack_scream_step(s, sn, now),
        ack_scream_step(loss_step(s, sn, now), sn, later) == loss_step(s, sn, now),
{
    if s.packets_in_flight.contains_key(sn) {
        let a = ack_scream_step(s, sn, now);
        assert(!a.packets_in_flight.contains_key(sn));
        let l = loss_step(s, sn, now);
        assert(!l.packets_in_flight.contains_key(sn));
    }
}

impl ScreamCongestionControl {
    pub open spec fn wf(&self) -> bool {
        view_wf(self@)
    }

    /// A controller created at time `now_us`.
    pub fn new(now_us: u64) -> (r: Self)
        ensures
            r.wf(),
            initial_view(r@, now_us as int),
    {
        ScreamCongestionControl {
            s_rtt_us: 0,
            rtt_var_us: 0,
            base_rtt_us: INITIAL_BASE_RTT_US,
            min_rtt_in_window_us: INITIAL_BASE_RTT_US,
            base_rtt_update_time_us: now_us,
            qdelay_us: 0,
            qdelay_avg_us: 0,
            ref_wnd: 2 * MSS,
            ref_wnd_i: 2 * MSS,
            bytes_in_flight: 0,
            max_bytes_in_flight: 0,
            max_bytes_in_flight_prev: 0,
            bytes_newly_acked: 0,
            bytes_newly_acked_ce: 0,
            loss_occured_in_rtt: false,
            last_congestion_detected_time_us: now_us,
            last_ref_wnd_i_update_time_us: now_us,
            last_periodic_update_time_us: now_us,
            packets_in_flight: HashMap::new(),
            first_rtt_measurement: true,
            loss_for_log: false,
            received_packets_for_feedback: Vec::new(),
            last_feedback_time_us: now_us,
            next_new_sn: 0,
            rtt_lo: Ghost(0),
            rtt_hi: Ghost(0),
        }
    }

    /// Folds a non-zero RTT sample into sRTT, rttVar, base RTT and queuing delay.
    fn on_rtt_sample(&mut self, latest_rtt_us: u64, now_us: u64)
        requires
            old(self).wf(),
            latest_rtt_us > 0,
        ensures
            final(self).wf(),
            final(self)@ == rtt_sample_step(old(self)@, latest_rtt_us as int, now_us as int),
    {
        if self.first_rtt_measurement {
            self.s_rtt_us = latest_rtt_us;
            self.base_rtt_us = latest_rtt_us;
            self.rtt_var_us = latest_rtt_us / 2;
            self.first_rtt_measurement = false;
            self.rtt_lo = Ghost(latest_rtt_us as int);
            self.rtt_hi = Ghost(latest_rtt_us as int);
        } else {
            let s = self.s_rtt_us;
            let diff = if s >= latest_rtt_us { s - latest_rtt_us } else { latest_rtt_us - s };
            let v = (3 * (self.rtt_var_us as u128) + diff as u128) / 4;
            let n = (7 * (s as u128) + latest_rtt_us as u128) / 8;
            self.rtt_var_us = v as u64;
            self.s_rtt_us = n as u64;
            self.rtt_lo = Ghost(min(self.rtt_lo@, latest_rtt_us as int));
            self.rtt_hi = Ghost(max(self.rtt_hi@, latest_rtt_us as int));
        }
        if latest_rtt_us < self.min_rtt_in_window_us {
            self.min_rtt_in_window_us = latest_rtt_us;
        }
        if now_us.saturating_sub(self.base_rtt_update_time_us) >= BASE_RTT_WINDOW_US {
            self.base_rtt_us = self.min_rtt_in_window_us;
            self.min_rtt_in_window_us = INITIAL_BASE_RTT_US;
            self.base_rtt_update_time_us = now_us;
        }
        self.qdelay_us = latest_rtt_us.saturating_sub(self.base_rtt_us);
        self.qdelay_avg_us = ((9 * (self.qdelay_avg_us as u128) + self.qdelay_us as u128) / 10) as u64;
    }

    /// Feedback from the peer acknowledges `seq_number`, arriving at
    /// `ack_timestamp_us`: the packet leaves the in-flight set, its bytes
    /// count as newly acked, and the time since it was sent is an RTT sample.
    pub fn on_ack_scream(&mut self, seq_number: u32, ack_timestamp_us: u64)
        requires
            old(self).wf(),
        ensures
            final(self).wf(),
            final(self)@ == ack_scream_step(old(self)@, seq_number, ack_timestamp_us as int),
    {
        let ghost s0 = self@;
        match self.packets_in_flight.remove(&seq_number) {
            None => {
                assert(self.packets_in_flight@ =~= s0.packets_in_flight);
            },
            Some(info) => {
                if !info.acked_by_kcp {
                    self.bytes_in_flight = self.bytes_in_flight.saturating_sub(info.size);
                }
                self.bytes_newly_acked = self.bytes_newly_acked.saturating_add(info.size);
                let latest_rtt_us = ack_timestamp_us.saturating_sub(info.timestamp_us);
                if latest_rtt_us > 0 {
                    self.on_rtt_sample(latest_rtt_us, ack_timestamp_us);
                }
            },
        }
    }

    /// Shrinks the window on queuing pressure, loss or congestion
    /// experienced, at most once per sRTT.
    fn decrease_window(&mut self, now_us: u64, is_loss: bool, is_ce: bool)
        requires
            old(self).wf(),
        ensures
            final(self).wf(),
            final(self)@ == decrease_step(old(self)@, now_us as int, is_loss, is_ce),
    {
        let half = QDELAY_TARGET_US / 2;
        let pressure = self.qdelay_avg_us > half;
        let mut rf: u64 = REDUCTION_SCALE;
        if pressure {
            let over = self.qdelay_avg_us - half;
            rf = REDUCTION_SCALE - if over < half { over } else { half };
        }
        if is_loss {
            if BETA_LOSS < rf {
                rf = BETA_LOSS;
            }
        } else if is_ce {
            if BETA_ECN < rf {
                rf = BETA_ECN;
            }
        }
        assert(rf == reduction_factor(self@.qdelay_avg, is_loss, is_ce));
        let since_congestion = now_us.saturating_sub(self.last_congestion_detected_time_us);
        if (pressure || is_loss || is_ce) && since_congestion > self.s_rtt_us {
            let since_inflection = now_us.saturating_sub(self.last_ref_wnd_i_update_time_us);
            if (since_inflection as u128) >= 10 * (self.s_rtt_us as u128) {
                self.ref_wnd_i = self.ref_wnd;
                self.last_ref_wnd_i_update_time_us = now_us;
            }
            let w = self.ref_wnd;
            proof {
                assert(w * rf <= w * REDUCTION_SCALE) by (nonlinear_arith)
                    requires rf <= REDUCTION_SCALE;
                assert(w * rf / (REDUCTION_SCALE as int) <= w) by (nonlinear_arith)
                    requires w * rf <= w * REDUCTION_SCALE;
            }
            let reduced = ((w as u128) * (rf as u128) / (REDUCTION_SCALE as u128)) as u64;
            self.ref_wnd = if reduced < MIN_REF_WND { MIN_REF_WND } else { reduced };
            self.last_congestion_detected_time_us = now_us;
        }
    }

    /// Grows the window once per RTT by the bytes acked in it.
    fn increase_window(&mut self, now_us: u64)
        requires
            old(self).wf(),
        ensures
            final(self).wf(),
            final(self)@ == increase_step(old(self)@, now_us as int),
    {
        if self.bytes_newly_acked == 0 {
            return;
        }
        let ghost s0 = self@;
        let bna = self.bytes_newly_acked as u128;
        let ramp_rtt = if self.s_rtt_us > MIN_RAMP_RTT_US { self.s_rtt_us } else { MIN_RAMP_RTT_US };
        let den: u128 = POST_CONGESTION_DELAY_RTT as u128 * ramp_rtt as u128;
        let since = now_us.saturating_sub(self.last_congestion_detected_time_us) as u128;
        let num = if since < den { since } else { den };
        let w = self.ref_wnd as u128;
        let wd = if w > MSS as u128 { w } else { MSS as u128 };
        proof {
            assert(bna * MSS <= u32::MAX * MSS) by (nonlinear_arith)
                requires bna <= u32::MAX;
            assert(bna * MSS / (wd as int) <= bna) by (nonlinear_arith)
                requires wd >= MSS;
            assert(bna * MUL_INCREASE_PERCENT * num <= (u32::MAX * MUL_INCREASE_PERCENT) * (
            4 * u64::MAX)) by (nonlinear_arith)
                requires bna <= u32::MAX, num <= 4 * u64::MAX;
            assert(bna * MUL_INCREASE_PERCENT * num <= bna * MUL_INCREASE_PERCENT * den) by (nonlinear_arith)
                requires num <= den;
            assert(bna * MUL_INCREASE_PERCENT * num / (100 * den as int) <= bna) by (nonlinear_arith)
                requires bna * MUL_INCREASE_PERCENT * num <= bna * MUL_INCREASE_PERCENT * den, den > 0;
        }
        let additive = bna * (MSS as u128) / wd;
        let multiplicative = bna * (MUL_INCREASE_PERCENT as u128) * num / (100 * den);
        let mut inc = additive + multiplicative;
        assert(inc == raw_increment(s0, now_us as int));
        if self.ref_wnd > self.ref_wnd_i {
            let i = self.ref_wnd_i as u128;
            let excess = w - i;
            let d = if excess < 4 * i { excess } else { 4 * i };
            proof {
                assert(i * i <= MAX_REF_WND * MAX_REF_WND) by (nonlinear_arith)
                    requires i <= MAX_REF_WND;
                assert(d * d <= 16 * i * i) by (nonlinear_arith)
                    requires d <= 4 * i;
                assert(16 * i * i <= 16 * MAX_REF_WND * MAX_REF_WND) by (nonlinear_arith)
                    requires i <= MAX_REF_WND;
                assert(16 * MAX_REF_WND * MAX_REF_WND <= u128::MAX);
                assert(4 * i * i <= 16 * i * i) by (nonlinear_arith);
                assert(16 * i * i > 0) by (nonlinear_arith)
                    requires i > 0;
            }
            let full = 16 * i * i;
            let kept = full - d * d;
            let lowest = 4 * i * i;
            let factor = if kept >= lowest { kept } else { lowest };
            proof {
                assert(inc * factor <= inc * full) by (nonlinear_arith)
                    requires factor <= full;
                assert(inc * full <= (2 * u32::MAX) * (16 * MAX_REF_WND * MAX_REF_WND)) by (nonlinear_arith)
                    requires inc <= 2 * u32::MAX, full <= 16 * MAX_REF_WND * MAX_REF_WND;
                assert(inc * factor / (full as int) <= inc) by (nonlinear_arith)
                    requires inc * factor <= inc * full, full > 0;
            }
            inc = inc * factor / full;
        }
        let prev_cap = (self.max_bytes_in_flight_prev as u128) * 3 / 2;
        let cap = if w >= prev_cap { w } else { prev_cap };
        self.ref_wnd = if w + inc <= cap { (w + inc) as u64 } else { cap as u64 };
    }

    /// Records that `seq_number`, `size` bytes long, went on the wire at
    /// `now_us` for the first time.
    pub fn on_packet_sent(&mut self, seq_number: u32, size: usize, now_us: u64)
        requires
            old(self).wf(),
        ensures
            final(self).wf(),
            final(self)@ == packet_sent_step(old(self)@, seq_number, size as int, now_us),
    {
        let sz: u32 = if size > u32::MAX as usize { u32::MAX } else { size as u32 };
        let info = PacketInfo { timestamp_us: now_us, size: sz, acked_by_kcp: false };
        self.packets_in_flight.insert(seq_number, info);
        self.bytes_in_flight = self.bytes_in_flight.saturating_add(sz);
        if self.bytes_in_flight > self.max_bytes_in_flight {
            self.max_bytes_in_flight = self.bytes_in_flight;
        }
        if seq_number as u64 + 1 > self.next_new_sn {
            self.next_new_sn = seq_number as u64 + 1;
        }
    }

    /// Queues feedback for a packet received with `seq_number`, at
    /// wall-clock time `reception_time_ms`.
    pub fn on_packet_received(&mut self, seq_number: u32, reception_time_ms: u64)
        requires
            old(self).wf(),
        ensures
            final(self).wf(),
            final(self)@ == (ScreamView {
                feedback: old(self)@.feedback.push(
                    FeedbackPacketInfo { seq_number, reception_time_ms },
                ),
                ..old(self)@
            }),
    {
        self.received_packets_for_feedback.push(FeedbackPacketInfo { seq_number, reception_time_ms });
    }

    /// Drains the queued feedback into one payload; `None` when nothing is
    /// queued.
    pub fn create_feedback_packet(&mut self, now_us: u64) -> (r: Option<Vec<u8>>)
        requires
            old(self).wf(),
        ensures
            final(self).wf(),
            old(self)@.feedback.len() == 0 ==> r.is_none() && final(self)@ == old(self)@,
            old(self)@.feedback.len() > 0 ==> r.is_some() && r.unwrap()@ == encode_records(
                old(self)@.feedback,
            ) && final(self)@ == (ScreamView {
                feedback: Seq::empty(),
                last_feedback_time: now_us as int,
                ..old(self)@
            }),
    {
        if self.received_packets_for_feedback.len() == 0 {
            return None;
        }
        let data = encode_feedback(&self.received_packets_for_feedback);
        self.received_packets_for_feedback.clear();
        self.last_feedback_time_us = now_us;
        assert(self@.feedback =~= Seq::<FeedbackPacketInfo>::empty());
        Some(data)
    }

    /// Handles a feedback payload from the peer, arriving at `now_us`: each
    /// 12-byte record acknowledges its sequence number. A payload cut short
    /// (not a whole number of records) is malformed and discarded.
    pub fn on_feedback(&mut self, data: &[u8], now_us: u64)
        requires
            old(self).wf(),
        ensures
            final(self).wf(),
            data@.len() % 12 != 0 ==> final(self)@ == old(self)@,
            data@.len() % 12 == 0 ==> final(self)@ == acks_step(
                old(self)@,
                chunk_seq_numbers(data@),
                now_us as int,
            ),
    {
        if data.len() % RECORD_LEN != 0 {
            return;
        }
        let sns = parse_feedback(data);
        let mut i: usize = 0;
        while i < sns.len()
            invariant
                self.wf(),
                i <= sns@.len(),
                sns@ == chunk_seq_numbers(data@),
                self@ == acks_step(old(self)@, sns@.subrange(0, i as int), now_us as int),
            decreases sns@.len() - i,
        {
            self.on_ack_scream(sns[i], now_us);
            proof {
                assert(sns@.subrange(0, i + 1).drop_last() =~= sns@.subrange(0, i as int));
            }
            i = i + 1;
        }
        assert(sns@.subrange(0, i as int) =~= sns@);
    }

    /// RTT rollover at `now_us`.
    pub fn on_rtt(&mut self, now_us: u64)
        requires
            old(self).wf(),
        ensures
            final(self).wf(),
            final(self)@ == rtt_step(old(self)@, now_us as int),
    {
        let loss = self.loss_occured_in_rtt;
        self.increase_window(now_us);
        self.decrease_window(now_us, loss, false);
        self.max_bytes_in_flight_prev = self.max_bytes_in_flight;
        self.max_bytes_in_flight = self.bytes_in_flight;
        self.bytes_newly_acked = 0;
        self.bytes_newly_acked_ce = 0;
        self.loss_occured_in_rtt = false;
        self.last_periodic_update_time_us = now_us;
    }

    /// The ARQ engine acknowledged `seq_number`.
    pub fn on_ack_kcp(&mut self, seq_number: u32)
        requires
            old(self).wf(),
        ensures
            final(self).wf(),
            final(self)@ == ack_kcp_step(old(self)@, seq_number),
    {
        match self.packets_in_flight.get(&seq_number) {
            None => {},
            Some(found) => {
                let info = *found;
                if !info.acked_by_kcp {
                    self.bytes_in_flight = self.bytes_in_flight.saturating_sub(info.size);
                    self.packets_in_flight.insert(
                        seq_number,
                        PacketInfo { acked_by_kcp: true, ..info },
                    );
                }
            },
        }
    }

    /// The ARQ engine gave `seq_number` up as lost at `now_us`.
    pub fn on_packet_loss(&mut self, seq_number: u32, now_us: u64)
        requires
            old(self).wf(),
        ensures
            final(self).wf(),
            final(self)@ == loss_step(old(self)@, seq_number, now_us as int),
    {
        let ghost s0 = self@;
        match self.packets_in_flight.remove(&seq_number) {
            None => {
                assert(self.packets_in_flight@ =~= s0.packets_in_flight);
            },
            Some(info) => {
                if !info.acked_by_kcp {
                    self.bytes_in_flight = self.bytes_in_flight.saturating_sub(info.size);
                }
                self.loss_occured_in_rtt = true;
                self.loss_for_log = true;
                self.decrease_window(now_us, true, false);
            },
        }
    }

    /// Time at which feedback was last drained.
    pub fn get_last_feedback_time(&self) -> (r: u64)
        ensures
            r == self@.last_feedback_time,
    {
        self.last_feedback_time_us
    }

    /// Target bitrate in bits per second.
    pub fn get_target_bitrate(&self) -> (r: u64)
        requires
            self.wf(),
        ensures
            r == target_bitrate(self@),
    {
        if self.s_rtt_us == 0 {
            return MIN_TARGET_BITRATE;
        }
        let raw = (self.ref_wnd as u128) * 8 * 1_000_000 / (self.s_rtt_us as u128);
        if raw < MIN_TARGET_BITRATE as u128 {
            MIN_TARGET_BITRATE
        } else if raw > MAX_TARGET_BITRATE as u128 {
            MAX_TARGET_BITRATE
        } else {
            raw as u64
        }
    }

    /// Pacing rate in bits per second.
    pub fn get_pacing_rate(&self) -> (r: u64)
        requires
            self.wf(),
        ensures
            r == pacing_rate(self@),
    {
        self.get_target_bitrate() * 5 / 4
    }

    /// Reference window in bytes.
    pub fn get_ref_wnd(&self) -> (r: u64)
        ensures
            r == self@.ref_wnd,
    {
        self.ref_wnd
    }

    /// Time of the last RTT rollover.
    pub fn get_last_periodic_update_time(&self) -> (r: u64)
        ensures
            r == self@.last_periodic_update_time,
    {
        self.last_periodic_update_time_us
    }

    /// Smoothed RTT in microseconds; zero before the first sample.
    pub fn get_s_rtt(&self) -> (r: u64)
        ensures
            r == self@.s_rtt,
    {
        self.s_rtt_us
    }

    /// RTT variance in microseconds.
    pub fn get_rtt_var(&self) -> (r: u64)
        ensures
            r == self@.rtt_var,
    {
        self.rtt_var_us
    }

    /// Bytes sent and not yet acknowledged.
    pub fn get_bytes_in_flight(&self) -> (r: u32)
        ensures
            r == self@.bytes_in_flight,
    {
        self.bytes_in_flight
    }

    /// Averaged queuing delay in microseconds.
    pub fn get_qdelay_avg(&self) -> (r: u64)
        ensures
            r == self@.qdelay_avg,
    {
        self.qdelay_avg_us
    }

    /// One past the highest sequence number sent so far.
    pub fn get_next_new_sn(&self) -> (r: u64)
        ensures
            r == self@.next_new_sn,
    {
        self.next_new_sn
    }

    /// Whether `seq_number` has a record in flight.
    pub fn is_in_flight(&self, seq_number: u32) -> (r: bool)
        ensures
            r == self@.packets_in_flight.contains_key(seq_number),
    {
        self.packets_in_flight.contains_key(&seq_number)
    }

    /// Base RTT in microseconds.
    pub fn get_base_rtt(&self) -> (r: u64)
        ensures
            r == self@.base_rtt,
    {
        self.base_rtt_us
    }

    /// Latest queuing delay in microseconds.
    pub fn get_qdelay(&self) -> (r: u64)
        ensures
            r == self@.qdelay,
    {
        self.qdelay_us
    }

    /// Largest bytes in flight in the current RTT.
    pub fn get_max_bytes_in_flight(&self) -> (r: u32)
        ensures
            r == self@.max_bytes_in_flight,
    {
        self.max_bytes_in_flight
    }

    /// Whether a loss was seen since the last call, clearing the mark.
    pub fn take_loss_for_log(&mut self) -> (r: bool)
        requires
            old(self).wf(),
        ensures
            final(self).wf(),
            r == old(self)@.loss_for_log,
            final(self)@ == (ScreamView { loss_for_log: false, ..old(self)@ }),
    {
        let r = self.loss_for_log;
        self.loss_for_log = false;
        r
    }
}

} // verus!
