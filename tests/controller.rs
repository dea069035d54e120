use tokio_kcp::scream::{ScreamCongestionControl, MIN_REF_WND};

fn sample(c: &mut ScreamCongestionControl, sn: u32, sent_us: u64, rtt_us: u64) {
    c.on_packet_sent(sn, 1000, sent_us);
    c.on_ack_scream(sn, sent_us + rtt_us);
}

/// Grows a fresh controller's window to exactly 20 000 bytes by time 100 000.
fn controller_at_20000() -> ScreamCongestionControl {
    let mut c = ScreamCongestionControl::new(0);
    for sn in 1..=35u32 {
        c.on_packet_sent(sn, 1000, 0);
    }
    c.on_packet_sent(36, 644, 0);
    c.on_rtt(0);
    for sn in 1..=36u32 {
        c.on_ack_scream(sn, 100_000);
    }
    assert_eq!(c.get_s_rtt(), 100_000);
    c.on_rtt(100_000);
    assert_eq!(c.get_ref_wnd(), 20_000);
    c
}

#[test]
fn rtt_smoothing() {
    let mut c = ScreamCongestionControl::new(0);
    let rtts = [100_000u64, 100_000, 100_000, 200_000];
    let mut t = 0u64;
    for (i, rtt) in rtts.iter().enumerate() {
        sample(&mut c, i as u32, t, *rtt);
        t += 1_000_000;
    }
    assert_eq!(c.get_s_rtt(), 112_500);
    // 50 000, then 37 500, 28 125, and 3/4 * 28 125 + 1/4 * 100 000.
    assert_eq!(c.get_rtt_var(), 46_093);
}

#[test]
fn first_sample_sets_srtt_and_half_variance() {
    let mut c = ScreamCongestionControl::new(0);
    sample(&mut c, 7, 0, 30_000);
    assert_eq!(c.get_s_rtt(), 30_000);
    assert_eq!(c.get_rtt_var(), 15_000);
}

#[test]
fn zero_rtt_sample_is_ignored() {
    let mut c = ScreamCongestionControl::new(0);
    c.on_packet_sent(1, 1000, 500);
    c.on_ack_scream(1, 500);
    assert_eq!(c.get_s_rtt(), 0);
    assert!(!c.is_in_flight(1));
}

#[test]
fn srtt_stays_between_samples() {
    let mut c = ScreamCongestionControl::new(0);
    let rtts = [40_000u64, 90_000, 10_000, 70_000, 25_000];
    let mut t = 0u64;
    for (i, rtt) in rtts.iter().enumerate() {
        sample(&mut c, i as u32, t, *rtt);
        t += 1_000_000;
        let s = c.get_s_rtt();
        assert!(s >= 10_000 && s <= 90_000);
    }
}

#[test]
fn loss_backoff() {
    let mut c = controller_at_20000();
    c.on_packet_sent(100, 1000, 150_000);
    c.on_packet_loss(100, 200_001);
    assert_eq!(c.get_ref_wnd(), 14_000);
    c.on_rtt(250_000);
    assert_eq!(c.get_ref_wnd(), 14_000);
}

#[test]
fn loss_clamped_at_min_ref_wnd() {
    let mut c = ScreamCongestionControl::new(0);
    c.on_packet_sent(1, 1000, 0);
    c.on_packet_loss(1, 10);
    assert_eq!(c.get_ref_wnd(), MIN_REF_WND);
    assert_eq!(c.get_bytes_in_flight(), 0);
}

#[test]
fn queue_delay_backoff() {
    let mut c = controller_at_20000();
    c.on_packet_sent(200, 1000, 100_000);
    c.on_ack_scream(200, 1_100_000);
    // base RTT 100 ms, sample 1 s: qdelay 900 ms, average 90 ms, above target.
    assert_eq!(c.get_qdelay_avg(), 90_000);
    c.on_rtt(1_100_000);
    // The increase of this RTT brings 20 017 bytes, then the backoff halves it.
    assert_eq!(c.get_ref_wnd(), 10_008);
}

#[test]
fn increase_capped_by_previous_flight() {
    let mut c = ScreamCongestionControl::new(0);
    c.on_packet_sent(1, 1000, 0);
    c.on_packet_sent(2, 1000, 0);
    c.on_rtt(0);
    c.on_ack_scream(1, 100_000);
    c.on_ack_scream(2, 100_000);
    c.on_rtt(100_000);
    // 2 000 acked bytes would add 1 000 and more; the cap is 1.5 * 2 000.
    assert_eq!(c.get_ref_wnd(), 3_000);
}

#[test]
fn ack_kcp_deducts_once() {
    let mut c = ScreamCongestionControl::new(0);
    c.on_packet_sent(1, 1200, 0);
    c.on_packet_sent(2, 800, 0);
    assert_eq!(c.get_bytes_in_flight(), 2000);
    c.on_ack_kcp(1);
    c.on_ack_kcp(1);
    assert_eq!(c.get_bytes_in_flight(), 800);
    assert!(c.is_in_flight(1));
    c.on_ack_scream(1, 50_000);
    assert_eq!(c.get_bytes_in_flight(), 800);
    assert!(!c.is_in_flight(1));
}

#[test]
fn bytes_in_flight_saturates_at_zero() {
    let mut c = ScreamCongestionControl::new(0);
    c.on_packet_sent(1, 1000, 0);
    c.on_packet_sent(1, 500, 0);
    assert_eq!(c.get_bytes_in_flight(), 1500);
    c.on_ack_kcp(1);
    assert_eq!(c.get_bytes_in_flight(), 1000);
    c.on_packet_sent(2, 300, 0);
    c.on_ack_kcp(2);
    c.on_ack_kcp(2);
    assert_eq!(c.get_bytes_in_flight(), 1000);
    let mut d = ScreamCongestionControl::new(0);
    d.on_packet_sent(3, 700, 0);
    d.on_packet_loss(3, 1);
    d.on_packet_loss(3, 2);
    assert_eq!(d.get_bytes_in_flight(), 0);
}

#[test]
fn loss_after_arq_ack_deducts_nothing_more() {
    let mut c = ScreamCongestionControl::new(0);
    c.on_packet_sent(1, 1000, 0);
    c.on_packet_sent(2, 400, 0);
    c.on_ack_kcp(1);
    assert_eq!(c.get_bytes_in_flight(), 400);
    c.on_packet_loss(1, 10);
    assert_eq!(c.get_bytes_in_flight(), 400);
    assert!(!c.is_in_flight(1));
}

#[test]
fn truncated_feedback_is_discarded() {
    let mut receiver = ScreamCongestionControl::new(0);
    let mut sender = ScreamCongestionControl::new(0);
    sender.on_packet_sent(5, 1000, 0);
    receiver.on_packet_received(5, 1);
    let mut data = receiver.create_feedback_packet(1).unwrap();
    data.push(0);
    sender.on_feedback(&data, 60_000);
    assert!(sender.is_in_flight(5));
    assert_eq!(sender.get_bytes_in_flight(), 1000);
    assert_eq!(sender.get_s_rtt(), 0);
    sender.on_feedback(&data[..12], 60_000);
    assert!(!sender.is_in_flight(5));
}

#[test]
fn highest_sent_sequence_number_tracked() {
    let mut c = ScreamCongestionControl::new(0);
    assert_eq!(c.get_next_new_sn(), 0);
    c.on_packet_sent(7, 10, 0);
    c.on_packet_sent(3, 10, 0);
    assert_eq!(c.get_next_new_sn(), 8);
}

#[test]
fn unknown_sequence_numbers_change_nothing() {
    let mut c = ScreamCongestionControl::new(0);
    c.on_ack_scream(9, 10_000);
    c.on_ack_kcp(9);
    c.on_packet_loss(9, 10_000);
    assert_eq!(c.get_s_rtt(), 0);
    assert_eq!(c.get_bytes_in_flight(), 0);
    assert_eq!(c.get_ref_wnd(), 2000);
}

#[test]
fn packet_resolved_once() {
    let mut c = ScreamCongestionControl::new(0);
    c.on_packet_sent(4, 1000, 0);
    c.on_ack_scream(4, 20_000);
    let before = c.get_ref_wnd();
    c.on_packet_loss(4, 500_000);
    assert_eq!(c.get_ref_wnd(), before);
    assert!(!c.is_in_flight(4));
}

#[test]
fn target_bitrate_default_and_pacing() {
    let c = ScreamCongestionControl::new(0);
    assert_eq!(c.get_target_bitrate(), 500_000);
    assert_eq!(c.get_pacing_rate(), 625_000);
}

#[test]
fn target_bitrate_from_window_and_srtt() {
    let mut c = ScreamCongestionControl::new(0);
    sample(&mut c, 1, 0, 10_000);
    // 2 000 bytes per 10 ms.
    assert_eq!(c.get_target_bitrate(), 1_600_000);
    assert_eq!(c.get_pacing_rate(), 2_000_000);
}

#[test]
fn target_bitrate_clamped_high() {
    let mut c = ScreamCongestionControl::new(0);
    sample(&mut c, 1, 0, 1_000);
    assert_eq!(c.get_target_bitrate(), 10_000_000);
    assert_eq!(c.get_pacing_rate(), 12_500_000);
}

#[test]
fn feedback_empty_is_none() {
    let mut c = ScreamCongestionControl::new(0);
    assert!(c.create_feedback_packet(5).is_none());
    assert_eq!(c.get_last_feedback_time(), 0);
}

#[test]
fn feedback_bytes_and_drain() {
    let mut c = ScreamCongestionControl::new(0);
    c.on_packet_received(0x0102_0304, 0x1122_3344_5566_7788);
    let data = c.create_feedback_packet(42).unwrap();
    assert_eq!(
        data,
        vec![0x04, 0x03, 0x02, 0x01, 0x88, 0x77, 0x66, 0x55, 0x44, 0x33, 0x22, 0x11]
    );
    assert_eq!(c.get_last_feedback_time(), 42);
    assert!(c.create_feedback_packet(50).is_none());
}

#[test]
fn feedback_round_trip_acks_recorded() {
    let mut receiver = ScreamCongestionControl::new(0);
    let mut sender = ScreamCongestionControl::new(0);
    for sn in [5u32, 9, 12] {
        sender.on_packet_sent(sn, 1000, 0);
    }
    sender.on_packet_sent(30, 1000, 0);
    receiver.on_packet_received(5, 1_700_000_000_000);
    receiver.on_packet_received(9, 1_700_000_000_001);
    receiver.on_packet_received(12, 1_700_000_000_002);
    let data = receiver.create_feedback_packet(1).unwrap();
    assert_eq!(data.len(), 36);
    sender.on_feedback(&data, 60_000);
    assert!(!sender.is_in_flight(5));
    assert!(!sender.is_in_flight(9));
    assert!(!sender.is_in_flight(12));
    assert!(sender.is_in_flight(30));
    assert_eq!(sender.get_bytes_in_flight(), 1000);
    assert_eq!(sender.get_s_rtt(), 60_000);
}
