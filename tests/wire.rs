use tokio_kcp::endpoint::frame_feedback;
use tokio_kcp::feedback::{encode_feedback, is_feedback_datagram, parse_feedback};
use tokio_kcp::scream::FeedbackPacketInfo;
use tokio_kcp::segment::{parse_segments, SegmentHeader, CMD_ACK, CMD_PUSH};

fn segment_bytes(conv: u32, cmd: u8, sn: u32, payload: &[u8]) -> Vec<u8> {
    let mut v = Vec::new();
    v.extend_from_slice(&conv.to_le_bytes());
    v.push(cmd);
    v.push(0);
    v.extend_from_slice(&128u16.to_le_bytes());
    v.extend_from_slice(&7u32.to_le_bytes());
    v.extend_from_slice(&sn.to_le_bytes());
    v.extend_from_slice(&3u32.to_le_bytes());
    v.extend_from_slice(&(payload.len() as u32).to_le_bytes());
    v.extend_from_slice(payload);
    v
}

#[test]
fn feedback_magic_prefix() {
    let framed = frame_feedback(&[1, 2, 3]);
    assert_eq!(framed, vec![0x42, 0x46, 0x4D, 0x5C, 1, 2, 3]);
    assert!(is_feedback_datagram(&framed));
    assert_eq!(u32::from_le_bytes([framed[0], framed[1], framed[2], framed[3]]), 0x5C4D4642);
}

#[test]
fn feedback_magic_on_empty_payload() {
    let framed = frame_feedback(&[]);
    assert_eq!(framed, vec![0x42, 0x46, 0x4D, 0x5C]);
    assert!(is_feedback_datagram(&framed));
}

#[test]
fn arq_datagram_is_not_feedback() {
    let seg = segment_bytes(0xdeadbeef, CMD_PUSH, 1, b"x");
    assert!(!is_feedback_datagram(&seg));
    assert!(!is_feedback_datagram(&[0x42, 0x46, 0x4D]));
    assert!(!is_feedback_datagram(&[]));
}

#[test]
fn encode_and_parse_feedback() {
    let records = vec![
        FeedbackPacketInfo { seq_number: 1, reception_time_ms: 10 },
        FeedbackPacketInfo { seq_number: 0xffff_ffff, reception_time_ms: u64::MAX },
    ];
    let data = encode_feedback(&records);
    assert_eq!(data.len(), 24);
    assert_eq!(&data[12..16], &[0xff, 0xff, 0xff, 0xff]);
    assert_eq!(parse_feedback(&data), vec![1, 0xffff_ffff]);
}

#[test]
fn parse_feedback_ignores_short_tail() {
    let mut data = encode_feedback(&vec![FeedbackPacketInfo { seq_number: 77, reception_time_ms: 5 }]);
    data.extend_from_slice(&[9, 9, 9, 9, 9]);
    assert_eq!(parse_feedback(&data), vec![77]);
    assert_eq!(parse_feedback(&data[..11]), Vec::<u32>::new());
}

#[test]
fn parse_segments_back_to_back() {
    let mut d = segment_bytes(0xdeadbeef, CMD_PUSH, 4, b"HELLO");
    d.extend(segment_bytes(0xdeadbeef, CMD_ACK, 2, b""));
    let segs = parse_segments(&d);
    assert_eq!(
        segs,
        vec![
            SegmentHeader { conv: 0xdeadbeef, cmd: CMD_PUSH, frg: 0, wnd: 128, ts: 7, sn: 4, una: 3, len: 5 },
            SegmentHeader { conv: 0xdeadbeef, cmd: CMD_ACK, frg: 0, wnd: 128, ts: 7, sn: 2, una: 3, len: 0 },
        ]
    );
}

#[test]
fn parse_segments_stops_at_truncation() {
    let mut d = segment_bytes(1, CMD_PUSH, 4, b"abc");
    let second = segment_bytes(1, CMD_PUSH, 5, b"defgh");
    d.extend_from_slice(&second[..second.len() - 1]);
    let segs = parse_segments(&d);
    assert_eq!(segs.len(), 1);
    assert_eq!(segs[0].sn, 4);
    assert!(parse_segments(&d[..23]).is_empty());
}
