use tokio_kcp::endpoint::{conn_state, frame_feedback, recv_step, send_step, ConnState, RecvStep, SendStep};
use tokio_kcp::listener::{allocate_conv, classify_datagram, dispatch, DatagramKind, Dispatch};

#[test]
fn endpoint_states() {
    assert_eq!(conn_state(false, true, 3), ConnState::WaitingConv);
    assert_eq!(conn_state(false, false, 3), ConnState::Established);
    assert_eq!(conn_state(true, false, 3), ConnState::Closing);
    assert_eq!(conn_state(true, true, 0), ConnState::Closed);
}

#[test]
fn send_steps() {
    assert_eq!(send_step(true, false, 0, 32, 128, false, 10, 1376), SendStep::BrokenPipe);
    assert_eq!(send_step(false, false, 0, 32, 128, true, 4096, 1376), SendStep::Send(1376));
    assert_eq!(send_step(false, true, 0, 32, 128, true, 4096, 1376), SendStep::Wait);
    assert_eq!(send_step(false, true, 32, 32, 128, false, 10, 1376), SendStep::Wait);
    assert_eq!(send_step(false, true, 5, 32, 128, false, 4096, 1376), SendStep::Send(4096));
}

#[test]
fn recv_steps() {
    assert_eq!(recv_step(true, Some(5), false), RecvStep::Closed);
    assert_eq!(recv_step(false, Some(5), false), RecvStep::Deliver);
    assert_eq!(recv_step(false, Some(0), false), RecvStep::Wait);
    assert_eq!(recv_step(false, Some(0), true), RecvStep::Deliver);
    assert_eq!(recv_step(false, None, true), RecvStep::Wait);
}

#[test]
fn classify_datagrams() {
    let fb = frame_feedback(&[0; 12]);
    assert_eq!(classify_datagram(&fb), DatagramKind::Feedback);
    let mut arq = vec![0u8; 24];
    arq[..4].copy_from_slice(&0xdeadbeefu32.to_le_bytes());
    assert_eq!(classify_datagram(&arq), DatagramKind::Arq(0xdeadbeef));
    assert_eq!(classify_datagram(&arq[..23]), DatagramKind::Malformed);
    assert_eq!(classify_datagram(&[]), DatagramKind::Malformed);
}

#[test]
fn dispatch_by_peer_and_role() {
    let arq = DatagramKind::Arq(7);
    assert_eq!(dispatch(arq, true, false), Dispatch::Deliver);
    assert_eq!(dispatch(arq, false, true), Dispatch::Accept);
    assert_eq!(dispatch(arq, false, false), Dispatch::Drop);
    assert_eq!(dispatch(DatagramKind::Feedback, true, true), Dispatch::Deliver);
    assert_eq!(dispatch(DatagramKind::Feedback, false, true), Dispatch::Drop);
    assert_eq!(dispatch(DatagramKind::Malformed, true, true), Dispatch::Drop);
}

#[test]
fn conv_allocation_skips_used_and_zero() {
    assert_eq!(allocate_conv(&vec![], 0), Some(1));
    assert_eq!(allocate_conv(&vec![5, 6], 5), Some(7));
    assert_eq!(allocate_conv(&vec![u32::MAX], u32::MAX), Some(1));
    assert_eq!(allocate_conv(&vec![1, 2, 3], 1), Some(4));
    let c = allocate_conv(&vec![9, 10, 11, 12], 9).unwrap();
    assert!(c != 0 && ![9, 10, 11, 12].contains(&c));
}
