use std::cell::RefCell;
use std::io::{self, Write};
use std::rc::Rc;

use kcp::Kcp;
use tokio_kcp::endpoint::first_send_len;
use tokio_kcp::feedback::is_feedback_datagram;
use tokio_kcp::segment::parse_segments;

#[derive(Clone, Default)]
struct Wire(Rc<RefCell<Vec<Vec<u8>>>>);

impl Write for Wire {
    fn write(&mut self, buf: &[u8]) -> io::Result<usize> {
        self.0.borrow_mut().push(buf.to_vec());
        Ok(buf.len())
    }
    fn flush(&mut self) -> io::Result<()> {
        Ok(())
    }
}

impl Wire {
    fn take(&self) -> Vec<Vec<u8>> {
        std::mem::take(&mut *self.0.borrow_mut())
    }
}

const CONV: u32 = 0xdeadbeef;

fn deliver(from: &Wire, to: &mut Kcp<Wire>, assign_conv: bool) -> usize {
    let mut n = 0;
    for mut d in from.take() {
        assert!(!is_feedback_datagram(&d));
        if assign_conv && kcp::get_conv(&d) == 0 {
            kcp::set_conv(&mut d, CONV);
        }
        to.input(&d).unwrap();
        n += 1;
    }
    n
}

fn recv_all(k: &mut Kcp<Wire>) -> Vec<u8> {
    let mut out = Vec::new();
    let mut buf = [0u8; 2048];
    while let Ok(n) = k.recv(&mut buf) {
        out.extend_from_slice(&buf[..n]);
    }
    out
}

#[test]
fn kcp_echo() {
    let wa = Wire::default();
    let wb = Wire::default();
    let mut a = Kcp::new_stream(0, wa.clone());
    a.input_conv();
    let mut b = Kcp::new_stream(CONV, wb.clone());
    a.update(0).unwrap();
    b.update(0).unwrap();

    let msg = b"HELLO WORLD";
    let n = first_send_len(false, a.waiting_conv(), msg.len(), a.mss());
    assert_eq!(a.send(&msg[..n]).unwrap(), 11);
    let mut got = Vec::new();
    for tick in 1..=20u32 {
        a.update(tick * 100).unwrap();
        deliver(&wa, &mut b, true);
        let echoed = recv_all(&mut b);
        if !echoed.is_empty() {
            b.send(&echoed).unwrap();
        }
        b.update(tick * 100).unwrap();
        deliver(&wb, &mut a, false);
        got.extend(recv_all(&mut a));
        if got.len() >= msg.len() {
            break;
        }
    }
    assert_eq!(got, msg.to_vec());
    assert_eq!(a.conv(), CONV);
}

#[test]
fn conv_allocation() {
    let wa = Wire::default();
    let wb = Wire::default();
    let mut client = Kcp::new_stream(0, wa.clone());
    client.input_conv();
    let mut server = Kcp::new_stream(CONV, wb.clone());
    client.update(0).unwrap();
    server.update(0).unwrap();

    let data = vec![1u8; 4096];
    let n = first_send_len(false, client.waiting_conv(), data.len(), client.mss());
    assert_eq!(n, client.mss());
    client.send(&data[..n]).unwrap();
    client.flush().unwrap();
    let first = wa.take();
    assert!(!first.is_empty());
    let mut payload = 0usize;
    for d in &first {
        for h in parse_segments(d) {
            assert_eq!(h.conv, 0);
            payload += h.len as usize;
        }
    }
    assert!(payload <= client.mss());

    for mut d in first {
        kcp::set_conv(&mut d, CONV);
        server.input(&d).unwrap();
    }
    server.flush().unwrap();
    deliver(&wb, &mut client, false);
    assert_eq!(client.conv(), CONV);
    assert!(!client.waiting_conv());

    client.send(&data[n..]).unwrap();
    client.flush().unwrap();
    let later = wa.take();
    assert!(!later.is_empty());
    for d in &later {
        for h in parse_segments(d) {
            assert_eq!(h.conv, CONV);
        }
    }
}

#[test]
fn lossless_link_delivers_bytes_in_order() {
    let wa = Wire::default();
    let wb = Wire::default();
    let mut a = Kcp::new_stream(CONV, wa.clone());
    let mut b = Kcp::new_stream(CONV, wb.clone());
    a.update(0).unwrap();
    b.update(0).unwrap();

    let mut sent = Vec::new();
    for i in 0..40u32 {
        let chunk: Vec<u8> = (0..(37 * i + 11)).map(|j| (i * 7 + j) as u8).collect();
        sent.extend_from_slice(&chunk);
        a.send(&chunk).unwrap();
    }
    let mut got = Vec::new();
    for tick in 1..=200u32 {
        a.update(tick * 10).unwrap();
        deliver(&wa, &mut b, false);
        got.extend(recv_all(&mut b));
        b.update(tick * 10).unwrap();
        deliver(&wb, &mut a, false);
        if got.len() == sent.len() {
            break;
        }
    }
    assert_eq!(got, sent);
}
