//! Headers of ARQ segments as they travel in a datagram: each segment is a
//! 24-byte little-endian header (conv, cmd, frg, wnd, ts, sn, una, len)
//! followed by `len` bytes of payload; a datagram carries segments back to
//! back.

use vstd::prelude::*;

use crate::le::{le_value, lemma_le_value_bound, pow256, read_le};

verus! {

/// Bytes of a segment header.
pub const SEGMENT_HEADER_LEN: usize = 24;

/// Command of a segment that carries data.
pub const CMD_PUSH: u8 = 81;

/// Command of a segment that acknowledges one data segment.
pub const CMD_ACK: u8 = 82;

#[derive(Debug, Clone, Copy, PartialEq, Eq)]
pub struct SegmentHeader {
    pub conv: u32,
    pub cmd: u8,
    pub frg: u8,
    pub wnd: u16,
    pub ts: u32,
    pub sn: u32,
    pub una: u32,
    pub len: u32,
}

pub open spec fn field(data: Seq<u8>, at: int, n: int) -> nat {
    le_value(data.subrange(at, at + n))
}

/// The header that starts at byte `at`.
pub open spec fn header_at(data: Seq<u8>, at: int) -> SegmentHeader {
    SegmentHeader {
        conv: field(data, at, 4) as u32,
        cmd: field(data, at + 4, 1) as u8,
        frg: field(data, at + 5, 1) as u8,
        wnd: field(data, at + 6, 2) as u16,
        ts: field(data, at + 8, 4) as u32,
        sn: field(data, at + 12, 4) as u32,
        una: field(data, at + 16, 4) as u32,
        len: field(data, at + 20, 4) as u32,
    }
}

/// The whole segments from byte `at` on; parsing stops at a header or a
/// payload that the datagram cuts short.
pub open spec fn segments_from(data: Seq<u8>, at: nat) -> Seq<SegmentHeader>
    decreases data.len() - at,
{
    if at + SEGMENT_HEADER_LEN > data.len() {
        Seq::empty()
    } else {
        let h = header_at(data, at as int);
        let next = at + SEGMENT_HEADER_LEN + h.len;
        if next > data.len() {
            Seq::empty()
        } else {
            seq![h].add(segments_from(data, next as nat))
        }
    }
}

fn read_field(data: &[u8], at: usize, n: usize) -> (r: u64)
    requires
        at + n <= data@.len(),
        1 <= n <= 4,
    ensures
        r == field(data@, at as int, n as int),
        r < pow256(n as nat),
{
    proof {
        lemma_le_value_bound(data@.subrange(at as int, at + n));
    }
    read_le(data, at, n)
}

/// The headers of the whole segments of a datagram, in order.
pub fn parse_segments(data: &[u8]) -> (r: Vec<SegmentHeader>)
    ensures
        r@ == segments_from(data@, 0),
{
    let mut out: Vec<SegmentHeader> = Vec::new();
    let mut at: usize = 0;
    proof {
        reveal_with_fuel(pow256, 5);
    }
    while at <= data.len() && data.len() - at >= SEGMENT_HEADER_LEN
        invariant
            at <= data@.len(),
            pow256(1) == 256 && pow256(2) == 0x1_0000 && pow256(4) == 0x1_0000_0000,
            out@.add(segments_from(data@, at as nat)) == segments_from(data@, 0),
        decreases data@.len() - at,
    {
        let h = SegmentHeader {
            conv: read_field(data, at, 4) as u32,
            cmd: read_field(data, at + 4, 1) as u8,
            frg: read_field(data, at + 5, 1) as u8,
            wnd: read_field(data, at + 6, 2) as u16,
            ts: read_field(data, at + 8, 4) as u32,
            sn: read_field(data, at + 12, 4) as u32,
            una: read_field(data, at + 16, 4) as u32,
            len: read_field(data, at + 20, 4) as u32,
        };
        assert(h == header_at(data@, at as int));
        let rest = data.len() - at - SEGMENT_HEADER_LEN;
        if h.len as usize > rest {
            assert(segments_from(data@, at as nat) =~= Seq::<SegmentHeader>::empty());
            assert(out@ =~= out@.add(segments_from(data@, at as nat)));
            return out;
        }
        let ghost before = out@;
        out.push(h);
        at = at + SEGMENT_HEADER_LEN + h.len as usize;
        assert(out@.add(segments_from(data@, at as nat)) =~= before.add(
            seq![h].add(segments_from(data@, at as nat)),
        ));
    }
    assert(segments_from(data@, at as nat) =~= Seq::<SegmentHeader>::empty());
    assert(out@ =~= out@.add(segments_from(data@, at as nat)));
    out
}

} // verus!
