//! Wire format of feedback datagrams: a little-endian magic word followed by
//! 12-byte records, each a little-endian u32 sequence number and a
//! little-endian u64 reception time in milliseconds.

use vstd::prelude::*;

use crate::le::{
    le_bytes, le_value, lemma_le_bytes_len, lemma_le_round_trip, lemma_le_value_bound, pow256,
    push_le, read_le,
};
use crate::scream::{FeedbackPacketInfo, SCREAM_FEEDBACK_HEADER};

verus! {

/// Bytes of one feedback record.
pub const RECORD_LEN: usize = 12;

/// Bytes of the magic word that opens a feedback datagram.
pub const HEADER_LEN: usize = 4;

pub open spec fn encode_record(r: FeedbackPacketInfo) -> Seq<u8> {
    le_bytes(r.seq_number as nat, 4).add(le_bytes(r.reception_time_ms as nat, 8))
}

/// The records, one after another.
pub open spec fn encode_records(rs: Seq<FeedbackPacketInfo>) -> Seq<u8>
    decreases rs.len(),
{
    if rs.len() == 0 {
        Seq::empty()
    } else {
        encode_records(rs.drop_last()).add(encode_record(rs.last()))
    }
}

/// The sequence numbers of the whole 12-byte chunks of a feedback payload;
/// a shorter tail is ignored.
pub open spec fn chunk_seq_numbers(data: Seq<u8>) -> Seq<u32> {
    Seq::new(
        data.len() / RECORD_LEN as nat,
        |k: int| le_value(data.subrange(RECORD_LEN * k, RECORD_LEN * k + 4)) as u32,
    )
}

/// The sequence numbers of feedback records, in order.
pub open spec fn record_seq_numbers(rs: Seq<FeedbackPacketInfo>) -> Seq<u32> {
    rs.map_values(|r: FeedbackPacketInfo| r.seq_number)
}

pub proof fn lemma_encode_records_len(rs: Seq<FeedbackPacketInfo>)
    ensures
        encode_records(rs).len() == RECORD_LEN * rs.len(),
    decreases rs.len(),
{
    if rs.len() > 0 {
        lemma_encode_records_len(rs.drop_last());
        lemma_le_bytes_len(rs.last().seq_number as nat, 4);
        lemma_le_bytes_len(rs.last().reception_time_ms as nat, 8);
    }
}

/// The `k`-th record stands at bytes `12k .. 12k+12` of the encoding.
pub proof fn lemma_encode_records_chunk(rs: Seq<FeedbackPacketInfo>, k: int)
    requires
        0 <= k < rs.len(),
    ensures
        encode_records(rs).subrange(RECORD_LEN * k, RECORD_LEN * k + RECORD_LEN)
            == encode_record(rs[k]),
    decreases rs.len(),
{
    let init = rs.drop_last();
    lemma_encode_records_len(init);
    lemma_le_bytes_len(rs.last().seq_number as nat, 4);
    lemma_le_bytes_len(rs.last().reception_time_ms as nat, 8);
    if k == rs.len() - 1 {
        assert(encode_records(rs).subrange(RECORD_LEN * k, RECORD_LEN * k + RECORD_LEN)
            =~= encode_record(rs[k]));
    } else {
        lemma_encode_records_chunk(init, k);
        assert(encode_records(rs).subrange(RECORD_LEN * k, RECORD_LEN * k + RECORD_LEN)
            =~= encode_records(init).subrange(RECORD_LEN * k, RECORD_LEN * k + RECORD_LEN));
    }
}

/// Parsing an encoded feedback list gives back its sequence numbers, in
/// order: the peer acknowledges exactly the packets that were recorded.
pub proof fn lemma_feedback_round_trip(rs: Seq<FeedbackPacketInfo>)
    ensures
        chunk_seq_numbers(encode_records(rs)) == record_seq_numbers(rs),
{
    let data = encode_records(rs);
    lemma_encode_records_len(rs);
    assert forall|k: int| 0 <= k < rs.len() implies
        le_value(#[trigger] data.subrange(RECORD_LEN * k, RECORD_LEN * k + 4)) as u32
            == rs[k].seq_number by {
        lemma_encode_records_chunk(rs, k);
        lemma_le_bytes_len(rs[k].seq_number as nat, 4);
        assert(data.subrange(RECORD_LEN * k, RECORD_LEN * k + 4) =~= le_bytes(
            rs[k].seq_number as nat,
            4,
        )) by {
            assert(data.subrange(RECORD_LEN * k, RECORD_LEN * k + 4) =~= data.subrange(
                RECORD_LEN * k,
                RECORD_LEN * k + RECORD_LEN,
            ).subrange(0, 4));
        }
        reveal_with_fuel(pow256, 5);
        assert(pow256(4) == 0x1_0000_0000);
        lemma_le_round_trip(rs[k].seq_number as nat, 4);
    }
    assert(chunk_seq_numbers(data) =~= record_seq_numbers(rs));
}

/// The feedback payload for a list of records.
pub fn encode_feedback(records: &Vec<FeedbackPacketInfo>) -> (r: Vec<u8>)
    ensures
        r@ == encode_records(records@),
{
    let mut out: Vec<u8> = Vec::new();
    let mut i: usize = 0;
    while i < records.len()
        invariant
            i <= records@.len(),
            out@ == encode_records(records@.subrange(0, i as int)),
        decreases records@.len() - i,
    {
        let rec = records[i];
        push_le(&mut out, rec.seq_number as u64, 4);
        push_le(&mut out, rec.reception_time_ms, 8);
        proof {
            let next = records@.subrange(0, i + 1);
            assert(next.drop_last() =~= records@.subrange(0, i as int));
        }
        i = i + 1;
    }
    assert(records@.subrange(0, i as int) =~= records@);
    out
}

/// The sequence numbers of the whole records of a feedback payload.
pub fn parse_feedback(data: &[u8]) -> (r: Vec<u32>)
    ensures
        r@ == chunk_seq_numbers(data@),
{
    let mut out: Vec<u32> = Vec::new();
    let n = data.len() / RECORD_LEN;
    let mut k: usize = 0;
    while k < n
        invariant
            n == data@.len() / RECORD_LEN as nat,
            k <= n,
            out@ == chunk_seq_numbers(data@).subrange(0, k as int),
        decreases n - k,
    {
        proof {
            assert(RECORD_LEN * k + RECORD_LEN <= data@.len()) by (nonlinear_arith)
                requires k < n, n == data@.len() / 12, RECORD_LEN == 12;
            assert(data@.len() == data.len());
            lemma_le_value_bound(data@.subrange(RECORD_LEN * k, RECORD_LEN * k + 4));
            reveal_with_fuel(pow256, 5);
        }
        let sn = read_le(data, RECORD_LEN * k, 4) as u32;
        out.push(sn);
        k = k + 1;
        assert(out@ =~= chunk_seq_numbers(data@).subrange(0, k as int));
    }
    assert(out@ =~= chunk_seq_numbers(data@));
    out
}

/// Whether a datagram opens with the feedback magic word.
pub fn is_feedback_datagram(buf: &[u8]) -> (r: bool)
    ensures
        r == (buf@.len() >= HEADER_LEN && le_value(buf@.subrange(0, HEADER_LEN as int))
            == SCREAM_FEEDBACK_HEADER),
{
    if buf.len() < HEADER_LEN {
        false
    } else {
        read_le(buf, 0, HEADER_LEN) == SCREAM_FEEDBACK_HEADER as u64
    }
}

} // verus!
