//! Demultiplexing one datagram socket into endpoints: telling feedback from
//! ARQ datagrams, reading the conversation id, deciding what to do with a
//! datagram, and allocating fresh conversation ids.

use vstd::prelude::*;

use crate::feedback::{is_feedback_datagram, HEADER_LEN};
use crate::le::{le_value, lemma_le_value_bound, pow256, read_le};
use crate::scream::SCREAM_FEEDBACK_HEADER;
use crate::segment::SEGMENT_HEADER_LEN;

verus! {

/// What an inbound datagram is.
#[derive(Debug, Clone, Copy, PartialEq, Eq)]
pub enum DatagramKind {
    /// Feedback for the controller; its endpoint is found by peer address.
    Feedback,
    /// An ARQ datagram of the conversation with this id.
    Arq(u32),
    /// Too short for either.
    Malformed,
}

pub open spec fn datagram_kind(buf: Seq<u8>) -> DatagramKind {
    if buf.len() >= HEADER_LEN && le_value(buf.subrange(0, HEADER_LEN as int)) == SCREAM_FEEDBACK_HEADER {
        DatagramKind::Feedback
    } else if buf.len() >= SEGMENT_HEADER_LEN {
        DatagramKind::Arq(le_value(buf.subrange(0, 4)) as u32)
    } else {
        DatagramKind::Malformed
    }
}

/// Classifies an inbound datagram, reading the conversation id of an ARQ
/// datagram from its first four bytes.
pub fn classify_datagram(buf: &[u8]) -> (r: DatagramKind)
    ensures
        r == datagram_kind(buf@),
{
    if is_feedback_datagram(buf) {
        DatagramKind::Feedback
    } else if buf.len() >= SEGMENT_HEADER_LEN {
        proof {
            lemma_le_value_bound(buf@.subrange(0, 4));
            reveal_with_fuel(pow256, 5);
        }
        DatagramKind::Arq(read_le(buf, 0, 4) as u32)
    } else {
        DatagramKind::Malformed
    }
}

/// What to do with an inbound datagram.
#[derive(Debug, Clone, Copy, PartialEq, Eq)]
pub enum Dispatch {
    /// Hand it to the endpoint it belongs to.
    Deliver,
    /// A new peer on a listening socket: create an endpoint for it.
    Accept,
    Drop,
}

/// Dispatch of a datagram: to its endpoint when one is known; from an
/// unknown peer, a listening socket accepts an ARQ datagram and a client
/// socket drops it; malformed datagrams are dropped.
pub fn dispatch(kind: DatagramKind, known_peer: bool, listening: bool) -> (r: Dispatch)
    ensures
        r == (if kind == DatagramKind::Malformed {
            Dispatch::Drop
        } else if known_peer {
            Dispatch::Deliver
        } else if listening && kind != DatagramKind::Feedback {
            Dispatch::Accept
        } else {
            Dispatch::Drop
        }),
{
    match kind {
        DatagramKind::Malformed => Dispatch::Drop,
        DatagramKind::Feedback => {
            if known_peer { Dispatch::Deliver } else { Dispatch::Drop }
        },
        DatagramKind::Arq(_) => {
            if known_peer {
                Dispatch::Deliver
            } else if listening {
                Dispatch::Accept
            } else {
                Dispatch::Drop
            }
        },
    }
}

/// Number of non-zero conversation ids.
pub const CONV_SPACE: u64 = 0xffff_ffff;

/// The `k`-th conversation id tried from `hint`: the non-zero ids in
/// increasing order from `hint` (from 1 when `hint` is 0), wrapping past the
/// largest to 1.
pub open spec fn conv_candidate(hint: u32, k: int) -> u32 {
    let start = if hint == 0 { 0 } else { hint - 1 };
    (((start + k) % (CONV_SPACE as int)) + 1) as u32
}


proof fn lemma_candidates_distinct(hint: u32, i: int, j: int)
    requires
        0 <= i < j < CONV_SPACE,
    ensures
        conv_candidate(hint, i) != conv_candidate(hint, j),
{
    let start = if hint == 0 { 0 } else { hint - 1 };
    let m = CONV_SPACE as int;
    let a = start + i;
    let b = start + j;
    assert(a % m != b % m) by {
        vstd::arithmetic::div_mod::lemma_fundamental_div_mod(a, m);
        vstd::arithmetic::div_mod::lemma_fundamental_div_mod(b, m);
        if a % m == b % m {
            assert(b - a == m * (b / m - a / m)) by (nonlinear_arith)
                requires a == m * (a / m) + a % m, b == m * (b / m) + b % m, a % m == b % m;
            assert(b / m - a / m >= 1) by (nonlinear_arith)
                requires b - a == m * (b / m - a / m), b - a > 0, m > 0;
            assert(b - a >= m) by (nonlinear_arith)
                requires b - a == m * (b / m - a / m), b / m - a / m >= 1, m > 0;
        }
    }
}

/// While fewer ids are in use than there are non-zero ids, one of the
/// first `in_use.len() + 1` candidates is free.
pub proof fn lemma_free_conv_exists(in_use: Seq<u32>, hint: u32)
    requires
        in_use.len() < CONV_SPACE,
    ensures
        exists|k: int| 0 <= k <= in_use.len() && !in_use.contains(#[trigger] conv_candidate(hint, k)),
{
    let n = in_use.len() as int;
    let cands = Seq::new((n + 1) as nat, |k: int| conv_candidate(hint, k));
    if forall|k: int| 0 <= k <= n ==> in_use.contains(#[trigger] conv_candidate(hint, k)) {
        assert(cands.no_duplicates()) by {
            assert forall|i: int, j: int| 0 <= i < cands.len() && 0 <= j < cands.len() && i != j
                implies cands[i] != cands[j] by {
                if i < j {
                    lemma_candidates_distinct(hint, i, j);
                } else {
                    lemma_candidates_distinct(hint, j, i);
                }
            }
        }
        cands.unique_seq_to_set();
        assert(cands.to_set().subset_of(in_use.to_set())) by {
            assert forall|c: u32| cands.to_set().contains(c) implies in_use.to_set().contains(c) by {
                let k = choose|k: int| 0 <= k < cands.len() && cands[k] == c;
                assert(in_use.contains(conv_candidate(hint, k)));
            }
        }
        vstd::set_lib::lemma_len_subset(cands.to_set(), in_use.to_set());
        in_use.lemma_cardinality_of_set();
        assert(false);
    }
}

/// Picks a conversation id that is not zero and not in use: the first of
/// the candidates from `hint` that is free, trying one more candidate than
/// there are ids in use.
pub fn allocate_conv(in_use: &Vec<u32>, hint: u32) -> (r: Option<u32>)
    ensures
        r matches Some(c) ==> c != 0 && !in_use@.contains(c) && exists|k: int|
            0 <= k <= in_use@.len() && c == conv_candidate(hint, k) && forall|j: int|
                0 <= j < k ==> in_use@.contains(#[trigger] conv_candidate(hint, j)),
        r is None ==> forall|k: int|
            0 <= k <= in_use@.len() ==> in_use@.contains(#[trigger] conv_candidate(hint, k)),
        in_use@.len() < CONV_SPACE ==> r.is_some(),
{
    let start: u64 = if hint == 0 { 0 } else { hint as u64 - 1 };
    let mut k: u128 = 0;
    let n = in_use.len() as u128;
    while k <= n
        invariant
            n == in_use@.len(),
            n <= usize::MAX,
            start < CONV_SPACE,
            start == (if hint == 0 { 0 } else { hint - 1 }),
            forall|j: int| 0 <= j < k ==> in_use@.contains(#[trigger] conv_candidate(hint, j)),
        decreases n + 1 - k,
    {
        let m = (start as u128 + k) % (CONV_SPACE as u128);
        assert(m == (start + k) % (CONV_SPACE as int));
        assert(m < CONV_SPACE);
        let c = (m + 1) as u32;
        assert(c == conv_candidate(hint, k as int));
        let mut taken = false;
        let mut i: usize = 0;
        while i < in_use.len()
            invariant
                i <= in_use@.len(),
                taken == exists|j: int| 0 <= j < i && in_use@[j] == c,
            decreases in_use@.len() - i,
        {
            if in_use[i] == c {
                taken = true;
            }
            i = i + 1;
        }
        if !taken {
            assert(!in_use@.contains(c));
            return Some(c);
        }
        assert(in_use@.contains(c));
        k = k + 1;
    }
    proof {
        if in_use@.len() < CONV_SPACE {
            lemma_free_conv_exists(in_use@, hint);
        }
    }
    None
}

} // verus!
