//! Little-endian integers in byte sequences.

use vstd::prelude::*;

verus! {

/// The little-endian bytes of `x`, `n` of them.
pub open spec fn le_bytes(x: nat, n: nat) -> Seq<u8>
    decreases n,
{
    if n == 0 {
        Seq::empty()
    } else {
        seq![(x % 256) as u8].add(le_bytes(x / 256, (n - 1) as nat))
    }
}

/// The number that little-endian bytes stand for.
pub open spec fn le_value(b: Seq<u8>) -> nat
    decreases b.len(),
{
    if b.len() == 0 {
        0
    } else {
        (b[0] as nat + 256 * le_value(b.drop_first())) as nat
    }
}

pub proof fn lemma_le_bytes_len(x: nat, n: nat)
    ensures
        le_bytes(x, n).len() == n,
    decreases n,
{
    if n > 0 {
        lemma_le_bytes_len(x / 256, (n - 1) as nat);
    }
}

/// Reading back little-endian bytes gives the number, when it fits.
pub proof fn lemma_le_round_trip(x: nat, n: nat)
    requires
        x < pow256(n),
    ensures
        le_value(le_bytes(x, n)) == x,
    decreases n,
{
    if n > 0 {
        let b = le_bytes(x, n);
        lemma_le_bytes_len(x / 256, (n - 1) as nat);
        assert(b.drop_first() =~= le_bytes(x / 256, (n - 1) as nat));
        assert(x / 256 < pow256((n - 1) as nat));
        lemma_le_round_trip(x / 256, (n - 1) as nat);
    }
}

pub open spec fn pow256(n: nat) -> nat
    decreases n,
{
    if n == 0 {
        1
    } else {
        256 * pow256((n - 1) as nat)
    }
}

pub proof fn lemma_le_value_bound(b: Seq<u8>)
    ensures
        le_value(b) < pow256(b.len()),
    decreases b.len(),
{
    if b.len() > 0 {
        lemma_le_value_bound(b.drop_first());
    }
}

/// Appends the `n` little-endian bytes of `x`.
pub fn push_le(v: &mut Vec<u8>, x: u64, n: usize)
    ensures
        final(v)@ == old(v)@.add(le_bytes(x as nat, n as nat)),
    decreases n,
{
    if n > 0 {
        let ghost v0 = v@;
        v.push((x % 256) as u8);
        push_le(v, x / 256, n - 1);
        assert(v@ =~= v0.add(le_bytes(x as nat, n as nat)));
    } else {
        assert(v@ =~= old(v)@.add(le_bytes(x as nat, n as nat)));
    }
}

/// The number held little-endian in `data[at .. at + n]`.
pub fn read_le(data: &[u8], at: usize, n: usize) -> (r: u64)
    requires
        at + n <= data@.len(),
        n <= 8,
    ensures
        r == le_value(data@.subrange(at as int, at + n)),
    decreases n,
{
    if n == 0 {
        0
    } else {
        assert(data@.len() == data.len());
        let rest = read_le(data, at + 1, n - 1);
        let ghost b = data@.subrange(at as int, at + n);
        assert(b.drop_first() =~= data@.subrange(at + 1, at + n));
        proof {
            lemma_le_value_bound(data@.subrange(at + 1, at + n));
            lemma_pow256_mono((n - 1) as nat, 7);
            reveal_with_fuel(pow256, 8);
            assert(pow256(7) == 0x100_0000_0000_0000);
        }
        data[at] as u64 + 256 * rest
    }
}

pub proof fn lemma_pow256_mono(a: nat, b: nat)
    requires
        a <= b,
    ensures
        pow256(a) <= pow256(b),
    decreases b,
{
    if a < b {
        lemma_pow256_mono(a, (b - 1) as nat);
    }
}

} // verus!
