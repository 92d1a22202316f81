//! Deterministic hashing: FNV-1a over 64 bits, with no platform or
//! ordering dependence, plus the big-endian byte spelling of integers
//! that every hashed record uses.

use vstd::prelude::*;

verus! {

pub const FNV_OFFSET: u64 = 0xcbf2_9ce4_8422_2325;

pub const FNV_PRIME: u64 = 0x0000_0100_0000_01b3;

/// One FNV-1a round: xor the byte in, then multiply modulo 2^64.
pub open spec fn fnv_step(h: u64, b: u8) -> u64 {
    vstd::wrapping::u64_specs::wrapping_mul(h ^ (b as u64), FNV_PRIME)
}

/// The state after feeding `bytes`, in order, into a hasher in state `h`.
pub open spec fn fnv_fold(h: u64, bytes: Seq<u8>) -> u64
    decreases bytes.len(),
{
    if bytes.len() == 0 {
        h
    } else {
        fnv_step(fnv_fold(h, bytes.drop_last()), bytes.last())
    }
}

/// FNV-1a of a byte sequence.
pub open spec fn fnv_hash(bytes: Seq<u8>) -> u64 {
    fnv_fold(FNV_OFFSET, bytes)
}

/// Feeding two byte runs one after the other is feeding their
/// concatenation.
pub proof fn lemma_fnv_fold_concat(h: u64, a: Seq<u8>, b: Seq<u8>)
    ensures
        fnv_fold(h, a + b) == fnv_fold(fnv_fold(h, a), b),
    decreases b.len(),
{
    if b.len() == 0 {
        assert(a + b =~= a);
    } else {
        lemma_fnv_fold_concat(h, a, b.drop_last());
        assert((a + b).drop_last() =~= a + b.drop_last());
        assert((a + b).last() == b.last());
    }
}

/// Big-endian bytes of a `u64`.
pub open spec fn be8(x: u64) -> Seq<u8> {
    seq![
        ((x >> 56u64) & 0xffu64) as u8,
        ((x >> 48u64) & 0xffu64) as u8,
        ((x >> 40u64) & 0xffu64) as u8,
        ((x >> 32u64) & 0xffu64) as u8,
        ((x >> 24u64) & 0xffu64) as u8,
        ((x >> 16u64) & 0xffu64) as u8,
        ((x >> 8u64) & 0xffu64) as u8,
        (x & 0xffu64) as u8,
    ]
}

/// Appends the big-endian bytes of `x`.
pub fn push_be8(out: &mut Vec<u8>, x: u64)
    ensures
        final(out)@ == old(out)@ + be8(x),
{
    out.push(((x >> 56u64) & 0xffu64) as u8);
    out.push(((x >> 48u64) & 0xffu64) as u8);
    out.push(((x >> 40u64) & 0xffu64) as u8);
    out.push(((x >> 32u64) & 0xffu64) as u8);
    out.push(((x >> 24u64) & 0xffu64) as u8);
    out.push(((x >> 16u64) & 0xffu64) as u8);
    out.push(((x >> 8u64) & 0xffu64) as u8);
    out.push((x & 0xffu64) as u8);
    assert(final(out)@ =~= old(out)@ + be8(x));
}

/// Appends every byte of `bytes`.
pub fn push_bytes(out: &mut Vec<u8>, bytes: &[u8])
    ensures
        final(out)@ == old(out)@ + bytes@,
{
    let ghost start = out@;
    let mut i: usize = 0;
    while i < bytes.len()
        invariant
            i <= bytes@.len(),
            out@ == start + bytes@.take(i as int),
        decreases bytes@.len() - i,
    {
        out.push(bytes[i]);
        proof {
            assert(bytes@.take(i as int + 1) =~= bytes@.take(i as int).push(bytes@[i as int]));
        }
        i = i + 1;
    }
    assert(bytes@.take(bytes@.len() as int) =~= bytes@);
}

/// Running FNV-1a 64-bit state.
pub struct Fnv1a(u64);

impl Default for Fnv1a {
    fn default() -> (r: Self)
        ensures
            r@ == FNV_OFFSET,
    {
        Fnv1a(FNV_OFFSET)
    }
}

impl Fnv1a {
    pub closed spec fn view(&self) -> u64 {
        self.0
    }

    /// A hasher in its initial state.
    pub fn start() -> (r: Self)
        ensures
            r@ == FNV_OFFSET,
    {
        Fnv1a(FNV_OFFSET)
    }

    /// Feeds `bytes` in order.
    pub fn update(&mut self, bytes: &[u8])
        ensures
            final(self)@ == fnv_fold(old(self)@, bytes@),
    {
        let ghost start = self.0;
        let mut i: usize = 0;
        while i < bytes.len()
            invariant
                i <= bytes@.len(),
                self.0 == fnv_fold(start, bytes@.take(i as int)),
            decreases bytes@.len() - i,
        {
            let byte = bytes[i];
            self.0 = (self.0 ^ (byte as u64)).wrapping_mul(FNV_PRIME);
            proof {
                let t = bytes@.take(i as int + 1);
                assert(t.drop_last() =~= bytes@.take(i as int));
                assert(t.last() == byte);
            }
            i = i + 1;
        }
        assert(bytes@.take(bytes@.len() as int) =~= bytes@);
    }

    pub fn finish(&self) -> (r: u64)
        ensures
            r == self@,
    {
        self.0
    }
}

/// FNV-1a of a byte vector.
pub fn hash_bytes(bytes: &Vec<u8>) -> (r: u64)
    ensures
        r == fnv_hash(bytes@),
{
    let mut hasher = Fnv1a::start();
    hasher.update(bytes.as_slice());
    hasher.finish()
}

} // verus!
