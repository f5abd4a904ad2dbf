//! Little-endian byte helpers shared by the RIFF code.

use vstd::prelude::*;

verus! {

/// The little-endian `u32` stored in the four bytes of `b` that start at `at`.
pub open spec fn le_u32_at(b: Seq<u8>, at: int) -> nat {
    (b[at] as nat) + 256 * (b[at + 1] as nat) + 65536 * (b[at + 2] as nat) + 16777216 * (
    b[at + 3] as nat)
}

/// The four little-endian bytes of `n` modulo 2^32.
pub open spec fn le_u32_bytes(n: nat) -> Seq<u8> {
    seq![
        (n % 256) as u8,
        ((n / 256) % 256) as u8,
        ((n / 65536) % 256) as u8,
        ((n / 16777216) % 256) as u8,
    ]
}

/// Reading back the four bytes written for `n` gives `n`, when `n` fits in 32 bits.
pub proof fn lemma_le_u32_round_trip(n: nat, prefix: Seq<u8>, suffix: Seq<u8>)
    requires
        n < 0x1_0000_0000,
    ensures
        le_u32_at(prefix + le_u32_bytes(n) + suffix, prefix.len() as int) == n,
{
    let b = prefix + le_u32_bytes(n) + suffix;
    let p = prefix.len() as int;
    assert(b[p] == (n % 256) as u8);
    assert(b[p + 1] == ((n / 256) % 256) as u8);
    assert(b[p + 2] == ((n / 65536) % 256) as u8);
    assert(b[p + 3] == ((n / 16777216) % 256) as u8);
    assert((n % 256) + 256 * ((n / 256) % 256) + 65536 * ((n / 65536) % 256) + 16777216 * ((n
        / 16777216) % 256) == n) by (nonlinear_arith)
        requires
            n < 0x1_0000_0000,
    ;
}

/// Reads the little-endian `u32` at `at`.
pub fn read_le_u32(b: &[u8], at: usize) -> (v: usize)
    requires
        at + 4 <= b@.len(),
    ensures
        v == le_u32_at(b@, at as int),
{
    let b0 = b[at] as usize;
    let b1 = b[at + 1] as usize;
    let b2 = b[at + 2] as usize;
    let b3 = b[at + 3] as usize;
    b0 + 256 * b1 + 65536 * b2 + 16777216 * b3
}

/// Appends the four little-endian bytes of `n` truncated to 32 bits (what
/// `(n as u32).to_le_bytes()` gives).
pub fn push_le_u32(out: &mut Vec<u8>, n: usize)
    ensures
        final(out)@ == old(out)@ + le_u32_bytes(n as nat),
{
    out.push((n % 256) as u8);
    out.push(((n / 256) % 256) as u8);
    out.push(((n / 65536) % 256) as u8);
    out.push(((n / 16777216) % 256) as u8);
    assert(out@ =~= old(out)@ + le_u32_bytes(n as nat));
}

/// Whether the four bytes of `b` at `at` are `id`.
pub fn id_at(b: &[u8], at: usize, id: [u8; 4]) -> (r: bool)
    requires
        at + 4 <= b@.len(),
    ensures
        r == (b@.subrange(at as int, at + 4) == id@),
{
    let r = b[at] == id[0] && b[at + 1] == id[1] && b[at + 2] == id[2] && b[at + 3] == id[3];
    proof {
        if r {
            assert(b@.subrange(at as int, at + 4) =~= id@);
        } else {
            if b@.subrange(at as int, at + 4) == id@ {
                assert(b@.subrange(at as int, at + 4)[0] == id@[0]);
                assert(b@.subrange(at as int, at + 4)[1] == id@[1]);
                assert(b@.subrange(at as int, at + 4)[2] == id@[2]);
                assert(b@.subrange(at as int, at + 4)[3] == id@[3]);
            }
        }
    }
    r
}

/// Appends all bytes of `src`.
pub fn append_bytes(out: &mut Vec<u8>, src: &[u8])
    ensures
        final(out)@ == old(out)@ + src@,
{
    let mut i: usize = 0;
    while i < src.len()
        invariant
            i <= src@.len(),
            out@ == old(out)@ + src@.take(i as int),
        decreases src@.len() - i,
    {
        out.push(src[i]);
        i = i + 1;
        assert(out@ =~= old(out)@ + src@.take(i as int));
    }
    assert(src@.take(src@.len() as int) =~= src@);
}

} // verus!
