//! Little-endian encoding of decoded voice samples.
//!
//! The voice channel delivers 16-bit signed samples; the recognition
//! service consumes a raw little-endian byte stream.

use vstd::prelude::*;

verus! {

/// The low byte of a sample's two's-complement representation.
pub open spec fn sample_lo(v: i16) -> u8 {
    (v & 0xff) as u8
}

/// The high byte of a sample's two's-complement representation.
pub open spec fn sample_hi(v: i16) -> u8 {
    ((v >> 8u16) & 0xff) as u8
}

/// The little-endian byte stream for a sequence of samples.
pub open spec fn le_bytes_spec(s: Seq<i16>) -> Seq<u8>
    decreases s.len(),
{
    if s.len() == 0 {
        Seq::empty()
    } else {
        le_bytes_spec(s.drop_last()) + seq![sample_lo(s.last()), sample_hi(s.last())]
    }
}

/// Length of the encoding: two bytes per sample.
pub proof fn lemma_le_bytes_len(s: Seq<i16>)
    ensures
        le_bytes_spec(s).len() == 2 * s.len(),
    decreases s.len(),
{
    if s.len() > 0 {
        lemma_le_bytes_len(s.drop_last());
    }
}

/// Encode samples as consecutive little-endian byte pairs.
#[verifier::loop_isolation(false)]
pub fn encode_samples(samples: &Vec<i16>) -> (r: Vec<u8>)
    ensures
        r@ == le_bytes_spec(samples@),
        r@.len() == 2 * samples@.len(),
{
    let n = samples.len();
    let mut r: Vec<u8> = Vec::new();
    let mut i: usize = 0;
    while i < n
        invariant
            0 <= i <= n,
            r@ =~= le_bytes_spec(samples@.take(i as int)),
        decreases n - i,
    {
        let v = samples[i];
        proof {
            assert(samples@.take(i + 1).drop_last() =~= samples@.take(i as int));
        }
        assert(0 <= v & 0xff < 256) by (bit_vector);
        assert(0 <= (v >> 8u16) & 0xff < 256) by (bit_vector);
        r.push((v & 0xff) as u8);
        r.push(((v >> 8u16) & 0xff) as u8);
        i += 1;
    }
    proof {
        assert(samples@.take(n as int) =~= samples@);
        lemma_le_bytes_len(samples@);
    }
    r
}

} // verus!
