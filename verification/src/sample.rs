use vstd::prelude::*;

verus! {

// Audio samples are mono 32-bit IEEE 754 float PCM on the wire and on
// disk. The session layer never does float arithmetic on them: it only
// moves them around and asks "is this sample silent?". A sample is
// therefore carried as the 32-bit little-endian bit pattern of the
// float, which keeps every operation exact. For a finite float, the
// magnitude order of the bit pattern with the sign bit masked off is
// exactly the order of the absolute values, so an amplitude threshold
// is an integer comparison.

/// Bit pattern of the amplitude threshold below which a sample counts
/// as silent (the bits of a small positive float, about 1e-3).
pub const SILENCE_AMPLITUDE_BITS: u32 = 0x3A83126F;

/// A sample is silent when its absolute value is below the threshold.
pub open spec fn is_silent_sample(s: u32) -> bool {
    (s & 0x7FFFFFFFu32) < SILENCE_AMPLITUDE_BITS
}

/// Silence test on one sample bit pattern.
pub fn silent_sample(s: u32) -> (b: bool)
    ensures
        b == is_silent_sample(s),
{
    (s & 0x7FFFFFFF) < SILENCE_AMPLITUDE_BITS
}

/// The 32-bit word formed from four little-endian bytes.
pub open spec fn le_word(b0: u8, b1: u8, b2: u8, b3: u8) -> u32 {
    (b0 + b1 * 0x100 + b2 * 0x10000 + b3 * 0x1000000) as u32
}

/// Reads one 32-bit sample from four little-endian bytes.
pub fn word_from_le_bytes(b0: u8, b1: u8, b2: u8, b3: u8) -> (w: u32)
    ensures
        w == le_word(b0, b1, b2, b3),
{
    let w = (b0 as u32) | ((b1 as u32) << 8) | ((b2 as u32) << 16) | ((b3 as u32) << 24);
    proof {
        assert(((b0 as u32) | ((b1 as u32) << 8) | ((b2 as u32) << 16) | ((b3 as u32) << 24))
            == (b0 + b1 * 0x100 + b2 * 0x10000 + b3 * 0x1000000) as u32) by (bit_vector);
    }
    w
}

/// The samples encoded by a byte sequence: one per whole group of four
/// bytes, little-endian; a trailing partial group is dropped.
pub open spec fn decoded_samples(bytes: Seq<u8>) -> Seq<u32> {
    Seq::new(bytes.len() / 4, |i: int| le_word(
        bytes[4 * i],
        bytes[4 * i + 1],
        bytes[4 * i + 2],
        bytes[4 * i + 3],
    ))
}

/// Decodes a binary frame into samples, four little-endian bytes each.
pub fn decode_samples(bytes: &Vec<u8>) -> (r: Vec<u32>)
    ensures
        r@ == decoded_samples(bytes@),
{
    let blen: usize = bytes.len();
    let n: usize = blen / 4;
    let mut out: Vec<u32> = Vec::new();
    let mut i: usize = 0;
    while i < n
        invariant
            i <= n,
            blen == bytes@.len(),
            n == bytes@.len() / 4,
            out@ == decoded_samples(bytes@).take(i as int),
        decreases n - i,
    {
        proof {
            assert(4 * (bytes@.len() / 4) <= bytes@.len()) by (nonlinear_arith);
            assert(4 * (i as int) + 3 < blen);
        }
        let w = word_from_le_bytes(
            bytes[4 * i],
            bytes[4 * i + 1],
            bytes[4 * i + 2],
            bytes[4 * i + 3],
        );
        out.push(w);
        i = i + 1;
        proof {
            assert(out@ =~= decoded_samples(bytes@).take(i as int));
        }
    }
    proof {
        assert(out@ =~= decoded_samples(bytes@));
    }
    out
}

} // verus!
