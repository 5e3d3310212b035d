use vstd::prelude::*;
use crate::sample::is_silent_sample;
use crate::sample::silent_sample;

verus! {

// The segmenter. A pure function over the session's sample buffer that
// finds a silence pivot suitable for cutting the next translation
// chunk. It never returns a pivot of zero, the pivot never exceeds the
// buffer length, and when silence dominates the tail it returns exactly
// the minimum-chunk sample count so the caller can tell "cut on
// silence" from "cut because the buffer grew long".

/// Seconds of audio in a minimum chunk: the pivot returned on silence.
pub const SEND_SAMPLE_MINIMUM_TIME_SECONDS: usize = 1;

/// Seconds of audio after which a chunk is cut even without silence.
pub const MAX_CHUNK_TIME_SECONDS: usize = 3;

/// The highest sample rate the session layer accepts, in Hz.
pub const MAX_SAMPLE_RATE: u32 = 1000000;

/// Samples in a minimum chunk at the given rate.
pub open spec fn min_chunk_samples(rate: u32) -> int {
    SEND_SAMPLE_MINIMUM_TIME_SECONDS * rate
}

/// Samples in a maximal chunk at the given rate.
pub open spec fn max_chunk_samples(rate: u32) -> int {
    MAX_CHUNK_TIME_SECONDS * rate
}

/// Length of the tail window inspected for silence, at the given rate.
pub open spec fn tail_window(rate: u32) -> int {
    rate / 10 + 1
}

/// A rate the session layer accepts: positive and within machine reach.
pub open spec fn valid_rate(rate: u32) -> bool {
    1 <= rate <= MAX_SAMPLE_RATE
}

/// Every sample in the buffer's tail window is silent.
pub open spec fn tail_is_silent(buf: Seq<u32>, rate: u32) -> bool {
    forall|i: int|
        buf.len() - tail_window(rate) <= i < buf.len() ==> is_silent_sample(#[trigger] buf[i])
}

/// What the segmenter returns on a given buffer: no cut below the
/// minimum chunk; the minimum-chunk pivot when the tail is silent; the
/// maximal-chunk pivot when the buffer has grown long; otherwise no cut.
pub open spec fn find_silence_spec(buf: Seq<u32>, rate: u32) -> Option<int> {
    if buf.len() < min_chunk_samples(rate) {
        None
    } else if tail_is_silent(buf, rate) {
        Some(min_chunk_samples(rate))
    } else if buf.len() >= max_chunk_samples(rate) {
        Some(max_chunk_samples(rate))
    } else {
        None
    }
}

/// Finds the pivot at which to cut the next chunk, if any.
pub fn find_silence(buffer: &Vec<u32>, sample_rate: u32) -> (r: Option<usize>)
    requires
        valid_rate(sample_rate),
    ensures
        r matches Some(p) ==> Some(p as int) == find_silence_spec(buffer@, sample_rate),
        r is None ==> find_silence_spec(buffer@, sample_rate) is None,
        r matches Some(p) ==> 0 < p <= buffer@.len(),
{
    let min_chunk: usize = SEND_SAMPLE_MINIMUM_TIME_SECONDS * (sample_rate as usize);
    let max_chunk: usize = MAX_CHUNK_TIME_SECONDS * (sample_rate as usize);
    if buffer.len() < min_chunk {
        return None;
    }
    let window: usize = (sample_rate as usize) / 10 + 1;
    let start: usize = if buffer.len() >= window {
        buffer.len() - window
    } else {
        0
    };
    let mut i: usize = start;
    let mut silent: bool = true;
    while i < buffer.len()
        invariant
            start <= i <= buffer@.len(),
            start == if buffer@.len() >= tail_window(sample_rate) {
                buffer@.len() - tail_window(sample_rate)
            } else {
                0int
            },
            silent == forall|j: int| start <= j < i ==> is_silent_sample(#[trigger] buffer@[j]),
        decreases buffer@.len() - i,
    {
        if !silent_sample(buffer[i]) {
            silent = false;
        }
        i = i + 1;
    }
    if silent {
        assert(tail_is_silent(buffer@, sample_rate));
        Some(min_chunk)
    } else {
        assert(!tail_is_silent(buffer@, sample_rate));
        if buffer.len() >= max_chunk {
            Some(max_chunk)
        } else {
            None
        }
    }
}

} // verus!
