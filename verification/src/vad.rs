use vstd::prelude::*;

verus! {

/// Samples per chunk scored by the voice-activity model.
pub const VAD_CHUNK: usize = 512;

/// Samples of the previous chunk prepended to each chunk for context.
pub fn vad_context_size(sample_rate: u32) -> (n: usize)
    ensures
        n == (if sample_rate == 16000 { 64usize } else { 32usize }),
{
    if sample_rate == 16000 {
        64
    } else {
        32
    }
}

/// Number of whole chunks in a recording.
pub fn vad_chunk_count(num_samples: usize) -> (n: usize)
    ensures
        n == num_samples / 512,
{
    num_samples / VAD_CHUNK
}

/// Chunks of padding kept around speech: about a fifth of a second.
pub open spec fn padding_chunks(sample_rate: u32) -> int {
    (sample_rate / 512 / 5) as int
}

/// The part of a recording to keep, in samples: from `pad` chunks before
/// the first chunk with speech to `pad` chunks after the last one, within
/// the recording's whole chunks; `None` when no chunk has speech.
pub fn speech_window(num_samples: usize, sample_rate: u32, speech: &Vec<bool>) -> (r: Option<(usize, usize)>)
    requires
        speech@.len() == num_samples / 512,
    ensures
        r is None <==> forall|i: int| 0 <= i < speech@.len() ==> !#[trigger] speech@[i],
        r matches Some((s, e)) ==> exists|f: int, l: int| {
            &&& 0 <= f <= l < speech@.len()
            &&& speech@[f] && speech@[l]
            &&& (forall|i: int| 0 <= i < f ==> !#[trigger] speech@[i])
            &&& (forall|i: int| l < i < speech@.len() ==> !#[trigger] speech@[i])
            &&& s == 512 * (if f >= padding_chunks(sample_rate) { f - padding_chunks(sample_rate) } else { 0 })
            &&& e == 512 * (if l + padding_chunks(sample_rate) + 1 <= speech@.len() {
                l + padding_chunks(sample_rate) + 1
            } else {
                speech@.len() as int
            })
        },
        r matches Some((s, e)) ==> s < e <= num_samples && forall|i: int| 0 <= i < speech@.len() && #[trigger] speech@[i]
            ==> s <= 512 * i && 512 * (i + 1) <= e,
{
    let n = speech.len();
    let mut first: Option<usize> = None;
    let mut last: usize = 0;
    let mut i: usize = 0;
    while i < n
        invariant
            n == speech@.len(),
            i <= n,
            match first {
                None => forall|k: int| 0 <= k < i ==> !#[trigger] speech@[k],
                Some(f) => f <= last < i && speech@[f as int] && speech@[last as int] && (forall|k: int|
                    0 <= k < f ==> !#[trigger] speech@[k]) && (forall|k: int| last < k < i ==> !#[trigger] speech@[k]),
            },
        decreases n - i,
    {
        if speech[i] {
            if first.is_none() {
                first = Some(i);
            }
            last = i;
        }
        i = i + 1;
    }
    let f = match first {
        Some(f) => f,
        None => {
            return None;
        },
    };
    let pad = (sample_rate / 512 / 5) as usize;
    let start_chunk = if f >= pad { f - pad } else { 0 };
    let end_chunk = if pad < n && last + 1 <= n - pad { last + pad + 1 } else { n };
    proof {
        assert(n <= num_samples / 512);
        assert(512 * n <= num_samples);
        assert forall|k: int| 0 <= k < speech@.len() && #[trigger] speech@[k] implies start_chunk <= k && k + 1
            <= end_chunk by {
        }
    }
    Some((start_chunk * VAD_CHUNK, end_chunk * VAD_CHUNK))
}

} // verus!
