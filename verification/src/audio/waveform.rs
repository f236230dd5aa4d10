//! Graphs of recordings and the cache that keeps them. Samples are carried as the
//! bits of 32-bit floating point numbers; the bits of such numbers without a sign are
//! in the order of the numbers.
use crate::utils::bytes;
use crate::utils::bytes::{put_bytes, put_le, read_le, same_bytes};
use crate::utils::paths;
use crate::utils::text;
use vstd::prelude::*;

verus! {

/// The version of the cache format.
pub const CACHE_VERSION: u64 = 1;

/// The bytes before the samples.
pub const CACHE_HEADER_SIZE: usize = 52;

/// The name of the cache of a recording.
pub open spec fn cache_name(name: Seq<char>) -> Seq<char> {
    if text::has_suffix(name, ".wav"@) {
        text::replaced(name, ".wav"@, ".wc"@)
    } else {
        name + ".wc"@
    }
}

/// Where the cache of a recording is.
pub open spec fn cache_path(wav_path: Seq<char>) -> Seq<char> {
    let name = match paths::file_name_spec(wav_path) {
        Some(name) => name,
        None => "unknown.wav"@,
    };
    let dir = match paths::parent_spec(wav_path) {
        Some(dir) => dir,
        None => "."@,
    };
    paths::joined(paths::joined(dir, "__cache__"@), cache_name(name))
}

/// Where the cache of a recording is: in a directory beside it.
pub fn get_cache_path(wav_path: &str) -> (r: String)
    ensures
        r@ == cache_path(wav_path@),
{
    let name = match paths::file_name(wav_path) {
        Some(name) => name,
        None => "unknown.wav".to_owned(),
    };
    let dir = match paths::parent(wav_path) {
        Some(dir) => dir,
        None => ".".to_owned(),
    };
    proof {
        reveal_strlit(".wav");
    }
    let cache = if text::ends_with(name.as_str(), ".wav") {
        text::replace(name.as_str(), ".wav", ".wc")
    } else {
        name.concat(".wc")
    };
    paths::join(paths::join(dir.as_str(), "__cache__").as_str(), cache.as_str())
}

/// How a recording is told from a changed one.
#[derive(Clone, Copy, Debug, PartialEq, Eq, Structural)]
pub struct SourceFingerprint {
    pub size: u64,
    /// Nanoseconds since the epoch; negative before it.
    pub modified_ns: i128,
}

/// A signed number in the bits of an unsigned one.
pub open spec fn two_complement(n: i128) -> nat {
    if n < 0 {
        (n + 0x1_0000_0000_0000_0000_0000_0000_0000_0000) as nat
    } else {
        n as nat
    }
}

fn unsigned_bits(n: i128) -> (r: u128)
    ensures
        r == two_complement(n),
{
    if n < 0 {
        u128::MAX - ((-(n + 1)) as u128)
    } else {
        n as u128
    }
}

/// The first bytes of a cache.
pub open spec fn cache_magic() -> Seq<u8> {
    seq![
        'I' as u8,
        'A' as u8,
        'M' as u8,
        'W' as u8,
        'A' as u8,
        'V' as u8,
        'E' as u8,
        0u8,
    ]
}

/// The bytes before the samples: what they were made of, and how many there are.
pub open spec fn cache_header(source: SourceFingerprint, max_samples: u64, samples: nat) -> Seq<u8> {
    let modified = two_complement(source.modified_ns);
    cache_magic() + bytes::le_bytes(CACHE_VERSION as nat, 4) + bytes::le_bytes(
        max_samples as nat,
        8,
    ) + bytes::le_bytes(source.size as nat, 8) + bytes::le_bytes(
        modified % 0x1_0000_0000_0000_0000,
        8,
    ) + bytes::le_bytes(modified / 0x1_0000_0000_0000_0000, 8) + bytes::le_bytes(samples, 8)
}

/// The bytes of samples.
pub open spec fn sample_bytes(samples: Seq<u32>) -> Seq<u8>
    decreases samples.len(),
{
    if samples.len() == 0 {
        Seq::empty()
    } else {
        sample_bytes(samples.drop_last()) + bytes::le_bytes(samples.last() as nat, 4)
    }
}

/// A whole cache.
pub open spec fn cache_bytes(
    source: SourceFingerprint,
    max_samples: u64,
    samples: Seq<u32>,
) -> Seq<u8> {
    cache_header(source, max_samples, samples.len()) + sample_bytes(samples)
}

/// Whether bits are a finite number that is not below zero.
pub open spec fn is_amplitude(bits: u32) -> bool {
    bits < 0x7f80_0000 || bits == 0x8000_0000
}

fn put_header(out: &mut Vec<u8>, source: SourceFingerprint, max_samples: u64, samples: u64)
    ensures
        final(out)@ == old(out)@ + cache_header(source, max_samples, samples as nat),
{
    let magic: [u8; 8] = [
        'I' as u8,
        'A' as u8,
        'M' as u8,
        'W' as u8,
        'A' as u8,
        'V' as u8,
        'E' as u8,
        0u8,
    ];
    assert(magic@ =~= cache_magic());
    let modified: u128 = unsigned_bits(source.modified_ns);
    let low: u64 = (modified % 0x1_0000_0000_0000_0000) as u64;
    let high: u64 = (modified / 0x1_0000_0000_0000_0000) as u64;
    put_bytes(out, magic.as_slice());
    put_le(out, CACHE_VERSION, 4);
    put_le(out, max_samples, 8);
    put_le(out, source.size, 8);
    put_le(out, low, 8);
    put_le(out, high, 8);
    put_le(out, samples, 8);
    assert(out@ =~= old(out)@ + cache_header(source, max_samples, samples as nat));
}

/// Writes a cache.
pub fn save_waveform_cache(source: SourceFingerprint, max_samples: u64, samples: &[u32]) -> (r: Vec<
    u8,
>)
    ensures
        r@ == cache_bytes(source, max_samples, samples@),
{
    let total: usize = samples.len();
    let mut out: Vec<u8> = Vec::new();
    put_header(&mut out, source, max_samples, total as u64);
    let ghost header = cache_header(source, max_samples, samples@.len());
    assert(out@ =~= header + sample_bytes(samples@.take(0)));
    let mut i: usize = 0;
    while i < total
        invariant
            i <= total == samples@.len(),
            out@ == header + sample_bytes(samples@.take(i as int)),
        decreases total - i,
    {
        put_le(&mut out, samples[i] as u64, 4);
        proof {
            assert(samples@.take(i + 1).drop_last() =~= samples@.take(i as int));
            assert(out@ =~= header + sample_bytes(samples@.take(i + 1)));
        }
        i = i + 1;
    }
    assert(samples@.take(i as int) =~= samples@);
    out
}

proof fn header_len(source: SourceFingerprint, max_samples: u64, samples: nat)
    ensures
        cache_header(source, max_samples, samples).len() == CACHE_HEADER_SIZE,
{
    let modified = two_complement(source.modified_ns);
    bytes::le_bytes_len(CACHE_VERSION as nat, 4);
    bytes::le_bytes_len(max_samples as nat, 8);
    bytes::le_bytes_len(source.size as nat, 8);
    bytes::le_bytes_len(modified % 0x1_0000_0000_0000_0000, 8);
    bytes::le_bytes_len(modified / 0x1_0000_0000_0000_0000, 8);
    bytes::le_bytes_len(samples, 8);
}

/// The sample in a place behind the header of a cache.
pub open spec fn cached_sample(file: Seq<u8>, i: int) -> nat {
    bytes::le_at(file, CACHE_HEADER_SIZE + 4 * i, 4)
}

/// Whether a cache serves a recording as it is now.
pub open spec fn cache_serves(
    file: Seq<u8>,
    source: SourceFingerprint,
    max_samples: u64,
    expected: int,
) -> bool {
    &&& file.len() == CACHE_HEADER_SIZE + 4 * expected
    &&& file.take(CACHE_HEADER_SIZE as int) == cache_header(source, max_samples, expected as nat)
    &&& forall|i: int| 0 <= i < expected ==> is_amplitude(#[trigger] cached_sample(file, i) as u32)
}

/// Reads a cache, if it serves the recording as it is now.
pub fn load_waveform_cache(
    file: &[u8],
    source: SourceFingerprint,
    max_samples: u64,
    expected_samples: usize,
) -> (r: Option<Vec<u32>>)
    ensures
        match r {
            Some(samples) => {
                &&& cache_serves(file@, source, max_samples, expected_samples as int)
                &&& samples@.len() == expected_samples
                &&& forall|i: int|
                    0 <= i < expected_samples ==> #[trigger] samples@[i] == cached_sample(file@, i)
            },
            None => !cache_serves(file@, source, max_samples, expected_samples as int),
        },
{
    let total: usize = file.len();
    if total < CACHE_HEADER_SIZE || (total - CACHE_HEADER_SIZE) % 4 != 0 || (total
        - CACHE_HEADER_SIZE) / 4 != expected_samples {
        return None;
    }
    let mut header: Vec<u8> = Vec::new();
    put_header(&mut header, source, max_samples, expected_samples as u64);
    assert(header@ =~= cache_header(source, max_samples, expected_samples as nat));
    let start = vstd::slice::slice_subrange(file, 0, CACHE_HEADER_SIZE);
    assert(start@ =~= file@.take(CACHE_HEADER_SIZE as int));
    if !same_bytes(start, header.as_slice()) {
        return None;
    }
    let mut out: Vec<u32> = Vec::new();
    let mut i: usize = 0;
    while i < expected_samples
        invariant
            i <= expected_samples,
            total == file@.len(),
            total == CACHE_HEADER_SIZE + 4 * expected_samples,
            out@.len() == i,
            forall|k: int|
                0 <= k < i ==> #[trigger] out@[k] == cached_sample(file@, k) && is_amplitude(
                    cached_sample(file@, k) as u32,
                ),
        decreases expected_samples - i,
    {
        let sample: u64 = read_le(file, CACHE_HEADER_SIZE + 4 * i, 4);
        proof {
            bytes::radix_values();
            assert(sample == cached_sample(file@, i as int));
        }
        assert(sample < 0x1_0000_0000);
        let bits: u32 = sample as u32;
        assert(bits == cached_sample(file@, i as int));
        if bits >= 0x7f80_0000 && bits != 0x8000_0000 {
            return None;
        }
        assert(is_amplitude(cached_sample(file@, i as int) as u32));
        out.push(bits);
        i = i + 1;
    }
    proof {
        assert forall|k: int| 0 <= k < expected_samples implies is_amplitude(
            #[trigger] cached_sample(file@, k) as u32,
        ) by {
            assert(out@[k] == cached_sample(file@, k));
        }
    }
    Some(out)
}

proof fn sample_bytes_at(samples: Seq<u32>, i: int)
    requires
        0 <= i < samples.len(),
    ensures
        sample_bytes(samples).len() == 4 * samples.len(),
        sample_bytes(samples).subrange(4 * i, 4 * i + 4) == bytes::le_bytes(samples[i] as nat, 4),
    decreases samples.len(),
{
    let rest = samples.drop_last();
    bytes::le_bytes_len(samples.last() as nat, 4);
    if rest.len() > 0 {
        sample_bytes_at(
            rest,
            if i < rest.len() {
                i
            } else {
                0
            },
        );
    } else {
        assert(sample_bytes(rest) =~= Seq::empty());
    }
    let all = sample_bytes(samples);
    if i < rest.len() {
        assert(all.subrange(4 * i, 4 * i + 4) =~= sample_bytes(rest).subrange(4 * i, 4 * i + 4));
    } else {
        assert(all.subrange(4 * i, 4 * i + 4) =~= bytes::le_bytes(samples.last() as nat, 4));
    }
}

/// A cache that was written for a recording serves it, and gives back the samples
/// that were written.
pub proof fn cache_reads_back(source: SourceFingerprint, max_samples: u64, samples: Seq<u32>)
    requires
        forall|i: int| 0 <= i < samples.len() ==> is_amplitude(#[trigger] samples[i]),
    ensures
        cache_serves(
            cache_bytes(source, max_samples, samples),
            source,
            max_samples,
            samples.len() as int,
        ),
        forall|i: int|
            0 <= i < samples.len() ==> #[trigger] cached_sample(
                cache_bytes(source, max_samples, samples),
                i,
            ) == samples[i],
{
    let file = cache_bytes(source, max_samples, samples);
    header_len(source, max_samples, samples.len());
    if samples.len() > 0 {
        sample_bytes_at(samples, 0);
    } else {
        assert(sample_bytes(samples) =~= Seq::empty());
    }
    assert(file.take(CACHE_HEADER_SIZE as int) =~= cache_header(source, max_samples, samples.len()));
    assert forall|i: int| 0 <= i < samples.len() implies #[trigger] cached_sample(file, i)
        == samples[i] by {
        sample_bytes_at(samples, i);
        let at = CACHE_HEADER_SIZE + 4 * i;
        assert(file.subrange(at, at + 4) =~= sample_bytes(samples).subrange(4 * i, 4 * i + 4));
        bytes::radix_values();
        bytes::le_at_of_slice(file, at, samples[i] as nat, 4);
    }
}

proof fn halves(a: SourceFingerprint, b: SourceFingerprint)
    requires
        two_complement(a.modified_ns) == two_complement(b.modified_ns),
        a.size == b.size,
    ensures
        a == b,
{
}

proof fn same_bytes_same_value(a: nat, b: nat, n: nat)
    requires
        a < bytes::radix(n),
        b < bytes::radix(n),
        bytes::le_bytes(a, n) == bytes::le_bytes(b, n),
    ensures
        a == b,
{
    bytes::le_round_trip(a, n);
    bytes::le_round_trip(b, n);
}

/// A cache never serves a recording that changed since it was written.
pub proof fn changed_sources_are_not_served(
    written: SourceFingerprint,
    now: SourceFingerprint,
    max_samples: u64,
    samples: Seq<u32>,
    expected: int,
)
    requires
        written != now,
        0 <= expected,
    ensures
        !cache_serves(cache_bytes(written, max_samples, samples), now, max_samples, expected),
{
    let file = cache_bytes(written, max_samples, samples);
    if cache_serves(file, now, max_samples, expected) {
        header_len(written, max_samples, samples.len());
        header_len(now, max_samples, expected as nat);
        bytes::radix_values();
        let a = cache_header(written, max_samples, samples.len());
        let b = cache_header(now, max_samples, expected as nat);
        assert(file.take(CACHE_HEADER_SIZE as int) =~= a);
        let m = two_complement(written.modified_ns);
        let n = two_complement(now.modified_ns);
        let half = 0x1_0000_0000_0000_0000;
        bytes::le_bytes_len(CACHE_VERSION as nat, 4);
        bytes::le_bytes_len(max_samples as nat, 8);
        bytes::le_bytes_len(written.size as nat, 8);
        bytes::le_bytes_len(now.size as nat, 8);
        bytes::le_bytes_len(m % half, 8);
        bytes::le_bytes_len(n % half, 8);
        bytes::le_bytes_len(m / half, 8);
        bytes::le_bytes_len(n / half, 8);
        bytes::le_bytes_len(samples.len(), 8);
        bytes::le_bytes_len(expected as nat, 8);
        assert(a.subrange(20, 28) =~= bytes::le_bytes(written.size as nat, 8));
        assert(b.subrange(20, 28) =~= bytes::le_bytes(now.size as nat, 8));
        same_bytes_same_value(written.size as nat, now.size as nat, 8);
        assert(a.subrange(28, 36) =~= bytes::le_bytes(m % half, 8));
        assert(b.subrange(28, 36) =~= bytes::le_bytes(n % half, 8));
        same_bytes_same_value(m % half, n % half, 8);
        assert(a.subrange(36, 44) =~= bytes::le_bytes(m / half, 8));
        assert(b.subrange(36, 44) =~= bytes::le_bytes(n / half, 8));
        same_bytes_same_value(m / half, n / half, 8);
        assert(m == half * (m / half) + m % half);
        assert(n == half * (n / half) + n % half);
        halves(written, now);
    }
}

/// Why no graph can be made.
#[derive(Clone, Copy, Debug, PartialEq, Eq, Structural)]
pub enum WaveformError {
    NoChannels,
    IncompleteFrames,
    BitDepth(u16),
    NotFinite,
    TooManyFrames,
}

impl WaveformError {
    /// The sentence that belongs to an error.
    pub open spec fn spec_text(&self) -> Seq<char> {
        match self {
            WaveformError::NoChannels => "WAV channel count must be positive"@,
            WaveformError::IncompleteFrames => "WAV samples must contain complete frames"@,
            WaveformError::BitDepth(bits) => "Unsupported WAV bit depth: "@ + text::decimal(
                *bits as nat,
            ),
            WaveformError::NotFinite => "Non-finite sample in the waveform channel"@,
            WaveformError::TooManyFrames => "WAV data exceeds the declared frame count"@,
        }
    }

    pub fn text(&self) -> (r: String)
        ensures
            r@ == self.spec_text(),
    {
        match self {
            WaveformError::NoChannels => "WAV channel count must be positive".to_owned(),
            WaveformError::IncompleteFrames => "WAV samples must contain complete frames".to_owned(),
            WaveformError::BitDepth(bits) => "Unsupported WAV bit depth: ".to_owned().concat(
                text::decimal_text(*bits as u128).as_str(),
            ),
            WaveformError::NotFinite => "Non-finite sample in the waveform channel".to_owned(),
            WaveformError::TooManyFrames => "WAV data exceeds the declared frame count".to_owned(),
        }
    }
}

/// The frames of a recording and the peaks of its graph: as many as asked for, but
/// no more than there are frames.
pub fn graph_size(channels: u16, samples: u32, max_samples: usize) -> (r: Result<
    (usize, usize),
    WaveformError,
>)
    ensures
        match r {
            Ok((frames, peaks)) => {
                &&& channels > 0
                &&& samples == frames * channels
                &&& peaks == vstd::math::min(max_samples as int, frames as int)
            },
            Err(WaveformError::NoChannels) => channels == 0,
            Err(WaveformError::IncompleteFrames) => channels > 0 && samples as int % channels as int
                != 0,
            Err(_) => false,
        },
{
    if channels == 0 {
        return Err(WaveformError::NoChannels);
    }
    let width: u32 = channels as u32;
    if samples % width != 0 {
        return Err(WaveformError::IncompleteFrames);
    }
    let frames: usize = (samples / width) as usize;
    proof {
        vstd::arithmetic::div_mod::lemma_fundamental_div_mod(samples as int, width as int);
        assert(width * (samples / width) == (samples / width) * width) by (nonlinear_arith);
    }
    Ok(
        (
            frames,
            if max_samples < frames {
                max_samples
            } else {
                frames
            },
        ),
    )
}

/// Whether whole numbers of a width can be drawn.
pub fn check_bit_depth(bits: u16) -> (r: Result<(), WaveformError>)
    ensures
        match r {
            Ok(_) => bits == 8 || bits == 16 || bits == 24 || bits == 32,
            Err(e) => bits != 8 && bits != 16 && bits != 24 && bits != 32 && e
                == WaveformError::BitDepth(bits),
        },
{
    if bits == 8 || bits == 16 || bits == 24 || bits == 32 {
        Ok(())
    } else {
        Err(WaveformError::BitDepth(bits))
    }
}

/// The peak that a frame counts for.
pub open spec fn bucket_of(frame: int, peaks: int, frames: int) -> int {
    frame * peaks / frames
}

/// The bits of a number without its sign.
pub open spec fn magnitude(bits: u32) -> u32 {
    if bits >= 0x8000_0000 {
        (bits - 0x8000_0000) as u32
    } else {
        bits
    }
}

/// Whether bits are a finite number.
pub open spec fn is_finite(bits: u32) -> bool {
    magnitude(bits) < 0x7f80_0000
}

/// The largest magnitude of the first channel among the samples whose frames count
/// for a peak.
pub open spec fn peak(
    samples: Seq<u32>,
    channels: int,
    peaks: int,
    frames: int,
    bucket: int,
) -> u32
    decreases samples.len(),
{
    if samples.len() == 0 {
        0
    } else {
        let before = peak(samples.drop_last(), channels, peaks, frames, bucket);
        let i = samples.len() - 1;
        if i % channels == 0 && bucket_of(i / channels, peaks, frames) == bucket && magnitude(
            samples.last(),
        ) > before {
            magnitude(samples.last())
        } else {
            before
        }
    }
}

/// Why a sample of the first channel is refused, if it is.
pub open spec fn sample_error(
    i: int,
    bits: u32,
    channels: int,
    peaks: int,
    frames: int,
) -> Option<WaveformError> {
    if i % channels != 0 {
        None
    } else if !is_finite(bits) {
        Some(WaveformError::NotFinite)
    } else if bucket_of(i / channels, peaks, frames) >= peaks {
        Some(WaveformError::TooManyFrames)
    } else {
        None
    }
}

/// Collects the peaks of a recording in one pass. Its memory depends on the number
/// of peaks, not on the length of the recording.
pub struct PeakCollector {
    peaks: Vec<u32>,
    channels: usize,
    frames: usize,
    next: u64,
    seen: Ghost<Seq<u32>>,
}

impl PeakCollector {
    /// The samples that were taken in.
    pub closed spec fn samples(&self) -> Seq<u32> {
        self.seen@
    }

    /// How many channels, peaks and frames there are.
    pub closed spec fn shape(&self) -> (int, int, int) {
        (self.channels as int, self.peaks@.len() as int, self.frames as int)
    }

    #[verifier::type_invariant]
    spec fn peaks_of_seen(&self) -> bool {
        &&& self.channels > 0
        &&& self.frames > 0
        &&& self.next == self.seen@.len()
        &&& forall|b: int|
            0 <= b < self.peaks@.len() ==> #[trigger] self.peaks@[b] == peak(
                self.seen@,
                self.channels as int,
                self.peaks@.len() as int,
                self.frames as int,
                b,
            )
    }

    pub fn new(channels: usize, frames: usize, peaks: usize) -> (r: Self)
        requires
            channels > 0,
            frames > 0,
        ensures
            r.samples() == Seq::<u32>::empty(),
            r.shape() == (channels as int, peaks as int, frames as int),
    {
        let mut zeros: Vec<u32> = Vec::new();
        let mut i: usize = 0;
        while i < peaks
            invariant
                i <= peaks,
                zeros@.len() == i,
                forall|b: int| 0 <= b < i ==> zeros@[b] == 0,
            decreases peaks - i,
        {
            zeros.push(0);
            i = i + 1;
        }
        PeakCollector { peaks: zeros, channels, frames, next: 0, seen: Ghost(Seq::empty()) }
    }

    /// Takes in the next sample. Only the first channel counts.
    pub fn push(&mut self, bits: u32) -> (r: Result<(), WaveformError>)
        requires
            old(self).samples().len() < u64::MAX,
        ensures
            final(self).shape() == old(self).shape(),
            ({
                let (channels, peaks, frames) = old(self).shape();
                match (
                    r,
                    sample_error(
                        old(self).samples().len() as int,
                        bits,
                        channels,
                        peaks,
                        frames,
                    ),
                ) {
                    (Ok(_), None) => final(self).samples() == old(self).samples().push(bits),
                    (Err(e), Some(wanted)) => e == wanted && final(self).samples() == old(
                        self,
                    ).samples(),
                    _ => false,
                }
            }),
    {
        proof {
            use_type_invariant(&*self);
        }
        let ghost seen = self.seen@;
        let ghost after = seen.push(bits);
        let ghost c = self.channels as int;
        let ghost p = self.peaks@.len() as int;
        let ghost f = self.frames as int;
        let i: u64 = self.next;
        let width: u64 = self.channels as u64;
        assert(after.drop_last() =~= seen);
        let mut peaks: Vec<u32> = Vec::new();
        if i % width == 0 {
            let low: u32 = if bits >= 0x8000_0000 {
                bits - 0x8000_0000
            } else {
                bits
            };
            if low >= 0x7f80_0000 {
                return Err(WaveformError::NotFinite);
            }
            let frame: u64 = i / width;
            let total: usize = self.peaks.len();
            assert(frame * total <= u64::MAX * u64::MAX) by (nonlinear_arith)
                requires
                    frame <= u64::MAX,
                    total <= u64::MAX,
            ;
            let bucket: u128 = frame as u128 * total as u128 / self.frames as u128;
            assert(bucket == bucket_of(i as int / c, p, f));
            if bucket >= total as u128 {
                return Err(WaveformError::TooManyFrames);
            }
            let b: usize = bucket as usize;
            std::mem::swap(&mut peaks, &mut self.peaks);
            if low > peaks[b] {
                peaks.set(b, low);
            }
        } else {
            std::mem::swap(&mut peaks, &mut self.peaks);
        }
        *self = PeakCollector {
            peaks,
            channels: self.channels,
            frames: self.frames,
            next: i + 1,
            seen: Ghost(after),
        };
        Ok(())
    }

    /// The peaks.
    pub fn finish(self) -> (r: Vec<u32>)
        ensures
            ({
                let (channels, peaks, frames) = self.shape();
                &&& r@.len() == peaks
                &&& forall|b: int|
                    0 <= b < peaks ==> #[trigger] r@[b] == peak(
                        self.samples(),
                        channels,
                        peaks,
                        frames,
                        b,
                    )
            }),
    {
        proof {
            use_type_invariant(&self);
        }
        self.peaks
    }
}

/// Whether a frame counts for a peak.
pub open spec fn has_frame(b: int, peaks: int, frames: int) -> bool {
    exists|frame: int| 0 <= frame < frames && #[trigger] bucket_of(frame, peaks, frames) == b
}

/// Every frame of a recording counts for exactly one peak, and every peak has a frame
/// that counts for it.
pub proof fn frames_share_the_peaks(peaks: int, frames: int)
    requires
        0 < peaks <= frames,
    ensures
        forall|frame: int|
            0 <= frame < frames ==> 0 <= #[trigger] bucket_of(frame, peaks, frames) < peaks,
        forall|b: int| 0 <= b < peaks ==> #[trigger] has_frame(b, peaks, frames),
{
    assert forall|frame: int| 0 <= frame < frames implies 0 <= #[trigger] bucket_of(
        frame,
        peaks,
        frames,
    ) < peaks by {
        assert(0 <= frame * peaks < peaks * frames) by (nonlinear_arith)
            requires
                0 <= frame < frames,
                0 < peaks,
        ;
        assert(0 <= frame * peaks / frames < peaks) by (nonlinear_arith)
            requires
                0 <= frame * peaks < peaks * frames,
                0 < frames,
        ;
    }
    assert forall|b: int| 0 <= b < peaks implies #[trigger] has_frame(b, peaks, frames) by {
        let x = b * frames + peaks - 1;
        let frame = x / peaks;
        vstd::arithmetic::div_mod::lemma_fundamental_div_mod(x, peaks);
        let rest = x % peaks;
        assert(x == peaks * frame + rest);
        assert(b * frames <= frame * peaks < b * frames + frames) by (nonlinear_arith)
            requires
                b * frames + peaks - 1 == peaks * frame + rest,
                0 <= rest < peaks,
                peaks <= frames,
        ;
        assert(frame * peaks / frames == b) by (nonlinear_arith)
            requires
                b * frames <= frame * peaks < b * frames + frames,
                0 < frames,
        ;
        assert(0 <= frame) by (nonlinear_arith)
            requires
                b * frames <= frame * peaks,
                0 <= b,
                0 < peaks,
                0 < frames,
        ;
        assert(frame < frames) by (nonlinear_arith)
            requires
                frame * peaks < b * frames + frames,
                b + 1 <= peaks,
                0 < peaks,
                0 < frames,
        ;
        assert(bucket_of(frame, peaks, frames) == b);
    }
}

/// A peak is the loudest sample of the first channel among the frames that count for it:
/// none of them is louder, and one of them is just as loud, unless all are silent or there
/// is none.
pub proof fn peaks_are_the_loudest_samples(
    samples: Seq<u32>,
    channels: int,
    peaks: int,
    frames: int,
    bucket: int,
    i: int,
)
    requires
        0 < channels,
        0 <= i < samples.len(),
    ensures
        ({
            let p = peak(samples, channels, peaks, frames, bucket);
            &&& i % channels == 0 && (i / channels) * peaks / frames == bucket ==> magnitude(
                samples[i],
            ) <= p
            &&& p == 0 || exists|k: int|
                0 <= k < samples.len() && k % channels == 0 && (k / channels) * peaks / frames
                    == bucket && magnitude(#[trigger] samples[k]) == p
        }),
    decreases samples.len(),
{
    let rest = samples.drop_last();
    let last = samples.len() - 1;
    assert(samples[last] == samples.last());
    if rest.len() > 0 {
        if i < last {
            peaks_are_the_loudest_samples(rest, channels, peaks, frames, bucket, i);
        } else {
            peaks_are_the_loudest_samples(rest, channels, peaks, frames, bucket, 0);
        }
        let before = peak(rest, channels, peaks, frames, bucket);
        if before != 0 {
            let k = choose|k: int|
                0 <= k < rest.len() && k % channels == 0 && (k / channels) * peaks / frames
                    == bucket && magnitude(#[trigger] rest[k]) == before;
            assert(samples[k] == rest[k]);
        }
    } else {
        assert(peak(rest, channels, peaks, frames, bucket) == 0);
    }
}

} // verus!
