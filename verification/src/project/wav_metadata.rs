//! Tags and a table of contents inside a WAV, written without moving its samples.
use crate::audio::export_wav;
use crate::audio::wav_layout;
use crate::audio::export_wav::{Patch, WavChunk, WavError, WavInfo};
use crate::project::compiler;
use crate::utils::{bytes, text};
use vstd::prelude::*;
use vstd::utf8;

verus! {

/// Why tags are not written.
#[derive(Clone, Copy, Debug, PartialEq, Eq, Structural)]
pub enum MetadataError {
    SampleRate,
    Channels,
    MarkerAlignment,
    MarkerPosition,
    ChunkSize,
    ChunkSentinel,
    TooManyMarkers,
    MarkerTitle,
    Unreadable,
    Overflow,
    Wav(WavError),
}

impl MetadataError {
    pub open spec fn spec_text(self) -> Seq<char> {
        match self {
            MetadataError::SampleRate => "WAV sample rate mismatch"@,
            MetadataError::Channels => "WAV channel count mismatch"@,
            MetadataError::MarkerAlignment => "Marker is not frame-aligned"@,
            MetadataError::MarkerPosition => "Marker exceeds WAV duration"@,
            MetadataError::ChunkSize => "WAV metadata chunk exceeds 32-bit size"@,
            MetadataError::ChunkSentinel => "WAV metadata chunk size uses reserved sentinel"@,
            MetadataError::TooManyMarkers => "Too many WAV markers"@,
            MetadataError::MarkerTitle => "WAV marker title contains NUL"@,
            MetadataError::Unreadable => "Failed to read WAV metadata"@,
            MetadataError::Overflow => "WAV size overflow"@,
            MetadataError::Wav(e) => e.text(),
        }
    }

    pub fn message(&self) -> (r: &'static str)
        ensures
            r@ == self.spec_text(),
    {
        match self {
            MetadataError::SampleRate => "WAV sample rate mismatch",
            MetadataError::Channels => "WAV channel count mismatch",
            MetadataError::MarkerAlignment => "Marker is not frame-aligned",
            MetadataError::MarkerPosition => "Marker exceeds WAV duration",
            MetadataError::ChunkSize => "WAV metadata chunk exceeds 32-bit size",
            MetadataError::ChunkSentinel => "WAV metadata chunk size uses reserved sentinel",
            MetadataError::TooManyMarkers => "Too many WAV markers",
            MetadataError::MarkerTitle => "WAV marker title contains NUL",
            MetadataError::Unreadable => "Failed to read WAV metadata",
            MetadataError::Overflow => "WAV size overflow",
            MetadataError::Wav(e) => e.message(),
        }
    }
}

/// What is wrong with the place of a marker, if anything is. Places count the samples
/// of all channels.
pub open spec fn place_error(info: export_wav::WavModel, place: int) -> Option<MetadataError> {
    if place % info.channels as int != 0 {
        Some(MetadataError::MarkerAlignment)
    } else if place / info.channels as int > info.frames {
        Some(MetadataError::MarkerPosition)
    } else {
        None
    }
}

/// The first thing that is wrong with the places of the first `n` markers.
pub open spec fn places_error(
    info: export_wav::WavModel,
    markers: Seq<(Seq<char>, int)>,
    n: int,
) -> Option<MetadataError>
    decreases n,
{
    if n <= 0 {
        None
    } else {
        match places_error(info, markers, n - 1) {
            Some(e) => Some(e),
            None => place_error(info, markers[n - 1].1),
        }
    }
}

/// The first thing that does not fit between a WAV and what is to be written to it.
pub open spec fn fit_error(
    info: export_wav::WavModel,
    sample_rate: u32,
    channels: u16,
    markers: Seq<(Seq<char>, int)>,
) -> Option<MetadataError> {
    if info.sample_rate != sample_rate {
        Some(MetadataError::SampleRate)
    } else if info.channels != channels {
        Some(MetadataError::Channels)
    } else {
        places_error(info, markers, markers.len() as int)
    }
}

proof fn places_error_stays(
    info: export_wav::WavModel,
    markers: Seq<(Seq<char>, int)>,
    k: int,
    n: int,
)
    requires
        0 <= k <= n,
        places_error(info, markers, k) is Some,
    ensures
        places_error(info, markers, n) == places_error(info, markers, k),
    decreases n - k,
{
    if k < n {
        places_error_stays(info, markers, k, n - 1);
    }
}

/// Checks that tags and markers fit a WAV, before any of it is altered.
pub fn check_fit(
    info: &WavInfo,
    sample_rate: u32,
    channels: u16,
    markers: &[(String, u64)],
) -> (r: Result<(), MetadataError>)
    requires
        info.channels > 0,
    ensures
        match r {
            Ok(_) => fit_error(
                info@,
                sample_rate,
                channels,
                compiler::chapter_models(markers@),
            ) is None,
            Err(e) => fit_error(
                info@,
                sample_rate,
                channels,
                compiler::chapter_models(markers@),
            ) == Some(e),
        },
{
    if info.sample_rate != sample_rate {
        return Err(MetadataError::SampleRate);
    }
    if info.channels != channels {
        return Err(MetadataError::Channels);
    }
    let ghost models = compiler::chapter_models(markers@);
    let width: u64 = channels as u64;
    let mut i: usize = 0;
    while i < markers.len()
        invariant
            i <= markers@.len(),
            models == compiler::chapter_models(markers@),
            width == channels == info.channels > 0,
            places_error(info@, models, i as int) is None,
            info.sample_rate == sample_rate,
        decreases markers@.len() - i,
    {
        let place: u64 = markers[i].1;
        assert(models[i as int].1 == place);
        if place % width != 0 {
            proof {
                places_error_stays(info@, models, i + 1, models.len() as int);
            }
            return Err(MetadataError::MarkerAlignment);
        }
        if place / width > info.frames {
            proof {
                places_error_stays(info@, models, i + 1, models.len() as int);
            }
            return Err(MetadataError::MarkerPosition);
        }
        i = i + 1;
    }
    Ok(())
}

/// Why a chunk of some length cannot be written, if it cannot.
pub open spec fn chunk_error(len: nat) -> Option<MetadataError> {
    if len > u32::MAX {
        Some(MetadataError::ChunkSize)
    } else if len == u32::MAX {
        Some(MetadataError::ChunkSentinel)
    } else {
        None
    }
}

/// The bytes of a chunk: its name, its length, its contents, and a byte that makes an
/// odd length even.
pub open spec fn chunk_bytes(id: Seq<u8>, contents: Seq<u8>) -> Seq<u8> {
    id + bytes::le_bytes(contents.len(), 4) + contents + (if contents.len() % 2 == 1 {
        seq![0u8]
    } else {
        Seq::empty()
    })
}

/// Appends a chunk.
pub fn append_chunk(target: &mut Vec<u8>, id: &[u8; 4], contents: &[u8]) -> (r: Result<
    (),
    MetadataError,
>)
    ensures
        match r {
            Ok(_) => chunk_error(contents@.len()) is None && final(target)@ == old(target)@
                + chunk_bytes(id@, contents@),
            Err(e) => chunk_error(contents@.len()) == Some(e) && final(target)@ == old(target)@,
        },
{
    let size: u64 = contents.len() as u64;
    if size > u32::MAX as u64 {
        return Err(MetadataError::ChunkSize);
    }
    if size == u32::MAX as u64 {
        return Err(MetadataError::ChunkSentinel);
    }
    bytes::put_bytes(target, id.as_slice());
    bytes::put_le(target, size, 4);
    bytes::put_bytes(target, contents);
    if size % 2 == 1 {
        target.push(0);
    }
    assert(target@ =~= old(target)@ + chunk_bytes(id@, contents@));
    Ok(())
}

/// The frame at which a marker stands.
pub open spec fn frame_of(place: int, channels: int) -> int {
    place / channels
}

/// Whether some marker stands past what 32 bits can count.
pub open spec fn needs_wide(markers: Seq<(Seq<char>, int)>, channels: int) -> bool {
    exists|i: int|
        0 <= i < markers.len() && frame_of((#[trigger] markers[i]).1, channels) > u32::MAX
}

/// A cue point: its number, the frame, and the frame again within the samples.
pub open spec fn cue_point(number: nat, frame: nat) -> Seq<u8> {
    bytes::le_bytes(number, 4) + bytes::le_bytes(frame, 4) + export_wav::name('d', 'a', 't', 'a')
        + bytes::le_bytes(0, 4) + bytes::le_bytes(0, 4) + bytes::le_bytes(frame, 4)
}

/// The first `n` cue points after their count.
pub open spec fn cue_points(markers: Seq<(Seq<char>, int)>, channels: int, n: int) -> Seq<u8>
    decreases n,
{
    if n <= 0 {
        bytes::le_bytes(markers.len(), 4)
    } else {
        cue_points(markers, channels, n - 1) + cue_point(
            n as nat,
            frame_of(markers[n - 1].1, channels) as nat,
        )
    }
}

/// A label: the number of its marker and a text that ends with a zero.
pub open spec fn label(number: nat, title: Seq<char>) -> Seq<u8> {
    bytes::le_bytes(number, 4) + utf8::encode_utf8(title) + seq![0u8]
}

/// The first `n` labels after the name of their list.
pub open spec fn label_list(markers: Seq<(Seq<char>, int)>, n: int) -> Seq<u8>
    decreases n,
{
    if n <= 0 {
        export_wav::name('a', 'd', 't', 'l')
    } else {
        label_list(markers, n - 1) + chunk_bytes(
            export_wav::name('l', 'a', 'b', 'l'),
            label(n as nat, markers[n - 1].0),
        )
    }
}

pub open spec fn zeros(n: int) -> Seq<u8> {
    Seq::new(n as nat, |i: int| 0u8)
}

/// A marker with a 64-bit place, in 320 bytes. A text that has no room refers to its
/// label.
pub open spec fn wide_marker(number: nat, title: Seq<char>, frame: nat) -> Seq<u8> {
    let text = utf8::encode_utf8(title);
    let short = text.len() <= 255;
    bytes::le_bytes(
        if short {
            0x11
        } else {
            0x19
        },
        4,
    ) + bytes::le_bytes(frame, 8) + zeros(16) + (if short {
        text + zeros(256 - text.len())
    } else {
        zeros(256)
    }) + bytes::le_bytes(
        if short {
            0
        } else {
            number
        },
        4,
    ) + zeros(32)
}

/// The first `n` markers with 64-bit places.
pub open spec fn wide_markers(markers: Seq<(Seq<char>, int)>, channels: int, n: int) -> Seq<u8>
    decreases n,
{
    if n <= 0 {
        Seq::empty()
    } else {
        wide_markers(markers, channels, n - 1) + wide_marker(
            n as nat,
            markers[n - 1].0,
            frame_of(markers[n - 1].1, channels) as nat,
        )
    }
}

/// What is wrong with the title of a marker, if anything is.
pub open spec fn title_error(title: Seq<char>) -> Option<MetadataError> {
    if title.contains('\0') {
        Some(MetadataError::MarkerTitle)
    } else {
        chunk_error(utf8::encode_utf8(title).len() + 5)
    }
}

/// The first thing that is wrong with the titles of the first `n` markers.
pub open spec fn titles_error(markers: Seq<(Seq<char>, int)>, n: int) -> Option<MetadataError>
    decreases n,
{
    if n <= 0 {
        None
    } else {
        match titles_error(markers, n - 1) {
            Some(e) => Some(e),
            None => title_error(markers[n - 1].0),
        }
    }
}

/// The chunks with tags and a table of contents, or why they cannot be made. A table
/// whose places need 64 bits has no 32-bit form: part of it would mislead.
pub open spec fn prepared(
    tags: Seq<u8>,
    markers: Seq<(Seq<char>, int)>,
    channels: int,
) -> Result<Seq<u8>, MetadataError> {
    let n = markers.len() as int;
    let wide = needs_wide(markers, channels);
    let cues = cue_points(markers, channels, n);
    let labels = label_list(markers, n);
    let entries = wide_markers(markers, channels, n);
    if chunk_error(tags.len()) is Some {
        Err(chunk_error(tags.len())->0)
    } else if n > u32::MAX {
        Err(MetadataError::TooManyMarkers)
    } else if titles_error(markers, n) is Some {
        Err(titles_error(markers, n)->0)
    } else if n > 0 && !wide && chunk_error(cues.len()) is Some {
        Err(chunk_error(cues.len())->0)
    } else if n > 0 && chunk_error(labels.len()) is Some {
        Err(chunk_error(labels.len())->0)
    } else if wide && chunk_error(entries.len()) is Some {
        Err(chunk_error(entries.len())->0)
    } else {
        Ok(
            chunk_bytes(export_wav::name('i', 'd', '3', ' '), tags) + (if n > 0 && !wide {
                chunk_bytes(export_wav::name('c', 'u', 'e', ' '), cues)
            } else {
                Seq::empty()
            }) + (if n > 0 {
                chunk_bytes(export_wav::name('L', 'I', 'S', 'T'), labels)
            } else {
                Seq::empty()
            }) + (if wide {
                chunk_bytes(export_wav::name('r', '6', '4', 'm'), entries)
            } else {
                Seq::empty()
            }),
        )
    }
}

fn has_nul(title: &str) -> (r: bool)
    ensures
        r == title@.contains('\0'),
{
    let v = text::to_chars(title);
    let mut i: usize = 0;
    while i < v.len()
        invariant
            i <= v@.len(),
            v@ == title@,
            forall|k: int| 0 <= k < i ==> v@[k] != '\0',
        decreases v@.len() - i,
    {
        if v[i] == '\0' {
            assert(title@[i as int] == '\0');
            return true;
        }
        i = i + 1;
    }
    false
}

fn put_zeros(out: &mut Vec<u8>, n: usize)
    ensures
        final(out)@ == old(out)@ + zeros(n as int),
{
    let mut i: usize = 0;
    assert(out@ =~= old(out)@ + zeros(0));
    while i < n
        invariant
            i <= n,
            out@ == old(out)@ + zeros(i as int),
        decreases n - i,
    {
        out.push(0);
        i = i + 1;
        assert(out@ =~= old(out)@ + zeros(i as int));
    }
}

fn put_cue(out: &mut Vec<u8>, number: u32, frame: u32)
    ensures
        final(out)@ == old(out)@ + cue_point(number as nat, frame as nat),
{
    bytes::put_le(out, number as u64, 4);
    bytes::put_le(out, frame as u64, 4);
    export_wav::put_name(out, 'd', 'a', 't', 'a');
    bytes::put_le(out, 0, 4);
    bytes::put_le(out, 0, 4);
    bytes::put_le(out, frame as u64, 4);
    assert(out@ =~= old(out)@ + cue_point(number as nat, frame as nat));
}

fn label_of(number: u32, title: &str) -> (r: Vec<u8>)
    ensures
        r@ == label(number as nat, title@),
        r@.len() == utf8::encode_utf8(title@).len() + 5,
{
    let mut out: Vec<u8> = Vec::new();
    bytes::put_le(&mut out, number as u64, 4);
    bytes::put_bytes(&mut out, title.as_bytes());
    out.push(0);
    proof {
        bytes::le_bytes_len(number as nat, 4);
        assert(out@ =~= label(number as nat, title@));
    }
    out
}

fn put_wide(out: &mut Vec<u8>, number: u32, title: &str, frame: u64)
    ensures
        final(out)@ == old(out)@ + wide_marker(number as nat, title@, frame as nat),
{
    let content = title.as_bytes();
    let short = content.len() <= 255;
    bytes::put_le(
        out,
        if short {
            0x11
        } else {
            0x19
        },
        4,
    );
    bytes::put_le(out, frame, 8);
    put_zeros(out, 16);
    if short {
        bytes::put_bytes(out, content);
        put_zeros(out, 256 - content.len());
    } else {
        put_zeros(out, 256);
    }
    bytes::put_le(
        out,
        if short {
            0
        } else {
            number as u64
        },
        4,
    );
    put_zeros(out, 32);
    assert(out@ =~= old(out)@ + wide_marker(number as nat, title@, frame as nat));
}

fn is_wide(markers: &[(String, u64)], channels: u16) -> (r: bool)
    requires
        channels > 0,
    ensures
        r == needs_wide(compiler::chapter_models(markers@), channels as int),
{
    let ghost models = compiler::chapter_models(markers@);
    let mut i: usize = 0;
    while i < markers.len()
        invariant
            i <= markers@.len(),
            models == compiler::chapter_models(markers@),
            channels > 0,
            forall|k: int|
                0 <= k < i ==> frame_of((#[trigger] models[k]).1, channels as int) <= u32::MAX,
        decreases markers@.len() - i,
    {
        assert(models[i as int].1 == markers@[i as int].1);
        if markers[i].1 / channels as u64 > u32::MAX as u64 {
            assert(frame_of(models[i as int].1, channels as int) > u32::MAX);
            return true;
        }
        i = i + 1;
    }
    false
}

proof fn titles_error_stays(markers: Seq<(Seq<char>, int)>, k: int, n: int)
    requires
        0 <= k <= n,
        titles_error(markers, k) is Some,
    ensures
        titles_error(markers, n) == titles_error(markers, k),
    decreases n - k,
{
    if k < n {
        titles_error_stays(markers, k, n - 1);
    }
}

/// The parts of a table of contents: cue points, labels, and markers with 64-bit
/// places.
struct Contents {
    cues: Vec<u8>,
    labels: Vec<u8>,
    entries: Vec<u8>,
}

fn contents_of(markers: &[(String, u64)], channels: u16, wide: bool) -> (r: Result<
    Contents,
    MetadataError,
>)
    requires
        channels > 0,
        markers@.len() <= u32::MAX,
        wide == needs_wide(compiler::chapter_models(markers@), channels as int),
    ensures
        ({
            let models = compiler::chapter_models(markers@);
            let n = models.len() as int;
            match r {
                Ok(c) => {
                    &&& titles_error(models, n) is None
                    &&& c.labels@ == label_list(models, n)
                    &&& !wide ==> c.cues@ == cue_points(models, channels as int, n)
                    &&& wide ==> c.entries@ == wide_markers(models, channels as int, n)
                },
                Err(e) => titles_error(models, n) == Some(e),
            }
        }),
{
    let ghost models = compiler::chapter_models(markers@);
    let count: usize = markers.len();
    let mut cues: Vec<u8> = Vec::new();
    let mut labels: Vec<u8> = Vec::new();
    let mut entries: Vec<u8> = Vec::new();
    bytes::put_le(&mut cues, count as u64, 4);
    export_wav::put_name(&mut labels, 'a', 'd', 't', 'l');
    assert(cues@ =~= cue_points(models, channels as int, 0));
    assert(labels@ =~= label_list(models, 0));
    assert(entries@ =~= wide_markers(models, channels as int, 0));
    let name: [u8; 4] = ['l' as u8, 'a' as u8, 'b' as u8, 'l' as u8];
    assert(name@ =~= export_wav::name('l', 'a', 'b', 'l'));
    let mut i: usize = 0;
    while i < count
        invariant
            i <= count == markers@.len() <= u32::MAX,
            models == compiler::chapter_models(markers@),
            channels > 0,
            wide == needs_wide(models, channels as int),
            name@ == export_wav::name('l', 'a', 'b', 'l'),
            titles_error(models, i as int) is None,
            labels@ == label_list(models, i as int),
            !wide ==> cues@ == cue_points(models, channels as int, i as int),
            wide ==> entries@ == wide_markers(models, channels as int, i as int),
        decreases count - i,
    {
        let title = markers[i].0.as_str();
        let frame: u64 = markers[i].1 / channels as u64;
        let number: u32 = (i + 1) as u32;
        proof {
            assert(models[i as int] == (markers@[i as int].0@, markers@[i as int].1 as int));
            assert(frame == frame_of(models[i as int].1, channels as int));
        }
        if has_nul(title) {
            proof {
                titles_error_stays(models, i + 1, models.len() as int);
            }
            return Err(MetadataError::MarkerTitle);
        }
        if !wide {
            put_cue(&mut cues, number, frame as u32);
        }
        let words = label_of(number, title);
        match append_chunk(&mut labels, &name, words.as_slice()) {
            Ok(_) => {},
            Err(e) => {
                proof {
                    titles_error_stays(models, i + 1, models.len() as int);
                }
                return Err(e);
            },
        }
        if wide {
            put_wide(&mut entries, number, title, frame);
        }
        i = i + 1;
    }
    Ok(Contents { cues, labels, entries })
}

/// Prepares the chunks with tags and a table of contents.
pub fn prepare(tags: &[u8], markers: &[(String, u64)], channels: u16) -> (r: Result<
    Vec<u8>,
    MetadataError,
>)
    requires
        channels > 0,
    ensures
        ({
            let made = prepared(tags@, compiler::chapter_models(markers@), channels as int);
            match r {
                Ok(v) => made == Ok::<Seq<u8>, MetadataError>(v@),
                Err(e) => made == Err::<Seq<u8>, MetadataError>(e),
            }
        }),
{
    let ghost models = compiler::chapter_models(markers@);
    let ghost n = models.len() as int;
    let mut out: Vec<u8> = Vec::new();
    let id3: [u8; 4] = ['i' as u8, 'd' as u8, '3' as u8, ' ' as u8];
    let cue: [u8; 4] = ['c' as u8, 'u' as u8, 'e' as u8, ' ' as u8];
    let list: [u8; 4] = ['L' as u8, 'I' as u8, 'S' as u8, 'T' as u8];
    let r64m: [u8; 4] = ['r' as u8, '6' as u8, '4' as u8, 'm' as u8];
    proof {
        assert(id3@ =~= export_wav::name('i', 'd', '3', ' '));
        assert(cue@ =~= export_wav::name('c', 'u', 'e', ' '));
        assert(list@ =~= export_wav::name('L', 'I', 'S', 'T'));
        assert(r64m@ =~= export_wav::name('r', '6', '4', 'm'));
    }
    match append_chunk(&mut out, &id3, tags) {
        Ok(_) => {},
        Err(e) => return Err(e),
    }
    let count: usize = markers.len();
    if count as u64 > u32::MAX as u64 {
        return Err(MetadataError::TooManyMarkers);
    }
    let wide = is_wide(markers, channels);
    let contents = match contents_of(markers, channels, wide) {
        Ok(c) => c,
        Err(e) => return Err(e),
    };
    if count > 0 && !wide {
        match append_chunk(&mut out, &cue, contents.cues.as_slice()) {
            Ok(_) => {},
            Err(e) => return Err(e),
        }
    }
    if count > 0 {
        match append_chunk(&mut out, &list, contents.labels.as_slice()) {
            Ok(_) => {},
            Err(e) => return Err(e),
        }
    }
    if wide {
        match append_chunk(&mut out, &r64m, contents.entries.as_slice()) {
            Ok(_) => {},
            Err(e) => return Err(e),
        }
    }
    proof {
        assert(out@ =~= prepared(tags@, models, channels as int)->Ok_0);
    }
    Ok(out)
}

/// A byte without the difference between capital and small letters.
pub open spec fn small_byte(b: u8) -> u8 {
    if 'A' as u8 <= b <= 'Z' as u8 {
        (b + 32) as u8
    } else {
        b
    }
}

/// Whether two names are the same apart from capital letters.
pub open spec fn same_name(a: Seq<u8>, b: Seq<u8>) -> bool {
    &&& a.len() == b.len()
    &&& forall|i: int| 0 <= i < a.len() ==> small_byte(#[trigger] a[i]) == small_byte(b[i])
}

fn lower_byte(b: u8) -> (r: u8)
    ensures
        r == small_byte(b),
{
    if 'A' as u8 <= b && b <= 'Z' as u8 {
        b + 32
    } else {
        b
    }
}

fn is_named(a: &[u8; 4], b: &[u8; 4]) -> (r: bool)
    ensures
        r == same_name(a@, b@),
{
    let mut i: usize = 0;
    while i < 4
        invariant
            i <= 4,
            forall|k: int| 0 <= k < i ==> small_byte(#[trigger] a@[k]) == small_byte(b@[k]),
        decreases 4 - i,
    {
        if lower_byte(a[i]) != lower_byte(b[i]) {
            return false;
        }
        i = i + 1;
    }
    true
}

/// The place of the tags that a WAV holds already: its first chunk of their name.
pub fn find_tags(info: &WavInfo) -> (r: Option<usize>)
    ensures
        ({
            let id3 = export_wav::name('i', 'd', '3', ' ');
            let chunks = info@.chunks;
            match r {
                Some(k) => {
                    &&& k < chunks.len()
                    &&& same_name(chunks[k as int].id, id3)
                    &&& forall|j: int| 0 <= j < k ==> !same_name((#[trigger] chunks[j]).id, id3)
                },
                None => forall|j: int|
                    0 <= j < chunks.len() ==> !same_name((#[trigger] chunks[j]).id, id3),
            }
        }),
{
    let id3: [u8; 4] = ['i' as u8, 'd' as u8, '3' as u8, ' ' as u8];
    assert(id3@ =~= export_wav::name('i', 'd', '3', ' '));
    let ghost chunks = info@.chunks;
    let mut i: usize = 0;
    while i < info.chunks.len()
        invariant
            i <= info.chunks@.len(),
            chunks == info@.chunks,
            id3@ == export_wav::name('i', 'd', '3', ' '),
            forall|j: int| 0 <= j < i ==> !same_name((#[trigger] chunks[j]).id, id3@),
        decreases info.chunks@.len() - i,
    {
        assert(chunks[i as int] == info.chunks@[i as int]@);
        if is_named(&info.chunks[i].id, &id3) {
            return Some(i);
        }
        i = i + 1;
    }
    None
}

/// Whether a chunk holds what is about to be written anew: tags, cue points, markers,
/// or a list of labels. `None` says that the kind of a list cannot be read.
pub open spec fn replaces(file: Seq<u8>, chunk: export_wav::ChunkModel) -> Option<bool> {
    if same_name(chunk.id, export_wav::name('L', 'I', 'S', 'T')) && chunk.size >= 4 {
        if chunk.offset + 12 > file.len() {
            None
        } else {
            Some(
                file.subrange(chunk.offset + 8int, chunk.offset + 12int) == export_wav::name(
                    'a',
                    'd',
                    't',
                    'l',
                ),
            )
        }
    } else {
        Some(
            same_name(chunk.id, export_wav::name('i', 'd', '3', ' ')) || chunk.id
                == export_wav::name('c', 'u', 'e', ' ') || chunk.id == export_wav::name(
                'r',
                '6',
                '4',
                'm',
            ),
        )
    }
}

fn check_replaces<F: Fn(u64, usize) -> Option<Vec<u8>>>(
    chunk: &WavChunk,
    file_len: u64,
    read_at: &F,
) -> (r: Option<bool>)
    requires
        forall|at: u64, n: usize| call_requires(read_at, (at, n)),
    ensures
        forall|file: Seq<u8>| #[trigger]
            export_wav::serves(read_at, file, file_len) ==> r == replaces(file, chunk@),
{
    let id3: [u8; 4] = ['i' as u8, 'd' as u8, '3' as u8, ' ' as u8];
    let cue: [u8; 4] = ['c' as u8, 'u' as u8, 'e' as u8, ' ' as u8];
    let list: [u8; 4] = ['L' as u8, 'I' as u8, 'S' as u8, 'T' as u8];
    let r64m: [u8; 4] = ['r' as u8, '6' as u8, '4' as u8, 'm' as u8];
    let adtl: [u8; 4] = ['a' as u8, 'd' as u8, 't' as u8, 'l' as u8];
    proof {
        assert(id3@ =~= export_wav::name('i', 'd', '3', ' '));
        assert(cue@ =~= export_wav::name('c', 'u', 'e', ' '));
        assert(list@ =~= export_wav::name('L', 'I', 'S', 'T'));
        assert(r64m@ =~= export_wav::name('r', '6', '4', 'm'));
        assert(adtl@ =~= export_wav::name('a', 'd', 't', 'l'));
    }
    if is_named(&chunk.id, &list) && chunk.size >= 4 {
        match chunk.offset.checked_add(8) {
            None => None,
            Some(at) => match read_at(at, 4) {
                None => None,
                Some(kind) => Some(bytes::same_bytes(kind.as_slice(), adtl.as_slice())),
            },
        }
    } else {
        Some(
            is_named(&chunk.id, &id3) || bytes::same_bytes(chunk.id.as_slice(), cue.as_slice())
                || bytes::same_bytes(chunk.id.as_slice(), r64m.as_slice()),
        )
    }
}

/// Which of the first `n` chunks are written anew, or `None` where that cannot be read.
pub open spec fn replaced_chunks(
    file: Seq<u8>,
    chunks: Seq<export_wav::ChunkModel>,
    n: int,
) -> Option<Seq<bool>>
    decreases n,
{
    if n <= 0 {
        Some(Seq::empty())
    } else {
        match (replaced_chunks(file, chunks, n - 1), replaces(file, chunks[n - 1])) {
            (Some(flags), Some(flag)) => Some(flags.push(flag)),
            _ => None,
        }
    }
}

/// Where the chunks that are written anew and end the file begin, among the first `n`.
pub open spec fn tail_start(flags: Seq<bool>, n: int) -> int
    decreases n,
{
    if n > 0 && flags[n - 1] {
        tail_start(flags, n - 1)
    } else {
        n
    }
}

/// The offset at which new chunks are written: in place of old ones at the end, so
/// that a file does not grow with every change of its tags.
pub open spec fn append_offset(info: export_wav::WavModel, flags: Seq<bool>) -> nat {
    let k = tail_start(flags, flags.len() as int);
    if 0 <= k < info.chunks.len() {
        info.chunks[k].offset
    } else {
        info.file_len
    }
}

/// The patches that make old chunks before an offset into filler.
pub open spec fn junk_patches(
    chunks: Seq<export_wav::ChunkModel>,
    flags: Seq<bool>,
    before: nat,
    n: int,
) -> Seq<export_wav::PatchModel>
    decreases n,
{
    if n <= 0 {
        Seq::empty()
    } else {
        let rest = junk_patches(chunks, flags, before, n - 1);
        if flags[n - 1] && chunks[n - 1].offset < before {
            rest.push(
                export_wav::PatchModel {
                    at: chunks[n - 1].offset,
                    bytes: export_wav::name('J', 'U', 'N', 'K'),
                },
            )
        } else {
            rest
        }
    }
}

/// How a WAV gets new tags: the chunks to write and where, the length after that, and
/// then what to overwrite.
#[derive(Debug)]
pub struct MetadataPlan {
    pub append_at: u64,
    pub chunks: Vec<u8>,
    pub new_len: u64,
    pub patches: Vec<Patch>,
}

#[verifier::ext_equal]
pub ghost struct PlanModel {
    pub append_at: nat,
    pub chunks: Seq<u8>,
    pub new_len: nat,
    pub patches: Seq<export_wav::PatchModel>,
}

impl View for MetadataPlan {
    type V = PlanModel;

    open spec fn view(&self) -> PlanModel {
        PlanModel {
            append_at: self.append_at as nat,
            chunks: self.chunks@,
            new_len: self.new_len as nat,
            patches: export_wav::patch_models(self.patches@),
        }
    }
}

/// How a file gets new tags and a table of contents, or why it does not.
pub open spec fn plan_of(
    file: Seq<u8>,
    info: export_wav::WavModel,
    tags: Seq<u8>,
    markers: Seq<(Seq<char>, int)>,
) -> Result<PlanModel, MetadataError> {
    let n = info.chunks.len() as int;
    match prepared(tags, markers, info.channels as int) {
        Err(e) => Err(e),
        Ok(chunks) => match replaced_chunks(file, info.chunks, n) {
            None => Err(MetadataError::Unreadable),
            Some(flags) => {
                let append_at = append_offset(info, flags);
                let new_len = append_at + chunks.len();
                if new_len > u64::MAX {
                    Err(MetadataError::Overflow)
                } else {
                    match export_wav::length_error(info, new_len) {
                        Some(e) => Err(MetadataError::Wav(e)),
                        None => Ok(
                            PlanModel {
                                append_at,
                                chunks,
                                new_len,
                                patches: junk_patches(info.chunks, flags, append_at, n)
                                    + export_wav::size_patches(info, new_len),
                            },
                        ),
                    }
                }
            },
        },
    }
}

/// A file after a plan was carried out.
pub open spec fn with_metadata(file: Seq<u8>, plan: PlanModel) -> Seq<u8> {
    export_wav::patched_all(file.take(plan.append_at as int) + plan.chunks, plan.patches)
}

/// Plans how a WAV gets new tags. Apart from its headers only the kinds of its lists
/// are read.
pub fn plan_metadata<F: Fn(u64, usize) -> Option<Vec<u8>>>(
    info: &WavInfo,
    read_at: &F,
    tags: &[u8],
    markers: &[(String, u64)],
) -> (r: Result<MetadataPlan, MetadataError>)
    requires
        info.channels > 0,
        forall|at: u64, n: usize| call_requires(read_at, (at, n)),
    ensures
        forall|file: Seq<u8>| #[trigger]
            export_wav::serves(read_at, file, info.file_len) ==> ({
                let plan = plan_of(file, info@, tags@, compiler::chapter_models(markers@));
                match r {
                    Ok(p) => plan == Ok::<PlanModel, MetadataError>(p@),
                    Err(e) => plan == Err::<PlanModel, MetadataError>(e),
                }
            }),
{
    let chunks = match prepare(tags, markers, info.channels) {
        Ok(v) => v,
        Err(e) => return Err(e),
    };
    let count: usize = info.chunks.len();
    let ghost all = info@.chunks;
    let mut flags: Vec<bool> = Vec::new();
    let mut i: usize = 0;
    while i < count
        invariant
            i <= count == info.chunks@.len(),
            all == info@.chunks,
            forall|at: u64, n: usize| call_requires(read_at, (at, n)),
            flags@.len() == i,
            forall|file: Seq<u8>| #[trigger]
                export_wav::serves(read_at, file, info.file_len) ==> replaced_chunks(
                    file,
                    all,
                    i as int,
                ) == Some(flags@),
            forall|file: Seq<u8>| #[trigger]
                export_wav::serves(read_at, file, info.file_len) ==> prepared(
                    tags@,
                    compiler::chapter_models(markers@),
                    info.channels as int,
                ) is Ok,
        decreases count - i,
    {
        assert(all[i as int] == info.chunks@[i as int]@);
        match check_replaces(&info.chunks[i], info.file_len, read_at) {
            Some(flag) => flags.push(flag),
            None => {
                proof {
                    assert forall|file: Seq<u8>| #[trigger]
                        export_wav::serves(read_at, file, info.file_len) implies replaced_chunks(
                        file,
                        all,
                        count as int,
                    ) is None by {
                        unreadable_stays(file, all, i + 1, count as int);
                    }
                }
                return Err(MetadataError::Unreadable);
            },
        }
        i = i + 1;
    }
    let mut k: usize = count;
    while k > 0 && flags[k - 1]
        invariant
            k <= count == flags@.len(),
            tail_start(flags@, k as int) == tail_start(flags@, count as int),
        decreases k,
    {
        k = k - 1;
    }
    assert(k == tail_start(flags@, count as int));
    let append_at: u64 = if k < count {
        info.chunks[k].offset
    } else {
        info.file_len
    };
    let ghost start = append_offset(info@, flags@);
    assert(append_at == start) by {
        if k < count {
            assert(all[k as int] == info.chunks@[k as int]@);
        }
    }
    let new_len: u64 = match append_at.checked_add(chunks.len() as u64) {
        Some(n) => n,
        None => return Err(MetadataError::Overflow),
    };
    let mut sizes = match export_wav::update_sizes(info, new_len, new_len) {
        Ok(v) => v,
        Err(e) => return Err(MetadataError::Wav(e)),
    };
    let ghost size_models = export_wav::patch_models(sizes@);
    let mut patches: Vec<Patch> = Vec::new();
    let mut j: usize = 0;
    assert(export_wav::patch_models(patches@) =~= Seq::empty());
    while j < count
        invariant
            j <= count == info.chunks@.len(),
            flags@.len() == count,
            all == info@.chunks,
            export_wav::patch_models(patches@) == junk_patches(
                all,
                flags@,
                append_at as nat,
                j as int,
            ),
        decreases count - j,
    {
        let ghost before = patches@;
        assert(all[j as int] == info.chunks@[j as int]@);
        if flags[j] && info.chunks[j].offset < append_at {
            let mut junk: Vec<u8> = Vec::new();
            export_wav::put_name(&mut junk, 'J', 'U', 'N', 'K');
            assert(junk@ =~= export_wav::name('J', 'U', 'N', 'K'));
            let patch = Patch { at: info.chunks[j].offset, bytes: junk };
            patches.push(patch);
            assert(export_wav::patch_models(patches@) =~= export_wav::patch_models(before).push(
                patch@,
            ));
        }
        j = j + 1;
    }
    let ghost junk = export_wav::patch_models(patches@);
    patches.append(&mut sizes);
    assert(export_wav::patch_models(patches@) =~= junk + size_models);
    Ok(MetadataPlan { append_at, chunks, new_len, patches })
}

proof fn unreadable_stays(
    file: Seq<u8>,
    chunks: Seq<export_wav::ChunkModel>,
    k: int,
    n: int,
)
    requires
        0 <= k <= n,
        replaced_chunks(file, chunks, k) is None,
    ensures
        replaced_chunks(file, chunks, n) is None,
    decreases n - k,
{
    if k < n {
        unreadable_stays(file, chunks, k, n - 1);
    }
}

/// Whether a patch lies within a file and leaves a part of it alone.
pub open spec fn spares(p: export_wav::PatchModel, len: nat, from: int, to: int) -> bool {
    &&& p.at + p.bytes.len() <= len
    &&& p.at + p.bytes.len() <= from || to <= p.at
}

proof fn patches_keep(
    file: Seq<u8>,
    patches: Seq<export_wav::PatchModel>,
    from: int,
    to: int,
)
    requires
        0 <= from <= to <= file.len(),
        forall|k: int|
            #![trigger patches[k]]
            0 <= k < patches.len() ==> spares(patches[k], file.len(), from, to),
    ensures
        export_wav::patched_all(file, patches).len() == file.len(),
        export_wav::patched_all(file, patches).subrange(from, to) == file.subrange(from, to),
    decreases patches.len(),
{
    if patches.len() > 0 {
        let rest = patches.drop_last();
        assert forall|k: int| #![trigger rest[k]] 0 <= k < rest.len() implies spares(
            rest[k],
            file.len(),
            from,
            to,
        ) by {
            assert(rest[k] == patches[k]);
        }
        patches_keep(file, rest, from, to);
        let before = export_wav::patched_all(file, rest);
        let p = patches[patches.len() - 1];
        assert(spares(p, file.len(), from, to));
        let after = export_wav::patched(before, p);
        assert(export_wav::patched_all(file, patches) == after);
        assert forall|i: int| from <= i < to implies after[i] == before[i] by {}
        assert(after.subrange(from, to) =~= before.subrange(from, to));
    }
}

proof fn flags_tell(
    file: Seq<u8>,
    chunks: Seq<export_wav::ChunkModel>,
    n: int,
    i: int,
)
    requires
        0 <= i < n,
        replaced_chunks(file, chunks, n) is Some,
    ensures
        replaced_chunks(file, chunks, n)->0.len() == n,
        replaces(file, chunks[i]) == Some(replaced_chunks(file, chunks, n)->0[i]),
    decreases n,
{
    if i < n - 1 {
        flags_tell(file, chunks, n - 1, i);
    } else {
        flags_len(file, chunks, n - 1);
    }
}

proof fn flags_len(file: Seq<u8>, chunks: Seq<export_wav::ChunkModel>, n: int)
    requires
        0 <= n,
        replaced_chunks(file, chunks, n) is Some,
    ensures
        replaced_chunks(file, chunks, n)->0.len() == n,
    decreases n,
{
    if n > 0 {
        flags_len(file, chunks, n - 1);
    }
}

proof fn tail_bounds(flags: Seq<bool>, n: int)
    requires
        0 <= n,
    ensures
        0 <= tail_start(flags, n) <= n,
        forall|i: int| tail_start(flags, n) <= i < n ==> flags[i],
    decreases n,
{
    if n > 0 && flags[n - 1] {
        tail_bounds(flags, n - 1);
    }
}

proof fn junk_is_about_chunks(
    chunks: Seq<export_wav::ChunkModel>,
    flags: Seq<bool>,
    before: nat,
    n: int,
    k: int,
)
    requires
        0 <= n,
        0 <= k < junk_patches(chunks, flags, before, n).len(),
    ensures
        exists|i: int|
            0 <= i < n && flags[i] && chunks[i].offset < before && #[trigger] is_junk_at(
                chunks,
                i,
                junk_patches(chunks, flags, before, n)[k],
            ),
    decreases n,
{
    if n > 0 {
        let rest = junk_patches(chunks, flags, before, n - 1);
        if k < rest.len() {
            junk_is_about_chunks(chunks, flags, before, n - 1, k);
            let i = choose|i: int|
                0 <= i < n - 1 && flags[i] && chunks[i].offset < before && #[trigger] is_junk_at(
                    chunks,
                    i,
                    rest[k],
                );
            assert(is_junk_at(chunks, i, junk_patches(chunks, flags, before, n)[k]));
        } else {
            assert(is_junk_at(chunks, n - 1, junk_patches(chunks, flags, before, n)[k]));
        }
    }
}

spec fn is_junk_at(
    chunks: Seq<export_wav::ChunkModel>,
    i: int,
    p: export_wav::PatchModel,
) -> bool {
    p == export_wav::PatchModel {
        at: chunks[i].offset,
        bytes: export_wav::name('J', 'U', 'N', 'K'),
    }
}

/// A chunk of samples is never among those that are written anew.
proof fn data_stays(file: Seq<u8>, chunk: export_wav::ChunkModel)
    requires
        chunk.id == export_wav::name('d', 'a', 't', 'a'),
    ensures
        replaces(file, chunk) == Some(false),
{
    let list = export_wav::name('L', 'I', 'S', 'T');
    let id3 = export_wav::name('i', 'd', '3', ' ');
    let cue = export_wav::name('c', 'u', 'e', ' ');
    let r64m = export_wav::name('r', '6', '4', 'm');
    assert(small_byte(chunk.id[0]) != small_byte(list[0]));
    assert(small_byte(chunk.id[0]) != small_byte(id3[0]));
    assert(chunk.id[0] != cue[0]);
    assert(chunk.id[0] != r64m[0]);
}

/// A file whose chunks lie apart keeps its samples.
proof fn samples_survive(
    file: Seq<u8>,
    info: export_wav::WavModel,
    d: int,
    tags: Seq<u8>,
    markers: Seq<(Seq<char>, int)>,
)
    requires
        wav_layout::apart(file, info.chunks, file.len()),
        wav_layout::is_data(info.chunks, d, info.data_offset, info.data_len),
        info.file_len == file.len(),
        plan_of(file, info, tags, markers) is Ok,
    ensures
        ({
            let plan = plan_of(file, info, tags, markers)->Ok_0;
            let from = info.data_offset as int;
            let to = (info.data_offset + info.data_len) as int;
            &&& with_metadata(file, plan).len() == plan.new_len
            &&& to <= plan.append_at <= file.len()
            &&& with_metadata(file, plan).subrange(from, to) == file.subrange(from, to)
        }),
{
    let plan = plan_of(file, info, tags, markers)->Ok_0;
    let n = info.chunks.len() as int;
    let flags = replaced_chunks(file, info.chunks, n)->0;
    let from = info.data_offset as int;
    let to = (info.data_offset + info.data_len) as int;
    flags_len(file, info.chunks, n);
    flags_tell(file, info.chunks, n, d);
    data_stays(file, info.chunks[d]);
    tail_bounds(flags, n);
    let k = tail_start(flags, n);
    assert(k > d);
    if k < n {
        assert(wav_layout::chunk_end(info.chunks[d]) <= info.chunks[k].offset);
    }
    assert(to <= plan.append_at <= file.len());
    let grown = file.take(plan.append_at as int) + plan.chunks;
    assert(grown.len() == plan.new_len);
    assert(grown.subrange(from, to) =~= file.subrange(from, to));
    let junk = junk_patches(info.chunks, flags, plan.append_at, n);
    let sizes = export_wav::size_patches(info, plan.new_len);
    assert forall|i: int| #![trigger plan.patches[i]] 0 <= i < plan.patches.len() implies spares(
        plan.patches[i],
        grown.len(),
        from,
        to,
    ) by {
        if i < junk.len() {
            assert(plan.patches[i] == junk[i]);
            junk_is_about_chunks(info.chunks, flags, plan.append_at, n, i);
            let c = choose|c: int|
                0 <= c < n && flags[c] && info.chunks[c].offset < plan.append_at
                    && #[trigger] is_junk_at(info.chunks, c, junk[i]);
            flags_tell(file, info.chunks, n, c);
            assert(c != d);
            if k < n && c != k {
                if c > k {
                    assert(wav_layout::chunk_end(info.chunks[k]) <= info.chunks[c].offset);
                }
            }
            assert(c < k);
            if k < n {
                assert(wav_layout::chunk_end(info.chunks[c]) <= info.chunks[k].offset);
            } else {
                assert(wav_layout::chunk_end(info.chunks[c]) <= file.len());
            }
            if c < d {
                assert(wav_layout::chunk_end(info.chunks[c]) <= info.chunks[d].offset);
            } else {
                assert(wav_layout::chunk_end(info.chunks[d]) <= info.chunks[c].offset);
            }
        } else {
            assert(plan.patches[i] == sizes[i - junk.len()]);
            size_patches_spare(info, plan.new_len, i - junk.len());
        }
    }
    patches_keep(grown, plan.patches, from, to);
}

proof fn size_patches_spare(info: export_wav::WavModel, new_len: nat, i: int)
    requires
        export_wav::length_error(info, new_len) is None,
        info.data_offset >= 20,
        0 <= i < export_wav::size_patches(info, new_len).len(),
    ensures
        spares(
            export_wav::size_patches(info, new_len)[i],
            new_len,
            info.data_offset as int,
            (info.data_offset + info.data_len) as int,
        ),
{
    let riff = (new_len - 8) as nat;
    bytes::le_bytes_len(riff, 8);
    bytes::le_bytes_len(riff, 4);
    bytes::le_bytes_len(info.data_len, 8);
    bytes::le_bytes_len(info.data_len, 4);
    bytes::le_bytes_len(info.frames, 8);
    bytes::le_bytes_len(u32::MAX as nat, 4);
}

/// New tags leave the samples where and as they were: every byte of them is the same
/// afterwards, and the file has the length that was planned.
pub proof fn samples_survive_metadata(
    file: Seq<u8>,
    tags: Seq<u8>,
    markers: Seq<(Seq<char>, int)>,
)
    requires
        export_wav::inspection(file) is Ok,
        plan_of(file, export_wav::inspection(file)->Ok_0, tags, markers) is Ok,
    ensures
        ({
            let info = export_wav::inspection(file)->Ok_0;
            let plan = plan_of(file, info, tags, markers)->Ok_0;
            let from = info.data_offset as int;
            let to = (info.data_offset + info.data_len) as int;
            &&& with_metadata(file, plan).len() == plan.new_len
            &&& to <= plan.append_at <= file.len()
            &&& with_metadata(file, plan).subrange(from, to) == file.subrange(from, to)
        }),
{
    let info = export_wav::inspection(file)->Ok_0;
    wav_layout::accepted_chunks_are_apart(file);
    export_wav::inspected_length_is_valid(file);
    let d = choose|d: int|
        wav_layout::is_data(info.chunks, d, info.data_offset, info.data_len);
    samples_survive(file, info, d, tags, markers);
}

/// Chunks one after another.
spec fn chunk_run(list: Seq<(Seq<u8>, Seq<u8>)>) -> Seq<u8>
    decreases list.len(),
{
    if list.len() == 0 {
        Seq::empty()
    } else {
        chunk_bytes(list[0].0, list[0].1) + chunk_run(list.drop_first())
    }
}

/// Whether a chunk has a name that means nothing to a scan and a length that it states
/// itself.
spec fn is_plain(chunk: (Seq<u8>, Seq<u8>)) -> bool {
    &&& chunk.0.len() == 4
    &&& chunk.0 != export_wav::name('f', 'm', 't', ' ')
    &&& chunk.0 != export_wav::name('d', 'a', 't', 'a')
    &&& chunk.0 != export_wav::name('d', 's', '6', '4')
    &&& chunk_error(chunk.1.len()) is None
}

/// A chunk of a run, at its offset.
spec fn plain_chunk(chunk: (Seq<u8>, Seq<u8>), at: nat) -> export_wav::ChunkModel {
    export_wav::ChunkModel { id: chunk.0, offset: at, size: chunk.1.len() }
}

/// The chunks of a run that starts at an offset.
spec fn run_chunks(list: Seq<(Seq<u8>, Seq<u8>)>, at: nat) -> Seq<export_wav::ChunkModel>
    decreases list.len(),
{
    if list.len() == 0 {
        Seq::empty()
    } else {
        seq![plain_chunk(list[0], at)] + run_chunks(
            list.drop_first(),
            at + chunk_bytes(list[0].0, list[0].1).len(),
        )
    }
}

proof fn plain_step(
    file: Seq<u8>,
    root: export_wav::RootModel,
    scan: export_wav::ScanModel,
    chunk: (Seq<u8>, Seq<u8>),
    rest: Seq<u8>,
)
    requires
        is_plain(chunk),
        file.len() <= u64::MAX,
        scan.position <= file.len(),
        file.skip(scan.position as int) == chunk_bytes(chunk.0, chunk.1) + rest,
        scan.chunks.len() < export_wav::MAX_CHUNKS,
    ensures
        export_wav::scan_step(file, root, scan) is Ok,
        ({
            let next = export_wav::scan_step(file, root, scan)->Ok_0;
            &&& next.position == scan.position + chunk_bytes(chunk.0, chunk.1).len()
            &&& scan.position < next.position <= file.len()
            &&& next.chunks == scan.chunks.push(plain_chunk(chunk, scan.position))
            &&& next.format == scan.format
            &&& next.data == scan.data
            &&& file.skip(next.position as int) == rest
        }),
{
    let at = scan.position as int;
    let size = chunk.1.len();
    let all = chunk_bytes(chunk.0, chunk.1);
    let left = file.skip(at);
    bytes::le_bytes_len(size, 4);
    bytes::radix_values();
    assert(all.len() == 8 + size + size % 2);
    assert(file.subrange(at, at + 4) =~= left.subrange(0, 4));
    assert(left.subrange(0, 4) =~= chunk.0);
    assert(file.subrange(at + 4, at + 8) =~= left.subrange(4, 8));
    assert(left.subrange(4, 8) =~= bytes::le_bytes(size, 4));
    bytes::le_round_trip(size, 4);
    assert(bytes::le_at(file, at + 4, 4) == size);
    let next = export_wav::scan_step(file, root, scan)->Ok_0;
    assert(file.skip(next.position as int) =~= rest) by {
        assert(left.skip(all.len() as int) =~= rest);
        assert(file.skip(at + all.len()) =~= left.skip(all.len() as int));
    }
}

proof fn plain_run(
    file: Seq<u8>,
    root: export_wav::RootModel,
    scan: export_wav::ScanModel,
    list: Seq<(Seq<u8>, Seq<u8>)>,
)
    requires
        forall|i: int| #![trigger list[i]] 0 <= i < list.len() ==> is_plain(list[i]),
        file.len() <= u64::MAX,
        scan.position <= file.len(),
        file.skip(scan.position as int) == chunk_run(list),
        scan.chunks.len() + list.len() <= export_wav::MAX_CHUNKS,
    ensures
        export_wav::scan_rest(file, root, scan) is Ok,
        export_wav::scan_rest(file, root, scan)->Ok_0.format == scan.format,
        export_wav::scan_rest(file, root, scan)->Ok_0.data == scan.data,
        export_wav::scan_rest(file, root, scan)->Ok_0.chunks == scan.chunks + run_chunks(
            list,
            scan.position,
        ),
    decreases list.len(),
{
    if list.len() > 0 {
        let rest = list.drop_first();
        assert(is_plain(list[0]));
        plain_step(file, root, scan, list[0], chunk_run(rest));
        let next = export_wav::scan_step(file, root, scan)->Ok_0;
        assert forall|i: int| #![trigger rest[i]] 0 <= i < rest.len() implies is_plain(
            rest[i],
        ) by {
            assert(rest[i] == list[i + 1]);
        }
        plain_run(file, root, next, rest);
        export_wav::scan_goes_on(file, root, scan, next);
        assert(next.chunks + run_chunks(rest, next.position) =~= scan.chunks + run_chunks(
            list,
            scan.position,
        ));
    } else {
        assert(scan.chunks + run_chunks(list, scan.position) =~= scan.chunks);
        assert(file.skip(scan.position as int).len() == 0);
    }
}

/// The chunks that are prepared, by name and contents.
spec fn prepared_list(
    tags: Seq<u8>,
    markers: Seq<(Seq<char>, int)>,
    channels: int,
) -> Seq<(Seq<u8>, Seq<u8>)> {
    let n = markers.len() as int;
    let wide = needs_wide(markers, channels);
    seq![(export_wav::name('i', 'd', '3', ' '), tags)] + (if n > 0 && !wide {
        seq![(export_wav::name('c', 'u', 'e', ' '), cue_points(markers, channels, n))]
    } else {
        Seq::empty()
    }) + (if n > 0 {
        seq![(export_wav::name('L', 'I', 'S', 'T'), label_list(markers, n))]
    } else {
        Seq::empty()
    }) + (if wide {
        seq![(export_wav::name('r', '6', '4', 'm'), wide_markers(markers, channels, n))]
    } else {
        Seq::empty()
    })
}

proof fn prepared_is_run(tags: Seq<u8>, markers: Seq<(Seq<char>, int)>, channels: int)
    requires
        prepared(tags, markers, channels) is Ok,
    ensures
        prepared(tags, markers, channels)->Ok_0 == chunk_run(
            prepared_list(tags, markers, channels),
        ),
        prepared_list(tags, markers, channels).len() <= 4,
        forall|i: int|
            #![trigger prepared_list(tags, markers, channels)[i]]
            0 <= i < prepared_list(tags, markers, channels).len() ==> is_plain(
                prepared_list(tags, markers, channels)[i],
            ),
{
    let list = prepared_list(tags, markers, channels);
    let n = markers.len() as int;
    reveal_with_fuel(chunk_run, 5);
    let id3 = export_wav::name('i', 'd', '3', ' ');
    let cue = export_wav::name('c', 'u', 'e', ' ');
    let lst = export_wav::name('L', 'I', 'S', 'T');
    let r64m = export_wav::name('r', '6', '4', 'm');
    let fmt = export_wav::name('f', 'm', 't', ' ');
    let data = export_wav::name('d', 'a', 't', 'a');
    let ds64 = export_wav::name('d', 's', '6', '4');
    assert(id3[0] != fmt[0] && id3[0] != data[0]);
    assert(cue[0] != fmt[0] && cue[0] != data[0]);
    assert(lst[0] != fmt[0] && lst[0] != data[0]);
    assert(r64m[0] != fmt[0] && r64m[0] != data[0]);
    assert(id3[0] != ds64[0] && cue[0] != ds64[0] && lst[0] != ds64[0] && r64m[0] != ds64[0]);
    assert(prepared(tags, markers, channels)->Ok_0 =~= chunk_run(list)) by {
        let rest = list.drop_first();
        if n == 0 {
            assert(!needs_wide(markers, channels));
            assert(rest =~= Seq::empty());
        } else {
            assert(rest.len() == 2);
            assert(rest.drop_first().drop_first() =~= Seq::empty());
        }
    }
}

proof fn tagging_extends(
    rate: nat,
    channels: nat,
    samples: Seq<i16>,
    tags: Seq<u8>,
    markers: Seq<(Seq<char>, int)>,
)
    requires
        channels > 0,
        plan_of(
            export_wav::finished_export(rate, channels, samples),
            export_wav::finished_model(rate, channels, samples.len()),
            tags,
            markers,
        ) is Ok,
    ensures
        ({
            let file = export_wav::finished_export(rate, channels, samples);
            let info = export_wav::finished_model(rate, channels, samples.len());
            let plan = plan_of(file, info, tags, markers)->Ok_0;
            &&& prepared(tags, markers, channels as int) == Ok::<Seq<u8>, MetadataError>(
                plan.chunks,
            )
            &&& plan.append_at == 80 + 2 * samples.len()
            &&& plan.new_len == 80 + 2 * samples.len() + plan.chunks.len()
            &&& plan.new_len <= u64::MAX
            &&& with_metadata(file, plan) == export_wav::extended_export(
                rate,
                channels,
                samples,
                plan.chunks,
            )
        }),
{
    let n = samples.len();
    let file = export_wav::finished_export(rate, channels, samples);
    let info = export_wav::finished_model(rate, channels, n);
    let plan = plan_of(file, info, tags, markers)->Ok_0;
    let extra = plan.chunks;
    nothing_to_replace(file, rate, channels, n);
    assert(plan.append_at == 80 + 2 * n);
    assert(plan.patches =~= export_wav::size_patches(info, plan.new_len));
    export_wav::finalizing_states_lengths(rate, channels, samples);
    export_wav::extended_export_len(rate, channels, samples, Seq::empty());
    assert(file =~= export_wav::extended_export(rate, channels, samples, Seq::empty()));
    export_wav::frames_by_bytes(n, channels);
    let stated = (72 + 2 * n, 2 * n, 2 * n / (channels * 2));
    let rest = export_wav::pcm(samples) + extra;
    let grown = file.take(plan.append_at as int) + extra;
    assert(file.take(plan.append_at as int) =~= file);
    assert(grown =~= export_wav::export_header(rate, channels, stated.0, stated.1, stated.2)
        + rest);
    export_wav::patching_states_lengths(rate, channels, stated, rest, info, plan.new_len);
    assert(with_metadata(file, plan) =~= export_wav::extended_export(
        rate,
        channels,
        samples,
        extra,
    ));
}

#[verifier::rlimit(60)]
proof fn run_is_accepted(
    rate: nat,
    channels: nat,
    samples: Seq<i16>,
    list: Seq<(Seq<u8>, Seq<u8>)>,
)
    requires
        rate <= u32::MAX,
        export_wav::block_align(rate, channels) is Ok,
        samples.len() % channels == 0,
        export_wav::DATA_OFFSET + 2 * samples.len() + chunk_run(list).len() <= u64::MAX,
        forall|i: int| #![trigger list[i]] 0 <= i < list.len() ==> is_plain(list[i]),
        list.len() <= 4,
    ensures
        ({
            let file = export_wav::extended_export(rate, channels, samples, chunk_run(list));
            let after = export_wav::inspection(file)->Ok_0;
            &&& export_wav::inspection(file) is Ok
            &&& after.sample_rate == rate
            &&& after.channels == channels
            &&& after.frames == samples.len() / channels
            &&& after.data_offset == 80
            &&& after.data_len == 2 * samples.len()
            &&& after.file_len == file.len()
            &&& after.chunks == export_wav::finished_model(
                rate,
                channels,
                samples.len(),
            ).chunks + run_chunks(list, 80 + 2 * samples.len())
        }),
{
    let n = samples.len();
    let extra = chunk_run(list);
    let file = export_wav::extended_export(rate, channels, samples, extra);
    export_wav::extended_export_len(rate, channels, samples, extra);
    let root = export_wav::export_root(72 + 2 * n + extra.len(), 2 * n, 2 * n / (channels * 2));
    let scan = export_wav::after_samples(rate, channels, n);
    plain_run(file, root, scan, list);
    let last = export_wav::scan_rest(file, root, scan)->Ok_0;
    export_wav::extended_export_scan(rate, channels, samples, extra, last);
}

/// An export that was given tags and a table of contents is still accepted, with the
/// rate, the channels, the frames and the samples that it had.
pub proof fn tagged_export_is_accepted(
    rate: nat,
    channels: nat,
    samples: Seq<i16>,
    tags: Seq<u8>,
    markers: Seq<(Seq<char>, int)>,
)
    requires
        rate <= u32::MAX,
        export_wav::block_align(rate, channels) is Ok,
        samples.len() % channels == 0,
        export_wav::DATA_OFFSET + 2 * samples.len() <= u64::MAX,
        plan_of(
            export_wav::finished_export(rate, channels, samples),
            export_wav::finished_model(rate, channels, samples.len()),
            tags,
            markers,
        ) is Ok,
    ensures
        ({
            let file = export_wav::finished_export(rate, channels, samples);
            let info = export_wav::finished_model(rate, channels, samples.len());
            let plan = plan_of(file, info, tags, markers)->Ok_0;
            let tagged = with_metadata(file, plan);
            let after = export_wav::inspection(tagged)->Ok_0;
            &&& export_wav::inspection(tagged) is Ok
            &&& after.sample_rate == rate
            &&& after.channels == channels
            &&& after.frames == samples.len() / channels
            &&& after.data_offset == info.data_offset
            &&& after.data_len == info.data_len
            &&& after.file_len == plan.new_len
            &&& export_wav::decoded(
                tagged.skip(export_wav::DATA_OFFSET as int),
                samples.len(),
            ) == samples
        }),
{
    let file = export_wav::finished_export(rate, channels, samples);
    let info = export_wav::finished_model(rate, channels, samples.len());
    let plan = plan_of(file, info, tags, markers)->Ok_0;
    tagging_extends(rate, channels, samples, tags, markers);
    prepared_is_run(tags, markers, channels as int);
    run_is_accepted(rate, channels, samples, prepared_list(tags, markers, channels as int));
    export_wav::extended_export_len(rate, channels, samples, plan.chunks);
    export_wav::extended_export_decodes(rate, channels, samples, plan.chunks);
}

proof fn nothing_to_replace(file: Seq<u8>, rate: nat, channels: nat, n: nat)
    ensures
        ({
            let info = export_wav::finished_model(rate, channels, n);
            let flags = replaced_chunks(file, info.chunks, 3);
            &&& info.chunks.len() == 3
            &&& flags is Some
            &&& flags->0.len() == 3
            &&& tail_start(flags->0, 3) == 3
            &&& forall|before: nat| #[trigger]
                junk_patches(info.chunks, flags->0, before, 3) == Seq::<
                    export_wav::PatchModel,
                >::empty()
        }),
{
    let info = export_wav::finished_model(rate, channels, n);
    let list = export_wav::name('L', 'I', 'S', 'T');
    let id3 = export_wav::name('i', 'd', '3', ' ');
    let cue = export_wav::name('c', 'u', 'e', ' ');
    let r64m = export_wav::name('r', '6', '4', 'm');
    assert forall|i: int| 0 <= i < 3 implies replaces(file, #[trigger] info.chunks[i]) == Some(
        false,
    ) by {
        let id = info.chunks[i].id;
        assert(small_byte(id[0]) != small_byte(list[0]));
        assert(small_byte(id[0]) != small_byte(id3[0]));
        assert(id[0] != cue[0]);
        assert(id[0] != r64m[0]);
    }
    assert(replaces(file, info.chunks[0]) == Some(false));
    assert(replaces(file, info.chunks[1]) == Some(false));
    assert(replaces(file, info.chunks[2]) == Some(false));
    reveal_with_fuel(replaced_chunks, 4);
    reveal_with_fuel(junk_patches, 4);
}

proof fn run_is_replaced(
    file: Seq<u8>,
    at: nat,
    list: Seq<(Seq<u8>, Seq<u8>)>,
    i: int,
)
    requires
        at <= file.len(),
        file.skip(at as int) == chunk_run(list),
        forall|k: int|
            #![trigger list[k]]
            0 <= k < list.len() ==> list[k].0.len() == 4 && is_owned(list[k]),
        0 <= i < list.len(),
    ensures
        run_chunks(list, at).len() == list.len(),
        replaces(file, run_chunks(list, at)[i]) == Some(true),
    decreases list.len(),
{
    let rest = list.drop_first();
    let all = chunk_bytes(list[0].0, list[0].1);
    let left = file.skip(at as int);
    let next = at + all.len();
    bytes::le_bytes_len(list[0].1.len(), 4);
    assert(left =~= all + chunk_run(rest));
    assert(file.skip(next as int) =~= chunk_run(rest)) by {
        assert(left.skip(all.len() as int) =~= chunk_run(rest));
        assert(file.skip(next as int) =~= left.skip(all.len() as int));
    }
    assert forall|k: int| #![trigger rest[k]] 0 <= k < rest.len() implies rest[k].0.len() == 4
        && is_owned(rest[k]) by {
        assert(rest[k] == list[k + 1]);
    }
    run_len(rest, next);
    if i == 0 {
        assert(is_owned(list[0]));
        assert(run_chunks(list, at)[0] == plain_chunk(list[0], at));
        if same_name(list[0].0, export_wav::name('L', 'I', 'S', 'T')) {
            list_is_not_tags(list[0].0);
            assert(list[0].1.len() >= 4);
            assert(file.subrange(at + 8int, at + 12int) =~= left.subrange(8, 12));
            assert(left.subrange(8, 12) =~= list[0].1.subrange(0, 4));
        }
    } else {
        run_is_replaced(file, next, rest, i - 1);
        assert(run_chunks(list, at)[i] == run_chunks(rest, next)[i - 1]);
    }
}

proof fn run_len(list: Seq<(Seq<u8>, Seq<u8>)>, at: nat)
    ensures
        run_chunks(list, at).len() == list.len(),
        list.len() > 0 ==> run_chunks(list, at)[0].offset == at,
    decreases list.len(),
{
    if list.len() > 0 {
        run_len(list.drop_first(), at + chunk_bytes(list[0].0, list[0].1).len());
    }
}

proof fn list_is_not_tags(id: Seq<u8>)
    requires
        same_name(id, export_wav::name('L', 'I', 'S', 'T')),
    ensures
        !same_name(id, export_wav::name('i', 'd', '3', ' ')),
        id != export_wav::name('c', 'u', 'e', ' '),
        id != export_wav::name('r', '6', '4', 'm'),
{
    let list = export_wav::name('L', 'I', 'S', 'T');
    let id3 = export_wav::name('i', 'd', '3', ' ');
    let cue = export_wav::name('c', 'u', 'e', ' ');
    let r64m = export_wav::name('r', '6', '4', 'm');
    assert(small_byte(id[0]) == small_byte(list[0]));
    assert(small_byte(id3[0]) != small_byte(list[0]));
    assert(small_byte(cue[0]) != small_byte(list[0]));
    assert(small_byte(r64m[0]) != small_byte(list[0]));
    assert(same_name(id, id3) ==> small_byte(id[0]) == small_byte(id3[0]));
}

/// Whether a chunk is one of those that are written here.
spec fn is_owned(chunk: (Seq<u8>, Seq<u8>)) -> bool {
    ||| same_name(chunk.0, export_wav::name('i', 'd', '3', ' '))
    ||| chunk.0 == export_wav::name('c', 'u', 'e', ' ')
    ||| chunk.0 == export_wav::name('r', '6', '4', 'm')
    ||| {
        &&& same_name(chunk.0, export_wav::name('L', 'I', 'S', 'T'))
        &&& chunk.1.len() >= 4
        &&& chunk.1.subrange(0, 4) == export_wav::name('a', 'd', 't', 'l')
    }
}

proof fn label_list_starts(markers: Seq<(Seq<char>, int)>, n: int)
    requires
        0 <= n,
    ensures
        label_list(markers, n).len() >= 4,
        label_list(markers, n).subrange(0, 4) == export_wav::name('a', 'd', 't', 'l'),
    decreases n,
{
    if n > 0 {
        label_list_starts(markers, n - 1);
        assert(label_list(markers, n).subrange(0, 4) =~= label_list(markers, n - 1).subrange(0, 4));
    } else {
        assert(label_list(markers, n).subrange(0, 4) =~= export_wav::name('a', 'd', 't', 'l'));
    }
}

proof fn prepared_is_owned(tags: Seq<u8>, markers: Seq<(Seq<char>, int)>, channels: int)
    ensures
        prepared_list(tags, markers, channels).len() > 0,
        forall|k: int|
            #![trigger prepared_list(tags, markers, channels)[k]]
            0 <= k < prepared_list(tags, markers, channels).len() ==> prepared_list(
                tags,
                markers,
                channels,
            )[k].0.len() == 4 && is_owned(prepared_list(tags, markers, channels)[k]),
{
    label_list_starts(markers, markers.len() as int);
}

proof fn tail_is(flags: Seq<bool>, k: int, n: int)
    requires
        0 < k <= n,
        !flags[k - 1],
        forall|i: int| k <= i < n ==> flags[i],
    ensures
        tail_start(flags, n) == k,
    decreases n,
{
    if n > k {
        tail_is(flags, k, n - 1);
    }
}

/// Where tags that were written at the end of an export are written again.
proof fn run_is_overwritten(
    file: Seq<u8>,
    info: export_wav::WavModel,
    list: Seq<(Seq<u8>, Seq<u8>)>,
    at: nat,
    d: int,
)
    requires
        at <= file.len(),
        file.skip(at as int) == chunk_run(list),
        list.len() > 0,
        forall|k: int|
            #![trigger list[k]]
            0 <= k < list.len() ==> list[k].0.len() == 4 && is_owned(list[k]),
        0 <= d,
        info.chunks.len() == d + 1 + list.len(),
        info.chunks.skip(d + 1) == run_chunks(list, at),
        info.chunks[d].id == export_wav::name('d', 'a', 't', 'a'),
        replaced_chunks(file, info.chunks, info.chunks.len() as int) is Some,
    ensures
        append_offset(
            info,
            replaced_chunks(file, info.chunks, info.chunks.len() as int)->0,
        ) == at,
{
    let n = info.chunks.len() as int;
    let flags = replaced_chunks(file, info.chunks, n)->0;
    let added = run_chunks(list, at);
    run_len(list, at);
    flags_len(file, info.chunks, n);
    flags_tell(file, info.chunks, n, d);
    data_stays(file, info.chunks[d]);
    assert forall|i: int| d + 1 <= i < n implies flags[i] by {
        flags_tell(file, info.chunks, n, i);
        run_is_replaced(file, at, list, i - d - 1);
        assert(info.chunks.skip(d + 1)[i - d - 1] == info.chunks[i]);
    }
    tail_is(flags, d + 1, n);
    assert(info.chunks.skip(d + 1)[0] == info.chunks[d + 1]);
}

/// Changing the tags of an export does not make it grow: the new ones are written where
/// the old ones began.
#[verifier::rlimit(60)]
pub proof fn new_tags_replace_old(
    rate: nat,
    channels: nat,
    samples: Seq<i16>,
    tags: Seq<u8>,
    markers: Seq<(Seq<char>, int)>,
    tags_again: Seq<u8>,
    markers_again: Seq<(Seq<char>, int)>,
)
    requires
        rate <= u32::MAX,
        export_wav::block_align(rate, channels) is Ok,
        samples.len() % channels == 0,
        export_wav::DATA_OFFSET + 2 * samples.len() <= u64::MAX,
        plan_of(
            export_wav::finished_export(rate, channels, samples),
            export_wav::finished_model(rate, channels, samples.len()),
            tags,
            markers,
        ) is Ok,
    ensures
        ({
            let file = export_wav::finished_export(rate, channels, samples);
            let info = export_wav::finished_model(rate, channels, samples.len());
            let plan = plan_of(file, info, tags, markers)->Ok_0;
            let tagged = with_metadata(file, plan);
            let after = export_wav::inspection(tagged)->Ok_0;
            plan_of(tagged, after, tags_again, markers_again) matches Ok(again)
                ==> again.append_at == plan.append_at
        }),
{
    let n = samples.len();
    let file = export_wav::finished_export(rate, channels, samples);
    let info = export_wav::finished_model(rate, channels, n);
    let plan = plan_of(file, info, tags, markers)->Ok_0;
    tagging_extends(rate, channels, samples, tags, markers);
    let tagged = with_metadata(file, plan);
    let list = prepared_list(tags, markers, channels as int);
    prepared_is_run(tags, markers, channels as int);
    prepared_is_owned(tags, markers, channels as int);
    run_is_accepted(rate, channels, samples, list);
    export_wav::extended_export_len(rate, channels, samples, plan.chunks);
    let after = export_wav::inspection(tagged)->Ok_0;
    run_len(list, 80 + 2 * n);
    assert(after.chunks.skip(3) =~= run_chunks(list, 80 + 2 * n));
    if plan_of(tagged, after, tags_again, markers_again) is Ok {
        run_is_overwritten(tagged, after, list, 80 + 2 * n, 2);
    }
}

} // verus!
