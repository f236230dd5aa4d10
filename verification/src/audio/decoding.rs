//! Sounds in memory, read for a mix: which reader a file needs, and what an integer
//! WAV holds.
use crate::utils::{paths, text};
use vstd::prelude::*;

verus! {

/// How a sound file is read.
#[derive(Clone, Copy, Debug, PartialEq, Eq, Structural)]
pub enum AudioFormat {
    Wav,
    Compressed,
}

/// The lower-case extension of a file name, which may be empty.
pub open spec fn extension_of(name: Seq<char>) -> Seq<char> {
    text::lowercase(
        match paths::extension_spec(name) {
            Some(e) => e,
            None => ""@,
        },
    )
}

/// The format that an extension stands for.
pub open spec fn format_named(extension: Seq<char>) -> Option<AudioFormat> {
    if extension == "wav"@ {
        Some(AudioFormat::Wav)
    } else if extension == "mp3"@ || extension == "m4a"@ || extension == "ogg"@ || extension
        == "flac"@ {
        Some(AudioFormat::Compressed)
    } else {
        None
    }
}

/// Chooses the reader for a lower-case extension.
pub fn format_for(extension: &str) -> (r: Result<AudioFormat, String>)
    ensures
        match r {
            Ok(f) => format_named(extension@) == Some(f),
            Err(e) => format_named(extension@) is None && e@ == "Unsupported audio format: "@
                + extension@,
        },
{
    if text::same_text(extension, "wav") {
        Ok(AudioFormat::Wav)
    } else if text::same_text(extension, "mp3") || text::same_text(extension, "m4a")
        || text::same_text(extension, "ogg") || text::same_text(extension, "flac") {
        Ok(AudioFormat::Compressed)
    } else {
        Err("Unsupported audio format: ".to_owned().concat(extension))
    }
}

/// Chooses the reader for a file by its extension.
pub fn audio_format(name: &str) -> (r: Result<AudioFormat, String>)
    ensures
        match r {
            Ok(f) => format_named(extension_of(name@)) == Some(f),
            Err(e) => format_named(extension_of(name@)) is None && e@
                == "Unsupported audio format: "@ + extension_of(name@),
        },
{
    let extension = match paths::extension(name) {
        Some(e) => text::to_lowercase(e.as_str()),
        None => text::to_lowercase(""),
    };
    format_for(extension.as_str())
}

/// What the header of a WAV says.
#[derive(Clone, Copy, Debug, PartialEq, Eq, Structural)]
pub struct WavHeader {
    pub sample_rate: u32,
    pub channels: u16,
    pub bits_per_sample: u16,
    pub floats: bool,
}

#[verifier::external_type_specification]
#[verifier::external_body]
pub struct ExHoundError(hound::Error);

/// The header that `hound::WavReader::new` finds in a WAV, if it can be read.
pub uninterp spec fn header_in(data: Seq<u8>) -> Option<WavHeader>;

/// The samples that `hound` reads from a WAV as integers, if all can be read.
pub uninterp spec fn integers_in(data: Seq<u8>) -> Option<Seq<i32>>;

/// Calls `hound::WavReader::new` on bytes in memory and hands out the fields of its
/// `spec`. Which bytes make a header is not restated: the result has a name.
#[verifier::external_body]
fn read_header(data: &[u8]) -> (r: Result<WavHeader, hound::Error>)
    ensures
        match r {
            Ok(h) => header_in(data@) == Some(h),
            Err(_) => header_in(data@) is None,
        },
{
    let spec = hound::WavReader::new(std::io::Cursor::new(data))?.spec();
    Ok(
        WavHeader {
            sample_rate: spec.sample_rate,
            channels: spec.channels,
            bits_per_sample: spec.bits_per_sample,
            floats: matches!(spec.sample_format, hound::SampleFormat::Float),
        },
    )
}

/// Calls `hound::WavReader::into_samples` for integers on bytes in memory and
/// collects them. How bytes become samples is not restated: the result has a name.
#[verifier::external_body]
fn read_integers(data: &[u8]) -> (r: Result<Vec<i32>, hound::Error>)
    ensures
        match r {
            Ok(v) => integers_in(data@) == Some(v@),
            Err(_) => integers_in(data@) is None,
        },
{
    hound::WavReader::new(std::io::Cursor::new(data))?.into_samples::<i32>().collect()
}

/// What an integer sample is divided by to lie between minus one and one.
pub open spec fn full_scale_spec(bits: u16) -> Option<u32> {
    if bits == 8 {
        Some(128)
    } else if bits == 16 {
        Some(32768)
    } else if bits == 24 {
        Some(8388608)
    } else if bits == 32 {
        Some(2147483648)
    } else {
        None
    }
}

/// The full scale of integer samples.
pub fn full_scale(bits: u16) -> (r: Option<u32>)
    ensures
        r == full_scale_spec(bits),
{
    match bits {
        8 => Some(128),
        16 => Some(32768),
        24 => Some(8388608),
        32 => Some(2147483648),
        _ => None,
    }
}

/// A WAV that was read: its samples with their full scale, or, where it holds
/// floating-point samples, its header alone.
#[derive(Debug)]
pub enum WavContent {
    Integers { header: WavHeader, samples: Vec<i32>, full_scale: u32 },
    Floats(WavHeader),
}

#[verifier::ext_equal]
pub ghost enum WavContentModel {
    Integers { header: WavHeader, samples: Seq<i32>, full_scale: u32 },
    Floats(WavHeader),
}

impl View for WavContent {
    type V = WavContentModel;

    open spec fn view(&self) -> WavContentModel {
        match self {
            WavContent::Integers { header, samples, full_scale } => WavContentModel::Integers {
                header: *header,
                samples: samples@,
                full_scale: *full_scale,
            },
            WavContent::Floats(header) => WavContentModel::Floats(*header),
        }
    }
}

/// What a header and samples make. Samples are asked for only where the header
/// promises integers of a known depth.
pub open spec fn content_of(
    name: Seq<char>,
    header: Option<WavHeader>,
    integers: Option<Seq<i32>>,
) -> Result<WavContentModel, Seq<char>> {
    match header {
        None => Err("Failed to open WAV from memory: "@ + name),
        Some(h) => if h.floats {
            Ok(WavContentModel::Floats(h))
        } else {
            match full_scale_spec(h.bits_per_sample) {
                None => Err(
                    "Unsupported bits per sample: "@ + text::decimal(h.bits_per_sample as nat),
                ),
                Some(scale) => match integers {
                    None => Err("Failed to read sample from: "@ + name),
                    Some(s) => Ok(
                        WavContentModel::Integers { header: h, samples: s, full_scale: scale },
                    ),
                },
            }
        },
    }
}

/// The view of content that was read.
pub open spec fn content_view(r: Result<WavContent, String>) -> Result<WavContentModel, Seq<char>> {
    match r {
        Ok(c) => Ok(c@),
        Err(e) => Err(e@),
    }
}

/// Puts together what was read of a WAV.
pub fn wav_content(name: &str, header: Option<WavHeader>, integers: Option<Vec<i32>>) -> (r: Result<
    WavContent,
    String,
>)
    ensures
        content_view(r) == content_of(
            name@,
            header,
            match integers {
                Some(v) => Some(v@),
                None => None,
            },
        ),
{
    match header {
        None => Err("Failed to open WAV from memory: ".to_owned().concat(name)),
        Some(h) => if h.floats {
            Ok(WavContent::Floats(h))
        } else {
            match full_scale(h.bits_per_sample) {
                None => Err(
                    "Unsupported bits per sample: ".to_owned().concat(
                        text::decimal_text(h.bits_per_sample as u128).as_str(),
                    ),
                ),
                Some(scale) => match integers {
                    None => Err("Failed to read sample from: ".to_owned().concat(name)),
                    Some(samples) => Ok(
                        WavContent::Integers { header: h, samples, full_scale: scale },
                    ),
                },
            }
        },
    }
}

/// Reads a WAV that is in memory. The samples of a floating-point WAV are left to
/// the caller.
pub fn read_wav(name: &str, data: &[u8]) -> (r: Result<WavContent, String>)
    ensures
        content_view(r) == content_of(name@, header_in(data@), integers_in(data@)),
{
    let header = match read_header(data) {
        Ok(h) => Some(h),
        Err(_) => None,
    };
    let wanted = match header {
        Some(h) => !h.floats && full_scale(h.bits_per_sample).is_some(),
        None => false,
    };
    let integers = if wanted {
        match read_integers(data) {
            Ok(v) => Some(v),
            Err(_) => None,
        }
    } else {
        None
    };
    wav_content(name, header, integers)
}

/// A WAV of integers is divided by half the number of values that a sample can have, so that
/// it lies between minus one and one; its samples and its header are handed on as they are.
pub proof fn integers_lie_below_their_full_scale(
    name: Seq<char>,
    header: WavHeader,
    samples: Seq<i32>,
)
    requires
        !header.floats,
    ensures
        full_scale_spec(8) == Some(0x80u32),
        full_scale_spec(16) == Some(0x8000u32),
        full_scale_spec(24) == Some(0x80_0000u32),
        full_scale_spec(32) == Some(0x8000_0000u32),
        ({
            let bits = header.bits_per_sample;
            let known = bits == 8 || bits == 16 || bits == 24 || bits == 32;
            &&& known == (content_of(name, Some(header), Some(samples)) is Ok)
            &&& content_of(name, Some(header), Some(samples)) matches Ok(c) ==> (
            c matches WavContentModel::Integers { header: h, samples: s, full_scale } && h == header
                && s == samples && Some(full_scale) == full_scale_spec(bits))
            &&& content_of(name, Some(header), None) is Err
            &&& content_of(name, None, Some(samples)) is Err
        }),
{
}

} // verus!
