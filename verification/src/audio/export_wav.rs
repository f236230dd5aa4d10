//! PCM16 RF64 writer and RIFF/RF64 header reader for export sound files.
//! RF64 follows EBU Tech 3306 v1.1. This is not a general audio decoder.
use crate::utils::bytes;
use vstd::prelude::*;

verus! {

/// Where the samples start in a file that [`ExportWavWriter`] lays out.
pub const DATA_OFFSET: u64 = 80;

/// The most chunks, and the most entries of a size table, that are accepted.
pub const MAX_CHUNKS: usize = 65_536;

/// Why a sound file, or a request on one, is refused.
#[derive(Clone, Copy, Debug, PartialEq, Eq, Structural)]
pub enum WavError {
    RateAndChannels,
    BlockAlignOverflow,
    ByteRateOverflow,
    DataOffset,
    IncompleteFrames,
    FrameCount,
    ChunkOffsetOverflow,
    TruncatesData,
    MissingDs64,
    Ds64OffsetOverflow,
    Ds64Overlap,
    RiffLimit,
    TruncatedHeader,
    NotRiff,
    NotWave,
    RootSentinel,
    Ds64First,
    TruncatedDs64Payload,
    TruncatedDs64Chunk,
    TooManyTableEntries,
    TableExceedsChunk,
    RiffLengthOverflow,
    RiffLengthMismatch,
    TooManyChunks,
    HeaderOffsetOverflow,
    TruncatedChunkHeader,
    MissingTableSize,
    ChunkBounds,
    FmtChunk,
    NotPcm16,
    BlockAlign,
    ByteRate,
    TruncatedExtensible,
    ExtensibleSize,
    ExtensibleBits,
    ExtensibleFormat,
    DataChunk,
    DataSize,
    UnexpectedDs64,
    MissingFmt,
    MissingData,
    SampleCount,
    PhysicalSize,
    PcmLengthOverflow,
    WavLengthOverflow,
    SeekRange,
    TruncatedSamples,
}

impl WavError {
    /// The sentence shown to the user.
    pub fn message(&self) -> (text: &'static str)
        ensures
            text@ == self.text(),
    {
        match self {
            WavError::RateAndChannels => "PCM rate and channels must be positive",
            WavError::BlockAlignOverflow => "PCM block alignment overflow",
            WavError::ByteRateOverflow => "PCM byte rate overflow",
            WavError::DataOffset => "Invalid PCM data offset",
            WavError::IncompleteFrames => "PCM data does not contain complete frames",
            WavError::FrameCount => "PCM frame count does not match data length",
            WavError::ChunkOffsetOverflow => "WAV chunk offset overflow",
            WavError::TruncatesData => "File length would truncate PCM data",
            WavError::MissingDs64 => "RF64 has no ds64 header",
            WavError::Ds64OffsetOverflow => "ds64 offset overflow",
            WavError::Ds64Overlap => "ds64 header overlaps PCM data",
            WavError::RiffLimit => "RIFF size limit exceeded; long exports must be written as RF64",
            WavError::TruncatedHeader => "Truncated WAV header",
            WavError::NotRiff => "Expected RIFF or RF64 PCM16 WAV",
            WavError::NotWave => "Missing WAVE form type",
            WavError::RootSentinel => "RF64 RIFF size must use the sentinel",
            WavError::Ds64First => "RF64 must begin with ds64",
            WavError::TruncatedDs64Payload => "Truncated ds64 payload",
            WavError::TruncatedDs64Chunk => "Truncated ds64 chunk",
            WavError::TooManyTableEntries => "Too many ds64 table entries",
            WavError::TableExceedsChunk => "ds64 table exceeds its chunk",
            WavError::RiffLengthOverflow => "RIFF length overflow",
            WavError::RiffLengthMismatch => "RIFF length does not match file length",
            WavError::TooManyChunks => "Too many WAV chunks",
            WavError::HeaderOffsetOverflow => "Chunk header offset overflow",
            WavError::TruncatedChunkHeader => "Truncated WAV chunk header",
            WavError::MissingTableSize => "Missing ds64 size for sentinel chunk",
            WavError::ChunkBounds => "WAV chunk exceeds file bounds",
            WavError::FmtChunk => "Invalid or duplicate fmt chunk",
            WavError::NotPcm16 => "Only PCM16 export WAV is supported",
            WavError::BlockAlign => "Invalid PCM block alignment",
            WavError::ByteRate => "Invalid PCM byte rate",
            WavError::TruncatedExtensible => "Truncated extensible PCM format",
            WavError::ExtensibleSize => "Invalid extensible format size",
            WavError::ExtensibleBits => "Only PCM16 valid bits are supported",
            WavError::ExtensibleFormat => "Only extensible PCM is supported",
            WavError::DataChunk => "Expected one data chunk after fmt",
            WavError::DataSize => "data size disagrees with ds64",
            WavError::UnexpectedDs64 => "Unexpected ds64 chunk",
            WavError::MissingFmt => "Missing fmt chunk",
            WavError::MissingData => "Missing data chunk",
            WavError::SampleCount => "ds64 sample count disagrees with PCM frames",
            WavError::PhysicalSize => "Physical WAV size differs from requested size",
            WavError::PcmLengthOverflow => "PCM length overflow",
            WavError::WavLengthOverflow => "WAV length overflow",
            WavError::SeekRange => "PCM frame seek out of range",
            WavError::TruncatedSamples => "Truncated PCM samples",
        }
    }

    /// The sentence that belongs to an error.
    pub open spec fn text(&self) -> Seq<char> {
        match self {
            WavError::RateAndChannels => "PCM rate and channels must be positive"@,
            WavError::BlockAlignOverflow => "PCM block alignment overflow"@,
            WavError::ByteRateOverflow => "PCM byte rate overflow"@,
            WavError::DataOffset => "Invalid PCM data offset"@,
            WavError::IncompleteFrames => "PCM data does not contain complete frames"@,
            WavError::FrameCount => "PCM frame count does not match data length"@,
            WavError::ChunkOffsetOverflow => "WAV chunk offset overflow"@,
            WavError::TruncatesData => "File length would truncate PCM data"@,
            WavError::MissingDs64 => "RF64 has no ds64 header"@,
            WavError::Ds64OffsetOverflow => "ds64 offset overflow"@,
            WavError::Ds64Overlap => "ds64 header overlaps PCM data"@,
            WavError::RiffLimit => "RIFF size limit exceeded; long exports must be written as RF64"@,
            WavError::TruncatedHeader => "Truncated WAV header"@,
            WavError::NotRiff => "Expected RIFF or RF64 PCM16 WAV"@,
            WavError::NotWave => "Missing WAVE form type"@,
            WavError::RootSentinel => "RF64 RIFF size must use the sentinel"@,
            WavError::Ds64First => "RF64 must begin with ds64"@,
            WavError::TruncatedDs64Payload => "Truncated ds64 payload"@,
            WavError::TruncatedDs64Chunk => "Truncated ds64 chunk"@,
            WavError::TooManyTableEntries => "Too many ds64 table entries"@,
            WavError::TableExceedsChunk => "ds64 table exceeds its chunk"@,
            WavError::RiffLengthOverflow => "RIFF length overflow"@,
            WavError::RiffLengthMismatch => "RIFF length does not match file length"@,
            WavError::TooManyChunks => "Too many WAV chunks"@,
            WavError::HeaderOffsetOverflow => "Chunk header offset overflow"@,
            WavError::TruncatedChunkHeader => "Truncated WAV chunk header"@,
            WavError::MissingTableSize => "Missing ds64 size for sentinel chunk"@,
            WavError::ChunkBounds => "WAV chunk exceeds file bounds"@,
            WavError::FmtChunk => "Invalid or duplicate fmt chunk"@,
            WavError::NotPcm16 => "Only PCM16 export WAV is supported"@,
            WavError::BlockAlign => "Invalid PCM block alignment"@,
            WavError::ByteRate => "Invalid PCM byte rate"@,
            WavError::TruncatedExtensible => "Truncated extensible PCM format"@,
            WavError::ExtensibleSize => "Invalid extensible format size"@,
            WavError::ExtensibleBits => "Only PCM16 valid bits are supported"@,
            WavError::ExtensibleFormat => "Only extensible PCM is supported"@,
            WavError::DataChunk => "Expected one data chunk after fmt"@,
            WavError::DataSize => "data size disagrees with ds64"@,
            WavError::UnexpectedDs64 => "Unexpected ds64 chunk"@,
            WavError::MissingFmt => "Missing fmt chunk"@,
            WavError::MissingData => "Missing data chunk"@,
            WavError::SampleCount => "ds64 sample count disagrees with PCM frames"@,
            WavError::PhysicalSize => "Physical WAV size differs from requested size"@,
            WavError::PcmLengthOverflow => "PCM length overflow"@,
            WavError::WavLengthOverflow => "WAV length overflow"@,
            WavError::SeekRange => "PCM frame seek out of range"@,
            WavError::TruncatedSamples => "Truncated PCM samples"@,
        }
    }
}

/// One chunk of a sound file.
#[derive(Clone, Copy, Debug)]
pub struct WavChunk {
    pub id: [u8; 4],
    /// Offset of the eight-byte chunk header.
    pub offset: u64,
    /// Payload length, without the header and the even-byte padding.
    pub size: u64,
}

/// What the contracts know of a chunk.
pub ghost struct ChunkModel {
    pub id: Seq<u8>,
    pub offset: nat,
    pub size: nat,
}

impl View for WavChunk {
    type V = ChunkModel;

    open spec fn view(&self) -> ChunkModel {
        ChunkModel { id: self.id@, offset: self.offset as nat, size: self.size as nat }
    }
}

/// What a sound file holds, apart from its samples.
#[derive(Debug)]
pub struct WavInfo {
    pub sample_rate: u32,
    pub channels: u16,
    pub data_offset: u64,
    pub data_len: u64,
    /// Interleaved frames, not the number of individual channel samples.
    pub frames: u64,
    pub file_len: u64,
    pub is_rf64: bool,
    pub chunks: Vec<WavChunk>,
    pub ds64_offset: Option<u64>,
}

/// What the contracts know of a sound file.
#[verifier::ext_equal]
pub ghost struct WavModel {
    pub sample_rate: nat,
    pub channels: nat,
    pub data_offset: nat,
    pub data_len: nat,
    pub frames: nat,
    pub file_len: nat,
    pub is_rf64: bool,
    pub chunks: Seq<ChunkModel>,
    pub ds64_offset: Option<u64>,
}

/// The models of a list of chunks.
pub open spec fn chunk_models(chunks: Seq<WavChunk>) -> Seq<ChunkModel> {
    chunks.map_values(|c: WavChunk| c@)
}

impl View for WavInfo {
    type V = WavModel;

    open spec fn view(&self) -> WavModel {
        WavModel {
            sample_rate: self.sample_rate as nat,
            channels: self.channels as nat,
            data_offset: self.data_offset as nat,
            data_len: self.data_len as nat,
            frames: self.frames as nat,
            file_len: self.file_len as nat,
            is_rf64: self.is_rf64,
            chunks: chunk_models(self.chunks@),
            ds64_offset: self.ds64_offset,
        }
    }
}

/// The bytes of one frame, or why the format is refused.
pub open spec fn block_align(rate: nat, channels: nat) -> Result<nat, WavError> {
    if rate == 0 || channels == 0 {
        Err(WavError::RateAndChannels)
    } else if channels * 2 > u16::MAX {
        Err(WavError::BlockAlignOverflow)
    } else if rate * (channels * 2) > u32::MAX {
        Err(WavError::ByteRateOverflow)
    } else {
        Ok(channels * 2)
    }
}

/// Where a chunk's payload and padding end, if that is an offset at all.
pub open spec fn end_with_padding(offset: nat, size: nat) -> Option<nat> {
    if offset + size + size % 2 > u64::MAX {
        None
    } else {
        Some(offset + size + size % 2)
    }
}

/// Why a file may not have the given length, if it may not.
pub open spec fn length_error(info: WavModel, new_len: nat) -> Option<WavError> {
    match block_align(info.sample_rate, info.channels) {
        Err(e) => Some(e),
        Ok(align) => if info.data_offset < 8 {
            Some(WavError::DataOffset)
        } else if info.data_len % align != 0 {
            Some(WavError::IncompleteFrames)
        } else if info.frames != info.data_len / align {
            Some(WavError::FrameCount)
        } else {
            match end_with_padding(info.data_offset, info.data_len) {
                None => Some(WavError::ChunkOffsetOverflow),
                Some(end) => if new_len < end {
                    Some(WavError::TruncatesData)
                } else if info.is_rf64 {
                    match info.ds64_offset {
                        None => Some(WavError::MissingDs64),
                        Some(offset) => if offset + 36 > u64::MAX {
                            Some(WavError::Ds64OffsetOverflow)
                        } else if offset + 36 > info.data_offset {
                            Some(WavError::Ds64Overlap)
                        } else {
                            None
                        },
                    }
                } else if new_len - 8 > u32::MAX || info.data_len > u32::MAX {
                    Some(WavError::RiffLimit)
                } else {
                    None
                },
            }
        },
    }
}

fn validate_format(sample_rate: u32, channels: u16) -> (r: Result<u16, WavError>)
    ensures
        match r {
            Ok(align) => block_align(sample_rate as nat, channels as nat) == Ok::<nat, WavError>(
                align as nat,
            ),
            Err(e) => block_align(sample_rate as nat, channels as nat) == Err::<nat, WavError>(e),
        },
{
    if sample_rate == 0 || channels == 0 {
        return Err(WavError::RateAndChannels);
    }
    match channels.checked_mul(2) {
        None => Err(WavError::BlockAlignOverflow),
        Some(align) => match sample_rate.checked_mul(align as u32) {
            None => Err(WavError::ByteRateOverflow),
            Some(_) => Ok(align),
        },
    }
}

fn padded_end(offset: u64, size: u64) -> (r: Result<u64, WavError>)
    ensures
        match r {
            Ok(end) => end_with_padding(offset as nat, size as nat) == Some(end as nat),
            Err(e) => e == WavError::ChunkOffsetOverflow && end_with_padding(
                offset as nat,
                size as nat,
            ) is None,
        },
{
    match offset.checked_add(size) {
        None => Err(WavError::ChunkOffsetOverflow),
        Some(end) => match end.checked_add(size % 2) {
            None => Err(WavError::ChunkOffsetOverflow),
            Some(padded) => Ok(padded),
        },
    }
}

impl WavInfo {
    /// Checks a new length before the file is altered. A trailing metadata
    /// region may shrink; the samples may never be cut.
    pub fn validate_file_len(&self, new_file_len: u64) -> (r: Result<(), WavError>)
        ensures
            match r {
                Ok(()) => length_error(self@, new_file_len as nat) is None,
                Err(e) => length_error(self@, new_file_len as nat) == Some(e),
            },
    {
        let align: u16 = match validate_format(self.sample_rate, self.channels) {
            Ok(align) => align,
            Err(e) => return Err(e),
        };
        if self.data_offset < 8 {
            return Err(WavError::DataOffset);
        }
        if self.data_len % align as u64 != 0 {
            return Err(WavError::IncompleteFrames);
        }
        if self.frames != self.data_len / align as u64 {
            return Err(WavError::FrameCount);
        }
        let data_end: u64 = match padded_end(self.data_offset, self.data_len) {
            Ok(end) => end,
            Err(e) => return Err(e),
        };
        if new_file_len < data_end {
            return Err(WavError::TruncatesData);
        }
        let riff_size: u64 = new_file_len - 8;
        if self.is_rf64 {
            match self.ds64_offset {
                None => Err(WavError::MissingDs64),
                Some(offset) => match offset.checked_add(36) {
                    None => Err(WavError::Ds64OffsetOverflow),
                    Some(end) => if end <= self.data_offset {
                        Ok(())
                    } else {
                        Err(WavError::Ds64Overlap)
                    },
                },
            }
        } else if riff_size <= u32::MAX as u64 && self.data_len <= u32::MAX as u64 {
            Ok(())
        } else {
            Err(WavError::RiffLimit)
        }
    }
}

/// The four bytes of a chunk or form name.
pub open spec fn name(a: char, b: char, c: char, d: char) -> Seq<u8> {
    seq![a as u8, b as u8, c as u8, d as u8]
}

/// The lengths that a `ds64` chunk states.
pub ghost struct Ds64Model {
    pub data_len: nat,
    pub sample_count: nat,
}

/// The head of a sound file, before its chunks.
#[verifier::ext_equal]
pub ghost struct RootModel {
    pub is_rf64: bool,
    pub riff_size: nat,
    pub ds64: Option<Ds64Model>,
    /// The sizes that a `ds64` chunk gives for sentinel chunks, in order.
    pub table: Seq<(Seq<u8>, nat)>,
}

pub open spec fn table_entry(file: Seq<u8>, i: int) -> (Seq<u8>, nat) {
    (file.subrange(48 + 12 * i, 52 + 12 * i), bytes::le_at(file, 52 + 12 * i, 8))
}

/// The head of a file, or why it is refused.
pub open spec fn root_of(file: Seq<u8>) -> Result<RootModel, WavError> {
    if file.len() < 12 {
        Err(WavError::TruncatedHeader)
    } else if file.subrange(0, 4) != name('R', 'I', 'F', 'F') && file.subrange(0, 4) != name(
        'R',
        'F',
        '6',
        '4',
    ) {
        Err(WavError::NotRiff)
    } else if file.subrange(8, 12) != name('W', 'A', 'V', 'E') {
        Err(WavError::NotWave)
    } else if file.subrange(0, 4) == name('R', 'I', 'F', 'F') {
        Ok(
            RootModel {
                is_rf64: false,
                riff_size: bytes::le_at(file, 4, 4),
                ds64: None,
                table: Seq::empty(),
            },
        )
    } else if bytes::le_at(file, 4, 4) != u32::MAX {
        Err(WavError::RootSentinel)
    } else if file.len() < 20 {
        Err(WavError::TruncatedHeader)
    } else if file.subrange(12, 16) != name('d', 's', '6', '4') {
        Err(WavError::Ds64First)
    } else if bytes::le_at(file, 16, 4) < 28 {
        Err(WavError::TruncatedDs64Payload)
    } else if 20 + bytes::le_at(file, 16, 4) + bytes::le_at(file, 16, 4) % 2 > file.len() {
        Err(WavError::TruncatedDs64Chunk)
    } else if bytes::le_at(file, 44, 4) > MAX_CHUNKS {
        Err(WavError::TooManyTableEntries)
    } else if 28 + bytes::le_at(file, 44, 4) * 12 > bytes::le_at(file, 16, 4) {
        Err(WavError::TableExceedsChunk)
    } else {
        Ok(
            RootModel {
                is_rf64: true,
                riff_size: bytes::le_at(file, 20, 8),
                ds64: Some(
                    Ds64Model {
                        data_len: bytes::le_at(file, 28, 8),
                        sample_count: bytes::le_at(file, 36, 8),
                    },
                ),
                table: Seq::new(bytes::le_at(file, 44, 4), |i: int| table_entry(file, i)),
            },
        )
    }
}

/// Whether entry `i` is the first of a table that carries the name.
pub open spec fn is_first_entry(table: Seq<(Seq<u8>, nat)>, id: Seq<u8>, i: int) -> bool {
    &&& 0 <= i < table.len()
    &&& table[i].0 == id
    &&& forall|j: int| 0 <= j < i ==> (#[trigger] table[j]).0 != id
}

/// The size of a chunk, with the table entries that are left after it. A
/// sentinel chunk takes the first entry of its name; `data` has a field of its own.
pub open spec fn stated_size(
    root: RootModel,
    table: Seq<(Seq<u8>, nat)>,
    id: Seq<u8>,
    size32: nat,
) -> Option<(nat, Seq<(Seq<u8>, nat)>)> {
    if root.is_rf64 && size32 == u32::MAX {
        if id == name('d', 'a', 't', 'a') {
            match root.ds64 {
                Some(ds64) => Some((ds64.data_len, table)),
                None => None,
            }
        } else if exists|i: int| is_first_entry(table, id, i) {
            let i = choose|i: int| is_first_entry(table, id, i);
            Some((table[i].1, table.remove(i)))
        } else {
            None
        }
    } else {
        Some((size32, table))
    }
}

/// The sample format of a file.
pub ghost struct FormatModel {
    pub rate: nat,
    pub channels: nat,
    pub align: nat,
}

/// The identifier of PCM in an extensible format.
pub open spec fn pcm_guid() -> Seq<u8> {
    seq![1u8, 0, 0, 0, 0, 0, 16, 0, 128, 0, 0, 170, 0, 56, 155, 113]
}

/// The format in a `fmt ` chunk, or why it is refused.
pub open spec fn format_of(file: Seq<u8>, at: int, size: nat) -> Result<FormatModel, WavError> {
    let tag = bytes::le_at(file, at, 2);
    let channels = bytes::le_at(file, at + 2, 2);
    let rate = bytes::le_at(file, at + 4, 4);
    match block_align(rate, channels) {
        Err(e) => Err(e),
        Ok(align) => if bytes::le_at(file, at + 14, 2) != 16 {
            Err(WavError::NotPcm16)
        } else if bytes::le_at(file, at + 12, 2) != align {
            Err(WavError::BlockAlign)
        } else if bytes::le_at(file, at + 8, 4) != rate * align {
            Err(WavError::ByteRate)
        } else if tag == 0xfffe && size < 40 {
            Err(WavError::TruncatedExtensible)
        } else if tag == 0xfffe && bytes::le_at(file, at + 16, 2) < 22 {
            Err(WavError::ExtensibleSize)
        } else if tag == 0xfffe && bytes::le_at(file, at + 18, 2) != 16 {
            Err(WavError::ExtensibleBits)
        } else if tag == 0xfffe && file.subrange(at + 24, at + 40) != pcm_guid() {
            Err(WavError::ExtensibleFormat)
        } else if tag != 0xfffe && tag != 1 {
            Err(WavError::NotPcm16)
        } else {
            Ok(FormatModel { rate, channels, align })
        },
    }
}

/// How far a scan over the chunks has come.
#[verifier::ext_equal]
pub ghost struct ScanModel {
    pub position: nat,
    pub chunks: Seq<ChunkModel>,
    pub format: Option<FormatModel>,
    pub data: Option<(nat, nat)>,
    pub table: Seq<(Seq<u8>, nat)>,
}

/// Takes in a chunk whose bounds are known.
pub open spec fn accept_chunk(
    file: Seq<u8>,
    root: RootModel,
    scan: ScanModel,
    chunk: ChunkModel,
    end: nat,
    table: Seq<(Seq<u8>, nat)>,
) -> Result<ScanModel, WavError> {
    let payload = chunk.offset + 8;
    let next = ScanModel { position: end, chunks: scan.chunks.push(chunk), table, ..scan };
    if chunk.id == name('f', 'm', 't', ' ') {
        if scan.format is Some || chunk.size < 16 {
            Err(WavError::FmtChunk)
        } else {
            match format_of(file, payload as int, chunk.size) {
                Err(e) => Err(e),
                Ok(format) => Ok(ScanModel { format: Some(format), ..next }),
            }
        }
    } else if chunk.id == name('d', 'a', 't', 'a') {
        if scan.format is None || scan.data is Some {
            Err(WavError::DataChunk)
        } else if root.is_rf64 && root.ds64 is Some && root.ds64.unwrap().data_len != chunk.size {
            Err(WavError::DataSize)
        } else {
            Ok(ScanModel { data: Some((payload, chunk.size)), ..next })
        }
    } else if chunk.id == name('d', 's', '6', '4') && !(root.is_rf64 && chunk.offset == 12) {
        Err(WavError::UnexpectedDs64)
    } else {
        Ok(next)
    }
}

/// Takes in the chunk at the scan's position.
pub open spec fn scan_step(file: Seq<u8>, root: RootModel, scan: ScanModel) -> Result<
    ScanModel,
    WavError,
> {
    let at = scan.position as int;
    if scan.chunks.len() >= MAX_CHUNKS {
        Err(WavError::TooManyChunks)
    } else if at + 8 > u64::MAX {
        Err(WavError::HeaderOffsetOverflow)
    } else if at + 8 > file.len() {
        Err(WavError::TruncatedChunkHeader)
    } else {
        let id = file.subrange(at, at + 4);
        match stated_size(root, scan.table, id, bytes::le_at(file, at + 4, 4)) {
            None => Err(WavError::MissingTableSize),
            Some((size, table)) => match end_with_padding(scan.position + 8, size) {
                None => Err(WavError::ChunkOffsetOverflow),
                Some(end) => if end > file.len() {
                    Err(WavError::ChunkBounds)
                } else {
                    accept_chunk(
                        file,
                        root,
                        scan,
                        ChunkModel { id, offset: scan.position, size },
                        end,
                        table,
                    )
                },
            },
        }
    }
}

/// Takes in every chunk from the scan's position to the end of the file.
pub open spec fn scan_rest(file: Seq<u8>, root: RootModel, scan: ScanModel) -> Result<
    ScanModel,
    WavError,
>
    decreases file.len() - scan.position,
{
    if scan.position >= file.len() {
        Ok(scan)
    } else {
        match scan_step(file, root, scan) {
            Err(e) => Err(e),
            Ok(next) => scan_rest(file, root, next),
        }
    }
}

/// What a completed scan says of the file, or why the file is refused.
pub open spec fn scan_result(file: Seq<u8>, root: RootModel, scan: ScanModel) -> Result<
    WavModel,
    WavError,
> {
    match scan.format {
        None => Err(WavError::MissingFmt),
        Some(format) => match scan.data {
            None => Err(WavError::MissingData),
            Some((data_offset, data_len)) => if data_len % format.align != 0 {
                Err(WavError::IncompleteFrames)
            } else if root.ds64 is Some && root.ds64.unwrap().sample_count != 0
                && root.ds64.unwrap().sample_count != data_len / format.align {
                Err(WavError::SampleCount)
            } else {
                let info = WavModel {
                    sample_rate: format.rate,
                    channels: format.channels,
                    data_offset,
                    data_len,
                    frames: data_len / format.align,
                    file_len: file.len(),
                    is_rf64: root.is_rf64,
                    chunks: scan.chunks,
                    ds64_offset: if root.is_rf64 {
                        Some(12u64)
                    } else {
                        None
                    },
                };
                match length_error(info, file.len()) {
                    Some(e) => Err(e),
                    None => Ok(info),
                }
            },
        },
    }
}

pub open spec fn scan_start(root: RootModel) -> ScanModel {
    ScanModel {
        position: 12,
        chunks: Seq::empty(),
        format: None,
        data: None,
        table: root.table,
    }
}

/// What a sound file holds, or why it is refused.
pub open spec fn inspection(file: Seq<u8>) -> Result<WavModel, WavError> {
    match root_of(file) {
        Err(e) => Err(e),
        Ok(root) => if root.riff_size + 8 > u64::MAX {
            Err(WavError::RiffLengthOverflow)
        } else if root.riff_size + 8 != file.len() || file.len() < 12 {
            Err(WavError::RiffLengthMismatch)
        } else {
            match scan_rest(file, root, scan_start(root)) {
                Err(e) => Err(e),
                Ok(scan) => scan_result(file, root, scan),
            }
        },
    }
}

/// A reader serves a file when it hands out exactly the bytes that were asked
/// for, and nothing when they reach past the end.
pub open spec fn serves<F: Fn(u64, usize) -> Option<Vec<u8>>>(
    read_at: &F,
    file: Seq<u8>,
    file_len: u64,
) -> bool {
    &&& file.len() == file_len
    &&& forall|at: u64, n: usize, r: Option<Vec<u8>>|
        #[trigger] call_ensures(read_at, (at, n), r) ==> match r {
            Some(v) => at + n <= file.len() && v@ == file.subrange(at as int, at + n),
            None => at + n > file.len(),
        }
}

fn fetch<F: Fn(u64, usize) -> Option<Vec<u8>>>(
    read_at: &F,
    Ghost(file_len): Ghost<u64>,
    at: u64,
    n: usize,
) -> (r: Result<Vec<u8>, WavError>)
    requires
        call_requires(read_at, (at, n)),
    ensures
        r matches Ok(v) ==> v@.len() == n,
        forall|file: Seq<u8>| #[trigger]
            serves(read_at, file, file_len) ==> match r {
                Ok(v) => at + n <= file.len() && v@ == file.subrange(at as int, at + n),
                Err(e) => e == WavError::TruncatedHeader && at + n > file.len(),
            },
{
    match read_at(at, n) {
        Some(v) => if v.len() == n {
            Ok(v)
        } else {
            Err(WavError::TruncatedHeader)
        },
        None => Err(WavError::TruncatedHeader),
    }
}

struct Root {
    is_rf64: bool,
    riff_size: u64,
    ds64: Option<(u64, u64)>,
    table: Vec<([u8; 4], u64)>,
}

spec fn table_model(table: Seq<([u8; 4], u64)>) -> Seq<(Seq<u8>, nat)> {
    table.map_values(|e: ([u8; 4], u64)| (e.0@, e.1 as nat))
}

impl View for Root {
    type V = RootModel;

    closed spec fn view(&self) -> RootModel {
        RootModel {
            is_rf64: self.is_rf64,
            riff_size: self.riff_size as nat,
            ds64: match self.ds64 {
                Some((data_len, sample_count)) => Some(
                    Ds64Model { data_len: data_len as nat, sample_count: sample_count as nat },
                ),
                None => None,
            },
            table: table_model(self.table@),
        }
    }
}

struct Scan {
    position: u64,
    chunks: Vec<WavChunk>,
    format: Option<(u32, u16, u16)>,
    data: Option<(u64, u64)>,
    table: Vec<([u8; 4], u64)>,
}

impl View for Scan {
    type V = ScanModel;

    closed spec fn view(&self) -> ScanModel {
        ScanModel {
            position: self.position as nat,
            chunks: chunk_models(self.chunks@),
            format: match self.format {
                Some((rate, channels, align)) => Some(
                    FormatModel {
                        rate: rate as nat,
                        channels: channels as nat,
                        align: align as nat,
                    },
                ),
                None => None,
            },
            data: match self.data {
                Some((offset, len)) => Some((offset as nat, len as nat)),
                None => None,
            },
            table: table_model(self.table@),
        }
    }
}

fn has_name(id: &[u8], a: char, b: char, c: char, d: char) -> (r: bool)
    requires
        id@.len() == 4,
    ensures
        r == (id@ == name(a, b, c, d)),
{
    let same = id[0] == a as u8 && id[1] == b as u8 && id[2] == c as u8 && id[3] == d as u8;
    assert(same ==> id@ =~= name(a, b, c, d));
    same
}

/// Four bytes of a longer sequence, as a name.
fn name_at(v: &[u8], at: usize) -> (id: [u8; 4])
    requires
        at + 4 <= v@.len(),
    ensures
        id@ == v@.subrange(at as int, at + 4),
{
    let total: usize = v.len();
    let id = [v[at], v[at + 1], v[at + 2], v[at + 3]];
    assert(id@ =~= v@.subrange(at as int, at + 4));
    id
}

fn read_root<F: Fn(u64, usize) -> Option<Vec<u8>>>(read_at: &F, file_len: u64) -> (r: Result<
    Root,
    WavError,
>)
    requires
        forall|at: u64, n: usize| call_requires(read_at, (at, n)),
    ensures
        forall|file: Seq<u8>| #[trigger]
            serves(read_at, file, file_len) ==> match r {
                Ok(root) => root_of(file) == Ok::<RootModel, WavError>(root@),
                Err(e) => root_of(file) == Err::<RootModel, WavError>(e),
            },
{
    broadcast use bytes::subrange_of_subrange;

    let header = match fetch(read_at, Ghost(file_len), 0, 12) {
        Ok(v) => v,
        Err(e) => return Err(e),
    };
    let form = name_at(&header, 0);
    let is_rf64 = has_name(&form, 'R', 'F', '6', '4');
    if !is_rf64 && !has_name(&form, 'R', 'I', 'F', 'F') {
        return Err(WavError::NotRiff);
    }
    let kind = name_at(&header, 8);
    if !has_name(&kind, 'W', 'A', 'V', 'E') {
        return Err(WavError::NotWave);
    }
    let root_size: u64 = bytes::read_le(&header, 4, 4);
    if !is_rf64 {
        let root = Root { is_rf64, riff_size: root_size, ds64: None, table: Vec::new() };
        assert(root@.table =~= Seq::empty());
        return Ok(root);
    }
    proof {
        assert(name('R', 'I', 'F', 'F')[1] != name('R', 'F', '6', '4')[1]);
        bytes::radix_values();
    }
    if root_size != u32::MAX as u64 {
        return Err(WavError::RootSentinel);
    }
    let ds_header = match fetch(read_at, Ghost(file_len), 12, 8) {
        Ok(v) => v,
        Err(e) => return Err(e),
    };
    let ds_name = name_at(&ds_header, 0);
    if !has_name(&ds_name, 'd', 's', '6', '4') {
        return Err(WavError::Ds64First);
    }
    let ds_size: u64 = bytes::read_le(&ds_header, 4, 4);
    if ds_size < 28 {
        return Err(WavError::TruncatedDs64Payload);
    }
    if 20 + ds_size + ds_size % 2 > file_len {
        return Err(WavError::TruncatedDs64Chunk);
    }
    let ds = match fetch(read_at, Ghost(file_len), 20, 28) {
        Ok(v) => v,
        Err(e) => return Err(e),
    };
    let table_len: u64 = bytes::read_le(&ds, 24, 4);
    if table_len > MAX_CHUNKS as u64 {
        return Err(WavError::TooManyTableEntries);
    }
    if 28 + table_len * 12 > ds_size {
        return Err(WavError::TableExceedsChunk);
    }
    let mut table: Vec<([u8; 4], u64)> = Vec::new();
    let mut i: u64 = 0;
    while i < table_len
        invariant
            i <= table_len <= MAX_CHUNKS,
            table@.len() == i,
            forall|at: u64, n: usize| call_requires(read_at, (at, n)),
            forall|file: Seq<u8>| #[trigger]
                serves(read_at, file, file_len) ==> 48 + table_len * 12 <= file.len(),
            forall|file: Seq<u8>, k: int|
                #![trigger serves(read_at, file, file_len), table@[k]]
                serves(read_at, file, file_len) && 0 <= k < i ==> (table@[k].0@, table@[k].1 as nat)
                    == table_entry(file, k),
        decreases table_len - i,
    {
        let entry = match fetch(read_at, Ghost(file_len), 48 + i * 12, 12) {
            Ok(v) => v,
            Err(e) => return Err(e),
        };
        let id = name_at(&entry, 0);
        let size: u64 = bytes::read_le(&entry, 4, 8);
        proof {
            assert forall|file: Seq<u8>| #[trigger] serves(read_at, file, file_len) implies (
                id@,
                size as nat,
            ) == table_entry(file, i as int) by {
                bytes::subrange_of_subrange(file, 48 + 12 * i, 60 + 12 * i, 0, 4);
                bytes::subrange_of_subrange(file, 48 + 12 * i, 60 + 12 * i, 4, 12);
            }
        }
        table.push((id, size));
        i = i + 1;
    }
    let root = Root {
        is_rf64,
        riff_size: bytes::read_le(&ds, 0, 8),
        ds64: Some((bytes::read_le(&ds, 8, 8), bytes::read_le(&ds, 16, 8))),
        table,
    };
    assert forall|file: Seq<u8>| #[trigger] serves(read_at, file, file_len) implies root_of(file)
        == Ok::<RootModel, WavError>(root@) by {
        assert(root@.table =~= Seq::new(
            bytes::le_at(file, 44, 4),
            |i: int| table_entry(file, i),
        ));
    }
    Ok(root)
}

/// Takes the first entry of a name out of the table.
fn take_entry(table: &mut Vec<([u8; 4], u64)>, id: &[u8; 4]) -> (r: Option<u64>)
    ensures
        match r {
            Some(size) => exists|i: int| #[trigger]
                is_first_entry(table_model(old(table)@), id@, i) && size == old(table)@[i].1
                    && table_model(final(table)@) == table_model(old(table)@).remove(i),
            None => final(table)@ == old(table)@ && forall|i: int|
                !is_first_entry(table_model(old(table)@), id@, i),
        },
{
    let mut i: usize = 0;
    while i < table.len()
        invariant
            i <= table@.len(),
            table@ == old(table)@,
            forall|j: int| 0 <= j < i ==> (#[trigger] table_model(table@)[j]).0 != id@,
        decreases table.len() - i,
    {
        if bytes::same_bytes(&table[i].0, id) {
            let entry = table.remove(i);
            proof {
                assert(is_first_entry(table_model(old(table)@), id@, i as int));
                assert(table_model(table@) =~= table_model(old(table)@).remove(i as int));
            }
            return Some(entry.1);
        }
        i = i + 1;
    }
    None
}

fn read_format<F: Fn(u64, usize) -> Option<Vec<u8>>>(
    read_at: &F,
    Ghost(file_len): Ghost<u64>,
    payload: u64,
    size: u64,
) -> (r: Result<(u32, u16, u16), WavError>)
    requires
        forall|at: u64, n: usize| call_requires(read_at, (at, n)),
        size >= 16,
        payload + size <= u64::MAX,
    ensures
        r matches Ok(format) ==> format.2 > 0,
        forall|file: Seq<u8>| #[trigger]
            serves(read_at, file, file_len) && payload + size <= file.len() ==> match r {
                Ok((rate, channels, align)) => format_of(file, payload as int, size as nat) == Ok::<
                    FormatModel,
                    WavError,
                >(
                    FormatModel {
                        rate: rate as nat,
                        channels: channels as nat,
                        align: align as nat,
                    },
                ),
                Err(e) => format_of(file, payload as int, size as nat) == Err::<
                    FormatModel,
                    WavError,
                >(e),
            },
{
    broadcast use bytes::subrange_of_subrange;

    proof {
        bytes::radix_values();
    }
    let fmt = match fetch(read_at, Ghost(file_len), payload, 16) {
        Ok(v) => v,
        Err(e) => return Err(e),
    };
    let tag: u16 = bytes::read_le(&fmt, 0, 2) as u16;
    let channels: u16 = bytes::read_le(&fmt, 2, 2) as u16;
    let rate: u32 = bytes::read_le(&fmt, 4, 4) as u32;
    let align: u16 = match validate_format(rate, channels) {
        Ok(align) => align,
        Err(e) => return Err(e),
    };
    if bytes::read_le(&fmt, 14, 2) != 16 {
        return Err(WavError::NotPcm16);
    }
    if bytes::read_le(&fmt, 12, 2) != align as u64 {
        return Err(WavError::BlockAlign);
    }
    if bytes::read_le(&fmt, 8, 4) != (rate * align as u32) as u64 {
        return Err(WavError::ByteRate);
    }
    if tag == 0xfffe {
        if size < 40 {
            return Err(WavError::TruncatedExtensible);
        }
        let extra = match fetch(read_at, Ghost(file_len), payload + 16, 24) {
            Ok(v) => v,
            Err(e) => return Err(e),
        };
        if bytes::read_le(&extra, 0, 2) < 22 {
            return Err(WavError::ExtensibleSize);
        }
        if bytes::read_le(&extra, 2, 2) != 16 {
            return Err(WavError::ExtensibleBits);
        }
        let guid: [u8; 16] = [1, 0, 0, 0, 0, 0, 16, 0, 128, 0, 0, 170, 0, 56, 155, 113];
        assert(guid@ =~= pcm_guid());
        let stated = vstd::slice::slice_subrange(&extra, 8, 24);
        if !bytes::same_bytes(stated, &guid) {
            return Err(WavError::ExtensibleFormat);
        }
    } else if tag != 1 {
        return Err(WavError::NotPcm16);
    }
    Ok((rate, channels, align))
}

fn scan_chunk<F: Fn(u64, usize) -> Option<Vec<u8>>>(
    read_at: &F,
    file_len: u64,
    root: &Root,
    scan: &mut Scan,
) -> (r: Result<(), WavError>)
    requires
        forall|at: u64, n: usize| call_requires(read_at, (at, n)),
        old(scan).format matches Some(format) ==> format.2 > 0,
    ensures
        forall|file: Seq<u8>| #[trigger]
            serves(read_at, file, file_len) ==> match r {
                Ok(()) => scan_step(file, root@, old(scan)@) == Ok::<ScanModel, WavError>(
                    final(scan)@,
                ),
                Err(e) => scan_step(file, root@, old(scan)@) == Err::<ScanModel, WavError>(e),
            },
        r is Ok ==> old(scan).position < final(scan).position <= file_len,
        r is Ok ==> (final(scan).format matches Some(format) ==> format.2 > 0),
{
    broadcast use bytes::subrange_of_subrange;

    proof {
        bytes::radix_values();
    }
    if scan.chunks.len() >= MAX_CHUNKS {
        return Err(WavError::TooManyChunks);
    }
    let position: u64 = scan.position;
    let payload: u64 = match position.checked_add(8) {
        Some(payload) => payload,
        None => return Err(WavError::HeaderOffsetOverflow),
    };
    if payload > file_len {
        return Err(WavError::TruncatedChunkHeader);
    }
    let header = match fetch(read_at, Ghost(file_len), position, 8) {
        Ok(v) => v,
        Err(e) => return Err(e),
    };
    let id = name_at(&header, 0);
    let size32: u64 = bytes::read_le(&header, 4, 4);
    let size: u64 = if root.is_rf64 && size32 == u32::MAX as u64 {
        if has_name(&id, 'd', 'a', 't', 'a') {
            match root.ds64 {
                Some(ds64) => ds64.0,
                None => return Err(WavError::MissingTableSize),
            }
        } else {
            match take_entry(&mut scan.table, &id) {
                Some(size) => size,
                None => return Err(WavError::MissingTableSize),
            }
        }
    } else {
        size32
    };
    proof {
        assert forall|i: int, j: int|
            is_first_entry(old(scan)@.table, id@, i) && is_first_entry(
                old(scan)@.table,
                id@,
                j,
            ) implies i == j by {}
        assert(stated_size(root@, old(scan)@.table, id@, size32 as nat) == Some(
            (size as nat, scan@.table),
        ));
    }
    let end: u64 = match padded_end(payload, size) {
        Ok(end) => end,
        Err(e) => return Err(e),
    };
    if end > file_len {
        return Err(WavError::ChunkBounds);
    }
    let ghost chunk = ChunkModel { id: id@, offset: position as nat, size: size as nat };
    if has_name(&id, 'f', 'm', 't', ' ') {
        if scan.format.is_some() || size < 16 {
            return Err(WavError::FmtChunk);
        }
        match read_format(read_at, Ghost(file_len), payload, size) {
            Ok(format) => {
                scan.format = Some(format);
            },
            Err(e) => return Err(e),
        }
    } else if has_name(&id, 'd', 'a', 't', 'a') {
        if scan.format.is_none() || scan.data.is_some() {
            return Err(WavError::DataChunk);
        }
        if root.is_rf64 {
            if let Some(ds64) = root.ds64 {
                if ds64.0 != size {
                    return Err(WavError::DataSize);
                }
            }
        }
        scan.data = Some((payload, size));
    } else if has_name(&id, 'd', 's', '6', '4') && !(root.is_rf64 && position == 12) {
        return Err(WavError::UnexpectedDs64);
    }
    scan.chunks.push(WavChunk { id, offset: position, size });
    scan.position = end;
    proof {
        assert(scan@.chunks =~= old(scan)@.chunks.push(chunk));
    }
    Ok(())
}

/// Inspects the headers of a sound file through a reader of byte ranges. The
/// samples are stepped over, never read.
pub fn inspect<F: Fn(u64, usize) -> Option<Vec<u8>>>(file_len: u64, read_at: &F) -> (r: Result<
    WavInfo,
    WavError,
>)
    requires
        forall|at: u64, n: usize| call_requires(read_at, (at, n)),
    ensures
        forall|file: Seq<u8>| #[trigger]
            serves(read_at, file, file_len) ==> match r {
                Ok(info) => inspection(file) == Ok::<WavModel, WavError>(info@),
                Err(e) => inspection(file) == Err::<WavModel, WavError>(e),
            },
{
    let root = match read_root(read_at, file_len) {
        Ok(root) => root,
        Err(e) => return Err(e),
    };
    let riff_end: u64 = match root.riff_size.checked_add(8) {
        Some(end) => end,
        None => return Err(WavError::RiffLengthOverflow),
    };
    if riff_end != file_len || riff_end < 12 {
        return Err(WavError::RiffLengthMismatch);
    }
    let mut table: Vec<([u8; 4], u64)> = Vec::new();
    let mut i: usize = 0;
    while i < root.table.len()
        invariant
            i <= root.table.len(),
            table@ == root.table@.take(i as int),
        decreases root.table.len() - i,
    {
        proof {
            assert(root.table@.take(i + 1) =~= root.table@.take(i as int).push(
                root.table@[i as int],
            ));
        }
        table.push(root.table[i]);
        i = i + 1;
    }
    let mut scan = Scan { position: 12, chunks: Vec::new(), format: None, data: None, table };
    proof {
        assert(scan.table@ =~= root.table@);
        assert(scan@ =~= scan_start(root@));
    }
    while scan.position < file_len
        invariant
            forall|at: u64, n: usize| call_requires(read_at, (at, n)),
            scan.position <= file_len,
            forall|file: Seq<u8>| #[trigger]
                serves(read_at, file, file_len) ==> scan_rest(file, root@, scan_start(root@))
                    == scan_rest(file, root@, scan@),
            scan.format matches Some(format) ==> format.2 > 0,
            forall|file: Seq<u8>| #[trigger]
                serves(read_at, file, file_len) ==> root_of(file) == Ok::<RootModel, WavError>(
                    root@,
                ) && root@.riff_size + 8 == file.len(),
        decreases file_len - scan.position,
    {
        match scan_chunk(read_at, file_len, &root, &mut scan) {
            Ok(()) => {},
            Err(e) => return Err(e),
        }
    }
    let (sample_rate, channels, align) = match scan.format {
        Some(format) => format,
        None => return Err(WavError::MissingFmt),
    };
    let (data_offset, data_len) = match scan.data {
        Some(data) => data,
        None => return Err(WavError::MissingData),
    };
    if data_len % align as u64 != 0 {
        return Err(WavError::IncompleteFrames);
    }
    let frames: u64 = data_len / align as u64;
    if let Some(ds64) = root.ds64 {
        if ds64.1 != 0 && ds64.1 != frames {
            return Err(WavError::SampleCount);
        }
    }
    let ds64_offset: Option<u64> = if root.is_rf64 {
        Some(12)
    } else {
        None
    };
    let info = WavInfo {
        sample_rate,
        channels,
        data_offset,
        data_len,
        frames,
        file_len,
        is_rf64: root.is_rf64,
        chunks: scan.chunks,
        ds64_offset,
    };
    match info.validate_file_len(file_len) {
        Ok(()) => Ok(info),
        Err(e) => Err(e),
    }
}

/// Bytes that replace what a file holds at an offset.
#[derive(Debug)]
pub struct Patch {
    pub at: u64,
    pub bytes: Vec<u8>,
}

/// What the contracts know of a patch.
#[verifier::ext_equal]
pub ghost struct PatchModel {
    pub at: nat,
    pub bytes: Seq<u8>,
}

impl View for Patch {
    type V = PatchModel;

    open spec fn view(&self) -> PatchModel {
        PatchModel { at: self.at as nat, bytes: self.bytes@ }
    }
}

/// The models of a list of patches.
pub open spec fn patch_models(patches: Seq<Patch>) -> Seq<PatchModel> {
    patches.map_values(|p: Patch| p@)
}

/// A file after one patch.
pub open spec fn patched(file: Seq<u8>, patch: PatchModel) -> Seq<u8> {
    file.take(patch.at as int) + patch.bytes + file.skip((patch.at + patch.bytes.len()) as int)
}

/// A file after a list of patches, the first one first.
pub open spec fn patched_all(file: Seq<u8>, patches: Seq<PatchModel>) -> Seq<u8>
    decreases patches.len(),
{
    if patches.len() == 0 {
        file
    } else {
        patched(patched_all(file, patches.drop_last()), patches.last())
    }
}

/// The patches that bring the stated lengths of a file in line with `new_len`.
pub open spec fn size_patches(info: WavModel, new_len: nat) -> Seq<PatchModel> {
    let riff_size = (new_len - 8) as nat;
    let data_size_at = (info.data_offset - 4) as nat;
    let sentinel = bytes::le_bytes(u32::MAX as nat, 4);
    if info.is_rf64 {
        seq![
            PatchModel {
                at: (info.ds64_offset->0 + 8) as nat,
                bytes: bytes::le_bytes(riff_size, 8) + bytes::le_bytes(info.data_len, 8)
                    + bytes::le_bytes(info.frames, 8),
            },
            PatchModel { at: data_size_at, bytes: sentinel },
            PatchModel { at: 0, bytes: name('R', 'F', '6', '4') + sentinel },
        ]
    } else {
        seq![
            PatchModel { at: data_size_at, bytes: bytes::le_bytes(info.data_len, 4) },
            PatchModel {
                at: 0,
                bytes: name('R', 'I', 'F', 'F') + bytes::le_bytes(riff_size, 4),
            },
        ]
    }
}

pub(crate) fn put_name(out: &mut Vec<u8>, a: char, b: char, c: char, d: char)
    ensures
        final(out)@ == old(out)@ + name(a, b, c, d),
{
    out.push(a as u8);
    out.push(b as u8);
    out.push(c as u8);
    out.push(d as u8);
    assert(out@ =~= old(out)@ + name(a, b, c, d));
}

/// The patches that bring container and data lengths up to date once every
/// payload write and truncation is done. An oversized RIFF is refused.
pub fn update_sizes(info: &WavInfo, physical_len: u64, new_file_len: u64) -> (r: Result<
    Vec<Patch>,
    WavError,
>)
    ensures
        match r {
            Ok(patches) => length_error(info@, new_file_len as nat) is None && physical_len
                == new_file_len && patch_models(patches@) == size_patches(
                info@,
                new_file_len as nat,
            ),
            Err(e) => length_error(info@, new_file_len as nat) == Some(e) || (length_error(
                info@,
                new_file_len as nat,
            ) is None && physical_len != new_file_len && e == WavError::PhysicalSize),
        },
{
    match info.validate_file_len(new_file_len) {
        Ok(()) => {},
        Err(e) => return Err(e),
    }
    if physical_len != new_file_len {
        return Err(WavError::PhysicalSize);
    }
    let riff_size: u64 = new_file_len - 8;
    let mut patches: Vec<Patch> = Vec::new();
    let mut data_size: Vec<u8> = Vec::new();
    let mut head: Vec<u8> = Vec::new();
    if info.is_rf64 {
        if let Some(offset) = info.ds64_offset {
            let mut sizes: Vec<u8> = Vec::new();
            bytes::put_le(&mut sizes, riff_size, 8);
            bytes::put_le(&mut sizes, info.data_len, 8);
            bytes::put_le(&mut sizes, info.frames, 8);
            assert(Seq::<u8>::empty() + bytes::le_bytes(riff_size as nat, 8) =~= bytes::le_bytes(
                riff_size as nat,
                8,
            ));
            patches.push(Patch { at: offset + 8, bytes: sizes });
        }
        bytes::put_le(&mut data_size, u32::MAX as u64, 4);
        put_name(&mut head, 'R', 'F', '6', '4');
        bytes::put_le(&mut head, u32::MAX as u64, 4);
    } else {
        bytes::put_le(&mut data_size, info.data_len, 4);
        put_name(&mut head, 'R', 'I', 'F', 'F');
        bytes::put_le(&mut head, riff_size, 4);
    }
    patches.push(Patch { at: info.data_offset - 4, bytes: data_size });
    patches.push(Patch { at: 0, bytes: head });
    proof {
        assert(forall|x: Seq<u8>| #[trigger] (Seq::<u8>::empty() + x) =~= x);
        assert(patch_models(patches@) =~~= size_patches(info@, new_file_len as nat));
    }
    Ok(patches)
}

/// A sample as the unsigned number that its two bytes spell.
pub open spec fn sample_bits(sample: i16) -> nat {
    if sample < 0 {
        (sample + 65536) as nat
    } else {
        sample as nat
    }
}

/// The bytes of a list of samples.
pub open spec fn pcm(samples: Seq<i16>) -> Seq<u8>
    decreases samples.len(),
{
    if samples.len() == 0 {
        Seq::empty()
    } else {
        pcm(samples.drop_last()) + bytes::le_bytes(sample_bits(samples.last()), 2)
    }
}

/// The size sentinel of an RF64 chunk.
pub open spec fn sentinel() -> Seq<u8> {
    bytes::le_bytes(u32::MAX as nat, 4)
}

/// The lengths that the `ds64` chunk of an export file states.
pub open spec fn export_sizes(riff_size: nat, data_len: nat, frames: nat) -> Seq<u8> {
    bytes::le_bytes(riff_size, 8) + bytes::le_bytes(data_len, 8) + bytes::le_bytes(frames, 8)
}

/// The rest of the `ds64` chunk, the `fmt ` chunk and the name of the data chunk.
pub open spec fn export_format(rate: nat, channels: nat) -> Seq<u8> {
    bytes::le_bytes(0, 4) + name('f', 'm', 't', ' ') + bytes::le_bytes(16, 4) + bytes::le_bytes(
        1,
        2,
    ) + bytes::le_bytes(channels, 2) + bytes::le_bytes(rate, 4) + bytes::le_bytes(
        rate * (channels * 2),
        4,
    ) + bytes::le_bytes(channels * 2, 2) + bytes::le_bytes(16, 2) + name('d', 'a', 't', 'a')
}

/// The head of an export file with the given lengths.
pub open spec fn export_header(
    rate: nat,
    channels: nat,
    riff_size: nat,
    data_len: nat,
    frames: nat,
) -> Seq<u8> {
    name('R', 'F', '6', '4') + sentinel() + name('W', 'A', 'V', 'E') + name('d', 's', '6', '4')
        + bytes::le_bytes(28, 4) + export_sizes(riff_size, data_len, frames) + export_format(
        rate,
        channels,
    ) + sentinel()
}

/// What is known of an export file that holds `samples` samples so far.
pub open spec fn export_model(rate: nat, channels: nat, samples: nat) -> WavModel {
    WavModel {
        sample_rate: rate,
        channels,
        data_offset: DATA_OFFSET as nat,
        data_len: 2 * samples,
        frames: 2 * samples / (channels * 2),
        file_len: DATA_OFFSET as nat + 2 * samples,
        is_rf64: true,
        chunks: Seq::empty(),
        ds64_offset: Some(12u64),
    }
}

/// Counting bytes or counting samples gives the same frames.
proof fn double_division(samples: nat, channels: nat)
    requires
        channels > 0,
    ensures
        (2 * samples) % (channels * 2) == 2 * (samples % channels),
        (2 * samples) / (channels * 2) == samples / channels,
{
    let n = samples as int;
    let c = channels as int;
    vstd::arithmetic::div_mod::lemma_fundamental_div_mod(n, c);
    assert(2 * n == (n / c) * (c * 2) + 2 * (n % c)) by (nonlinear_arith)
        requires
            n == c * (n / c) + n % c,
    ;
    vstd::arithmetic::div_mod::lemma_fundamental_div_mod_converse(2 * n, c * 2, n / c, 2 * (n % c));
}

/// Lays out an export file: a head, then samples, then the final lengths.
pub struct ExportWavWriter {
    info: WavInfo,
}

impl ExportWavWriter {
    pub closed spec fn rate(&self) -> nat {
        self.info.sample_rate as nat
    }

    pub closed spec fn channels(&self) -> nat {
        self.info.channels as nat
    }

    /// How many samples were written.
    pub closed spec fn written(&self) -> nat {
        self.info.data_len as nat / 2
    }

    pub closed spec fn wf(&self) -> bool {
        &&& block_align(self.rate(), self.channels()) is Ok
        &&& self.info.data_len % 2 == 0
        &&& self.info.data_offset == DATA_OFFSET
        &&& self.info.file_len == DATA_OFFSET + self.info.data_len
        &&& self.info.is_rf64
        &&& self.info.chunks@ == Seq::<WavChunk>::empty()
        &&& self.info.ds64_offset == Some(12u64)
    }

    /// A writer, with the bytes that open its file.
    pub fn create(sample_rate: u32, channels: u16) -> (r: Result<(Self, Vec<u8>), WavError>)
        ensures
            match r {
                Ok((writer, head)) => {
                    &&& block_align(sample_rate as nat, channels as nat) is Ok
                    &&& writer.wf()
                    &&& writer.rate() == sample_rate
                    &&& writer.channels() == channels
                    &&& writer.written() == 0
                    &&& head@ == export_header(sample_rate as nat, channels as nat, 72, 0, 0)
                },
                Err(e) => block_align(sample_rate as nat, channels as nat) == Err::<nat, WavError>(
                    e,
                ),
            },
    {
        let align: u16 = match validate_format(sample_rate, channels) {
            Ok(align) => align,
            Err(e) => return Err(e),
        };
        let mut head: Vec<u8> = Vec::new();
        put_name(&mut head, 'R', 'F', '6', '4');
        assert(head@ =~= name('R', 'F', '6', '4'));
        bytes::put_le(&mut head, u32::MAX as u64, 4);
        put_name(&mut head, 'W', 'A', 'V', 'E');
        put_name(&mut head, 'd', 's', '6', '4');
        bytes::put_le(&mut head, 28, 4);
        let ghost start = head@;
        bytes::put_le(&mut head, 72, 8);
        bytes::put_le(&mut head, 0, 8);
        bytes::put_le(&mut head, 0, 8);
        assert(head@ =~= start + export_sizes(72, 0, 0));
        let ghost sized = head@;
        bytes::put_le(&mut head, 0, 4);
        put_name(&mut head, 'f', 'm', 't', ' ');
        bytes::put_le(&mut head, 16, 4);
        bytes::put_le(&mut head, 1, 2);
        bytes::put_le(&mut head, channels as u64, 2);
        bytes::put_le(&mut head, sample_rate as u64, 4);
        bytes::put_le(&mut head, (sample_rate * align as u32) as u64, 4);
        bytes::put_le(&mut head, align as u64, 2);
        bytes::put_le(&mut head, 16, 2);
        put_name(&mut head, 'd', 'a', 't', 'a');
        assert(head@ =~= sized + export_format(sample_rate as nat, channels as nat));
        bytes::put_le(&mut head, u32::MAX as u64, 4);
        let info = WavInfo {
            sample_rate,
            channels,
            data_offset: DATA_OFFSET,
            data_len: 0,
            frames: 0,
            file_len: DATA_OFFSET,
            is_rf64: true,
            chunks: Vec::new(),
            ds64_offset: Some(12),
        };
        Ok((ExportWavWriter { info }, head))
    }

    /// Appends one sample to the bytes that go out next.
    pub fn write_sample(&mut self, sample: i16, out: &mut Vec<u8>) -> (r: Result<(), WavError>)
        requires
            old(self).wf(),
        ensures
            final(self).wf(),
            final(self).rate() == old(self).rate(),
            final(self).channels() == old(self).channels(),
            match r {
                Ok(()) => {
                    &&& DATA_OFFSET + 2 * (old(self).written() + 1) <= u64::MAX
                    &&& final(self).written() == old(self).written() + 1
                    &&& final(out)@ == old(out)@ + bytes::le_bytes(sample_bits(sample), 2)
                },
                Err(e) => {
                    &&& DATA_OFFSET + 2 * (old(self).written() + 1) > u64::MAX
                    &&& e == WavError::PcmLengthOverflow || e == WavError::WavLengthOverflow
                    &&& (e == WavError::PcmLengthOverflow) == (2 * (old(self).written() + 1)
                        > u64::MAX)
                    &&& *final(self) == *old(self)
                    &&& final(out)@ == old(out)@
                },
            },
    {
        let data_len: u64 = match self.info.data_len.checked_add(2) {
            Some(len) => len,
            None => return Err(WavError::PcmLengthOverflow),
        };
        let file_len: u64 = match DATA_OFFSET.checked_add(data_len) {
            Some(len) => len,
            None => return Err(WavError::WavLengthOverflow),
        };
        let bits: u64 = if sample < 0 {
            (sample as i32 + 65536) as u64
        } else {
            sample as u64
        };
        bytes::put_le(out, bits, 2);
        self.info.data_len = data_len;
        self.info.file_len = file_len;
        Ok(())
    }

    /// The patches that state the final lengths.
    pub fn finalize(self) -> (r: Result<Vec<Patch>, WavError>)
        requires
            self.wf(),
        ensures
            match r {
                Ok(patches) => self.written() % self.channels() == 0 && patch_models(patches@)
                    == size_patches(
                    export_model(self.rate(), self.channels(), self.written()),
                    DATA_OFFSET as nat + 2 * self.written(),
                ),
                Err(e) => self.written() % self.channels() != 0 && e == WavError::IncompleteFrames,
            },
    {
        let mut info = self.info;
        info.frames = info.data_len / (info.channels as u64 * 2);
        let len: u64 = info.file_len;
        proof {
            assert(info@ =~= export_model(self.rate(), self.channels(), self.written()));
            double_division(self.written(), self.channels());
        }
        update_sizes(&info, len, len)
    }
}

proof fn pcm_len(samples: Seq<i16>)
    ensures
        pcm(samples).len() == 2 * samples.len(),
    decreases samples.len(),
{
    if samples.len() > 0 {
        pcm_len(samples.drop_last());
        bytes::le_bytes_len(sample_bits(samples.last()), 2);
    }
}

proof fn header_lens(rate: nat, channels: nat, riff_size: nat, data_len: nat, frames: nat)
    ensures
        sentinel().len() == 4,
        export_sizes(riff_size, data_len, frames).len() == 24,
        export_format(rate, channels).len() == 32,
        export_header(rate, channels, riff_size, data_len, frames).len() == 80,
{
    bytes::le_bytes_len(u32::MAX as nat, 4);
    bytes::le_bytes_len(28, 4);
    bytes::le_bytes_len(riff_size, 8);
    bytes::le_bytes_len(data_len, 8);
    bytes::le_bytes_len(frames, 8);
    bytes::le_bytes_len(0, 4);
    bytes::le_bytes_len(16, 4);
    bytes::le_bytes_len(1, 2);
    bytes::le_bytes_len(channels, 2);
    bytes::le_bytes_len(rate, 4);
    bytes::le_bytes_len(rate * (channels * 2), 4);
    bytes::le_bytes_len(channels * 2, 2);
    bytes::le_bytes_len(16, 2);
}

/// A file that was opened, filled and finalized by an [`ExportWavWriter`].
pub open spec fn finished_export(rate: nat, channels: nat, samples: Seq<i16>) -> Seq<u8> {
    patched_all(
        export_header(rate, channels, 72, 0, 0) + pcm(samples),
        size_patches(
            export_model(rate, channels, samples.len()),
            DATA_OFFSET as nat + 2 * samples.len(),
        ),
    )
}

/// The patches for new lengths change the stated lengths of an export file and
/// nothing else.
pub proof fn patching_states_lengths(
    rate: nat,
    channels: nat,
    stated: (nat, nat, nat),
    rest: Seq<u8>,
    info: WavModel,
    new_len: nat,
)
    requires
        new_len >= 8,
        info.is_rf64,
        info.ds64_offset == Some(12u64),
        info.data_offset == 80,
    ensures
        patched_all(
            export_header(rate, channels, stated.0, stated.1, stated.2) + rest,
            size_patches(info, new_len),
        ) == export_header(rate, channels, (new_len - 8) as nat, info.data_len, info.frames) + rest,
{
    let riff_size = (new_len - 8) as nat;
    let patches = size_patches(info, new_len);
    let file = export_header(rate, channels, stated.0, stated.1, stated.2) + rest;
    header_lens(rate, channels, stated.0, stated.1, stated.2);
    header_lens(rate, channels, riff_size, info.data_len, info.frames);
    bytes::le_bytes_len(28, 4);
    let first = patched(file, patches[0]);
    let second = patched(first, patches[1]);
    reveal_with_fuel(patched_all, 4);
    assert(patches.drop_last().drop_last().drop_last() =~= Seq::empty());
    assert(patches.drop_last().drop_last().last() == patches[0]);
    assert(patches.drop_last().last() == patches[1]);
    assert(patched_all(file, patches) == patched(second, patches[2]));
    let head = name('R', 'F', '6', '4') + sentinel() + name('W', 'A', 'V', 'E') + name(
        'd',
        's',
        '6',
        '4',
    ) + bytes::le_bytes(28, 4);
    assert(head.len() == 20);
    let tail = export_format(rate, channels) + sentinel() + rest;
    let sizes = export_sizes(riff_size, info.data_len, info.frames);
    assert(file =~= head + export_sizes(stated.0, stated.1, stated.2) + tail);
    assert(patches[0].bytes =~= sizes);
    assert(first =~= head + sizes + tail);
    assert(second =~= first);
    assert(patched(second, patches[2]) =~= second);
    assert(head + sizes + tail =~= export_header(
        rate,
        channels,
        riff_size,
        info.data_len,
        info.frames,
    ) + rest);
}

/// Finalizing changes the stated lengths and nothing else.
pub proof fn finalizing_states_lengths(rate: nat, channels: nat, samples: Seq<i16>)
    ensures
        finished_export(rate, channels, samples) == export_header(
            rate,
            channels,
            72 + 2 * samples.len(),
            2 * samples.len(),
            2 * samples.len() / (channels * 2),
        ) + pcm(samples),
{
    let n = samples.len();
    patching_states_lengths(
        rate,
        channels,
        (72, 0, 0),
        pcm(samples),
        export_model(rate, channels, n),
        80 + 2 * n,
    );
}

/// The fields that stand at fixed places of an export file.
pub open spec fn has_export_fields(
    file: Seq<u8>,
    rate: nat,
    channels: nat,
    riff_size: nat,
    data_len: nat,
    frames: nat,
) -> bool {
    &&& file.subrange(0, 4) == name('R', 'F', '6', '4')
    &&& file.subrange(8, 12) == name('W', 'A', 'V', 'E')
    &&& file.subrange(12, 16) == name('d', 's', '6', '4')
    &&& file.subrange(48, 52) == name('f', 'm', 't', ' ')
    &&& file.subrange(72, 76) == name('d', 'a', 't', 'a')
    &&& bytes::le_at(file, 4, 4) == u32::MAX as nat
    &&& bytes::le_at(file, 16, 4) == 28
    &&& bytes::le_at(file, 20, 8) == riff_size
    &&& bytes::le_at(file, 28, 8) == data_len
    &&& bytes::le_at(file, 36, 8) == frames
    &&& bytes::le_at(file, 44, 4) == 0
    &&& bytes::le_at(file, 52, 4) == 16
    &&& bytes::le_at(file, 56, 2) == 1
    &&& bytes::le_at(file, 58, 2) == channels
    &&& bytes::le_at(file, 60, 4) == rate
    &&& bytes::le_at(file, 64, 4) == rate * (channels * 2)
    &&& bytes::le_at(file, 68, 2) == channels * 2
    &&& bytes::le_at(file, 70, 2) == 16
    &&& bytes::le_at(file, 76, 4) == u32::MAX as nat
}

/// Where the fields of an export file stand.
#[verifier::rlimit(60)]
pub proof fn export_fields(
    rate: nat,
    channels: nat,
    riff_size: nat,
    data_len: nat,
    frames: nat,
    rest: Seq<u8>,
    file: Seq<u8>,
)
    requires
        block_align(rate, channels) is Ok,
        riff_size <= u64::MAX,
        data_len <= u64::MAX,
        frames <= u64::MAX,
        rate <= u32::MAX,
        file == export_header(rate, channels, riff_size, data_len, frames) + rest,
    ensures
        file.len() == 80 + rest.len(),
        has_export_fields(file, rate, channels, riff_size, data_len, frames),
{
    header_lens(rate, channels, riff_size, data_len, frames);
    bytes::radix_values();
    assert forall|v: nat, n: nat| #[trigger] bytes::le_bytes(v, n).len() == n by {
        bytes::le_bytes_len(v, n);
    }
    assert(file.subrange(0, 4) =~= name('R', 'F', '6', '4'));
    assert(file.subrange(8, 12) =~= name('W', 'A', 'V', 'E'));
    assert(file.subrange(12, 16) =~= name('d', 's', '6', '4'));
    assert(file.subrange(48, 52) =~= name('f', 'm', 't', ' '));
    assert(file.subrange(72, 76) =~= name('d', 'a', 't', 'a'));
    assert(file.subrange(4, 8) =~= bytes::le_bytes(u32::MAX as nat, 4));
    bytes::le_round_trip(u32::MAX as nat, 4);
    assert(file.subrange(16, 20) =~= bytes::le_bytes(28, 4));
    bytes::le_round_trip(28, 4);
    assert(file.subrange(20, 28) =~= bytes::le_bytes(riff_size, 8));
    bytes::le_round_trip(riff_size, 8);
    assert(file.subrange(28, 36) =~= bytes::le_bytes(data_len, 8));
    bytes::le_round_trip(data_len, 8);
    assert(file.subrange(36, 44) =~= bytes::le_bytes(frames, 8));
    bytes::le_round_trip(frames, 8);
    assert(file.subrange(44, 48) =~= bytes::le_bytes(0, 4));
    bytes::le_round_trip(0, 4);
    assert(file.subrange(52, 56) =~= bytes::le_bytes(16, 4));
    bytes::le_round_trip(16, 4);
    assert(file.subrange(56, 58) =~= bytes::le_bytes(1, 2));
    bytes::le_round_trip(1, 2);
    assert(file.subrange(58, 60) =~= bytes::le_bytes(channels, 2));
    bytes::le_round_trip(channels, 2);
    assert(file.subrange(60, 64) =~= bytes::le_bytes(rate, 4));
    bytes::le_round_trip(rate, 4);
    assert(file.subrange(64, 68) =~= bytes::le_bytes(rate * (channels * 2), 4));
    bytes::le_round_trip(rate * (channels * 2), 4);
    assert(file.subrange(68, 70) =~= bytes::le_bytes(channels * 2, 2));
    bytes::le_round_trip(channels * 2, 2);
    assert(file.subrange(70, 72) =~= bytes::le_bytes(16, 2));
    bytes::le_round_trip(16, 2);
    assert(file.subrange(76, 80) =~= bytes::le_bytes(u32::MAX as nat, 4));
    bytes::le_round_trip(u32::MAX as nat, 4);
}

/// What inspecting a finished export file gives.
pub open spec fn finished_model(rate: nat, channels: nat, samples: nat) -> WavModel {
    WavModel {
        chunks: seq![
            ChunkModel { id: name('d', 's', '6', '4'), offset: 12, size: 28 },
            ChunkModel { id: name('f', 'm', 't', ' '), offset: 48, size: 16 },
            ChunkModel { id: name('d', 'a', 't', 'a'), offset: 72, size: 2 * samples },
        ],
        frames: samples / channels,
        ..export_model(rate, channels, samples)
    }
}

/// An export file with more chunks behind its samples.
pub open spec fn extended_export(rate: nat, channels: nat, samples: Seq<i16>, extra: Seq<u8>) -> Seq<
    u8,
> {
    export_header(
        rate,
        channels,
        72 + 2 * samples.len() + extra.len(),
        2 * samples.len(),
        2 * samples.len() / (channels * 2),
    ) + pcm(samples) + extra
}

/// The head of an export file.
pub open spec fn export_root(riff_size: nat, data_len: nat, frames: nat) -> RootModel {
    RootModel {
        is_rf64: true,
        riff_size,
        ds64: Some(Ds64Model { data_len, sample_count: frames }),
        table: Seq::empty(),
    }
}

/// How far a scan has come behind the samples of an export file.
pub open spec fn after_samples(rate: nat, channels: nat, samples: nat) -> ScanModel {
    ScanModel {
        position: 80 + 2 * samples,
        chunks: finished_model(rate, channels, samples).chunks,
        format: Some(FormatModel { rate, channels, align: channels * 2 }),
        data: Some((80, 2 * samples)),
        table: Seq::empty(),
    }
}

spec fn after_ds64() -> ScanModel {
    ScanModel {
        position: 48,
        chunks: seq![ChunkModel { id: name('d', 's', '6', '4'), offset: 12, size: 28 }],
        format: None,
        data: None,
        table: Seq::empty(),
    }
}

spec fn after_format(rate: nat, channels: nat) -> ScanModel {
    ScanModel {
        position: 72,
        chunks: seq![
            ChunkModel { id: name('d', 's', '6', '4'), offset: 12, size: 28 },
            ChunkModel { id: name('f', 'm', 't', ' '), offset: 48, size: 16 },
        ],
        format: Some(FormatModel { rate, channels, align: channels * 2 }),
        data: None,
        table: Seq::empty(),
    }
}

proof fn names_differ()
    ensures
        name('R', 'I', 'F', 'F') != name('R', 'F', '6', '4'),
        name('d', 's', '6', '4') != name('d', 'a', 't', 'a'),
        name('f', 'm', 't', ' ') != name('d', 'a', 't', 'a'),
        name('f', 'm', 't', ' ') != name('d', 's', '6', '4'),
{
    assert(name('R', 'I', 'F', 'F')[1] != name('R', 'F', '6', '4')[1]);
    assert(name('d', 's', '6', '4')[1] != name('d', 'a', 't', 'a')[1]);
    assert(name('f', 'm', 't', ' ')[1] != name('d', 'a', 't', 'a')[1]);
    assert(name('f', 'm', 't', ' ')[1] != name('d', 's', '6', '4')[1]);
}

/// A chunk that is accepted takes a scan to the next one.
pub proof fn scan_goes_on(file: Seq<u8>, root: RootModel, scan: ScanModel, next: ScanModel)
    requires
        scan.position < file.len(),
        scan_step(file, root, scan) == Ok::<ScanModel, WavError>(next),
    ensures
        scan_rest(file, root, scan) == scan_rest(file, root, next),
{
}

proof fn export_root_is(file: Seq<u8>, rate: nat, channels: nat, n: nat, riff_size: nat)
    requires
        file.len() >= 80,
        has_export_fields(file, rate, channels, riff_size, 2 * n, 2 * n / (channels * 2)),
    ensures
        root_of(file) == Ok::<RootModel, WavError>(
            export_root(riff_size, 2 * n, 2 * n / (channels * 2)),
        ),
{
    names_differ();
    assert(root_of(file)->Ok_0.table =~= Seq::empty());
}

proof fn export_step_ds64(file: Seq<u8>, rate: nat, channels: nat, n: nat, riff_size: nat)
    requires
        file.len() >= 80,
        has_export_fields(file, rate, channels, riff_size, 2 * n, 2 * n / (channels * 2)),
    ensures
        ({
            let root = export_root(riff_size, 2 * n, 2 * n / (channels * 2));
            scan_step(file, root, scan_start(root)) == Ok::<ScanModel, WavError>(after_ds64())
        }),
{
    names_differ();
    let root = export_root(riff_size, 2 * n, 2 * n / (channels * 2));
    assert(scan_step(file, root, scan_start(root))->Ok_0 =~= after_ds64());
}

proof fn export_step_format(file: Seq<u8>, rate: nat, channels: nat, n: nat, riff_size: nat)
    requires
        block_align(rate, channels) is Ok,
        file.len() >= 80,
        has_export_fields(file, rate, channels, riff_size, 2 * n, 2 * n / (channels * 2)),
    ensures
        ({
            let root = export_root(riff_size, 2 * n, 2 * n / (channels * 2));
            scan_step(file, root, after_ds64()) == Ok::<ScanModel, WavError>(
                after_format(rate, channels),
            )
        }),
{
    names_differ();
    let root = export_root(riff_size, 2 * n, 2 * n / (channels * 2));
    assert(format_of(file, 56, 16) == Ok::<FormatModel, WavError>(
        FormatModel { rate, channels, align: channels * 2 },
    ));
    assert(scan_step(file, root, after_ds64())->Ok_0 =~= after_format(rate, channels));
}

proof fn export_step_samples(file: Seq<u8>, rate: nat, channels: nat, n: nat, riff_size: nat)
    requires
        80 + 2 * n <= file.len() <= u64::MAX,
        has_export_fields(file, rate, channels, riff_size, 2 * n, 2 * n / (channels * 2)),
    ensures
        ({
            let root = export_root(riff_size, 2 * n, 2 * n / (channels * 2));
            scan_step(file, root, after_format(rate, channels)) == Ok::<ScanModel, WavError>(
                after_samples(rate, channels, n),
            )
        }),
{
    names_differ();
    let root = export_root(riff_size, 2 * n, 2 * n / (channels * 2));
    assert(scan_step(file, root, after_format(rate, channels))->Ok_0 =~= after_samples(
        rate,
        channels,
        n,
    ));
}

/// A scan over a file with the fields of an export file comes to the end of the
/// samples.
proof fn export_scan(file: Seq<u8>, rate: nat, channels: nat, n: nat, riff_size: nat)
    requires
        block_align(rate, channels) is Ok,
        file.len() == 8 + riff_size,
        80 + 2 * n <= file.len() <= u64::MAX,
        has_export_fields(file, rate, channels, riff_size, 2 * n, 2 * n / (channels * 2)),
    ensures
        ({
            let root = export_root(riff_size, 2 * n, 2 * n / (channels * 2));
            &&& root_of(file) == Ok::<RootModel, WavError>(root)
            &&& scan_rest(file, root, scan_start(root)) == scan_rest(
                file,
                root,
                after_samples(rate, channels, n),
            )
        }),
{
    let root = export_root(riff_size, 2 * n, 2 * n / (channels * 2));
    export_root_is(file, rate, channels, n, riff_size);
    export_step_ds64(file, rate, channels, n, riff_size);
    export_step_format(file, rate, channels, n, riff_size);
    export_step_samples(file, rate, channels, n, riff_size);
    scan_goes_on(file, root, scan_start(root), after_ds64());
    scan_goes_on(file, root, after_ds64(), after_format(rate, channels));
    scan_goes_on(file, root, after_format(rate, channels), after_samples(rate, channels, n));
}

/// What a scan gives that went past the samples of an export file and over more
/// chunks that were accepted.
proof fn export_result(
    file: Seq<u8>,
    rate: nat,
    channels: nat,
    n: nat,
    riff_size: nat,
    scan: ScanModel,
)
    requires
        block_align(rate, channels) is Ok,
        n % channels == 0,
        80 + 2 * n <= file.len() <= u64::MAX,
        scan.format == after_samples(rate, channels, n).format,
        scan.data == after_samples(rate, channels, n).data,
    ensures
        scan_result(file, export_root(riff_size, 2 * n, 2 * n / (channels * 2)), scan) == Ok::<
            WavModel,
            WavError,
        >(
            WavModel {
                file_len: file.len(),
                chunks: scan.chunks,
                ..finished_model(rate, channels, n)
            },
        ),
{
    double_division(n, channels);
}

pub proof fn extended_export_len(rate: nat, channels: nat, samples: Seq<i16>, extra: Seq<u8>)
    ensures
        extended_export(rate, channels, samples, extra).len() == 80 + 2 * samples.len()
            + extra.len(),
        extended_export(rate, channels, samples, extra).skip(80int + 2 * samples.len()) == extra,
{
    let n = samples.len();
    pcm_len(samples);
    header_lens(rate, channels, 72 + 2 * n + extra.len(), 2 * n, 2 * n / (channels * 2));
    assert(extended_export(rate, channels, samples, extra).skip(80int + 2 * n) =~= extra);
}

/// An export file with more chunks behind its samples has the fields of an export
/// file.
proof fn extended_export_fields(rate: nat, channels: nat, samples: Seq<i16>, extra: Seq<u8>)
    requires
        rate <= u32::MAX,
        block_align(rate, channels) is Ok,
        DATA_OFFSET + 2 * samples.len() + extra.len() <= u64::MAX,
    ensures
        ({
            let file = extended_export(rate, channels, samples, extra);
            let n = samples.len();
            &&& file.len() == 80 + 2 * n + extra.len()
            &&& has_export_fields(
                file,
                rate,
                channels,
                72 + 2 * n + extra.len(),
                2 * n,
                2 * n / (channels * 2),
            )
        }),
{
    let n = samples.len();
    let frames = 2 * n / (channels * 2);
    let riff_size = 72 + 2 * n + extra.len();
    let file = extended_export(rate, channels, samples, extra);
    pcm_len(samples);
    assert(frames <= 2 * n) by (nonlinear_arith)
        requires
            frames == 2 * n / (channels * 2),
            channels > 0,
    ;
    let rest = pcm(samples) + extra;
    assert(file =~= export_header(rate, channels, riff_size, 2 * n, frames) + rest);
    export_fields(rate, channels, riff_size, 2 * n, frames, rest, file);
    extended_export_len(rate, channels, samples, extra);
}

/// A scan over an export file with more chunks behind its samples comes to the first
/// of them, and gives the rate, the channels and the frames of the file if it comes
/// to the end.
pub proof fn extended_export_scan(
    rate: nat,
    channels: nat,
    samples: Seq<i16>,
    extra: Seq<u8>,
    last: ScanModel,
)
    requires
        rate <= u32::MAX,
        block_align(rate, channels) is Ok,
        samples.len() % channels == 0,
        DATA_OFFSET + 2 * samples.len() + extra.len() <= u64::MAX,
        ({
            let file = extended_export(rate, channels, samples, extra);
            let n = samples.len();
            let root = export_root(72 + 2 * n + extra.len(), 2 * n, 2 * n / (channels * 2));
            &&& scan_rest(file, root, after_samples(rate, channels, n)) == Ok::<
                ScanModel,
                WavError,
            >(last)
            &&& last.format == after_samples(rate, channels, n).format
            &&& last.data == after_samples(rate, channels, n).data
        }),
    ensures
        ({
            let file = extended_export(rate, channels, samples, extra);
            &&& file.len() == 80 + 2 * samples.len() + extra.len()
            &&& inspection(file) == Ok::<WavModel, WavError>(
                WavModel {
                    file_len: file.len(),
                    chunks: last.chunks,
                    ..finished_model(rate, channels, samples.len())
                },
            )
        }),
{
    let n = samples.len();
    let riff_size = 72 + 2 * n + extra.len();
    let file = extended_export(rate, channels, samples, extra);
    let root = export_root(riff_size, 2 * n, 2 * n / (channels * 2));
    extended_export_fields(rate, channels, samples, extra);
    export_scan(file, rate, channels, n, riff_size);
    assert(scan_rest(file, root, scan_start(root)) == Ok::<ScanModel, WavError>(last));
    export_result(file, rate, channels, n, riff_size, last);
}

/// A file that the writer finished is accepted, and inspecting it gives back
/// the rate, the channels and the whole frames that were written.
pub proof fn finished_export_inspects(rate: nat, channels: nat, samples: Seq<i16>)
    requires
        rate <= u32::MAX,
        block_align(rate, channels) is Ok,
        samples.len() % channels == 0,
        DATA_OFFSET + 2 * samples.len() <= u64::MAX,
    ensures
        inspection(finished_export(rate, channels, samples)) == Ok::<WavModel, WavError>(
            finished_model(rate, channels, samples.len()),
        ),
{
    let n = samples.len();
    let none = Seq::<u8>::empty();
    let file = extended_export(rate, channels, samples, none);
    finalizing_states_lengths(rate, channels, samples);
    assert(finished_export(rate, channels, samples) =~= file);
    extended_export_len(rate, channels, samples, none);
    extended_export_scan(rate, channels, samples, none, after_samples(rate, channels, n));
    assert(inspection(file)->Ok_0 =~= finished_model(rate, channels, n));
}

/// The sample that an unsigned two-byte number spells.
pub open spec fn sample_of(bits: nat) -> i16 {
    if bits >= 0x8000 {
        (bits - 0x1_0000) as i16
    } else {
        bits as i16
    }
}

/// The samples in the first `2 * count` bytes of a sequence.
pub open spec fn decoded(bytes: Seq<u8>, count: nat) -> Seq<i16> {
    Seq::new(count, |i: int| sample_of(bytes::le_at(bytes, 2 * i, 2)))
}

/// Decoding the bytes of samples gives the samples.
pub proof fn pcm_decodes(samples: Seq<i16>)
    ensures
        pcm(samples).len() == 2 * samples.len(),
        decoded(pcm(samples), samples.len()) == samples,
    decreases samples.len(),
{
    pcm_len(samples);
    if samples.len() > 0 {
        let before = samples.drop_last();
        let n = before.len() as int;
        pcm_decodes(before);
        let bits = sample_bits(samples.last());
        bytes::radix_values();
        bytes::le_round_trip(bits, 2);
        let all = pcm(samples);
        assert forall|i: int| 0 <= i < samples.len() implies decoded(all, samples.len())[i]
            == samples[i] by {
            if i < n {
                assert(all.subrange(2 * i, 2 * i + 2) =~= pcm(before).subrange(2 * i, 2 * i + 2));
                assert(decoded(pcm(before), before.len())[i] == before[i]);
            } else {
                assert(all.subrange(2 * i, 2 * i + 2) =~= bytes::le_bytes(bits, 2));
            }
        }
        assert(decoded(all, samples.len()) =~= samples);
    } else {
        assert(decoded(pcm(samples), samples.len()) =~= samples);
    }
}

/// Counting bytes or counting samples gives the same frames.
pub proof fn frames_by_bytes(samples: nat, channels: nat)
    requires
        channels > 0,
    ensures
        (2 * samples) / (channels * 2) == samples / channels,
{
    double_division(samples, channels);
}

/// What is read from the data of an export file is what was written, whatever follows.
pub proof fn extended_export_decodes(
    rate: nat,
    channels: nat,
    samples: Seq<i16>,
    extra: Seq<u8>,
)
    ensures
        decoded(
            extended_export(rate, channels, samples, extra).skip(DATA_OFFSET as int),
            samples.len(),
        ) == samples,
{
    let n = samples.len();
    header_lens(rate, channels, 72 + 2 * n + extra.len(), 2 * n, 2 * n / (channels * 2));
    pcm_decodes(samples);
    let data = extended_export(rate, channels, samples, extra).skip(DATA_OFFSET as int);
    assert(data =~= pcm(samples) + extra);
    assert forall|i: int| 0 <= i < n implies decoded(data, n)[i] == samples[i] by {
        assert(data.subrange(2 * i, 2 * i + 2) =~= pcm(samples).subrange(2 * i, 2 * i + 2));
        assert(decoded(pcm(samples), n)[i] == samples[i]);
    }
    assert(decoded(data, n) =~= samples);
}

/// What is read from the data of a finished export file is what was written.
pub proof fn finished_export_reads_back(rate: nat, channels: nat, samples: Seq<i16>)
    ensures
        decoded(
            finished_export(rate, channels, samples).skip(DATA_OFFSET as int),
            samples.len(),
        ) == samples,
{
    finalizing_states_lengths(rate, channels, samples);
    header_lens(
        rate,
        channels,
        72 + 2 * samples.len(),
        2 * samples.len(),
        2 * samples.len() / (channels * 2),
    );
    pcm_decodes(samples);
    assert(finished_export(rate, channels, samples).skip(DATA_OFFSET as int) =~= pcm(samples));
}

/// Walks over the samples of an inspected sound file.
pub struct ExportWavReader {
    info: WavInfo,
    samples_read: u64,
}

impl ExportWavReader {
    /// What was inspected.
    pub closed spec fn model(&self) -> WavModel {
        self.info@
    }

    /// The samples before the position.
    pub closed spec fn position(&self) -> nat {
        self.samples_read as nat
    }

    pub open spec fn wf(&self) -> bool {
        &&& length_error(self.model(), self.model().file_len) is None
        &&& self.position() <= self.model().data_len / 2
    }

    /// A reader at the first frame, with the offset of that frame.
    pub fn open(info: WavInfo) -> (r: (Self, u64))
        requires
            length_error(info@, info@.file_len) is None,
        ensures
            r.0.wf(),
            r.0.model() == info@,
            r.0.position() == 0,
            r.1 == info.data_offset,
    {
        let offset: u64 = info.data_offset;
        (ExportWavReader { info, samples_read: 0 }, offset)
    }

    pub fn info(&self) -> (info: &WavInfo)
        ensures
            info@ == self.model(),
    {
        &self.info
    }

    /// How many of `capacity` samples are left to read.
    pub fn available(&self, capacity: usize) -> (count: usize)
        requires
            self.wf(),
        ensures
            count == vstd::math::min(
                self.model().data_len / 2 - self.position(),
                capacity as int,
            ),
    {
        let remaining: u64 = self.info.data_len / 2 - self.samples_read;
        if remaining < capacity as u64 {
            remaining as usize
        } else {
            capacity
        }
    }

    /// Decodes individual interleaved channel samples from the bytes at the
    /// position, stopping at the end of data.
    pub fn read_samples(&mut self, bytes: &[u8], capacity: usize) -> (r: Result<
        Vec<i16>,
        WavError,
    >)
        requires
            old(self).wf(),
        ensures
            final(self).wf(),
            final(self).model() == old(self).model(),
            ({
                let count = vstd::math::min(
                    old(self).model().data_len / 2 - old(self).position(),
                    capacity as int,
                ) as nat;
                match r {
                    Ok(samples) => {
                        &&& 2 * count <= bytes@.len()
                        &&& samples@ == decoded(bytes@, count)
                        &&& final(self).position() == old(self).position() + count
                    },
                    Err(e) => {
                        &&& 2 * count > bytes@.len()
                        &&& e == WavError::TruncatedSamples
                        &&& *final(self) == *old(self)
                    },
                }
            }),
    {
        let count: usize = self.available(capacity);
        let total: usize = bytes.len();
        if total / 2 < count {
            return Err(WavError::TruncatedSamples);
        }
        let mut out: Vec<i16> = Vec::new();
        let mut i: usize = 0;
        while i < count
            invariant
                i <= count,
                2 * count <= total == bytes@.len(),
                out@ == decoded(bytes@, i as nat),
            decreases count - i,
        {
            proof {
                bytes::radix_values();
            }
            let bits: u64 = bytes::read_le(bytes, 2 * i, 2);
            let sample: i16 = if bits >= 0x8000 {
                (bits as i32 - 0x1_0000) as i16
            } else {
                bits as i16
            };
            out.push(sample);
            i = i + 1;
            assert(out@ =~= decoded(bytes@, i as nat));
        }
        self.samples_read = self.samples_read + count as u64;
        Ok(out)
    }

    /// Moves to a frame and gives its offset.
    pub fn seek_frame(&mut self, frame: u64) -> (r: Result<u64, WavError>)
        requires
            old(self).wf(),
        ensures
            final(self).wf(),
            final(self).model() == old(self).model(),
            match r {
                Ok(offset) => {
                    &&& frame <= old(self).model().frames
                    &&& final(self).position() == frame * old(self).model().channels
                    &&& offset == old(self).model().data_offset + 2 * final(self).position()
                },
                Err(e) => {
                    &&& frame > old(self).model().frames
                    &&& e == WavError::SeekRange
                    &&& *final(self) == *old(self)
                },
            },
    {
        if frame > self.info.frames {
            return Err(WavError::SeekRange);
        }
        proof {
            let c = self.info.channels as int;
            let len = self.info.data_len as int;
            let f = frame as int;
            vstd::arithmetic::div_mod::lemma_fundamental_div_mod(len, c * 2);
            assert(2 * (f * c) <= len && f * c <= len / 2) by (nonlinear_arith)
                requires
                    0 <= f <= len / (c * 2),
                    c > 0,
                    len == (c * 2) * (len / (c * 2)) + len % (c * 2),
                    len % (c * 2) >= 0,
            ;
        }
        let sample: u64 = frame * self.info.channels as u64;
        self.samples_read = sample;
        Ok(self.info.data_offset + sample * 2)
    }
}

/// An accepted file has lengths that a reader can rely on.
pub proof fn inspected_length_is_valid(file: Seq<u8>)
    requires
        inspection(file) is Ok,
    ensures
        inspection(file)->Ok_0.file_len == file.len(),
        length_error(inspection(file)->Ok_0, file.len()) is None,
{
}

} // verus!
