use iamreader::audio::export_wav::{
    inspect, update_sizes, ExportWavReader, ExportWavWriter, Patch, WavChunk, WavError, WavInfo,
};

fn look(file: &[u8]) -> Result<WavInfo, WavError> {
    let read = |at: u64, n: usize| -> Option<Vec<u8>> {
        let start = at as usize;
        file.get(start..start + n).map(|part| part.to_vec())
    };
    inspect(file.len() as u64, &read)
}

fn apply(file: &mut Vec<u8>, patches: &[Patch]) {
    for patch in patches {
        let at = patch.at as usize;
        file[at..at + patch.bytes.len()].copy_from_slice(&patch.bytes);
    }
}

fn export(rate: u32, channels: u16, samples: &[i16]) -> Vec<u8> {
    let (mut writer, mut file) = ExportWavWriter::create(rate, channels).unwrap();
    for &sample in samples {
        writer.write_sample(sample, &mut file).unwrap();
    }
    let patches = writer.finalize().unwrap();
    apply(&mut file, &patches);
    file
}

fn chunk(id: &[u8; 4], contents: &[u8]) -> Vec<u8> {
    let mut out = id.to_vec();
    out.extend((contents.len() as u32).to_le_bytes());
    out.extend(contents);
    if contents.len() % 2 == 1 {
        out.push(0);
    }
    out
}

fn fmt_bytes(tag: u16, channels: u16, rate: u32, byte_rate: u32, align: u16, bits: u16) -> Vec<u8> {
    let mut out = Vec::new();
    out.extend(tag.to_le_bytes());
    out.extend(channels.to_le_bytes());
    out.extend(rate.to_le_bytes());
    out.extend(byte_rate.to_le_bytes());
    out.extend(align.to_le_bytes());
    out.extend(bits.to_le_bytes());
    out
}

fn pcm_format() -> Vec<u8> {
    chunk(b"fmt ", &fmt_bytes(1, 2, 8000, 32000, 4, 16))
}

fn riff(chunks: &[Vec<u8>]) -> Vec<u8> {
    let body: Vec<u8> = chunks.concat();
    let mut out = b"RIFF".to_vec();
    out.extend((body.len() as u32 + 4).to_le_bytes());
    out.extend(b"WAVE");
    out.extend(body);
    out
}

fn rf64(ds64: &[u8], chunks: &[Vec<u8>]) -> Vec<u8> {
    let mut out = b"RF64".to_vec();
    out.extend(u32::MAX.to_le_bytes());
    out.extend(b"WAVE");
    out.extend(chunk(b"ds64", ds64));
    out.extend(chunks.concat());
    let size = out.len() as u64 - 8;
    if ds64.len() >= 8 {
        out[20..28].copy_from_slice(&size.to_le_bytes());
    }
    out
}

fn ds64(data_len: u64, frames: u64, entries: u32) -> Vec<u8> {
    let mut out = vec![0; 8];
    out.extend(data_len.to_le_bytes());
    out.extend(frames.to_le_bytes());
    out.extend(entries.to_le_bytes());
    out
}

fn sentinel_data(contents: &[u8]) -> Vec<u8> {
    let mut out = b"data".to_vec();
    out.extend(u32::MAX.to_le_bytes());
    out.extend(contents);
    out
}

#[test]
fn a_finished_export_reads_back() {
    let samples = [0i16, 1, -1, i16::MAX, i16::MIN, 12345];
    let file = export(44100, 2, &samples);
    let info = look(&file).unwrap();
    assert_eq!((info.sample_rate, info.channels, info.frames), (44100, 2, 3));
    assert_eq!((info.data_offset, info.data_len), (80, 12));
    assert!(info.is_rf64);
    let ids: Vec<[u8; 4]> = info.chunks.iter().map(|c| c.id).collect();
    assert_eq!(ids, [*b"ds64", *b"fmt ", *b"data"]);
    let (mut reader, at) = ExportWavReader::open(info);
    assert_eq!(at, 80);
    assert_eq!(reader.available(4), 4);
    let first = reader.read_samples(&file[80..88], 4).unwrap();
    assert_eq!(first, &samples[..4]);
    assert_eq!(reader.available(4), 2);
    assert_eq!(reader.seek_frame(1), Ok(84));
    assert_eq!(reader.available(10), 4);
    let rest = reader.read_samples(&file[84..92], 10).unwrap();
    assert_eq!(rest, &samples[2..]);
    assert_eq!(reader.seek_frame(4), Err(WavError::SeekRange));
    assert_eq!(reader.info().channels, 2);
}

#[test]
fn an_export_agrees_with_the_layout_of_the_format() {
    let file = export(8000, 1, &[5]);
    assert_eq!(&file[0..4], b"RF64");
    assert_eq!(&file[4..8], &u32::MAX.to_le_bytes());
    assert_eq!(&file[8..16], b"WAVEds64");
    assert_eq!(&file[20..28], &(file.len() as u64 - 8).to_le_bytes());
    assert_eq!(&file[28..36], &2u64.to_le_bytes());
    assert_eq!(&file[36..44], &1u64.to_le_bytes());
    assert_eq!(&file[80..82], &5i16.to_le_bytes());
    assert_eq!(file.len(), 82);
}

#[test]
fn writers_refuse_formats_that_cannot_be_stated() {
    assert!(matches!(ExportWavWriter::create(0, 1), Err(WavError::RateAndChannels)));
    assert!(matches!(ExportWavWriter::create(1, 0), Err(WavError::RateAndChannels)));
    assert!(matches!(ExportWavWriter::create(1, 40000), Err(WavError::BlockAlignOverflow)));
    assert!(matches!(ExportWavWriter::create(u32::MAX, 2), Err(WavError::ByteRateOverflow)));
    let (mut writer, mut file) = ExportWavWriter::create(8000, 2).unwrap();
    writer.write_sample(1, &mut file).unwrap();
    assert!(matches!(writer.finalize(), Err(WavError::IncompleteFrames)));
}

#[test]
fn truncated_samples_are_refused() {
    let file = export(8000, 1, &[1, 2]);
    let (mut reader, _) = ExportWavReader::open(look(&file).unwrap());
    assert_eq!(
        reader.read_samples(&file[80..82], 2),
        Err(WavError::TruncatedSamples)
    );
}

#[test]
fn plain_riff_files_are_accepted() {
    let file = riff(&[
        chunk(b"JUNK", &[1, 2, 3]),
        pcm_format(),
        chunk(b"data", &[1, 0, 2, 0]),
        chunk(b"LIST", b"INFO"),
    ]);
    let info = look(&file).unwrap();
    assert!(!info.is_rf64);
    assert_eq!((info.frames, info.data_len, info.chunks.len()), (1, 4, 4));
    let mut extensible = fmt_bytes(0xfffe, 2, 8000, 32000, 4, 16);
    extensible.extend(22u16.to_le_bytes());
    extensible.extend(16u16.to_le_bytes());
    extensible.extend([0; 4]);
    extensible.extend([1, 0, 0, 0, 0, 0, 16, 0, 128, 0, 0, 170, 0, 56, 155, 113]);
    let file = riff(&[chunk(b"fmt ", &extensible), chunk(b"data", &[])]);
    assert_eq!(look(&file).unwrap().frames, 0);
}

#[test]
fn sentinel_chunks_take_their_size_from_the_table() {
    let mut head = ds64(4, 1, 1);
    head.extend(b"big ");
    head.extend(6u64.to_le_bytes());
    let mut big = b"big ".to_vec();
    big.extend(u32::MAX.to_le_bytes());
    big.extend([7; 6]);
    let file = rf64(&head, &[pcm_format(), sentinel_data(&[0; 4]), big]);
    let info = look(&file).unwrap();
    assert_eq!(info.chunks[3].size, 6);
    assert_eq!(info.chunks[2].size, 4);
}

#[test]
fn headers_that_break_a_rule_are_refused() {
    let data = chunk(b"data", &[0; 4]);
    let good = riff(&[pcm_format(), data.clone()]);
    assert_eq!(look(&good[..11]).unwrap_err(), WavError::TruncatedHeader);
    let mut bad = good.clone();
    bad[0] = b'X';
    assert_eq!(look(&bad).unwrap_err(), WavError::NotRiff);
    let mut bad = good.clone();
    bad[8] = b'X';
    assert_eq!(look(&bad).unwrap_err(), WavError::NotWave);
    let mut bad = good.clone();
    bad[4] += 1;
    assert_eq!(look(&bad).unwrap_err(), WavError::RiffLengthMismatch);
    let mut rf = export(8000, 2, &[1, 2]);
    rf[4] = 0;
    assert_eq!(look(&rf).unwrap_err(), WavError::RootSentinel);
    let mut rf = export(8000, 2, &[1, 2]);
    rf[12] = b'X';
    assert_eq!(look(&rf).unwrap_err(), WavError::Ds64First);
    assert_eq!(
        look(&rf64(&[0; 20], &[])).unwrap_err(),
        WavError::TruncatedDs64Payload
    );
    let mut rf = export(8000, 2, &[1, 2]);
    rf[16] = 200;
    assert_eq!(look(&rf).unwrap_err(), WavError::TruncatedDs64Chunk);
    assert_eq!(
        look(&rf64(&ds64(0, 0, 70_000), &[])).unwrap_err(),
        WavError::TooManyTableEntries
    );
    assert_eq!(
        look(&rf64(&ds64(0, 0, 1), &[])).unwrap_err(),
        WavError::TableExceedsChunk
    );
    let mut rf = export(8000, 2, &[1, 2]);
    rf[20..28].copy_from_slice(&u64::MAX.to_le_bytes());
    assert_eq!(look(&rf).unwrap_err(), WavError::RiffLengthOverflow);
}

#[test]
fn chunks_that_break_a_rule_are_refused() {
    let data = chunk(b"data", &[0; 4]);
    let tail = |bytes: &[u8]| riff(&[pcm_format(), data.clone(), bytes.to_vec()]);
    assert_eq!(look(&tail(b"abc")).unwrap_err(), WavError::TruncatedChunkHeader);
    let mut long = b"abcd".to_vec();
    long.extend(100u32.to_le_bytes());
    assert_eq!(look(&tail(&long)).unwrap_err(), WavError::ChunkBounds);
    assert_eq!(look(&tail(&pcm_format())).unwrap_err(), WavError::FmtChunk);
    assert_eq!(look(&tail(&data)).unwrap_err(), WavError::DataChunk);
    assert_eq!(look(&tail(&chunk(b"ds64", &[]))).unwrap_err(), WavError::UnexpectedDs64);
    assert_eq!(look(&riff(&[data.clone()])).unwrap_err(), WavError::DataChunk);
    assert_eq!(look(&riff(&[])).unwrap_err(), WavError::MissingFmt);
    assert_eq!(look(&riff(&[pcm_format()])).unwrap_err(), WavError::MissingData);
    assert_eq!(
        look(&riff(&[pcm_format(), chunk(b"data", &[0; 2])])).unwrap_err(),
        WavError::IncompleteFrames
    );
    assert_eq!(
        look(&rf64(&ds64(8, 1, 0), &[pcm_format(), chunk(b"data", &[0; 4])])).unwrap_err(),
        WavError::DataSize
    );
    assert_eq!(
        look(&rf64(&ds64(4, 9, 0), &[pcm_format(), sentinel_data(&[0; 4])])).unwrap_err(),
        WavError::SampleCount
    );
    let mut big = b"big ".to_vec();
    big.extend(u32::MAX.to_le_bytes());
    assert_eq!(
        look(&rf64(&ds64(4, 1, 0), &[pcm_format(), sentinel_data(&[0; 4]), big])).unwrap_err(),
        WavError::MissingTableSize
    );
    let mut many = vec![pcm_format(), data];
    for _ in 0..65_535 {
        many.push(chunk(b"JUNK", &[]));
    }
    assert_eq!(look(&riff(&many)).unwrap_err(), WavError::TooManyChunks);
}

#[test]
fn sizes_past_the_end_of_numbers_are_refused() {
    let mut head = ds64(4, 1, 1);
    head.extend(b"big ");
    head.extend(u64::MAX.to_le_bytes());
    let mut big = b"big ".to_vec();
    big.extend(u32::MAX.to_le_bytes());
    assert_eq!(
        look(&rf64(&head, &[pcm_format(), sentinel_data(&[0; 4]), big])).unwrap_err(),
        WavError::ChunkOffsetOverflow
    );
}

#[test]
fn formats_that_break_a_rule_are_refused() {
    let with = |format: Vec<u8>| {
        look(&riff(&[chunk(b"fmt ", &format), chunk(b"data", &[])])).unwrap_err()
    };
    assert_eq!(with(vec![0; 14]), WavError::FmtChunk);
    assert_eq!(with(fmt_bytes(1, 0, 8000, 0, 0, 16)), WavError::RateAndChannels);
    assert_eq!(with(fmt_bytes(1, 40000, 8000, 0, 0, 16)), WavError::BlockAlignOverflow);
    assert_eq!(with(fmt_bytes(1, 2, u32::MAX, 0, 0, 16)), WavError::ByteRateOverflow);
    assert_eq!(with(fmt_bytes(1, 2, 8000, 32000, 4, 24)), WavError::NotPcm16);
    assert_eq!(with(fmt_bytes(1, 2, 8000, 32000, 5, 16)), WavError::BlockAlign);
    assert_eq!(with(fmt_bytes(1, 2, 8000, 32001, 4, 16)), WavError::ByteRate);
    assert_eq!(with(fmt_bytes(3, 2, 8000, 32000, 4, 16)), WavError::NotPcm16);
    assert_eq!(
        with(fmt_bytes(0xfffe, 2, 8000, 32000, 4, 16)),
        WavError::TruncatedExtensible
    );
    let extended = |size: u16, bits: u16, first: u8| {
        let mut out = fmt_bytes(0xfffe, 2, 8000, 32000, 4, 16);
        out.extend(size.to_le_bytes());
        out.extend(bits.to_le_bytes());
        out.extend([0; 4]);
        out.extend([first, 0, 0, 0, 0, 0, 16, 0, 128, 0, 0, 170, 0, 56, 155, 113]);
        out
    };
    assert_eq!(with(extended(20, 16, 1)), WavError::ExtensibleSize);
    assert_eq!(with(extended(22, 12, 1)), WavError::ExtensibleBits);
    assert_eq!(with(extended(22, 16, 3)), WavError::ExtensibleFormat);
}

#[test]
fn new_lengths_are_checked() {
    let file = export(8000, 2, &[1, 2]);
    let info = look(&file).unwrap();
    assert_eq!(info.validate_file_len(84), Ok(()));
    assert_eq!(info.validate_file_len(83), Err(WavError::TruncatesData));
    assert!(matches!(update_sizes(&info, 90, 91), Err(WavError::PhysicalSize)));
    let changed = |f: &dyn Fn(&mut WavInfo)| {
        let mut other = look(&file).unwrap();
        f(&mut other);
        other.validate_file_len(100).unwrap_err()
    };
    assert_eq!(changed(&|i| i.data_offset = 7), WavError::DataOffset);
    assert_eq!(changed(&|i| i.data_len = 3), WavError::IncompleteFrames);
    assert_eq!(changed(&|i| i.frames = 9), WavError::FrameCount);
    assert_eq!(changed(&|i| i.ds64_offset = None), WavError::MissingDs64);
    assert_eq!(
        changed(&|i| i.ds64_offset = Some(u64::MAX)),
        WavError::Ds64OffsetOverflow
    );
    assert_eq!(changed(&|i| i.ds64_offset = Some(60)), WavError::Ds64Overlap);
    let mut plain = look(&riff(&[pcm_format(), chunk(b"data", &[0; 4])])).unwrap();
    assert_eq!(plain.validate_file_len(1 << 33), Err(WavError::RiffLimit));
    plain.chunks.push(WavChunk { id: *b"JUNK", offset: 0, size: 0 });
    assert_eq!(plain.validate_file_len(60), Ok(()));
}

#[test]
fn every_error_has_a_sentence() {
    assert_eq!(WavError::NotWave.message(), "Missing WAVE form type");
    assert_eq!(WavError::PcmLengthOverflow.message(), "PCM length overflow");
    assert_eq!(WavError::WavLengthOverflow.message(), "WAV length overflow");
    assert_eq!(WavError::HeaderOffsetOverflow.message(), "Chunk header offset overflow");
}
