use iamreader::audio::channels::{conversion, convert_channels, Conversion, ConversionError};
use iamreader::audio::decoding::{
    audio_format, format_for, full_scale, read_wav, wav_content, AudioFormat, WavContent, WavHeader,
};
use iamreader::audio::denoise::{
    check_model, find_model_path, model_parts, pad_reflect, transpose_bf_to_fb,
    transpose_fb_to_bf, window_count, N_BINS,
};
use iamreader::audio::export_wav::{inspect, ExportWavWriter, WavInfo};
use iamreader::audio::merging::{MergeError, StreamingWavMerge};
use iamreader::audio::mp3::{check_input, requantized, Mp3Stream};
use iamreader::audio::normalize_export::{
    check_opened, stream_block, whole_frames, Block, InPlaceBlocks, NormalizeError,
};
use iamreader::audio::recorder::{preferred_format, OfferedFormat};
use iamreader::audio::waveform::{
    check_bit_depth, get_cache_path, graph_size, load_waveform_cache, save_waveform_cache,
    PeakCollector, SourceFingerprint, WaveformError,
};
use iamreader::audio::waveform_loader::{WaveformLoader, WaveformSlot};

fn mean(part: &[f32]) -> f32 {
    part.iter().sum::<f32>() / 2.0
}

#[test]
fn channels_are_averaged_repeated_and_dropped() {
    assert_eq!(convert_channels(&[1.0f32, 3.0, 5.0, 7.0], 2, 1, &mean), [2.0, 6.0]);
    assert_eq!(convert_channels(&[1.0f32, 3.0, 5.0], 2, 1, &mean), [2.0, 2.5]);
    assert_eq!(convert_channels(&[1.0f32, 2.0], 1, 3, &mean), [1.0, 1.0, 1.0, 2.0, 2.0, 2.0]);
    assert_eq!(
        convert_channels(&[1.0f32, 2.0, 3.0, 4.0, 5.0, 6.0], 3, 2, &mean),
        [1.0, 2.0, 4.0, 5.0]
    );
    assert_eq!(convert_channels(&[1.0f32, 2.0], 2, 4, &mean), [1.0, 2.0, 2.0, 2.0]);
    assert_eq!(convert_channels(&[1.0f32, 2.0], 2, 2, &mean), [1.0, 2.0]);
    assert_eq!(convert_channels(&[1.0f32], 0, 0, &mean), [1.0]);
    assert!(convert_channels(&[1.0f32, 2.0], 2, 0, &mean).is_empty());
}

#[test]
fn conversions_are_checked_first() {
    assert_eq!(
        conversion(7, 0, 0, 0, 0),
        Ok(Conversion { resample: false, channels: false })
    );
    assert_eq!(conversion(4, 0, 2, 8000, 2), Err(ConversionError::Rates));
    assert_eq!(conversion(4, 8000, 0, 8000, 2), Err(ConversionError::Channels));
    assert_eq!(conversion(3, 8000, 2, 8000, 1), Err(ConversionError::Frames));
    assert_eq!(
        conversion(4, 8000, 2, 16000, 2),
        Ok(Conversion { resample: true, channels: false })
    );
    assert_eq!(ConversionError::Rates.message(), "Sample rates must be positive");
    assert_eq!(ConversionError::Channels.message(), "Channel counts must be positive");
    assert_eq!(
        ConversionError::Frames.message(),
        "Audio samples must contain complete frames"
    );
}

#[test]
fn readers_are_chosen_by_extension() {
    assert_eq!(audio_format("Intro.WAV"), Ok(AudioFormat::Wav));
    assert_eq!(audio_format("dir/music.Flac"), Ok(AudioFormat::Compressed));
    assert_eq!(
        audio_format("notes.TXT"),
        Err("Unsupported audio format: txt".to_string())
    );
    assert_eq!(audio_format("none"), Err("Unsupported audio format: ".to_string()));
    assert_eq!(format_for("m4a"), Ok(AudioFormat::Compressed));
    assert_eq!(format_for("WAV"), Err("Unsupported audio format: WAV".to_string()));
}

fn hound_wav(bits: u16, format: hound::SampleFormat) -> Vec<u8> {
    let spec = hound::WavSpec {
        channels: 2,
        sample_rate: 8000,
        bits_per_sample: bits,
        sample_format: format,
    };
    let mut bytes = std::io::Cursor::new(Vec::new());
    let mut writer = hound::WavWriter::new(&mut bytes, spec).unwrap();
    if format == hound::SampleFormat::Float {
        writer.write_sample(0.5f32).unwrap();
        writer.write_sample(-0.5f32).unwrap();
    } else {
        writer.write_sample(100i32).unwrap();
        writer.write_sample(-100i32).unwrap();
    }
    writer.finalize().unwrap();
    bytes.into_inner()
}

#[test]
fn wav_bytes_become_integers() {
    for (bits, scale) in [(8, 128), (16, 32768), (24, 8388608), (32, 2147483648u32)] {
        let data = hound_wav(bits, hound::SampleFormat::Int);
        match read_wav("a.wav", &data) {
            Ok(WavContent::Integers { header, samples, full_scale }) => {
                assert_eq!((header.sample_rate, header.channels), (8000, 2));
                assert_eq!(header.bits_per_sample, bits);
                assert_eq!(samples, [100, -100]);
                assert_eq!(full_scale, scale);
            }
            other => panic!("{:?}", other),
        }
    }
    let floats = hound_wav(32, hound::SampleFormat::Float);
    assert!(matches!(read_wav("a.wav", &floats), Ok(WavContent::Floats(h)) if h.floats));
    assert_eq!(
        read_wav("a.wav", b"noise").unwrap_err(),
        "Failed to open WAV from memory: a.wav"
    );
    let whole = hound_wav(16, hound::SampleFormat::Int);
    let cut = &whole[..whole.len() - 1];
    assert_eq!(
        read_wav("a.wav", cut).unwrap_err(),
        "Failed to read sample from: a.wav"
    );
}

#[test]
fn wav_content_follows_the_header() {
    let header = WavHeader { sample_rate: 8000, channels: 1, bits_per_sample: 12, floats: false };
    assert_eq!(
        wav_content("x", Some(header), Some(vec![1])).unwrap_err(),
        "Unsupported bits per sample: 12"
    );
    assert_eq!(full_scale(12), None);
    assert_eq!(full_scale(24), Some(8388608));
    let float = WavHeader { floats: true, ..header };
    assert!(matches!(wav_content("x", Some(float), None), Ok(WavContent::Floats(_))));
}

fn half(before: i32, sample: i32, at: usize, of: usize) -> i32 {
    (before * (of - at) as i32 + sample * at as i32) / of as i32
}

fn keep(sample: i32) -> i32 {
    sample
}

#[test]
fn segments_are_faded_into_one_another() {
    let mut merge: StreamingWavMerge<i32> = StreamingWavMerge::create(5, 8000, 2).unwrap();
    let mut out = Vec::new();
    assert_eq!(merge.append_samples(&[10, 20, 30, 40, 50, 60], &keep, &half, &mut out), Ok(6));
    assert_eq!(out, [10, 20]);
    assert_eq!(
        merge.append_samples(&[100, 200, 300, 400, 500, 600], &keep, &half, &mut out),
        Ok(6)
    );
    assert_eq!(out, [10, 20, 30, 40, (50 + 300) / 2, (60 + 400) / 2]);
    assert_eq!(merge.finish(), Ok(vec![500, 600]));
}

#[test]
fn short_and_empty_segments_shorten_the_fade() {
    let mut merge: StreamingWavMerge<i32> = StreamingWavMerge::create(4, 8000, 1).unwrap();
    let mut out = Vec::new();
    merge.append_samples(&[1, 2, 3, 4, 5, 6], &keep, &half, &mut out).unwrap();
    assert_eq!(out, [1, 2]);
    merge.append_samples(&[100, 200], &keep, &half, &mut out).unwrap();
    assert_eq!(out, [1, 2, 3, 4, 5, (6 + 200) / 2]);
    merge.append_samples(&[], &keep, &half, &mut out).unwrap();
    merge.append_samples(&[7], &keep, &half, &mut out).unwrap();
    assert_eq!(out.len(), 6);
    assert_eq!(merge.finish(), Ok(vec![7]));
}

#[test]
fn a_failed_merge_stays_failed() {
    assert!(matches!(
        StreamingWavMerge::<i32>::create(1, 0, 1),
        Err(MergeError::SampleRate)
    ));
    assert!(matches!(
        StreamingWavMerge::<i32>::create(1, 1, 0),
        Err(MergeError::Channels)
    ));
    let mut merge: StreamingWavMerge<i32> = StreamingWavMerge::create(0, 8000, 2).unwrap();
    let mut out = Vec::new();
    assert_eq!(
        merge.append_samples(&[1], &keep, &half, &mut out),
        Err(MergeError::Frames)
    );
    assert_eq!(
        merge.append_samples(&[1, 2], &keep, &half, &mut out),
        Err(MergeError::FailedAppend)
    );
    assert_eq!(merge.finish(), Err(MergeError::FailedFinish));
    let mut begun: StreamingWavMerge<i32> = StreamingWavMerge::create(0, 8000, 2).unwrap();
    begun.begin(2).unwrap();
    assert_eq!(begun.finish(), Err(MergeError::FailedFinish));
    assert_eq!(
        MergeError::Frames.message(),
        "Merge samples must contain complete audio frames"
    );
}

#[test]
fn blocks_of_a_merge_are_bounded() {
    let samples = vec![1i32; 20_000];
    let mut merge: StreamingWavMerge<i32> = StreamingWavMerge::create(10_000, 8000, 1).unwrap();
    merge.begin(samples.len()).unwrap();
    let mut sizes = Vec::new();
    for _ in 0..4 {
        let mut out = Vec::new();
        merge.append_block(&samples, &keep, &half, &mut out);
        sizes.push(out.len());
    }
    assert_eq!(sizes, [8192, 1808, 0, 0]);
    merge.end();
    assert_eq!(merge.finish().unwrap().len(), 10_000);
}

#[test]
fn mp3_samples_are_scaled_as_in_single_precision() {
    for sample in i16::MIN..=i16::MAX {
        let scaled = f32::from(sample) / 32768.0;
        let expected = (scaled * 32767.0).round().max(-32768.0).min(32767.0) as i16;
        assert_eq!(requantized(sample), expected);
    }
}

#[test]
fn mp3_blocks_are_encoded() {
    assert!(check_input(44100, 2, 44100, 2).is_ok());
    assert!(check_input(44100, 1, 44100, 1).is_ok());
    for (rate, channels) in [(8000, 2), (44100, 1)] {
        assert_eq!(
            check_input(rate, channels, 44100, 2),
            Err("MP3 input must have the requested sample rate and one or two channels")
        );
    }
    assert!(check_input(44100, 3, 44100, 3).is_err());
    let mut stream = Mp3Stream::create(44100, 1).unwrap();
    let mut bytes = Vec::new();
    let tone: Vec<i16> = (0..44100).map(|i| ((i % 100) * 300 - 15000) as i16).collect();
    for part in tone.chunks(1152) {
        bytes.extend(stream.push(part).unwrap());
    }
    bytes.extend(stream.finish().unwrap());
    // One second at 192 kilobits is 24000 bytes, and a little more for the last frames.
    assert!(bytes.len() > 20_000 && bytes.len() < 30_000);
    assert!(bytes.windows(2).any(|w| w[0] == 0xff && w[1] & 0xe0 == 0xe0));
    let mut silent = Mp3Stream::create(44100, 2).unwrap();
    assert!(silent.push(&[]).unwrap().is_empty());
    assert!(silent.finish().is_ok());
}

fn export_info(samples: &[i16], rate: u32, channels: u16) -> WavInfo {
    let (mut writer, mut file) = ExportWavWriter::create(rate, channels).unwrap();
    for &sample in samples {
        writer.write_sample(sample, &mut file).unwrap();
    }
    for patch in writer.finalize().unwrap() {
        let at = patch.at as usize;
        file[at..at + patch.bytes.len()].copy_from_slice(&patch.bytes);
    }
    let read = |at: u64, n: usize| -> Option<Vec<u8>> {
        file.get(at as usize..at as usize + n).map(|p| p.to_vec())
    };
    inspect(file.len() as u64, &read).unwrap()
}

#[test]
fn normalization_goes_through_every_sample_once() {
    let info = export_info(&vec![0; 70_002], 8000, 2);
    let mut blocks = InPlaceBlocks::new(&info, 8000, 2, info.file_len, 1).unwrap();
    let mut found = Vec::new();
    while let Some(block) = blocks.next() {
        found.push(block);
    }
    assert_eq!(
        found,
        [
            Block { offset: 80, bytes: 65536 },
            Block { offset: 80 + 65536, bytes: 65536 },
            Block { offset: 80 + 131072, bytes: 140004 - 131072 },
        ]
    );
    assert_eq!(blocks.finish(info.file_len + 1), Err(NormalizeError::LengthChanged));
    let mut plain = export_info(&[1, 2], 8000, 2);
    let refused = |info: &WavInfo, rate, channels, len, links| {
        InPlaceBlocks::new(info, rate, channels, len, links).err()
    };
    assert_eq!(refused(&plain, 8001, 2, 84, 1), Some(NormalizeError::Format));
    assert_eq!(refused(&plain, 8000, 1, 84, 1), Some(NormalizeError::Format));
    assert_eq!(refused(&plain, 8000, 2, 85, 1), Some(NormalizeError::Changed));
    assert_eq!(refused(&plain, 8000, 2, 84, 2), Some(NormalizeError::Changed));
    plain.is_rf64 = false;
    assert_eq!(refused(&plain, 8000, 2, 84, 1), Some(NormalizeError::NotRf64));
    assert_eq!(check_opened(false, true, 1), Err(NormalizeError::Gain));
    assert_eq!(check_opened(true, false, 1), Err(NormalizeError::NotAFile));
    assert_eq!(check_opened(true, true, 2), Err(NormalizeError::Shared));
    assert_eq!(check_opened(true, true, 1), Ok(()));
    assert_eq!(
        NormalizeError::Shared.message(),
        "In-place normalization requires an unshared private export file"
    );
}

#[test]
fn blocks_hold_whole_frames() {
    assert_eq!(whole_frames(65536, 4), 65536);
    assert_eq!(whole_frames(65536, 6), 65532);
    assert_eq!(whole_frames(3, 10), 10);
    assert_eq!(stream_block(2304, 2), Ok(2304));
    assert_eq!(stream_block(0, 2), Err("Streaming chunk size must be positive"));
}

#[test]
fn the_preferred_recording_format_is_found() {
    let offered = |channels, min_rate, max_rate, floats| OfferedFormat {
        channels,
        min_rate,
        max_rate,
        floats,
    };
    let list = [
        offered(1, 8000, 96000, true),
        offered(2, 48000, 96000, true),
        offered(2, 8000, 48000, false),
        offered(2, 44100, 44100, true),
        offered(2, 8000, 48000, true),
    ];
    assert_eq!(preferred_format(&list), Some(3));
    assert_eq!(preferred_format(&list[..3]), None);
}

#[test]
fn models_are_looked_for_in_their_directory() {
    assert_eq!(
        find_model_path("/opt/models", true, true),
        Ok("/opt/models/denoise.onnx".to_string())
    );
    assert_eq!(
        find_model_path("/opt/models", false, true),
        Err("models dir not found: \"/opt/models\"".to_string())
    );
    assert_eq!(
        find_model_path("/opt/models", true, false),
        Err("denoise model not found: \"/opt/models/denoise.onnx\"".to_string())
    );
    assert_eq!(check_model(3, 3), Ok(()));
    assert_eq!(
        check_model(3, 2),
        Err("Resemble denoiser expects 3 inputs and 3 outputs, got 3 and 2".to_string())
    );
}

#[test]
fn recordings_go_through_the_model_in_parts() {
    assert_eq!(model_parts(0), [(0, 0)]);
    assert_eq!(model_parts(1_323_000), [(0, 1_323_000)]);
    assert_eq!(
        model_parts(1_323_001),
        [(0, 1_323_000), (1_323_000, 1_323_001)]
    );
    assert_eq!(window_count(0), 1);
    assert_eq!(window_count(1680), 1);
    assert_eq!(window_count(2100), 2);
}

#[test]
fn signals_are_mirrored_at_their_ends() {
    assert_eq!(pad_reflect(&[1, 2, 3], 2, 2), [2, 1, 1, 2, 3, 3, 2]);
    assert_eq!(pad_reflect(&[1, 2], 4, 3), [2, 2, 2, 1, 1, 2, 2, 1, 1]);
}

#[test]
fn tables_turn_back() {
    let frames = 3;
    let table: Vec<u32> = (0..(N_BINS * frames) as u32).collect();
    let turned = transpose_fb_to_bf(&table, frames);
    assert_eq!(turned[0..4], [0, 841, 1682, 1]);
    assert_eq!(turned[5], 1683);
    assert_eq!(transpose_bf_to_fb(&turned, frames), table);
}

#[test]
fn cached_graphs_read_back_for_the_same_source() {
    let source = SourceFingerprint { size: 1000, modified_ns: -5 };
    let peaks = [0.5f32.to_bits(), 0.0f32.to_bits(), 1.0f32.to_bits()];
    let file = save_waveform_cache(source, 400, &peaks);
    assert_eq!(load_waveform_cache(&file, source, 400, 3), Some(peaks.to_vec()));
    assert_eq!(load_waveform_cache(&file, source, 401, 3), None);
    assert_eq!(load_waveform_cache(&file, source, 400, 4), None);
    let other = SourceFingerprint { size: 1001, modified_ns: -5 };
    assert_eq!(load_waveform_cache(&file, other, 400, 3), None);
    let touched = SourceFingerprint { size: 1000, modified_ns: -4 };
    assert_eq!(load_waveform_cache(&file, touched, 400, 3), None);
    assert_eq!(load_waveform_cache(&file[1..], source, 400, 3), None);
    let broken = save_waveform_cache(source, 400, &[f32::NAN.to_bits()]);
    assert_eq!(load_waveform_cache(&broken, source, 400, 1), None);
    assert_eq!(get_cache_path("/b/000001.wav"), "/b/__cache__/000001.wc");
}

#[test]
fn peaks_are_those_of_the_first_channel() {
    assert_eq!(graph_size(2, 8, 10), Ok((4, 4)));
    assert_eq!(graph_size(2, 8, 2), Ok((4, 2)));
    assert_eq!(graph_size(0, 8, 2), Err(WaveformError::NoChannels));
    assert_eq!(graph_size(3, 8, 2), Err(WaveformError::IncompleteFrames));
    assert_eq!(check_bit_depth(16), Ok(()));
    assert_eq!(check_bit_depth(12), Err(WaveformError::BitDepth(12)));
    let mut peaks = PeakCollector::new(2, 4, 2);
    for value in [0.1f32, -0.7, 0.2, 0.3, 0.0, 0.4, -0.9, 0.5] {
        peaks.push(value.to_bits()).unwrap();
    }
    let found: Vec<f32> = peaks.finish().into_iter().map(f32::from_bits).collect();
    assert_eq!(found, [0.2, 0.9]);
    let mut bad = PeakCollector::new(1, 1, 1);
    assert_eq!(bad.push(f32::INFINITY.to_bits()), Err(WaveformError::NotFinite));
    let mut full = PeakCollector::new(1, 1, 1);
    full.push(0).unwrap();
    assert_eq!(full.push(0), Err(WaveformError::TooManyFrames));
}

#[test]
fn only_the_newest_graph_request_counts() {
    let mut loader = WaveformLoader::new();
    assert!(loader.request(WaveformSlot::Current, "a".to_string()));
    assert!(!loader.request(WaveformSlot::Current, "a".to_string()));
    let (first, _) = loader.take_pending();
    let first = first.unwrap();
    assert!(loader.request(WaveformSlot::Current, "b".to_string()));
    assert!(!loader.settle(&first, false));
    let (second, previous) = loader.take_pending();
    assert!(previous.is_none());
    let second = second.unwrap();
    assert!(second.generation > first.generation);
    assert!(loader.settle(&second, false));
    loader.clear(WaveformSlot::Current);
    assert!(!loader.settle(&second, false));
}

#[test]
fn a_segment_tells_how_far_it_is() {
    let mut merge: StreamingWavMerge<i32> = StreamingWavMerge::create(1, 8000, 1).unwrap();
    let mut out = Vec::new();
    merge.append_samples(&[1, 2, 3], &keep, &half, &mut out).unwrap();
    assert_eq!(out, [1, 2]);
    merge.begin(3).unwrap();
    assert_eq!((merge.total(), merge.position(), merge.done()), (3, 0, 0));
    let samples = [5, 6, 7];
    let mut seen = 0;
    while merge.position() < merge.total() {
        merge.append_block(&samples, &keep, &half, &mut out);
        assert!(merge.done() >= seen);
        seen = merge.done();
    }
    assert_eq!(merge.done(), 3);
    merge.end();
    assert_eq!(out, [1, 2, 3, 6]);
    assert_eq!(merge.finish(), Ok(vec![7]));
}

#[test]
fn samples_below_a_block_only_wait() {
    let mut stream = Mp3Stream::create(44100, 2).unwrap();
    assert!(stream.push(&[100; 2302]).unwrap().is_empty());
    let mut given = stream.push(&[100; 2304 * 4]).unwrap().len();
    assert!(given > 0);
    given += stream.finish().unwrap().len();
    assert!(given > 1000);
    let mut mono = Mp3Stream::create(22050, 1).unwrap();
    assert!(mono.push(&[100; 1151]).unwrap().is_empty());
    assert!(mono.push(&[100; 11520]).is_ok());
}

#[test]
fn a_whole_merge_makes_a_readable_file() {
    let mut merge: StreamingWavMerge<i32> = StreamingWavMerge::create(5, 8000, 2).unwrap();
    let mut out = Vec::new();
    // A fade of four samples: the second overlaps by four, the third by two.
    for len in [10, 6, 2] {
        let segment: Vec<i32> = (0..len).collect();
        assert_eq!(merge.append_samples(&segment, &keep, &half, &mut out), Ok(len as usize));
    }
    out.extend(merge.finish().unwrap());
    assert_eq!(out.len(), 10 + 6 + 2 - 4 - 2);
    let pcm: Vec<i16> = out.iter().map(|&s| s as i16).collect();
    let info = export_info(&pcm, 8000, 2);
    assert_eq!((info.data_len, info.frames), (24, 6));
}

#[test]
fn every_append_after_a_refusal_is_refused() {
    let mut merge: StreamingWavMerge<i32> = StreamingWavMerge::create(2, 8000, 2).unwrap();
    let mut out = Vec::new();
    merge.append_samples(&[1, 2], &keep, &half, &mut out).unwrap();
    assert!(merge.append_samples(&[3], &keep, &half, &mut out).is_err());
    for _ in 0..3 {
        assert_eq!(
            merge.append_samples(&[3, 4], &keep, &half, &mut out),
            Err(MergeError::FailedAppend)
        );
    }
    assert!(merge.finish().is_err());
}
