use iamreader::audio::export_wav::{inspect, ExportWavWriter, WavError, WavInfo};
use iamreader::project::compile_progress::{
    CompileProgress, Operation, ProgressError, ProgressUnit,
};
use iamreader::project::compiler::{
    begin_compile_ui, begin_publishing, chapter_marks, check_asset, check_compile_cancel,
    check_output, check_source, end_compile_ui, export_steps, output_file_name, output_format,
    recording_share, recording_words, section_done_words, section_ranges, set_compile_ui,
    step_share, step_words, ExportEnd, ExportStep, OutputFormat, PreflightError,
};
use iamreader::project::export_workspace::{
    check_cancel, check_prepared, check_stage, choose_publication, published, Destination,
    PreparedEntry, Publication, PublishError, PublishedExport, StageError, StagedSource,
};
use iamreader::project::marker_map::MarkerMap;
use iamreader::project::metadata::{
    apply_fields, chapter_fields, cover_mime, credit_fields, read_tag, tagged, write_audio_tags,
    TagError, TagField, TextField,
};
use iamreader::project::project::{MarkerSettings, Meta, ProjectFile};
use iamreader::project::wav_metadata::{
    append_chunk, check_fit, find_tags, plan_metadata, prepare, MetadataError, MetadataPlan,
};
use iamreader::ui::ui::UIState;
use id3::TagLike;

fn fragment(markers: &[&str], title: &str) -> ProjectFile {
    ProjectFile {
        path: "a".to_string(),
        title: title.to_string(),
        author: String::new(),
        year: String::new(),
        hint: String::new(),
        markers: markers.iter().map(|m| m.to_string()).collect(),
        size: 0,
        duration_ms: 0,
    }
}

fn known(title: &str) -> MarkerMap {
    let mut map = MarkerMap::new();
    let mut settings = MarkerSettings::default();
    settings.section = true;
    settings.title = title.to_string();
    map.insert("s".to_string(), settings);
    map
}

#[test]
fn sections_split_a_book() {
    let map = known("Part");
    let files = [
        fragment(&["s"], ""),
        fragment(&[], ""),
        fragment(&["s"], ""),
        fragment(&["x"], ""),
    ];
    assert_eq!(section_ranges(&files, &map, true), [(0, 2), (2, 4)]);
    assert_eq!(section_ranges(&files, &map, false), [(0, 4)]);
    assert_eq!(section_ranges(&files[1..], &map, true), [(0, 1), (1, 3)]);
    assert!(section_ranges(&[], &map, true).is_empty());
}

#[test]
fn chapters_stand_where_their_segments_begin() {
    let map = known("Part");
    let files = [fragment(&["s"], ""), fragment(&["s", "s"], ""), fragment(&["x"], "")];
    let marks = chapter_marks(&files, &map, &vec![100, 6, 50], 11, 2).unwrap();
    let part = |at| ("Part".to_string(), at);
    assert_eq!(marks, [part(0), part(94), part(94)]);
    assert_eq!(chapter_marks(&files[..1], &map, &vec![0], 0, 1), Some(vec![part(0)]));
}

#[test]
fn steps_depend_on_the_settings() {
    assert_eq!(
        export_steps("mp3", true),
        [ExportStep::Analyze, ExportStep::Normalize, ExportStep::Encode, ExportStep::Metadata]
    );
    assert_eq!(export_steps("wav", false), [ExportStep::Metadata]);
    assert_eq!(ExportStep::Analyze.label(), "Analyze level");
    assert_eq!(step_words(1, 3, ExportStep::Analyze), "Section 2/3 · Analyze level");
    assert_eq!(recording_words(0, 1, 4, 9), "Section 1/1 · Recording 5/9");
    assert_eq!(section_done_words(0, 2), "section 1/2 done");
    assert_eq!(output_file_name(0, true), "00001.mp3");
    assert_eq!(output_file_name(99_999, false), "100000.wav");
}

#[test]
fn shares_add_up_to_the_whole() {
    let share = recording_share(0, 0, 0, 4);
    assert_eq!((share.part, share.whole), (0, 16));
    let third = recording_share(1, 2, 1, 4);
    assert_eq!((third.part, third.whole), (11, 16));
    let last = step_share(2, 4, 2, 2, 4);
    assert_eq!(last.part, last.whole);
}

#[test]
fn outputs_and_inputs_are_checked() {
    assert_eq!(
        output_format("mp3", 8000, 1).unwrap(),
        OutputFormat { sample_rate: 44100, channels: 2, mp3: true }
    );
    assert_eq!(
        output_format("wav", 8000, 1).unwrap(),
        OutputFormat { sample_rate: 8000, channels: 1, mp3: false }
    );
    let text = |e: PreflightError| e.text();
    assert_eq!(
        text(output_format("ogg", 1, 1).unwrap_err()),
        "Unsupported export format: ogg"
    );
    assert!(check_source("a", Some("/b/a.wav"), "/b/export").is_ok());
    assert_eq!(
        text(check_source("/b/a", None, "/b/export").unwrap_err()),
        "Source recording is missing: \"/b/a\""
    );
    assert_eq!(
        text(check_source("x", Some("/b/export/a.wav"), "/b/export").unwrap_err()),
        "Source recording is inside the managed export directory: \"/b/export/a.wav\""
    );
    assert!(check_asset(None, "/b/export").is_ok());
    assert_eq!(
        text(check_asset(Some("/b/export/c.png"), "/b/export").unwrap_err()),
        "Export input asset is inside the managed export directory: \"/b/export/c.png\""
    );
    assert!(check_output("/t/a", "/t/b", false).is_ok());
    assert_eq!(
        text(check_output("/t/a", "/t//a", false).unwrap_err()),
        "Private input and output must differ"
    );
    assert_eq!(
        text(check_output("/t/a", "/t/b", true).unwrap_err()),
        "Staged destination already exists: /t/b"
    );
    assert_eq!(text(PreflightError::NoRecordings), "No recordings to compile");
    assert_eq!(
        text(PreflightError::NotRf64),
        "Export must use RF64, not ordinary RIFF WAV"
    );
}

#[test]
fn the_window_follows_an_export() {
    let mut state = UIState::default();
    begin_compile_ui(&mut state, false);
    assert!(state.is_compiling);
    assert_eq!(state.compile_stage, "Preparing…");
    set_compile_ui(&mut state, 2, "markers");
    assert_eq!(
        state.dialog_compile_stages_text,
        "1. prepare ✓\n2. denoise ✓\n3. process markers → markers\n4. normalize; write  "
    );
    assert!(check_compile_cancel(Some(false), &state).is_ok());
    assert!(check_compile_cancel(Some(true), &state).is_err());
    assert!(check_cancel(None).is_ok());
    assert!(check_cancel(Some(true)).is_err());
    assert!(begin_publishing(&mut state, false).is_ok());
    assert!(state.compile_publishing);
    let report = PublishedExport { path: "/b/export".to_string(), warnings: vec!["w".to_string()] };
    end_compile_ui(&mut state, &ExportEnd::Published(report), 77);
    assert_eq!(state.compile_stage, "Done: /b/export (with warnings)");
    assert_eq!(state.error_message, "Export was published, but: w");
    let mut cancelled = UIState::default();
    begin_compile_ui(&mut cancelled, true);
    assert_eq!(cancelled.compile_stage, "Cancelling…");
    assert!(check_compile_cancel(None, &cancelled).is_err());
    assert!(begin_publishing(&mut cancelled, false).is_err());
    end_compile_ui(&mut cancelled, &ExportEnd::Cancelled, 78);
    assert_eq!(cancelled.compile_stage, "Cancelled; previous export unchanged");
    end_compile_ui(&mut cancelled, &ExportEnd::Failed("why".to_string()), 79);
    assert_eq!(cancelled.compile_stage, "Error: why");
    assert_eq!(
        cancelled.error_message,
        "Compilation failed; previous export unchanged: why"
    );
}

fn audio_operation() -> Operation {
    Operation {
        label: "Section 2/3 · Analyze level".to_string(),
        range_ok: true,
        unit: ProgressUnit::Audio { sample_rate: 48000, channels: 2 },
    }
}

#[test]
fn progress_is_shown_ten_times_a_second() {
    let mut state = UIState::default();
    begin_compile_ui(&mut state, false);
    let hour = 3600 * 48000 * 2;
    let mut progress = CompileProgress::new(audio_operation(), 0);
    let shown = progress.report(&mut state, hour / 4, hour, false, false, 0).unwrap().unwrap();
    assert!(!shown.complete);
    assert_eq!(
        state.compile_stage,
        "Section 2/3 · Analyze level: 25% · 00:15:00 / 01:00:00"
    );
    assert!(progress.report(&mut state, hour / 2, hour, false, false, 99).unwrap().is_none());
    assert!(progress.report(&mut state, hour / 2, hour, false, false, 100).unwrap().is_some());
    assert!(progress.report(&mut state, hour, hour, false, false, 101).unwrap().unwrap().complete);
    assert!(progress.finish(&mut state, false, false, 102).unwrap().is_some());
}

#[test]
fn progress_ends_with_a_cancellation_or_an_error() {
    let mut state = UIState::default();
    begin_compile_ui(&mut state, false);
    let mut progress = CompileProgress::new(audio_operation(), 0);
    assert_eq!(
        progress.report(&mut state, 0, 0, true, false, 0).unwrap_err(),
        ProgressError::Cancelled
    );
    assert!(state.compile_cancel_requested);
    assert_eq!(state.compile_stage, "Cancelling…");
    let fail = |operation: Operation, done, total| {
        let mut state = UIState::default();
        begin_compile_ui(&mut state, false);
        CompileProgress::new(operation, 0)
            .report(&mut state, done, total, false, false, 0)
            .unwrap_err()
    };
    assert_eq!(fail(audio_operation(), 2, 1), ProgressError::ExceedsTotal);
    let wide = Operation { range_ok: false, ..audio_operation() };
    assert_eq!(fail(wide, 1, 1), ProgressError::Range);
    let mute = Operation {
        unit: ProgressUnit::Audio { sample_rate: 0, channels: 2 },
        ..audio_operation()
    };
    assert_eq!(fail(mute, 1, 1), ProgressError::AudioFormat);
    assert_eq!(ProgressError::ExceedsTotal.message(), "Operation progress exceeds its total");
    let mut bytes = UIState::default();
    begin_compile_ui(&mut bytes, false);
    let copy = Operation { label: "Copy".to_string(), range_ok: true, unit: ProgressUnit::Bytes };
    let mut progress = CompileProgress::new(copy, 0);
    progress.report(&mut bytes, 1048576, 3145728, false, false, 0).unwrap();
    assert_eq!(bytes.compile_stage, "Copy: 33% · 1.0 MiB / 3.0 MiB");
    let mut unknown = UIState::default();
    begin_compile_ui(&mut unknown, false);
    let mut progress = CompileProgress::new(audio_operation(), 0);
    progress.report(&mut unknown, 0, 0, false, false, 0).unwrap();
    assert_eq!(unknown.compile_stage, "Section 2/3 · Analyze level: working…");
}

#[test]
fn prepared_exports_are_checked_before_publication() {
    let entry = |path: &str, is_file| PreparedEntry { path: path.to_string(), is_file };
    let check = |cancelled, expected, destination, entries: Vec<PreparedEntry>| {
        check_prepared(cancelled, expected, destination, "/b/export", &entries)
    };
    assert!(check(false, 1, Destination::Missing, vec![entry("a", true)]).is_ok());
    let text = |r: Result<(), PublishError>| r.unwrap_err().text();
    assert_eq!(
        text(check(true, 1, Destination::Missing, vec![])),
        "Compilation cancelled"
    );
    assert_eq!(
        text(check(false, 0, Destination::Missing, vec![])),
        "Expected export output count must be positive"
    );
    assert_eq!(
        text(check(false, 1, Destination::Other, vec![])),
        "Export destination must be a real directory, not a file or symlink: /b/export"
    );
    assert_eq!(
        text(check(false, 1, Destination::Directory, vec![entry("a", false)])),
        "Prepared export must contain only regular files: a"
    );
    assert_eq!(text(check(false, 1, Destination::Missing, vec![])), "Prepared export is empty");
    assert_eq!(
        text(check(false, 2, Destination::Missing, vec![entry("a", true)])),
        "Prepared export file count does not match the complete book: expected 2, found 1"
    );
    assert!(matches!(
        choose_publication(false, Destination::Directory, "/b/export"),
        Ok(Publication::Exchange)
    ));
    assert!(matches!(
        choose_publication(false, Destination::Missing, "/b/export"),
        Ok(Publication::Create)
    ));
    assert!(choose_publication(true, Destination::Missing, "/b/export").is_err());
    let report = published("/b/export".to_string(), None, None, Some("busy".to_string()));
    assert_eq!(report.warnings, ["Export was published, but cleanup failed: busy"]);
    let stage = |source, destination, is_file, links| {
        check_stage(source, destination, StagedSource { is_file, links })
    };
    assert_eq!(stage("/a", "/b", true, 1), Ok(()));
    assert_eq!(stage("/a", "/a", true, 1), Err(StageError::SamePath));
    assert_eq!(stage("/a", "/b", false, 1), Err(StageError::NotRegular));
    assert_eq!(stage("/a", "/b", true, 2), Err(StageError::Shared));
}

fn export(samples: &[i16]) -> Vec<u8> {
    let (mut writer, mut file) = ExportWavWriter::create(8000, 2).unwrap();
    for &sample in samples {
        writer.write_sample(sample, &mut file).unwrap();
    }
    for patch in writer.finalize().unwrap() {
        let at = patch.at as usize;
        file[at..at + patch.bytes.len()].copy_from_slice(&patch.bytes);
    }
    file
}

fn look(file: &[u8]) -> Result<WavInfo, WavError> {
    let read = |at: u64, n: usize| -> Option<Vec<u8>> {
        file.get(at as usize..at as usize + n).map(|p| p.to_vec())
    };
    inspect(file.len() as u64, &read)
}

fn plan(file: &[u8], tags: &[u8], markers: &[(String, u64)]) -> Result<MetadataPlan, MetadataError> {
    let read = |at: u64, n: usize| -> Option<Vec<u8>> {
        file.get(at as usize..at as usize + n).map(|p| p.to_vec())
    };
    plan_metadata(&look(file).unwrap(), &read, tags, markers)
}

fn with_tags(file: &[u8], tags: &[u8], markers: &[(String, u64)]) -> Vec<u8> {
    let plan = plan(file, tags, markers).unwrap();
    let mut out = file[..plan.append_at as usize].to_vec();
    out.extend(&plan.chunks);
    assert_eq!(out.len() as u64, plan.new_len);
    for patch in &plan.patches {
        let at = patch.at as usize;
        out[at..at + patch.bytes.len()].copy_from_slice(&patch.bytes);
    }
    out
}

fn mark(title: &str, at: u64) -> (String, u64) {
    (title.to_string(), at)
}

#[test]
fn samples_survive_tags() {
    let file = export(&[1, 2, 3, 4]);
    let once = with_tags(&file, b"TAG", &[mark("Глава", 2)]);
    assert_eq!(once[80..88], file[80..88]);
    let info = look(&once).unwrap();
    assert_eq!((info.frames, info.sample_rate, info.channels), (2, 8000, 2));
    let ids: Vec<[u8; 4]> = info.chunks.iter().map(|c| c.id).collect();
    assert_eq!(ids, [*b"ds64", *b"fmt ", *b"data", *b"id3 ", *b"cue ", *b"LIST"]);
    assert_eq!(find_tags(&info), Some(3));
    let twice = with_tags(&once, b"OTHER", &[]);
    assert_eq!(look(&twice).unwrap().chunks.len(), 4);
    assert_eq!(&twice[88..92], b"id3 ");
    assert_eq!(twice[80..88], file[80..88]);
}

#[test]
fn tags_in_the_middle_become_filler() {
    let mut file = with_tags(&export(&[1, 2]), b"TAG!", &[]);
    let mut extra = b"keep".to_vec();
    extra.extend(2u32.to_le_bytes());
    extra.extend([5, 6]);
    file.extend(&extra);
    let size = file.len() as u64 - 8;
    file[20..28].copy_from_slice(&size.to_le_bytes());
    let again = with_tags(&file, b"NEW", &[mark("x", 0)]);
    let ids: Vec<[u8; 4]> = look(&again).unwrap().chunks.iter().map(|c| c.id).collect();
    assert_eq!(
        ids,
        [*b"ds64", *b"fmt ", *b"data", *b"JUNK", *b"keep", *b"id3 ", *b"cue ", *b"LIST"]
    );
}

#[test]
fn tables_of_contents_have_one_form() {
    let narrow = prepare(b"", &[mark("a", 4)], 2).unwrap();
    let mut expected = b"id3 \0\0\0\0cue ".to_vec();
    expected.extend(28u32.to_le_bytes());
    expected.extend(1u32.to_le_bytes());
    expected.extend(1u32.to_le_bytes());
    expected.extend(2u32.to_le_bytes());
    expected.extend(b"data\0\0\0\0\0\0\0\0");
    expected.extend(2u32.to_le_bytes());
    expected.extend(b"LIST");
    expected.extend(18u32.to_le_bytes());
    expected.extend(b"adtllabl");
    expected.extend(6u32.to_le_bytes());
    expected.extend(1u32.to_le_bytes());
    expected.extend(b"a\0");
    assert_eq!(narrow, expected);
    let far = (u32::MAX as u64 + 1) * 2;
    let long = "x".repeat(256);
    let wide = prepare(b"", &[mark("a", 0), mark(&long, far)], 2).unwrap();
    assert!(!wide.windows(4).any(|w| w == b"cue "));
    let at = wide.windows(4).position(|w| w == b"r64m").unwrap();
    assert_eq!(&wide[at + 4..at + 8], &640u32.to_le_bytes());
    let first = &wide[at + 8..at + 328];
    let second = &wide[at + 328..at + 648];
    assert_eq!(&first[..4], &0x11u32.to_le_bytes());
    assert_eq!(first[28], b'a');
    assert_eq!(&second[..4], &0x19u32.to_le_bytes());
    assert_eq!(&second[4..12], &(u32::MAX as u64 + 1).to_le_bytes());
    assert_eq!(&second[284..288], &2u32.to_le_bytes());
    assert_eq!(prepare(b"", &[mark("a\0", 0)], 2), Err(MetadataError::MarkerTitle));
    let mut chunk = Vec::new();
    append_chunk(&mut chunk, b"abcd", &[1, 2, 3]).unwrap();
    assert_eq!(chunk, b"abcd\x03\0\0\0\x01\x02\x03\0");
}

#[test]
fn tags_must_fit_their_file() {
    let info = look(&export(&[1, 2, 3, 4])).unwrap();
    let fit = |rate, channels, at| check_fit(&info, rate, channels, &[mark("m", at)]);
    assert_eq!(fit(8000, 2, 4), Ok(()));
    assert_eq!(fit(8001, 2, 0), Err(MetadataError::SampleRate));
    assert_eq!(fit(8000, 0, 0), Err(MetadataError::Channels));
    assert_eq!(fit(8000, 2, 1), Err(MetadataError::MarkerAlignment));
    assert_eq!(fit(8000, 2, 6), Err(MetadataError::MarkerPosition));
    assert_eq!(MetadataError::SampleRate.message(), "WAV sample rate mismatch");
    assert_eq!(
        MetadataError::Wav(WavError::RiffLimit).message(),
        WavError::RiffLimit.message()
    );
    let mut lists = look(&with_tags(&export(&[1, 2]), b"T", &[mark("m", 0)])).unwrap();
    lists.file_len = 90;
    let nothing = |_: u64, _: usize| -> Option<Vec<u8>> { None };
    assert!(matches!(
        plan_metadata(&lists, &nothing, b"T", &[]),
        Err(MetadataError::Unreadable)
    ));
    lists.chunks.clear();
    lists.file_len = u64::MAX;
    assert!(matches!(
        plan_metadata(&lists, &nothing, b"T", &[]),
        Err(MetadataError::Overflow)
    ));
    lists.file_len = 0;
    assert!(matches!(
        plan_metadata(&lists, &nothing, b"T", &[]),
        Err(MetadataError::Wav(WavError::TruncatesData))
    ));
}

fn meta() -> Meta {
    Meta {
        title: "Book".to_string(),
        author: "Author".to_string(),
        year: "1999".to_string(),
        hint: String::new(),
        reader: "Reader".to_string(),
    }
}

#[test]
fn tags_name_the_newest_section() {
    let mut section = fragment(&["s"], "Chapter 2");
    section.year = "x".to_string();
    let files = [fragment(&["s"], "Chapter 1"), section, fragment(&[], "Not a section")];
    let mut tag = id3::Tag::new();
    tag.set_title("Old");
    tag.set_text("TLEN", "5");
    let cover = Some(("/b/cover.png".to_string(), vec![1, 2, 3]));
    write_audio_tags(
        &mut tag,
        &meta(),
        &files,
        &known("Part"),
        2024,
        "1.2",
        cover,
        &[mark("Глава", 44100 * 2 * 2 + 1)],
        44100,
        2,
    )
    .unwrap();
    assert_eq!(tag.title(), Some("Chapter 2"));
    assert_eq!(tag.artist(), Some("Author"));
    assert_eq!(tag.album(), Some("Book"));
    assert_eq!(tag.album_artist(), Some("Reader"));
    assert_eq!(tag.genre(), Some("Audiobook"));
    assert_eq!(tag.date_released(), None);
    assert_eq!(tag.date_recorded().unwrap().year, 2024);
    let text = |id: &str| tag.get(id).unwrap().content().text().unwrap().to_string();
    assert_eq!(text("TCOM"), "Reader");
    assert_eq!(text("TSSE"), "iamreader 1.2");
    assert_eq!(text("TLEN"), "5");
    let picture = tag.pictures().next().unwrap();
    assert_eq!(picture.mime_type, "image/png");
    assert_eq!(picture.picture_type, id3::frame::PictureType::CoverFront);
    assert_eq!(picture.data, [1, 2, 3]);
    let chapter = tag.extended_texts().next().unwrap();
    assert_eq!(chapter.description, "CHAP:ch01");
    assert_eq!(chapter.value, "CHAP|ch01|2000|Глава");
    assert_eq!(tag.frames().filter(|f| f.id() == "TIT2").count(), 1);
    assert_eq!(tag.frames().next().unwrap().id(), "TLEN");
}

#[test]
fn fields_are_written_in_order() {
    let fields = credit_fields(&meta(), &[], &MarkerMap::new(), 7, "v");
    let mut tag = id3::Tag::new();
    apply_fields(&mut tag, fields);
    let ids: Vec<&str> = tag.frames().map(|f| f.id()).collect();
    assert_eq!(
        ids,
        ["TIT2", "TPE1", "TDRL", "TDRC", "TCOM", "TPE2", "TALB", "TCON", "TSSE"]
    );
    assert_eq!(tag.get("TDRC").unwrap().content().text(), Some("0007"));
    assert_eq!(tag.get("TDRL").unwrap().content().text(), Some("1999"));
    apply_fields(
        &mut tag,
        vec![
            TagField::Recorded(-5),
            TagField::Text(TextField::Title, "New".to_string()),
            TagField::Extended { description: "d".to_string(), value: "1".to_string() },
            TagField::Extended { description: "d".to_string(), value: "2".to_string() },
            TagField::Extended { description: "e".to_string(), value: "3".to_string() },
            TagField::Cover { mime: "image/png".to_string(), data: vec![1] },
            TagField::Cover { mime: "image/jpeg".to_string(), data: vec![2] },
        ],
    );
    assert_eq!(tag.get("TDRC").unwrap().content().text(), Some("-005"));
    assert_eq!(tag.title(), Some("New"));
    let texts: Vec<&str> = tag.extended_texts().map(|t| t.value.as_str()).collect();
    assert_eq!(texts, ["2", "3"]);
    assert_eq!(tag.pictures().count(), 1);
    assert_eq!(tag.frames().last().unwrap().id(), "APIC");
}

#[test]
fn chapters_need_a_rate() {
    assert_eq!(
        chapter_fields(&[mark("a", 0)], 0, 2).unwrap_err(),
        "MP3 chapter timestamps require a nonzero sample rate and channel count"
    );
    assert!(chapter_fields(&[], 0, 0).unwrap().is_empty());
    assert_eq!(cover_mime("a.jpeg"), "image/jpeg");
    assert_eq!(cover_mime("a.PNG"), "image/jpeg");
    assert_eq!(cover_mime("a"), "image/jpeg");
    let mut tag = id3::Tag::new();
    let refused = write_audio_tags(
        &mut tag,
        &meta(),
        &[],
        &MarkerMap::new(),
        1,
        "v",
        None,
        &[mark("a", 0)],
        44100,
        0,
    );
    assert!(refused.is_err());
    assert_eq!(tag.frames().count(), 0);
}

#[test]
fn a_tag_is_read_changed_and_written() {
    let none: &[(String, u64)] = &[];
    let fresh = tagged(
        &[],
        &meta(),
        &[],
        &MarkerMap::new(),
        2024,
        "1",
        Some(("c.png".to_string(), vec![9; 40])),
        none,
        44100,
        2,
    )
    .unwrap();
    assert_eq!(&fresh[..3], b"ID3");
    let read = read_tag(&fresh).unwrap();
    assert_eq!(read.title(), Some("Book"));
    assert_eq!(read.pictures().next().unwrap().data, vec![9; 40]);
    let mut other = meta();
    other.title = "Other".to_string();
    other.reader = String::new();
    let again = tagged(
        &fresh, &other, &[], &MarkerMap::new(), 2025, "1", None, none, 44100, 2,
    )
    .unwrap();
    let read = read_tag(&again).unwrap();
    assert_eq!(read.title(), Some("Other"));
    // What is not written anew stays.
    assert_eq!(read.get("TCOM").unwrap().content().text(), Some("Reader"));
    assert_eq!(read.pictures().count(), 1);
    assert_eq!(read_tag(b"no tag").unwrap().frames().count(), 0);
}

#[test]
fn tags_that_cannot_be_written_are_refused() {
    let nothing = MarkerMap::new();
    let unplaced = tagged(
        &[], &meta(), &[], &nothing, 1, "v", None, &[mark("a", 0)], 0, 2,
    );
    assert_eq!(
        unplaced.unwrap_err().text(),
        "MP3 chapter timestamps require a nonzero sample rate and channel count"
    );
    let none: &[(String, u64)] = &[];
    let cover = Some(("c.png".to_string(), vec![0; 0x1000_0000]));
    let large = tagged(&[], &meta(), &[], &nothing, 1, "v", cover, none, 44100, 2);
    assert!(matches!(large, Err(TagError::TooLarge)));
}

#[test]
fn frames_within_frames_are_not_read() {
    let none: &[(String, u64)] = &[];
    for name in [b"CHAP", b"CTOC", b"MLLT"] {
        let mut data = b"ID3\x04\0\0\0\0\0\x0a".to_vec();
        data.extend_from_slice(name);
        data.extend_from_slice(&[0; 6]);
        assert!(read_tag(&data).is_none());
        let refused = tagged(
            &data, &meta(), &[], &MarkerMap::new(), 1, "v", None, none, 44100, 2,
        );
        assert!(matches!(refused, Err(TagError::Unreadable)));
    }
    assert!(read_tag(b"CHA").is_some());
}

#[test]
fn a_large_cover_is_replaced_by_a_small_one() {
    let none: &[(String, u64)] = &[];
    let write = |data: &[u8], size: usize| {
        let cover = Some(("c.png".to_string(), vec![200; size]));
        tagged(data, &meta(), &[], &MarkerMap::new(), 1, "v", cover, none, 44100, 2).unwrap()
    };
    let large = write(&[], 30_000_000);
    assert!(large.len() > 30_000_000);
    let again = write(&large, 29_000_000);
    assert!(again.len() > 29_000_000 && again.len() < 30_000_000);
    assert!(write(&again, 10).len() < 1_000);
}

#[test]
fn a_tag_in_another_encoding_is_kept() {
    let mut old = id3::Tag::new();
    old.add_frame(
        id3::Frame::from(id3::frame::ExtendedText {
            description: "d".to_string(),
            value: "v".to_string(),
        })
        .set_encoding(Some(id3::Encoding::UTF16)),
    );
    let mut data = Vec::new();
    old.write_to(&mut data, id3::Version::Id3v24).unwrap();
    let none: &[(String, u64)] = &[];
    let bytes = tagged(&data, &meta(), &[], &MarkerMap::new(), 1, "v", None, none, 44100, 2);
    let read = read_tag(&bytes.unwrap()).unwrap();
    assert_eq!(read.extended_texts().next().unwrap().value, "v");
    assert_eq!(read.title(), Some("Book"));
}
