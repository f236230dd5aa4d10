use iamreader::project::project::{KeyBindings, ProjectFile};
use iamreader::ui::ui::FileInfo;
use iamreader::utils::bytes::{put_le, read_le, same_bytes};
use iamreader::utils::fifo::{parse_line, FifoHandler};
use iamreader::utils::format::{
    current_and_prev_file_hints, format_duration, format_markers_with_ordinals_batch,
    format_mebibytes, format_size, reverse_and_reindex_file_list, truncate_text_to_start_end,
};
use iamreader::utils::indexes::{find_section_ui_index, orig_to_ui_index, ui_to_orig_index};
use iamreader::utils::inference::thread_budget;
use iamreader::utils::keyboard::{key_action, normalize_key_for_layout, Action, KeyboardHandler};
use iamreader::utils::logger::{Level, StdoutLogger};
use iamreader::utils::name_map::NameMap;
use iamreader::utils::parse::{parse_optional_string, parse_reduction, parse_repeat};
use iamreader::utils::paths::{
    extension, file_name, join, parent, resolve_project_file, same_path, stored_recording_path,
    PathError,
};
use iamreader::utils::stats::{calculate_sizes, calculate_total_duration, duration_of_first};
use iamreader::utils::text;
use iamreader::utils::transcription::{hint_of, join_ends, join_parts, segments};

fn fragment(hint: &str, markers: &[&str], size: u64, duration_ms: u64) -> ProjectFile {
    ProjectFile {
        path: "chunks/000001.wav".to_string(),
        title: String::new(),
        author: String::new(),
        year: String::new(),
        hint: hint.to_string(),
        markers: markers.iter().map(|m| m.to_string()).collect(),
        size,
        duration_ms,
    }
}

#[test]
fn durations_show_hours_when_asked_or_needed() {
    assert_eq!(format_duration(0, false), "00:00");
    assert_eq!(format_duration(61_999, false), "01:01");
    assert_eq!(format_duration(3_600_000, false), "01:00:00");
    assert_eq!(format_duration(0, true), "00:00:00");
    assert_eq!(format_duration(360_000_000, false), "100:00:00");
}

fn float_size(bytes: u64) -> String {
    let units = ["B", "KB", "MB", "GB"];
    let mut size = bytes as f64;
    let mut unit = 0;
    while size >= 1024.0 && unit < 3 {
        size /= 1024.0;
        unit += 1;
    }
    format!("{:.1} {}", size, units[unit])
}

#[test]
fn sizes_agree_with_floating_point() {
    assert_eq!(format_size(0), "0.0 B");
    assert_eq!(format_size(1023), "1023.0 B");
    assert_eq!(format_size(1536), "1.5 KB");
    assert_eq!(format_size(1048576), "1.0 MB");
    let mut n: u64 = 1;
    for i in 0..4000u64 {
        n = n.wrapping_mul(6364136223846793005).wrapping_add(1442695040888963407);
        let bytes = n >> (i % 64);
        assert_eq!(format_size(bytes), float_size(bytes));
    }
    for bytes in 0..3000u64 {
        assert_eq!(format_size(bytes), float_size(bytes));
        assert_eq!(format_size(bytes * 1024 + 512), float_size(bytes * 1024 + 512));
    }
    assert_eq!(format_size(u64::MAX), float_size(u64::MAX));
    for shift in 0..64 {
        let bytes = 1u64 << shift;
        assert_eq!(format_size(bytes - 1), float_size(bytes - 1));
    }
}

#[test]
fn mebibytes_agree_with_floating_point() {
    for bytes in [0u64, 1, 52428, 52429, 1048576, 157286400, 5_000_000_000, u64::MAX] {
        let expected = format!("{:.1} MiB", bytes as f64 / 1024.0 / 1024.0);
        assert_eq!(format!("{}", format_mebibytes(bytes)), expected);
    }
}

#[test]
fn reversing_a_list_numbers_it_from_the_end() {
    let mut rows = Vec::new();
    for name in ["a", "b", "c"] {
        let mut row = FileInfo::default();
        row.name = name.to_string();
        rows.push(row);
    }
    let reversed = reverse_and_reindex_file_list(rows);
    let names: Vec<&str> = reversed.iter().map(|r| r.name.as_str()).collect();
    let numbers: Vec<i32> = reversed.iter().map(|r| r.index).collect();
    assert_eq!(names, ["c", "b", "a"]);
    assert_eq!(numbers, [3, 2, 1]);
}

#[test]
fn long_texts_keep_their_start_and_end() {
    assert_eq!(
        truncate_text_to_start_end("short", 10),
        ("short".to_string(), String::new())
    );
    assert_eq!(
        truncate_text_to_start_end("abcdefghijkl", 8),
        ("abcde...".to_string(), String::new())
    );
    assert_eq!(
        truncate_text_to_start_end("абвгдежзийклмнопрст", 12),
        ("абв".to_string(), "опрст".chars().skip(1).collect::<String>())
    );
    assert_eq!(
        truncate_text_to_start_end("abcd", 2),
        ("...".to_string(), String::new())
    );
}

#[test]
fn hints_of_the_selection_and_the_one_before() {
    let files = [fragment("first", &[], 0, 0), fragment("second", &[], 0, 0)];
    let s = |t: &str| t.to_string();
    assert_eq!(
        current_and_prev_file_hints(&files, Some(1), 20),
        (s("second"), s(""), s("first"), s(""))
    );
    assert_eq!(
        current_and_prev_file_hints(&files, Some(0), 20),
        (s("first"), s(""), s(""), s(""))
    );
    assert_eq!(
        current_and_prev_file_hints(&files, None, 20),
        (s(""), s(""), s(""), s(""))
    );
    assert_eq!(
        current_and_prev_file_hints(&files, Some(2), 20),
        (s(""), s(""), s("second"), s(""))
    );
}

#[test]
fn markers_are_numbered_through_the_book() {
    let files = [
        fragment("", &["c", "m"], 0, 0),
        fragment("", &[], 0, 0),
        fragment("", &["c"], 0, 0),
        fragment("", &["m", "c"], 0, 0),
    ];
    assert_eq!(
        format_markers_with_ordinals_batch(&files),
        ["c1 m1", "", "c2", "m2 c3"]
    );
}

#[test]
fn list_places_run_the_other_way() {
    assert_eq!(orig_to_ui_index(0, 3), 2);
    assert_eq!(orig_to_ui_index(2, 3), 0);
    assert_eq!(orig_to_ui_index(3, 3), -1);
    assert_eq!(ui_to_orig_index(0, 3), Some(2));
    assert_eq!(ui_to_orig_index(3, 3), None);
    assert_eq!(ui_to_orig_index(-1, 3), None);
    for orig in 0..7 {
        assert_eq!(ui_to_orig_index(orig_to_ui_index(orig, 7), 7), Some(orig));
    }
}

#[test]
fn sections_are_searched_in_both_directions() {
    let has = |k: usize| k == 1 || k == 4;
    assert_eq!(find_section_ui_index(6, 2, true, &has), Some(1));
    assert_eq!(find_section_ui_index(6, 2, false, &has), Some(4));
    assert_eq!(find_section_ui_index(6, 1, true, &has), None);
    assert_eq!(find_section_ui_index(6, 4, false, &has), None);
}

#[test]
fn model_threads_stay_within_bounds() {
    assert_eq!(thread_budget(0), 1);
    assert_eq!(thread_budget(1), 1);
    assert_eq!(thread_budget(2), 1);
    assert_eq!(thread_budget(3), 2);
    assert_eq!(thread_budget(64), 2);
}

#[test]
fn fifo_lines_become_commands() {
    assert_eq!(parse_line(" record "), Some(Action::Record { duration_secs: None }));
    assert_eq!(parse_line("R"), Some(Action::Record { duration_secs: None }));
    assert_eq!(
        parse_line("Record: 15 "),
        Some(Action::Record { duration_secs: Some(15) })
    );
    assert_eq!(
        parse_line("record:x"),
        Some(Action::Record { duration_secs: None })
    );
    assert_eq!(parse_line("goto"), Some(Action::Goto { index: Some(-1), play: false }));
    assert_eq!(parse_line("GOTO 4 p"), Some(Action::Goto { index: Some(4), play: true }));
    assert_eq!(parse_line("goto x play"), Some(Action::Goto { index: None, play: true }));
    assert_eq!(
        parse_line("m_add 2 C m"),
        Some(Action::AddMarkers { file_index: 2, markers: vec!["C".to_string(), "m".to_string()] })
    );
    assert_eq!(parse_line("m_add 2"), None);
    assert_eq!(parse_line("m_add x c"), None);
    assert_eq!(
        parse_line("m_del -1 c"),
        Some(Action::RemoveMarkers { file_index: -1, markers: vec!["c".to_string()] })
    );
    assert_eq!(
        parse_line("m_set 3"),
        Some(Action::SetMarkers { file_index: 3, markers: vec![] })
    );
    assert_eq!(parse_line("trans 7"), Some(Action::Transcribe { file_index: 7 }));
    assert_eq!(parse_line("trans"), None);
    assert_eq!(parse_line("EXIT"), Some(Action::Shutdown));
    assert_eq!(parse_line("ok"), Some(Action::Accept));
    assert_eq!(parse_line("next_sect"), Some(Action::NextSect));
    assert_eq!(parse_line("u"), Some(Action::ModeUpdate));
    assert_eq!(parse_line(""), None);
    assert_eq!(parse_line("unknown"), None);
}

#[test]
fn fifo_hands_commands_out_in_order() {
    let mut fifo = FifoHandler::new();
    assert!(matches!(fifo.try_recv(), Ok(None)));
    assert!(fifo.accept_line("play"));
    assert!(!fifo.accept_line("nonsense"));
    assert!(fifo.accept_line("stop"));
    fifo.disconnect();
    assert!(matches!(fifo.try_recv(), Ok(Some(Action::Play))));
    assert!(matches!(fifo.try_recv(), Ok(Some(Action::Stop))));
    assert!(fifo.try_recv().is_err());
}

#[test]
fn keys_give_commands_in_either_layout() {
    let keys = KeyBindings::default();
    assert_eq!(key_action(&keys, "r", false), Action::Record { duration_secs: None });
    assert_eq!(key_action(&keys, "к", false), Action::Record { duration_secs: None });
    assert_eq!(key_action(&keys, "r", true), Action::Nothing);
    assert_eq!(key_action(&keys, "e", false), Action::Accept);
    assert_eq!(normalize_key_for_layout("ю"), ">");
    let handler = KeyboardHandler::new(KeyBindings::default());
    assert_eq!(handler.action("d", false), Action::Stop);
}

#[test]
fn messages_are_printed_by_level_and_source() {
    let logger = StdoutLogger::new(Level::Debug);
    assert!(logger.enabled(Level::Error, "iamreader"));
    assert!(logger.enabled(Level::Debug, "iamreader"));
    assert!(!logger.enabled(Level::Trace, "iamreader"));
    assert!(!logger.enabled(Level::Debug, "winit::event"));
    assert!(!logger.enabled(Level::Debug, "tracing::span"));
    assert!(logger.enabled(Level::Info, "winit::event"));
    let quiet = StdoutLogger::new(Level::Warn);
    assert!(!quiet.enabled(Level::Info, "iamreader"));
    assert_eq!(
        quiet.line("now", Level::Warn, "iamreader", "low space"),
        "[now] WARN iamreader: low space"
    );
}

#[test]
fn names_are_found_and_replaced() {
    let mut map: NameMap<u32> = NameMap::new();
    map.insert("a".to_string(), 1);
    map.insert("b".to_string(), 2);
    map.insert("a".to_string(), 3);
    assert_eq!(map.len(), 2);
    assert_eq!(map.get("a"), Some(&3));
    assert_eq!(map.get("c"), None);
    assert_eq!(map.name_at(1).as_str(), "b");
    assert_eq!(*map.value_at(1), 2);
}

#[test]
fn form_fields_are_read() {
    assert_eq!(parse_reduction(" 20 "), Some(20));
    assert_eq!(parse_reduction("256"), None);
    assert_eq!(parse_reduction(""), None);
    assert_eq!(parse_repeat(" -3"), Some(-3));
    assert_eq!(parse_repeat("many"), Some(1));
    assert_eq!(parse_optional_string("  "), None);
    assert_eq!(parse_optional_string(" x "), Some("x".to_string()));
}

#[test]
fn paths_are_told_apart_by_their_parts() {
    assert!(same_path("/a//b/./c", "/a/b/c/"));
    assert!(!same_path("a/b", "/a/b"));
    assert!(!same_path("./a", "a"));
    assert_eq!(join("/book", "chunks/1.wav"), "/book/chunks/1.wav");
    assert_eq!(join("/book/", "x"), "/book/x");
    assert_eq!(join("", "x"), "x");
    assert_eq!(resolve_project_file("/book", "/other/x.wav"), "/other/x.wav");
    assert_eq!(file_name("/a/b.wav"), Some("b.wav".to_string()));
    assert_eq!(file_name("/a/.."), None);
    assert_eq!(file_name("/"), None);
    assert_eq!(parent("/a/b"), Some("/a".to_string()));
    assert_eq!(parent("a"), Some(String::new()));
    assert_eq!(parent("/"), None);
    assert_eq!(extension("x.tar.gz"), Some("gz".to_string()));
    assert_eq!(extension(".hidden"), None);
    assert_eq!(extension("plain"), None);
    assert_eq!(extension("dot."), Some(String::new()));
}

#[test]
fn stored_paths_resolve_back() {
    for (dir, recording) in [
        ("/book", "/book/chunks/000001.wav"),
        ("/book/", "/book//chunks/./000001.wav"),
        ("", "chunks/1.wav"),
        (".", "./chunks/1.wav"),
        ("/", "/1.wav"),
    ] {
        let stored = stored_recording_path(dir, recording).unwrap();
        assert!(same_path(&resolve_project_file(dir, &stored), recording));
    }
    assert_eq!(
        stored_recording_path("/book", "/book/chunks/1.wav"),
        Ok("chunks/1.wav".to_string())
    );
    assert_eq!(
        stored_recording_path("/book", "/bookshelf/1.wav"),
        Err(PathError::OutsideProject)
    );
    assert_eq!(
        PathError::OutsideProject.message(),
        "Recording is outside the project directory"
    );
}

#[test]
fn paths_agree_with_the_standard_library() {
    let samples = [
        "/a/b", "a/b", "/", "", ".", "..", "a/.", "./a", "a//b/", "/a/../b", "x.wav", ".x", "a.b.c",
        "dir/.hid", "dir/a.", "//a", "a/./b",
    ];
    for a in samples {
        let path = std::path::Path::new(a);
        assert_eq!(
            extension(a),
            path.extension().map(|e| e.to_str().unwrap().to_string())
        );
        assert_eq!(
            file_name(a),
            path.file_name().map(|e| e.to_str().unwrap().to_string())
        );
        assert_eq!(
            parent(a),
            path.parent().map(|e| e.to_str().unwrap().to_string())
        );
        for b in samples {
            let other = std::path::Path::new(b);
            assert_eq!(same_path(a, b), path == other);
            assert_eq!(join(a, b), path.join(other).to_str().unwrap());
            assert_eq!(
                stored_recording_path(b, a).ok(),
                path.strip_prefix(other)
                    .ok()
                    .map(|p| p.to_str().unwrap().to_string())
            );
        }
    }
}

#[test]
fn totals_add_up() {
    let files = [fragment("", &[], 10, 1000), fragment("", &[], 5, 2500)];
    assert_eq!(calculate_total_duration(&files), 3500);
    assert_eq!(duration_of_first(&files, 1), 1000);
    assert_eq!(calculate_sizes(&files), 15);
}

#[test]
fn texts_are_taken_apart_and_put_together() {
    assert_eq!(text::trim("\u{2003} a b \n"), "a b");
    assert_eq!(text::split_words(" a\tb  c "), ["a", "b", "c"]);
    assert_eq!(text::replace("a-b-c", "-", "--"), "a--b--c");
    assert!(text::starts_with("record:5", "record:"));
    assert!(text::ends_with("a.wav", ".wav"));
    assert!(text::contains("abc", "bc"));
    assert!(!text::contains("abc", "cb"));
    assert_eq!(text::parse_unsigned("+7", 10), Some(7));
    assert_eq!(text::parse_unsigned("11", 10), None);
    assert_eq!(text::parse_i32("-2147483648"), Some(i32::MIN));
    assert_eq!(text::parse_i32("2147483648"), None);
    assert_eq!(text::decimal_text(u128::MAX), format!("{}", u128::MAX));
    assert_eq!(text::padded_text(7, 3), "007");
    assert_eq!(text::padded_text(1234, 3), "1234");
    assert_eq!(text::signed_text(-40), "-40");
    assert_eq!(text::split_text("a||b", '|'), ["a", "", "b"]);
    assert_eq!(
        text::join_texts(&vec!["a".to_string(), "b".to_string()], ", "),
        "a, b"
    );
    assert!(text::is_before("a", "ab"));
    assert!(text::is_before("Z", "a"));
    assert_eq!(
        text::sort_texts(vec!["б".to_string(), "a".to_string(), "B".to_string()]),
        ["B", "a", "б"]
    );
}

#[test]
fn white_space_is_that_of_the_standard_library() {
    for n in 0..0x3100u32 {
        if let Some(c) = char::from_u32(n) {
            assert_eq!(text::is_white_space(c), c.is_whitespace());
        }
    }
}

#[test]
fn numbers_are_little_endian() {
    let mut out = vec![9u8];
    put_le(&mut out, 0x0102_0304, 4);
    assert_eq!(out, [9, 4, 3, 2, 1]);
    assert_eq!(read_le(&out, 1, 4), 0x0102_0304);
    assert!(same_bytes(&[1, 2], &[1, 2]));
    assert!(!same_bytes(&[1, 2], &[1, 3]));
}

#[test]
fn long_recordings_are_heard_at_both_ends() {
    assert_eq!(segments(80_000), [(0, 80_000)]);
    assert_eq!(segments(80_001), [(0, 48_000), (48_001, 80_001)]);
    assert_eq!(join_ends(" once ", " end"), "once[...]end");
    assert_eq!(join_ends("", "end "), "end");
    assert_eq!(join_ends(" start", ""), "start");
    assert_eq!(
        join_parts(&vec![" a".to_string(), "b ".to_string()]),
        "a b"
    );
    assert_eq!(hint_of("  ".to_string()), "…");
    assert_eq!(hint_of("word".to_string()), "word");
}
