use iamreader::project::dialog_edit::{
    judge_comparison, save_chunk_dialog, save_marker_dialog, save_meta_dialog, settle_save,
    validate_marker_form, validate_marker_forms, DialogError, FieldError, SaveReport,
};
use iamreader::project::marker_map::MarkerMap;
use iamreader::project::markers::{
    add_markers, compute_effective_durations_ms, compute_file_add_durations_ms,
    effective_duration_ms, file_starts_section, normalize_markers, process_marker_asset,
    remove_markers, set_markers, toggle_marker, SoundLengths,
};
use iamreader::project::mixing::{
    collect_sounds, mix_audio, process_samples_for_compilation, LoadedSounds, MarkerSounds,
    MixError,
};
use iamreader::project::project::{
    chunk_path_text, ChunkSettingsData, MarkerAsset, MarkerAssets, MarkerSettings,
    MarkerSettingsData, MetaData, NextPathError, Project, ProjectError, ProjectFile,
};

fn fragment(path: &str, markers: &[&str]) -> ProjectFile {
    ProjectFile {
        path: path.to_string(),
        title: String::new(),
        author: String::new(),
        year: String::new(),
        hint: String::new(),
        markers: markers.iter().map(|m| m.to_string()).collect(),
        size: 0,
        duration_ms: 1000,
    }
}

fn book(paths: &[&str]) -> Project {
    let mut project = Project::load(None).unwrap();
    for path in paths {
        project.files.push(fragment(path, &[]));
    }
    project
}

fn form(marker: &str) -> MarkerSettingsData {
    MarkerSettingsData {
        marker: marker.to_string(),
        title: "Title".to_string(),
        hint: String::new(),
        shortcut: String::new(),
        begin_audio: String::new(),
        begin_kind: "add".to_string(),
        begin_reduction: String::new(),
        begin_repeat: String::new(),
        end_audio: String::new(),
        end_kind: "underlay".to_string(),
        end_reduction: String::new(),
        end_repeat: String::new(),
        section: false,
    }
}

fn asset(audio: &str, kind: &str, repeat: Option<i32>) -> MarkerAsset {
    MarkerAsset {
        audio: audio.to_string(),
        kind: kind.to_string(),
        reduction: None,
        repeat,
    }
}

fn marker(section: bool, begin: MarkerAsset, end: MarkerAsset) -> MarkerSettings {
    MarkerSettings {
        section,
        assets: MarkerAssets { begin, end },
        ..MarkerSettings::default()
    }
}

fn saved(_: &Project) -> SaveReport {
    SaveReport::Saved
}

fn lost(_: &Project) -> SaveReport {
    SaveReport::Failed {
        error: "disk is full".to_string(),
        expected: b"{\"a\":1,\"b\":2}".to_vec(),
        stored: Ok(b"{}".to_vec()),
    }
}

fn unconfirmed(_: &Project) -> SaveReport {
    SaveReport::Failed {
        error: "cannot sync".to_string(),
        expected: b"{\"a\":1,\"b\":2}".to_vec(),
        stored: Ok(b"{ \"b\": 2, \"a\": 1 }".to_vec()),
    }
}

#[test]
fn a_new_project_has_markers_and_the_first_number() {
    let project = Project::load(None).unwrap();
    assert!(project.files.is_empty());
    assert_eq!(project.next_chunk_number, 1);
    assert!(project.markers.len() > 0);
    let mut stored = Project::load(None).unwrap();
    stored.markers = MarkerMap::new();
    assert_eq!(
        Project::load(Some(stored)).unwrap().markers.len(),
        project.markers.len()
    );
    let mut broken = Project::load(None).unwrap();
    broken.next_chunk_number = 0;
    assert_eq!(
        Project::load(Some(broken)).err(),
        Some(ProjectError::ChunkNumberNotPositive)
    );
}

#[test]
fn numbers_of_new_recordings_skip_occupied_ones() {
    let mut project = book(&[]);
    project.next_chunk_number = 4;
    let busy = |n: u64| -> Result<bool, String> { Ok(n < 7) };
    let path = project.get_next_file_path("/book/chunks", &busy).unwrap();
    assert_eq!(path, chunk_path_text("/book/chunks", 7));
    assert_eq!(project.next_chunk_number, 8);
    let broken = |_: u64| -> Result<bool, String> { Err("no access".to_string()) };
    assert!(matches!(
        project.get_next_file_path("/book/chunks", &broken),
        Err(NextPathError::Lookup(e)) if e == "no access"
    ));
    // A number that could not be looked up is not tried again.
    assert_eq!(project.next_chunk_number, 9);
    project.next_chunk_number = u64::MAX;
    let free = |_: u64| -> Result<bool, String> { Ok(false) };
    assert!(matches!(
        project.get_next_file_path("/book/chunks", &free),
        Err(NextPathError::Project(ProjectError::ChunkNumberExhausted))
    ));
}

#[test]
fn recordings_leave_a_project() {
    let mut project = book(&["a", "b", "c", "d"]);
    assert_eq!(project.remove_file_at(1), Some("b".to_string()));
    assert_eq!(project.remove_file_at(3), None);
    assert_eq!(project.remove_files_from_index(1), ["c", "d"]);
    assert_eq!(project.files.len(), 1);
    assert_eq!(project._get_current_index(), Some(0));
    assert_eq!(Project::file_index_1based_to_orig(1, 3), Some(0));
    assert_eq!(Project::file_index_1based_to_orig(0, 3), None);
    assert_eq!(Project::file_index_1based_to_orig(4, 3), None);
}

#[test]
fn heard_words_never_overwrite_an_edit() {
    let mut project = book(&["chunks/1.wav", "chunks/2.wav"]);
    assert!(project.apply_transcription("./chunks/2.wav", "", "nothing") == false);
    assert!(project.apply_transcription("chunks//2.wav", "", "words"));
    assert_eq!(project.files[1].hint, "words");
    assert!(!project.apply_transcription("chunks/2.wav", "", "late"));
    assert!(!project.apply_transcription("chunks/2.wav", "words", "words"));
    assert!(!project.apply_transcription("chunks/3.wav", "", "x"));
    assert_eq!(project.files[1].hint, "words");
}

#[test]
fn sizes_and_lengths_come_from_disk() {
    let mut project = book(&["a", "b"]);
    project.update_files_meta_from_disk(&[Some((10, 20)), None]);
    assert_eq!((project.files[0].size, project.files[0].duration_ms), (10, 20));
    assert_eq!((project.files[1].size, project.files[1].duration_ms), (0, 1000));
}

#[test]
fn marker_forms_are_validated() {
    let good = validate_marker_form(&form(" c "), None).unwrap();
    assert_eq!(good.assets.begin.repeat, Some(1));
    assert_eq!(good.assets.begin.reduction, None);
    let refused = |change: &dyn Fn(&mut MarkerSettingsData)| {
        let mut f = form("c");
        change(&mut f);
        let e = validate_marker_form(&f, None).unwrap_err();
        (e.field, e.message)
    };
    let said = |field: &str, message: &str| (field.to_string(), message.to_string());
    assert_eq!(
        refused(&|f| f.marker = " ".to_string()),
        said("marker", "Alias must not be empty")
    );
    let digit = "Use one ASCII digit from 0 to 9, or leave blank";
    assert_eq!(refused(&|f| f.shortcut = "x".to_string()), said("shortcut", digit));
    assert_eq!(refused(&|f| f.shortcut = "12".to_string()), said("shortcut", digit));
    assert_eq!(
        refused(&|f| f.begin_kind = "loop".to_string()),
        said("begin_kind", "Choose add or underlay")
    );
    assert_eq!(
        refused(&|f| f.end_reduction = "101".to_string()),
        said("end_reduction", "Enter an integer from 0 to 100, or leave blank")
    );
    assert_eq!(
        refused(&|f| f.begin_repeat = "x".to_string()),
        said("begin_repeat", "Enter a whole repeat count, or leave blank")
    );
    assert_eq!(
        refused(&|f| f.begin_repeat = "-1".to_string()),
        said("begin_repeat", "Add repeat must be 0 or greater")
    );
    assert_eq!(
        refused(&|f| f.end_repeat = "-2".to_string()),
        said("end_repeat", "Underlay repeat must be -1 (loop), 0, or greater")
    );
    let error = FieldError {
        marker: "c".to_string(),
        field: "end_kind".to_string(),
        message: "wrong".to_string(),
    };
    assert_eq!(error.text(), "Marker \"c\" — End sound kind: wrong");
    let plain = FieldError { marker: String::new(), field: "other".to_string(), ..error };
    assert_eq!(plain.text(), "other: wrong");
}

#[test]
fn marker_forms_keep_other_markers_and_each_shortcut_once() {
    let mut known = MarkerMap::new();
    let mut old = MarkerSettings::default();
    old.author = "Author".to_string();
    old.shortcut = Some("1".to_string());
    known.insert("a".to_string(), old);
    let mut other = MarkerSettings::default();
    other.shortcut = Some("2".to_string());
    known.insert("b".to_string(), other);
    let with = |name: &str, key: &str| {
        let mut f = form(name);
        f.shortcut = key.to_string();
        f
    };
    let swapped = validate_marker_forms(&known, &[with("a", "2"), with("b", "1")]).unwrap();
    assert_eq!(swapped.get("a").unwrap().shortcut, Some("2".to_string()));
    assert_eq!(swapped.get("a").unwrap().author, "Author");
    let kept = validate_marker_forms(&known, &[with("c", "3")]).unwrap();
    assert_eq!(kept.len(), 3);
    let clash = validate_marker_forms(&known, &[with(" c ", "2")]).unwrap_err();
    assert_eq!(clash.marker, " c ");
    assert_eq!(clash.message, "Shortcut 2 is also assigned to marker \"b\"");
    let twice = validate_marker_forms(&known, &[form("c"), form(" c")]).unwrap_err();
    assert_eq!(twice.message, "Alias is repeated in this dialog");
    known.insert(" d".to_string(), MarkerSettings::default());
    let spaced = validate_marker_forms(&known, &[]).unwrap_err();
    assert_eq!(
        spaced.message,
        "Alias must be nonempty without surrounding whitespace"
    );
    let mut stored = MarkerMap::new();
    let mut blank = MarkerSettings::default();
    blank.shortcut = Some(" 3".to_string());
    stored.insert("e".to_string(), blank);
    assert_eq!(
        validate_marker_forms(&stored, &[]).unwrap_err().message,
        "Stored shortcut must be one ASCII digit without surrounding whitespace"
    );
}

#[test]
fn dialogs_change_a_project_only_when_it_was_stored() {
    let data = MetaData {
        title: "Book".to_string(),
        author: "A".to_string(),
        year: "1900".to_string(),
        hint: "h".to_string(),
        reader: "R".to_string(),
        format_audio: "wav".to_string(),
        normalize: true,
        cover: "c.png".to_string(),
        section_split: true,
        denoise: false,
    };
    let mut project = book(&["a"]);
    assert!(save_meta_dialog(&mut project, "/p", &data, &lost).is_err());
    assert_eq!(project.meta.title, "Untitled");
    let outcome = save_meta_dialog(&mut project, "/p", &data, &saved).unwrap();
    assert_eq!(outcome.warning, None);
    assert_eq!(project.meta.title, "Book");
    assert!(project.settings.section_split);
    let mut refused = data.clone();
    refused.format_audio = "ogg".to_string();
    match save_meta_dialog(&mut project, "/p", &refused, &saved) {
        Err(DialogError::Field(e)) => assert_eq!(e.text(), "Export format: Choose WAV or MP3"),
        other => panic!("{:?}", other),
    }
    let mut later = data.clone();
    later.title = "Later".to_string();
    let outcome = save_meta_dialog(&mut project, "/p", &later, &unconfirmed).unwrap();
    assert_eq!(
        outcome.warning,
        Some("Changes are present in /p, but save could not confirm durability: cannot sync".to_string())
    );
    assert_eq!(project.meta.title, "Later");
    let outcome = save_marker_dialog(&mut project, "/p", &[form("z")], &saved);
    assert!(outcome.is_ok());
    assert!(project.markers.get("z").is_some());
}

#[test]
fn chunk_dialogs_stick_to_their_recording() {
    let mut project = book(&["a", "b"]);
    let data = |ui_index| ChunkSettingsData {
        ui_index,
        title: "T".to_string(),
        author: String::new(),
        year: String::new(),
        hint: "H".to_string(),
    };
    assert!(save_chunk_dialog(&mut project, "/p", &data(0), "b", &saved).is_ok());
    assert_eq!(project.files[1].title, "T");
    assert_eq!(
        save_chunk_dialog(&mut project, "/p", &data(2), "b", &saved)
            .unwrap_err()
            .text(),
        "Recording selection is no longer valid; reopen its settings"
    );
    assert_eq!(
        save_chunk_dialog(&mut project, "/p", &data(1), "b", &saved)
            .unwrap_err()
            .text(),
        "Recording selection changed; reopen settings for \"b\""
    );
}

#[test]
fn failed_saves_are_compared_by_what_they_hold() {
    assert_eq!(settle_save("/p", SaveReport::Saved).unwrap().warning, None);
    let report = |stored| SaveReport::Failed {
        error: "E".to_string(),
        expected: b"[1]".to_vec(),
        stored,
    };
    assert!(settle_save("/p", report(Ok(b"[1 ]".to_vec()))).unwrap().warning.is_some());
    assert_eq!(settle_save("/p", report(Ok(b"[2]".to_vec()))), Err("E".to_string()));
    let unread = settle_save("/p", report(Err("gone".to_string()))).unwrap_err();
    assert_eq!(
        unread,
        "Could not verify on-disk state after the save error: gone: E"
    );
    assert!(settle_save("/p", report(Ok(b"not json".to_vec()))).is_err());
    assert_eq!(
        judge_comparison("/p", "E".to_string(), Ok(false)),
        Err("E".to_string())
    );
    assert!(judge_comparison("/p", "E".to_string(), Ok(true)).is_ok());
}

fn known_markers() -> MarkerMap {
    let mut known = MarkerMap::new();
    known.insert(
        "s".to_string(),
        marker(true, asset("in.wav", "add", Some(2)), asset("", "add", None)),
    );
    known.insert(
        "u".to_string(),
        marker(false, asset("bed.wav", "underlay", None), asset("out.wav", "add", None)),
    );
    known
}

#[test]
fn markers_are_switched_added_and_taken_away() {
    let known = known_markers();
    let mut file = fragment("a", &["z", "b"]);
    normalize_markers(&mut file);
    assert_eq!(file.markers, ["b", "z"]);
    toggle_marker(&mut file, "s", true, 4);
    assert_eq!(file.markers, ["b", "s", "z"]);
    assert_eq!(file.title, "Title for 5");
    toggle_marker(&mut file, "s", true, 4);
    assert_eq!(file.markers, ["b", "z"]);
    add_markers(&mut file, &vec!["u".to_string(), "b".to_string()], &known, 0);
    assert_eq!(file.markers, ["b", "u", "z"]);
    remove_markers(&mut file, &vec!["b".to_string(), "x".to_string()]);
    assert_eq!(file.markers, ["u", "z"]);
    set_markers(&mut file, &vec!["q".to_string(), "a".to_string(), "q".to_string()]);
    assert_eq!(file.markers, ["a", "q"]);
    assert!(!file_starts_section(&file, &known));
    assert!(file_starts_section(&fragment("a", &["x", "s"]), &known));
}

#[test]
fn added_sounds_lengthen_a_fragment() {
    let known = known_markers();
    let mut lengths = SoundLengths::new();
    lengths.insert("in.wav".to_string(), 8000);
    lengths.insert("out.wav".to_string(), 4000);
    lengths.insert("bed.wav".to_string(), 9999);
    let file = fragment("a", &["s", "u"]);
    assert_eq!(
        compute_file_add_durations_ms(&file, &known, &lengths, 8000, 2),
        (1000, 250)
    );
    assert_eq!(effective_duration_ms(&file, &known, &lengths, 8000, 2), 2250);
    assert_eq!(
        compute_effective_durations_ms(&[fragment("b", &[]), file], &known, &lengths, 8000, 2),
        [1000, 2250]
    );
}

#[test]
fn sounds_of_markers_are_laid_out() {
    let mut sounds: Vec<Vec<i32>> = Vec::new();
    let mut underlays = Vec::new();
    let sound = vec![1, 2];
    process_marker_asset(&asset("x", "add", Some(2)), Some(&sound), &mut sounds, &mut underlays);
    process_marker_asset(&asset("x", "add", Some(0)), Some(&sound), &mut sounds, &mut underlays);
    process_marker_asset(&asset("x", "add", Some(-5)), Some(&sound), &mut sounds, &mut underlays);
    process_marker_asset(&asset("x", "underlay", None), Some(&sound), &mut sounds, &mut underlays);
    process_marker_asset(&asset("x", "undelay", Some(-1)), Some(&sound), &mut sounds, &mut underlays);
    process_marker_asset(&asset("x", "other", None), Some(&sound), &mut sounds, &mut underlays);
    process_marker_asset(&asset("x", "add", None), None, &mut sounds, &mut underlays);
    assert_eq!(sounds, [[1, 2], [1, 2], [1, 2]]);
    assert_eq!(underlays.len(), 2);
    assert_eq!(underlays[0].reduction, 75);
    assert_eq!(underlays[1].repeat, Some(-1));
}

fn blend(voice: i32, sound: i32, reduction: u8) -> i32 {
    voice + sound * (100 - reduction as i32) / 100
}

#[test]
fn sounds_are_mixed_under_a_voice() {
    assert_eq!(mix_audio(&vec![1, 2, 3], &vec![10, 10], 50, 2, &blend), [1, 2, 8]);
    assert_eq!(mix_audio(&vec![1], &vec![10], 0, 5, &blend), [1]);
    let mut settings = marker(true, asset("in", "add", None), asset("out", "add", None));
    settings.assets.begin.kind = "add".to_string();
    let mut known = MarkerMap::new();
    known.insert("m".to_string(), settings);
    let file = fragment("a", &["m"]);
    let loaded = vec![LoadedSounds { begin: Some(vec![7, 8]), end: Some(vec![9, 9]) }];
    let sounds = collect_sounds(&file, &known, &loaded);
    assert_eq!(
        process_samples_for_compilation(vec![1, 2], &sounds, 8000, 2, &blend),
        Ok(vec![7, 8, 1, 2, 9, 9])
    );
}

#[test]
fn underlays_repeat_loop_and_end_with_the_voice() {
    let bed = |repeat| iamreader::project::markers::Underlay {
        samples: vec![10, 20],
        reduction: 0,
        repeat,
    };
    let mix = |under_start, under_end| {
        let sounds = MarkerSounds { before: vec![], after: vec![], under_start, under_end };
        process_samples_for_compilation(vec![0; 5], &sounds, 8000, 1, &blend).unwrap()
    };
    assert_eq!(mix(vec![bed(None)], vec![]), [10, 20, 0, 0, 0]);
    assert_eq!(mix(vec![bed(Some(2))], vec![]), [20, 40, 0, 0, 0]);
    assert_eq!(mix(vec![bed(Some(-1))], vec![]), [10, 20, 10, 20, 10]);
    assert_eq!(mix(vec![bed(Some(0))], vec![]), [0; 5]);
    assert_eq!(mix(vec![], vec![bed(None)]), [0, 0, 0, 10, 20]);
}

#[test]
fn mixes_are_checked() {
    let none = MarkerSounds { before: vec![], after: vec![], under_start: vec![], under_end: vec![] };
    let run = |voice: Vec<i32>, rate, channels| {
        process_samples_for_compilation(voice, &none, rate, channels, &blend)
    };
    assert_eq!(run(vec![1, 2], 0, 2), Err(MixError::Format));
    assert_eq!(run(vec![1, 2], 8000, 0), Err(MixError::Format));
    assert_eq!(run(vec![1, 2, 3], 8000, 2), Err(MixError::IncompleteFrames));
    assert_eq!(run(vec![], 8000, 2), Ok(vec![]));
}

#[test]
fn the_counted_length_is_the_added_length() {
    for repeat in [None, Some(-1), Some(0), Some(1), Some(3)] {
        let played = asset("x", "add", repeat);
        let sound = vec![7; 16];
        let mut sounds: Vec<Vec<i32>> = Vec::new();
        let mut underlays = Vec::new();
        process_marker_asset(&played, Some(&sound), &mut sounds, &mut underlays);
        let joined: usize = sounds.iter().map(|s| s.len()).sum();
        let mut known = MarkerMap::new();
        let mut settings = MarkerSettings::default();
        settings.assets.begin = played;
        known.insert("m".to_string(), settings);
        let mut lengths = SoundLengths::new();
        lengths.insert("x".to_string(), 16);
        let (before, after) =
            compute_file_add_durations_ms(&fragment("a", &["m"]), &known, &lengths, 1000, 1);
        assert_eq!((before, after), (joined as u64, 0));
    }
}

#[test]
fn a_loaded_project_loads_back() {
    let mut project = Project::load(None).unwrap();
    project.files.push(fragment("chunks/000001.wav", &["chapter"]));
    project.next_chunk_number = 2;
    let once = Project::load(Some(project)).unwrap();
    let (files, markers) = (once.files.len(), once.markers.len());
    let again = Project::load(Some(once)).unwrap();
    assert_eq!((again.files.len(), again.markers.len()), (files, markers));
    assert_eq!(again.next_chunk_number, 2);
    let mut bare = again;
    bare.markers = MarkerMap::new();
    assert_eq!(Project::load(Some(bare)).unwrap().markers.len(), 3);
}
