use iamreader::app::app::{App, AppState, RecordingMode};
use iamreader::app::effects::{Effect, Step};
use iamreader::app::graphs::{fill_graph, GraphChange};
use iamreader::app::recording::TakeError;
use iamreader::audio::waveform_loader::{WaveformLoader, WaveformSlot};
use iamreader::project::dialog_edit::{DialogError, SaveReport};
use iamreader::project::markers::SoundLengths;
use iamreader::project::project::{
    ChunkSettingsData, MarkerSettings, MetaData, NextPathError, Project, ProjectError, ProjectFile,
};
use iamreader::ui::ui::UIState;
use iamreader::utils::keyboard::{Action, DialogEdit};

fn fragment(path: &str, hint: &str, markers: &[&str]) -> ProjectFile {
    ProjectFile {
        path: path.to_string(),
        title: String::new(),
        author: String::new(),
        year: String::new(),
        hint: hint.to_string(),
        markers: markers.iter().map(|m| m.to_string()).collect(),
        size: 10,
        duration_ms: 1000,
    }
}

fn reader(files: Vec<ProjectFile>) -> App {
    let mut project = Project::load(None).unwrap();
    project.files = files;
    let mut app = App::new(project, "/b/book.json".to_string());
    app.project.next_chunk_number = 8;
    app
}

fn three() -> App {
    reader(vec![
        fragment("chunks/000001.wav", "Alpha", &[]),
        fragment("chunks/000002.wav", "", &[]),
        fragment("chunks/000003.wav", "Gamma alpha", &[]),
    ])
}

fn stored(_: &Project) -> Result<(), String> {
    Ok(())
}

fn refused(_: &Project) -> Result<(), String> {
    Err("disk is full".to_string())
}

fn free(_: u64) -> Result<bool, String> {
    Ok(false)
}

fn paths(app: &App) -> Vec<&str> {
    app.project.files.iter().map(|f| f.path.as_str()).collect()
}

fn done(effects: &[Effect]) -> String {
    format!("{effects:?}")
}

fn applied(step: Step) -> String {
    match step {
        Step::Apply(effects) => done(&effects),
        other => panic!("{other:?}"),
    }
}

const NOTHING: &str = "[]";
const REFRESHED: &str = "[Refresh { status_line: true, skip_list: false }]";

#[test]
fn a_fresh_recorder_keeps_its_takes_beside_the_project() {
    let app = three();
    assert_eq!(app.chunks_dir, "/b/chunks");
    assert!(matches!(app.state, AppState::Idle));
    assert_eq!(app.current_index, None);
    assert_eq!(app.current_orig_and_ui(), Some((2, 0)));
    assert_eq!(
        app.resolve_file_path("chunks/000001.wav"),
        "/b/chunks/000001.wav"
    );
    let lone = App::new(Project::load(None).unwrap(), "book.json".to_string());
    assert_eq!(lone.chunks_dir, "chunks");
    assert_eq!(lone.current_orig_and_ui(), None);
    assert_eq!(lone.update_key().current_index, None);
}

#[test]
fn moving_selects_shows_and_plays() {
    let mut app = three();
    let effects = app.goto_to_index(Some(1), true, 5);
    assert_eq!(app.current_index, Some(1));
    assert_eq!(
        done(&effects),
        "[Transcribe(1), DrawPreviousGraph, DrawCurrentGraph, RefreshCopy, ShowIndex(1), \
         Refresh { status_line: true, skip_list: true }, Play { first: 1, end: 2 }, \
         Refresh { status_line: true, skip_list: false }]"
    );
    // A fragment with a hint is not put into words again.
    let effects = app.goto_to_index(Some(2), false, 5);
    assert_eq!(app.current_index, Some(0));
    assert_eq!(
        done(&effects),
        "[DrawPreviousGraph, DrawCurrentGraph, RefreshCopy, ShowIndex(2), \
         Refresh { status_line: true, skip_list: true }]"
    );
    assert_eq!(done(&app.goto_to_index(Some(3), true, 5)), NOTHING);
    assert_eq!(app.current_index, Some(0));
    app.goto_to_index(Some(-1), false, 5);
    assert_eq!(app.current_index, Some(2));
    app.current_index = Some(0);
    app.goto_to_index(None, false, 5);
    assert_eq!(app.current_index, Some(2));
    assert_eq!(done(&reader(vec![]).goto_to_index(None, true, 5)), NOTHING);
}

#[test]
fn neighbours_are_played_until_the_ends() {
    let mut app = three();
    let next = app.handle_action(Action::Next, None, 0);
    assert_eq!(applied(next), NOTHING);
    app.handle_action(Action::Prev, None, 0);
    assert_eq!(app.current_index, Some(1));
    app.handle_action(Action::Prev, None, 0);
    assert_eq!(app.current_index, Some(0));
    assert_eq!(applied(app.handle_action(Action::Prev, None, 0)), NOTHING);
    app.handle_action(Action::Next, None, 0);
    assert_eq!(app.current_index, Some(1));
}

#[test]
fn playing_stops_where_it_was() {
    let mut app = three();
    app.current_index = Some(1);
    let effects = app.start_playback(7);
    assert_eq!(done(&effects), "[Play { first: 1, end: 2 }]");
    let effects = app.playback_started(1, true, 7);
    assert_eq!(
        done(&effects),
        "[DrawPreviousGraph, DrawCurrentGraph, Refresh { status_line: true, skip_list: false }]"
    );
    assert!(matches!(
        app.state,
        AppState::Playing {
            current_index: 1,
            start_ms: 7
        }
    ));
    app.current_index = Some(0);
    let effects = applied(app.handle_action(Action::Stop, None, 9));
    assert_eq!(
        effects,
        "[StopPlayers, DrawPreviousGraph, DrawCurrentGraph, \
         Refresh { status_line: true, skip_list: false }]"
    );
    assert_eq!(app.current_index, Some(1));
    assert!(matches!(app.state, AppState::Idle));
    assert_eq!(applied(app.handle_action(Action::Stop, None, 9)), NOTHING);
}

#[test]
fn playing_without_players_changes_nothing() {
    let mut app = three();
    assert_eq!(done(&app.playback_started(1, false, 7)), NOTHING);
    assert!(matches!(app.state, AppState::Idle));
    assert_eq!(app.current_index, None);
}

#[test]
fn playing_all_starts_at_the_selection_or_the_newest() {
    let mut app = three();
    app.current_index = Some(1);
    assert_eq!(
        done(&app.start_playback_from_index(None, 0)),
        "[Play { first: 1, end: 3 }]"
    );
    app.current_index = Some(9);
    assert_eq!(
        done(&app.start_playback_from_index(None, 0)),
        "[Play { first: 2, end: 3 }]"
    );
    assert_eq!(app.current_index, Some(2));
    // A single fragment that is not there gives way to the selected one.
    app.current_index = Some(0);
    assert_eq!(
        done(&app.start_playback_from_index(Some(7), 0)),
        "[Play { first: 0, end: 1 }]"
    );
    assert_eq!(
        done(&reader(vec![]).start_playback(0)),
        "[Play { first: 0, end: 0 }]"
    );
}

#[test]
fn playing_again_stops_the_players_first() {
    let mut app = three();
    app.playback_started(2, true, 0);
    assert_eq!(
        done(&app.start_playback_from_index(Some(0), 5)),
        "[StopPlayers, DrawPreviousGraph, DrawCurrentGraph, \
         Refresh { status_line: true, skip_list: false }, Pause, Play { first: 0, end: 1 }]"
    );
}

#[test]
fn a_take_behind_the_book_cuts_it_off() {
    let mut app = three();
    app.current_index = Some(0);
    let take = app
        .start_recording_with_duration(false, &free, &stored)
        .unwrap();
    assert_eq!(take.path, "/b/chunks/00008.wav");
    assert_eq!((take.update_index, take.insert_index), (None, None));
    assert_eq!(
        done(&take.effects),
        "[ClearGraphs, RemoveOverwritten { stored: \"chunks/000002.wav\", \
         path: \"/b/chunks/000002.wav\" }, RemoveOverwritten { stored: \"chunks/000003.wav\", \
         path: \"/b/chunks/000003.wav\" }]"
    );
    assert_eq!(paths(&app), ["chunks/000001.wav"]);
    assert_eq!(app.current_index, None);
    assert_eq!(app.project.next_chunk_number, 9);

    // The selected fragment itself goes when the take replaces it.
    let mut app = three();
    app.current_index = Some(0);
    app.start_recording_with_duration(true, &free, &stored)
        .unwrap();
    assert_eq!(paths(&app).len(), 0);
    // Without a selection only the newest one does.
    let mut app = three();
    app.start_recording_with_duration(true, &free, &stored)
        .unwrap();
    assert_eq!(paths(&app), ["chunks/000001.wav", "chunks/000002.wav"]);
}

#[test]
fn a_finished_take_joins_the_book() {
    let mut app = three();
    let take = app
        .start_recording_with_duration(false, &free, &stored)
        .unwrap();
    let effects = app.recording_started(
        take.path,
        take.update_index,
        take.insert_index,
        Some(2),
        1_000,
    );
    assert_eq!(
        done(&effects),
        "[DrawPreviousGraph, Refresh { status_line: true, skip_list: false }]"
    );
    assert!(!app.take_over(2_999));
    assert!(app.take_over(3_000));
    let path = app.end_take().unwrap();
    assert_eq!(path, "/b/chunks/00008.wav");
    assert!(matches!(app.state, AppState::Idle));
    assert_eq!(app.end_take(), None);
    let effects = app
        .finish_recording(&path, Ok((88, 1_500)), &stored)
        .unwrap();
    assert_eq!(
        done(&effects),
        "[ClearCurrentGraph, DrawCurrentGraph, DrawPreviousGraph, Transcribe(3), Changed]"
    );
    assert_eq!(app.current_index, Some(3));
    let file = &app.project.files[3];
    assert_eq!(file.path, "chunks/00008.wav");
    assert_eq!((file.size, file.duration_ms), (88, 1_500));
    assert_eq!(app.project.stats.record_length, 1_500);
}

#[test]
fn takes_in_between_and_over_keep_the_other_fragments() {
    let mut app = three();
    app.current_index = Some(0);
    app.recording_mode = RecordingMode::Insert;
    let take = app
        .start_recording_with_duration(false, &free, &stored)
        .unwrap();
    assert_eq!(take.insert_index, Some(1));
    assert_eq!(done(&take.effects), "[ClearGraphs]");
    app.recording_started(take.path, None, Some(1), None, 0);
    let path = app.end_take().unwrap();
    app.finish_recording(&path, Ok((1, 2)), &stored).unwrap();
    assert_eq!(
        paths(&app),
        [
            "chunks/000001.wav",
            "chunks/00008.wav",
            "chunks/000002.wav",
            "chunks/000003.wav"
        ]
    );
    assert_eq!(app.recording_mode, RecordingMode::Append);
    assert_eq!(app.insert_recording_index, None);

    app.current_index = Some(2);
    app.project.files[2].title = "Kept".to_string();
    app.recording_mode = RecordingMode::Update;
    let take = app
        .start_recording_with_duration(true, &free, &stored)
        .unwrap();
    assert_eq!(take.update_index, Some(2));
    app.recording_started(take.path, Some(2), None, None, 0);
    let path = app.end_take().unwrap();
    let effects = app.finish_recording(&path, Ok((5, 6)), &stored).unwrap();
    assert!(done(&effects).starts_with("[RemoveRecording(\"/b/chunks/000002.wav\"), "));
    assert_eq!(
        paths(&app),
        [
            "chunks/000001.wav",
            "chunks/00008.wav",
            "chunks/00009.wav",
            "chunks/000003.wav"
        ]
    );
    assert_eq!(app.project.files[2].title, "Kept");
    assert_eq!(app.project.files[2].size, 5);
}

#[test]
fn takes_never_share_a_path() {
    let mut app = three();
    let first = app
        .start_recording_with_duration(false, &free, &stored)
        .unwrap();
    let second = app
        .start_recording_with_duration(false, &|n| Ok(n == 9), &stored)
        .unwrap();
    assert_eq!(first.path, "/b/chunks/00008.wav");
    assert_eq!(second.path, "/b/chunks/00010.wav");
    // A number is used up even if the project could not be stored.
    let failed = app.start_recording_with_duration(true, &free, &refused);
    let error = failed.unwrap_err();
    assert_eq!(
        error.text(),
        "Could not save the project before recording to \"/b/chunks/00011.wav\"; \
         no existing WAV was removed: disk is full"
    );
    assert_eq!(paths(&app).len(), 3);
    assert_eq!(app.project.next_chunk_number, 12);
}

#[test]
fn takes_that_cannot_begin_say_why() {
    let mut app = three();
    app.recording_mode = RecordingMode::Update;
    app.current_index = Some(3);
    let error = app
        .start_recording_with_duration(false, &free, &stored)
        .unwrap_err();
    assert!(matches!(error, TakeError::NothingToReplace));
    assert_eq!(error.text(), "No fragment selected for replacement");
    app.recording_mode = RecordingMode::Insert;
    let error = app
        .start_recording_with_duration(false, &free, &stored)
        .unwrap_err();
    assert!(matches!(error, TakeError::NoPlaceToInsert));
    assert_eq!(error.text(), "Insertion position is no longer available");
    app.project.next_chunk_number = 0;
    let error = app
        .start_recording_with_duration(false, &free, &stored)
        .unwrap_err();
    assert!(matches!(
        error,
        TakeError::Number(NextPathError::Project(ProjectError::ChunkNumberNotPositive))
    ));
    app.project.next_chunk_number = u64::MAX;
    let error = app
        .start_recording_with_duration(false, &free, &stored)
        .unwrap_err();
    assert!(matches!(
        error,
        TakeError::Number(NextPathError::Project(ProjectError::ChunkNumberExhausted))
    ));
    app.project.next_chunk_number = 3;
    let error = app
        .start_recording_with_duration(false, &|_| Err("no entry".to_string()), &stored)
        .unwrap_err();
    assert_eq!(error.text(), "no entry");
    // An empty book has one place for a take in between.
    let mut empty = reader(vec![]);
    empty.recording_mode = RecordingMode::Insert;
    let take = empty
        .start_recording_with_duration(false, &free, &stored)
        .unwrap();
    assert_eq!(take.insert_index, Some(0));
}

#[test]
fn takes_that_cannot_end_keep_their_file() {
    let mut app = three();
    let failed = app
        .finish_recording("/elsewhere/1.wav", Ok((1, 1)), &stored)
        .unwrap_err();
    assert_eq!(failed.error, "Recording is outside the project directory");
    assert_eq!(done(&failed.effects), NOTHING);
    let path = "/b/chunks/00008.wav";
    let kept = "Could not confirm recording completion. WAV kept at \"/b/chunks/00008.wav\"; \
                no previously accepted WAV was removed while finishing: ";
    let failed = app
        .finish_recording(path, Err("bad header".to_string()), &stored)
        .unwrap_err();
    assert_eq!(failed.error, format!("{kept}bad header"));
    assert_eq!(
        done(&failed.effects),
        "[ForgetGraphRequests, DrawCurrentGraph, DrawPreviousGraph]"
    );
    let failed = app
        .finish_recording(path, Ok((1, 1)), &refused)
        .unwrap_err();
    assert_eq!(failed.error, format!("{kept}disk is full"));
    app.recording_mode = RecordingMode::Update;
    let failed = app.finish_recording(path, Ok((1, 1)), &stored).unwrap_err();
    assert_eq!(failed.error, format!("{kept}No replacement target"));
    app.update_recording_index = Some(3);
    let failed = app.finish_recording(path, Ok((1, 1)), &stored).unwrap_err();
    assert_eq!(
        failed.error,
        format!("{kept}Replacement target is no longer available")
    );
    assert_eq!(app.update_recording_index, None);
    app.recording_mode = RecordingMode::Insert;
    let failed = app.finish_recording(path, Ok((1, 1)), &stored).unwrap_err();
    assert_eq!(failed.error, format!("{kept}No insertion position"));
    app.insert_recording_index = Some(4);
    let failed = app.finish_recording(path, Ok((1, 1)), &stored).unwrap_err();
    assert_eq!(
        failed.error,
        format!("{kept}Insertion position is no longer available")
    );
    // The mode stays for a new attempt.
    assert_eq!(app.recording_mode, RecordingMode::Insert);
    assert_eq!(paths(&app).len(), 3);
    let refused = App::recording_refused(path, "no device");
    assert_eq!(
        refused.error,
        "Could not start recording; an incomplete WAV may remain at \"/b/chunks/00008.wav\": \
         no device"
    );
    assert_eq!(
        done(&refused.effects),
        "[DrawCurrentGraph, DrawPreviousGraph, Changed]"
    );
}

#[test]
fn a_dropped_take_counts_as_recorded() {
    let mut app = three();
    app.recording_started("/b/chunks/00008.wav".to_string(), None, Some(1), None, 100);
    let effects = applied(app.handle_action(Action::Stop, None, 350));
    assert_eq!(
        effects,
        "[SaveOrReport(\"Failed to save project after discarding recording\"), \
         Discard(\"/b/chunks/00008.wav\"), ClearCurrentGraph, DrawCurrentGraph, \
         DrawPreviousGraph, Refresh { status_line: true, skip_list: false }]"
    );
    assert_eq!(app.project.stats.record_length, 250);
    assert_eq!(app.insert_recording_index, None);
    assert!(matches!(app.state, AppState::Idle));
    app.recording_started("/b/chunks/00009.wav".to_string(), None, None, None, 0);
    app.project.stats.record_length = u64::MAX - 1;
    app.quiet(1_000);
    assert_eq!(app.project.stats.record_length, u64::MAX);
}

#[test]
fn recording_again_and_accepting() {
    let mut app = three();
    let step = app.handle_action(
        Action::Record {
            duration_secs: Some(4),
        },
        None,
        0,
    );
    assert!(matches!(
        step,
        Step::Record {
            duration_secs: Some(4),
            replace_current: true
        }
    ));
    assert!(matches!(
        app.handle_action(Action::Accept, None, 0),
        Step::Record {
            duration_secs: None,
            replace_current: false
        }
    ));
    app.recording_started("/b/chunks/00008.wav".to_string(), None, None, None, 0);
    assert!(matches!(
        app.handle_action(
            Action::Record {
                duration_secs: None
            },
            None,
            0
        ),
        Step::Record {
            duration_secs: None,
            replace_current: false
        }
    ));
    assert!(matches!(
        app.handle_action(Action::Accept, None, 0),
        Step::Accept { go_on: true }
    ));
    app.recording_mode = RecordingMode::Insert;
    assert!(matches!(
        app.handle_action(Action::Accept, None, 0),
        Step::Accept { go_on: false }
    ));
}

#[test]
fn switching_a_mode_twice_gives_the_usual_one_back() {
    let mut app = three();
    app.update_recording_index = Some(1);
    let step = app.handle_action(Action::ModeUpdate, None, 0);
    assert_eq!(applied(step), REFRESHED);
    assert_eq!(app.recording_mode, RecordingMode::Update);
    assert_eq!(app.update_recording_index, None);
    app.handle_action(Action::ModeInsert, None, 0);
    assert_eq!(app.recording_mode, RecordingMode::Insert);
    app.handle_action(Action::ModeInsert, None, 0);
    assert_eq!(app.recording_mode, RecordingMode::Append);
    assert_eq!(RecordingMode::Append.as_str(), "A");
    assert_eq!(RecordingMode::Update.as_str(), "U");
    assert_eq!(RecordingMode::Insert.as_str(), "I");
    let mut empty = reader(vec![]);
    assert_eq!(
        applied(empty.handle_action(Action::ModeUpdate, None, 0)),
        NOTHING
    );
    app.recording_started("/b/chunks/00008.wav".to_string(), None, None, None, 0);
    assert_eq!(
        applied(app.handle_action(Action::ModeUpdate, None, 0)),
        NOTHING
    );
    assert_eq!(app.recording_mode, RecordingMode::Append);
}

#[test]
fn sections_are_found_in_both_directions() {
    let section = MarkerSettings {
        section: true,
        ..MarkerSettings::default()
    };
    let mut app = reader(vec![
        fragment("chunks/000001.wav", "a", &["part"]),
        fragment("chunks/000002.wav", "b", &[]),
        fragment("chunks/000003.wav", "c", &["part"]),
        fragment("chunks/000004.wav", "d", &[]),
    ]);
    app.project.markers.insert("part".to_string(), section);
    app.handle_action(Action::PrevSect, None, 0);
    assert_eq!(app.current_index, Some(2));
    app.handle_action(Action::PrevSect, None, 0);
    assert_eq!(app.current_index, Some(0));
    assert_eq!(
        applied(app.handle_action(Action::PrevSect, None, 0)),
        NOTHING
    );
    // The copy of the window finds the same sections.
    let mut state = UIState::default();
    app.update_ui_state(&mut state, 0, 0);
    assert!(!app.file_list_update_pending);
    app.handle_action(Action::NextSect, None, 0);
    assert_eq!(app.current_index, Some(2));
    assert_eq!(
        applied(app.handle_action(Action::NextSect, None, 0)),
        NOTHING
    );
    app.handle_action(Action::PrevSect, None, 0);
    assert_eq!(app.current_index, Some(0));
}

#[test]
fn hints_are_searched_without_regard_to_case() {
    let mut app = three();
    app.handle_action(
        Action::SearchHintDown("ALPHA".to_string()),
        Some(0),
        0,
    );
    assert_eq!(app.current_index, Some(0));
    app.handle_action(Action::SearchHintUp("alpha".to_string()), Some(2), 0);
    assert_eq!(app.current_index, Some(2));
    let none = app.handle_action(Action::SearchHintUp("alpha".to_string()), Some(0), 0);
    assert_eq!(applied(none), NOTHING);
    let none = app.handle_action(Action::SearchHintDown(String::new()), Some(0), 0);
    assert_eq!(applied(none), NOTHING);
    let none = app.handle_action(Action::SearchHintDown("alpha".to_string()), None, 0);
    assert_eq!(applied(none), NOTHING);
}

#[test]
fn keys_switch_the_markers_bound_to_them() {
    let mut app = three();
    app.project.markers.insert(
        "part".to_string(),
        MarkerSettings {
            section: true,
            shortcut: Some("8".to_string()),
            ..MarkerSettings::default()
        },
    );
    let key = |key: &str| Action::AddMarker {
        marker: key.to_string(),
    };
    // Without a selection the place that the window shows counts.
    assert!(matches!(
        app.handle_action(key("8"), Some(2), 0),
        Step::SaveThenShow
    ));
    assert_eq!(app.project.files[0].markers, ["part"]);
    assert_eq!(app.project.files[0].title, "Title for 1");
    app.current_index = Some(0);
    app.handle_action(key("8"), None, 0);
    assert_eq!(app.project.files[0].markers.len(), 0);
    assert_eq!(applied(app.handle_action(key("9"), None, 0)), NOTHING);
    app.current_index = None;
    assert_eq!(applied(app.handle_action(key("8"), None, 0)), NOTHING);
}

#[test]
fn commands_edit_the_markers_of_a_numbered_fragment() {
    let mut app = three();
    let names = |names: &[&str]| -> Vec<String> { names.iter().map(|n| n.to_string()).collect() };
    assert!(matches!(
        app.handle_action(
            Action::AddMarkers {
                file_index: 2,
                markers: names(&["x", "y"])
            },
            None,
            0
        ),
        Step::SaveThenShow
    ));
    assert_eq!(app.project.files[1].markers, ["x", "y"]);
    app.handle_action(
        Action::RemoveMarkers {
            file_index: 2,
            markers: names(&["x"]),
        },
        None,
        0,
    );
    assert_eq!(app.project.files[1].markers, ["y"]);
    app.handle_action(
        Action::SetMarkers {
            file_index: 2,
            markers: names(&["q", "b", "q"]),
        },
        None,
        0,
    );
    assert_eq!(app.project.files[1].markers, ["b", "q"]);
    assert_eq!(
        applied(app.handle_action(
            Action::SetMarkers {
                file_index: 4,
                markers: names(&[])
            },
            None,
            0
        )),
        NOTHING
    );
}

#[test]
fn the_remaining_commands_name_what_follows() {
    let mut app = three();
    assert!(matches!(
        app.handle_action(Action::Play, None, 0),
        Step::Play
    ));
    assert!(matches!(
        app.handle_action(Action::Compile, None, 0),
        Step::Compile
    ));
    assert!(matches!(
        app.handle_action(Action::CompileCancel, None, 0),
        Step::CancelCompile
    ));
    assert!(matches!(
        app.handle_action(Action::OpenMarkerSettings, None, 0),
        Step::OpenMarkerSettings
    ));
    assert!(matches!(
        app.handle_action(Action::OpenShortcutsDialog, None, 0),
        Step::OpenShortcuts
    ));
    assert!(matches!(
        app.handle_action(Action::OpenDeleteChunkDialog, None, 0),
        Step::OpenDelete
    ));
    assert!(matches!(
        app.handle_action(Action::ConfirmDeleteChunk { ui_index: 1 }, None, 0),
        Step::ConfirmDelete { ui_index: 1 }
    ));
    assert_eq!(
        applied(app.handle_action(Action::Transcribe { file_index: 1 }, None, 0)),
        "[Transcribe(2)]"
    );
    assert_eq!(
        applied(app.handle_action(Action::Transcribe { file_index: 4 }, None, 0)),
        NOTHING
    );
    assert_eq!(
        applied(app.handle_action(Action::Transcribe { file_index: i32::MIN }, None, 0)),
        NOTHING
    );
    assert_eq!(applied(app.handle_action(Action::Nothing, None, 0)), NOTHING);
    assert!(!app.exits(true));
    assert!(app.exits(false));
    app.handle_action(Action::Shutdown, None, 0);
    assert!(app.exits(true));
}

#[test]
fn fragments_are_put_into_words_only_if_they_are_there() {
    let app = three();
    let task = app
        .start_transcription_for_file(0, &|path: &str| path == "/b/chunks/000001.wav")
        .unwrap();
    assert_eq!(task.file_path, "/b/chunks/000001.wav");
    assert_eq!(task.project_file_path, "chunks/000001.wav");
    assert_eq!(task.previous_hint, "Alpha");
    assert!(app
        .start_transcription_for_file(0, &|_: &str| false)
        .is_none());
    assert!(app
        .start_transcription_for_file(3, &|_: &str| true)
        .is_none());
}

#[test]
fn the_question_before_deleting_names_the_fragment() {
    let mut app = three();
    let mut state = UIState::default();
    app.current_index = Some(0);
    app.handle_open_delete_chunk_dialog(&mut state);
    assert!(state.dialog_delete_open);
    assert_eq!(state.dialog_delete_file_index, 2);
    assert_eq!(
        state.dialog_delete_text,
        "Запись №1: —, файл: chunks/000001.wav"
    );
    app.project.files[1].title = "Two".to_string();
    app.current_index = Some(1);
    app.handle_open_delete_chunk_dialog(&mut state);
    assert_eq!(
        state.dialog_delete_text,
        "Запись №2: Two, файл: chunks/000002.wav"
    );
    let mut closed = UIState::default();
    app.recording_started("/b/chunks/00008.wav".to_string(), None, None, None, 0);
    app.handle_open_delete_chunk_dialog(&mut closed);
    assert!(!closed.dialog_delete_open);
}

#[test]
fn deleting_another_fragment_keeps_the_selected_one() {
    let mut app = three();
    app.current_index = Some(2);
    let effects = app.handle_confirm_delete_chunk(2, &stored).unwrap();
    assert_eq!(
        done(&effects),
        "[RemoveRecording(\"/b/chunks/000001.wav\"), DrawCurrentGraph, DrawPreviousGraph, \
         Changed, CloseDeleteDialog]"
    );
    assert_eq!(paths(&app), ["chunks/000002.wav", "chunks/000003.wav"]);
    assert_eq!(app.current_index, Some(1));
    // The selected one gives way to the one before it.
    app.handle_confirm_delete_chunk(0, &stored).unwrap();
    assert_eq!(app.current_index, Some(0));
    app.handle_confirm_delete_chunk(0, &stored).unwrap();
    assert_eq!(app.current_index, None);
    assert_eq!(
        done(&app.handle_confirm_delete_chunk(0, &stored).unwrap()),
        NOTHING
    );
}

#[test]
fn deleting_stops_players_and_heeds_a_failed_save() {
    let mut app = three();
    app.playback_started(1, true, 0);
    assert_eq!(
        app.handle_confirm_delete_chunk(1, &refused).unwrap_err(),
        "disk is full"
    );
    assert_eq!(paths(&app).len(), 3);
    let effects = app.handle_confirm_delete_chunk(1, &stored).unwrap();
    assert!(done(&effects).contains("StopPlayers"));
    assert_eq!(app.current_index, Some(0));
    app.recording_started("/b/chunks/00008.wav".to_string(), None, None, None, 0);
    assert_eq!(
        done(&app.handle_confirm_delete_chunk(0, &stored).unwrap()),
        NOTHING
    );
    assert_eq!(paths(&app).len(), 2);
}

#[test]
fn the_list_of_keys_is_sorted_by_key() {
    let mut app = three();
    app.project.markers = Project::load(None).unwrap().markers;
    let mut state = UIState::default();
    for (name, key) in [("late", "9"), ("early", "1"), ("unbound", "")] {
        app.project.markers.insert(
            name.to_string(),
            MarkerSettings {
                shortcut: if key.is_empty() {
                    None
                } else {
                    Some(key.to_string())
                },
                ..MarkerSettings::default()
            },
        );
    }
    app.handle_open_shortcuts_dialog(&mut state);
    assert!(state.dialog_shortcuts_open);
    let lines: Vec<&str> = state.dialog_shortcuts_list_text.split('\n').collect();
    let keys = &app.project.settings.keys;
    assert_eq!(lines[0], format!("{} — Start/restart recording", keys.record));
    assert_eq!(lines[7], format!("{} — Previous chapter", keys.chapter_prev));
    let early = lines
        .iter()
        .position(|l| *l == "1 — marker \"early\"")
        .unwrap();
    let late = lines
        .iter()
        .position(|l| *l == "9 — marker \"late\"")
        .unwrap();
    assert!(7 < early && early < late);
    assert!(!state.dialog_shortcuts_list_text.contains("unbound"));
}

fn meta(format_audio: &str) -> MetaData {
    MetaData {
        title: "Book".to_string(),
        author: "A".to_string(),
        year: "1999".to_string(),
        hint: "H".to_string(),
        reader: "R".to_string(),
        format_audio: format_audio.to_string(),
        normalize: false,
        cover: "c.png".to_string(),
        section_split: true,
        denoise: true,
    }
}

#[test]
fn a_saved_dialog_and_its_answer_appear_together() {
    let mut app = three();
    let mut state = UIState::default();
    let saved = app.handle_save_dialog(&DialogEdit::Meta(meta("mp3")), &|_: &Project| {
        SaveReport::Saved
    });
    app.answer_dialog(&mut state, 4, saved);
    assert_eq!(app.project.meta.title, "Book");
    assert_eq!(state.dialog_project_title, "Book");
    assert_eq!(state.dialog_project_format_audio, "mp3");
    assert!(state.dialog_project_section_split);
    let reply = state.dialog_save_result.take().unwrap();
    assert_eq!(reply.request_id, 4);
    assert_eq!(reply.result, Ok(None));
    assert_eq!(reply.field, None);

    let saved = app.handle_save_dialog(&DialogEdit::Meta(meta("ogg")), &|_: &Project| {
        SaveReport::Saved
    });
    assert!(matches!(saved, Err(DialogError::Field(_))));
    app.answer_dialog(&mut state, 5, saved);
    let reply = state.dialog_save_result.take().unwrap();
    assert_eq!(reply.result, Err("Export format: Choose WAV or MP3".to_string()));
    assert_eq!(reply.field, Some("format_audio".to_string()));
}

#[test]
fn a_chunk_that_moved_is_not_edited() {
    let mut app = three();
    let edit = DialogEdit::Chunk {
        data: ChunkSettingsData {
            ui_index: 0,
            title: "T".to_string(),
            author: "A".to_string(),
            year: "1".to_string(),
            hint: "H".to_string(),
        },
        expected_path: "chunks/000001.wav".to_string(),
    };
    let saved = app.handle_save_dialog(&edit, &|_: &Project| SaveReport::Saved);
    assert!(saved.is_err());
    assert!(app.project.files.iter().all(|f| f.title.is_empty()));
}

#[test]
fn measured_files_replace_sizes_and_lengths() {
    let mut app = three();
    let lengths = SoundLengths::new();
    let measured = vec![Some((5, 50)), None, Some((7, 70))];
    assert!(app.measurements_countable(&measured, &lengths, 44_100, 2));
    let outcome = app
        .handle_update_files_meta(&measured, &lengths, 44_100, 2, &|_: &Project| {
            SaveReport::Saved
        })
        .unwrap();
    assert_eq!(outcome.warning, None);
    let sizes: Vec<(u64, u64)> = app
        .project
        .files
        .iter()
        .map(|f| (f.size, f.duration_ms))
        .collect();
    assert_eq!(sizes, [(5, 50), (10, 1000), (7, 70)]);
}

#[test]
fn opening_the_markers_hands_out_a_copy() {
    let app = three();
    let mut state = UIState::default();
    app.open_marker_settings(&mut state);
    assert!(state.dialog_markers_open);
    assert_eq!(state.dialog_marker_snapshot.len(), app.project.markers.len());
}

#[test]
fn the_previous_graph_is_the_nearest_recording_before() {
    let mut app = three();
    app.current_index = Some(2);
    let there = |path: &str| path != "/b/chunks/000002.wav";
    assert_eq!(
        app.previous_graph_path(&there),
        Some("/b/chunks/000001.wav".to_string())
    );
    assert_eq!(
        app.current_graph_path(),
        Some(Some("/b/chunks/000003.wav".to_string()))
    );
    app.current_index = Some(0);
    assert_eq!(app.previous_graph_path(&there), None);
    app.recording_started("/b/chunks/00008.wav".to_string(), None, None, None, 0);
    // A take behind the book comes after the newest fragment.
    assert_eq!(
        app.previous_graph_path(&there),
        Some("/b/chunks/000003.wav".to_string())
    );
    assert_eq!(app.current_graph_path(), None);
    assert_eq!(reader(vec![]).current_graph_path(), Some(None));
}

#[test]
fn graphs_are_asked_for_once() {
    let mut loader = WaveformLoader::new();
    let path = || Some("/b/chunks/000001.wav".to_string());
    assert_eq!(
        fill_graph(&mut loader, WaveformSlot::Current, path()),
        GraphChange::Loading
    );
    assert_eq!(
        fill_graph(&mut loader, WaveformSlot::Current, path()),
        GraphChange::Kept
    );
    assert_eq!(
        fill_graph(&mut loader, WaveformSlot::Previous, path()),
        GraphChange::Loading
    );
    assert_eq!(
        fill_graph(&mut loader, WaveformSlot::Current, None),
        GraphChange::Cleared
    );
    assert_eq!(
        fill_graph(&mut loader, WaveformSlot::Current, path()),
        GraphChange::Loading
    );
}

#[test]
fn the_copy_is_due_after_a_pause() {
    let mut app = three();
    assert!(app.copy_due(0));
    app.last_ui_update = Some(100);
    assert!(!app.copy_due(149));
    assert!(app.copy_due(150));
    assert!(!app.copy_due(40));
    app.file_list_update_pending = false;
    app.status_line_update_pending = false;
    app.notify_ui_refresh(true, true);
    assert!(app.status_line_update_pending && !app.file_list_update_pending);
    app.update_ui_after_change();
    assert!(app.file_list_update_pending);
}
