use iamreader::app::app::{App, RecordingMode};
use iamreader::project::dialog_edit::validate_marker_form;
use iamreader::project::project::{
    ChunkSettingsData, KeyBindings, MarkerAsset, MarkerAssets, MarkerSettings, MarkerSettingsData,
    MetaData, Project, ProjectFile,
};
use iamreader::ui::dialogs::{marker_form, DialogController, DialogReply, DialogWindow};
use iamreader::ui::snapshot::{join_hint, rebuild_ui_state, shown_name, RunningTake};
use iamreader::ui::ui::{FileInfo, UIState};
use iamreader::ui::window::{
    apply_file_list_to_model, cancel_enabled, contents_requested, draw_list, event_command, event_done,
    file_double_clicked, project_dialog_requested, Ticker, WindowEvent,
};
use iamreader::utils::keyboard::{Action, DialogEdit};

fn fragment(path: &str, title: &str, markers: &[&str], duration_ms: u64) -> ProjectFile {
    ProjectFile {
        path: path.to_string(),
        title: title.to_string(),
        author: String::new(),
        year: String::new(),
        hint: String::new(),
        markers: markers.iter().map(|m| m.to_string()).collect(),
        size: 1536,
        duration_ms,
    }
}

fn book() -> Project {
    let mut project = Project::load(None).unwrap();
    project.files = vec![
        fragment("chunks/000001.wav", "One", &["part"], 61_000),
        fragment("chunks/000002.wav", "", &[], 1_000),
        fragment("chunks/000003.wav", "Two", &["part"], 2_000),
    ];
    project.markers.insert(
        "part".to_string(),
        MarkerSettings {
            section: true,
            ..MarkerSettings::default()
        },
    );
    project
}

fn empty_form(marker: &str) -> MarkerSettingsData {
    marker_form(marker, &MarkerSettings::default())
}

fn window() -> DialogWindow {
    DialogWindow {
        project_open: false,
        chunk_open: false,
        markers_open: false,
        busy: false,
        error_message: "old".to_string(),
        alias_error: String::new(),
        shortcut_error: String::new(),
        begin_reduction_error: String::new(),
        begin_repeat_error: String::new(),
        end_reduction_error: String::new(),
        end_repeat_error: String::new(),
        status_message: String::new(),
        new_alias: String::new(),
        selected_index: -1,
        marker_list: vec![],
        shown: empty_form(""),
    }
}

fn row(name: &str) -> FileInfo {
    FileInfo {
        name: name.to_string(),
        path: format!("chunks/{name}"),
        title: format!("title of {name}"),
        ..FileInfo::default()
    }
}

fn names(rows: &[FileInfo]) -> Vec<&str> {
    rows.iter().map(|r| r.name.as_str()).collect()
}

fn sent(_: Action) -> Result<(), String> {
    Ok(())
}

fn full(_: Action) -> Result<(), String> {
    Err("queue is full".to_string())
}

fn answer(state: &mut UIState, request_id: u64, result: Result<Option<String>, String>) {
    state.dialog_save_result = Some(DialogReply {
        request_id,
        result,
        field: None,
    });
}

fn meta() -> MetaData {
    MetaData {
        title: "Book".to_string(),
        author: String::new(),
        year: String::new(),
        hint: String::new(),
        reader: String::new(),
        format_audio: "wav".to_string(),
        normalize: true,
        cover: String::new(),
        section_split: false,
        denoise: false,
    }
}

#[test]
fn a_copy_lists_the_newest_fragment_first() {
    let copy = rebuild_ui_state(&book(), Some(1), RecordingMode::Append, None, None, 512);
    assert_eq!(
        names(&copy.file_list),
        ["000003.wav", "000002.wav", "000001.wav"]
    );
    assert_eq!(copy.file_list[0].index, 3);
    assert_eq!(copy.file_list[0].start_time, "01:02");
    assert_eq!(copy.file_list[2].duration, "01:01");
    assert_eq!(copy.file_list[2].size, "1.5 KB");
    assert_eq!(copy.current_file_index, 1);
    assert_eq!(copy.current_file_name, "000002.wav");
    assert_eq!(copy.total_files, "2/3");
    assert_eq!(copy.total_duration, "01:04");
    assert_eq!(copy.total_size, "4.5 KB / 5.0 KB");
    assert!(!copy.is_recording);
    assert_eq!(copy.recording_mode, "A");
    assert_eq!(copy.section_indices, [0, 2]);
    assert_eq!(copy.duration_ms, 64_000);
    assert_eq!(copy.size, 4608);
}

#[test]
fn a_copy_shows_a_running_take_in_its_place() {
    let take = Some(RunningTake {
        path: "/b/chunks/000008.wav",
        elapsed_ms: 5_000,
    });
    let behind = rebuild_ui_state(&book(), Some(0), RecordingMode::Append, take, None, 0);
    assert_eq!(behind.file_list.len(), 4);
    assert_eq!(behind.file_list[0].name, "000008.wav");
    assert_eq!(behind.file_list[0].start_time, "01:04");
    assert_eq!(behind.file_list[0].size, "...");
    assert!(behind.file_list[0].is_recording);
    assert_eq!(behind.current_file_index, 0);
    assert_eq!(behind.total_files, "4/3");
    assert_eq!(behind.total_duration, "01:04 / 00:05");
    let between = rebuild_ui_state(&book(), Some(0), RecordingMode::Insert, take, None, 0);
    assert_eq!(
        names(&between.file_list),
        ["000003.wav", "000002.wav", "000008.wav", "000001.wav"]
    );
    assert_eq!(between.file_list[2].start_time, "01:01");
    let over = rebuild_ui_state(&book(), Some(0), RecordingMode::Update, take, None, 0);
    assert_eq!(over.file_list.len(), 3);
    assert!(over.file_list[2].is_recording);
}

#[test]
fn a_copy_of_an_empty_book_shows_nothing() {
    let project = Project::load(None).unwrap();
    let copy = rebuild_ui_state(&project, None, RecordingMode::Append, None, None, 0);
    assert_eq!(copy.file_list.len(), 0);
    assert_eq!(copy.current_file_index, -1);
    assert_eq!(copy.total_files, "0/0");
    assert_eq!(copy.current_file_name, "");
    assert_eq!(copy.section_titles, "");
}

#[test]
fn a_playing_row_is_marked() {
    let copy = rebuild_ui_state(&book(), Some(0), RecordingMode::Append, None, Some(0), 0);
    let playing: Vec<bool> = copy.file_list.iter().map(|r| r.is_playing).collect();
    assert_eq!(playing, [false, false, true]);
}

#[test]
fn names_and_hints_are_shown_short() {
    assert_eq!(shown_name("chunks/000001.wav"), "000001.wav");
    assert_eq!(shown_name(".."), "");
    assert_eq!(join_hint("start", "end"), "start[...]end");
    assert_eq!(join_hint("all", ""), "all");
}

#[test]
fn the_state_follows_the_recorder() {
    let mut app = App::new(book(), "/b/book.json".to_string());
    let mut state = UIState::default();
    assert!(app.needs_free_space(0));
    app.update_ui_state(&mut state, 0, 100);
    assert_eq!(state.file_list.len(), 3);
    assert_eq!(state.current_file_index, 0);
    let version = state.file_list_version;
    assert!(!app.needs_free_space(999));
    assert!(app.needs_free_space(1_000));
    // Moving leaves the rows alone.
    app.current_index = Some(0);
    app.file_list_update_pending = false;
    app.update_ui_state(&mut state, 10, 0);
    assert_eq!(state.current_file_index, 2);
    let sections = app.ui_update_cache.section_indices().unwrap().to_vec();
    assert_eq!(sections, [0, 2]);
    app.update_ui_state(&mut state, 1_000, 0);
    assert_eq!(app.ui_update_cache.section_indices().unwrap(), sections);
    assert_eq!(state.total_size, "4.5 KB / 4.5 KB");
    assert!(!app.needs_free_space(1_999));
    assert_eq!(state.total_files, "1/3");
    assert_eq!(state.file_list_version, version);
    // Playing marks one row and takes it back.
    app.playback_started(1, true, 1_020);
    app.file_list_update_pending = false;
    app.update_ui_state(&mut state, 1_030, 0);
    assert!(state.file_list[1].is_playing);
    assert_eq!(state.file_list_dirty_rows, [1]);
    app.stop_playback();
    app.file_list_update_pending = false;
    app.update_ui_state(&mut state, 1_040, 0);
    assert!(!state.file_list[1].is_playing);
    assert_eq!(state.file_list_dirty_rows, [1]);
    assert_eq!(state.file_list_version, version);
    // A take rebuilds the rows, and only its row runs on.
    app.recording_started("/b/chunks/000008.wav".to_string(), None, None, None, 1_000);
    app.update_ui_state(&mut state, 1_000, 0);
    assert_eq!(state.file_list.len(), 4);
    assert_eq!(state.file_list[0].duration, "00:00");
    let version = state.file_list_version;
    app.update_ui_state(&mut state, 3_100, 0);
    assert_eq!(state.file_list[0].duration, "00:02");
    assert_eq!(state.file_list_version, version);
}

#[test]
fn a_window_shows_the_list_after_every_tick() {
    let mut ticker = Ticker::new();
    let mut state = UIState::default();
    let mut shown: Vec<FileInfo> = vec![];
    state.file_list = vec![row("c"), row("b"), row("a")];
    state.file_list_version = 1;
    state.current_file_index = 2;
    let plan = ticker.tick(&mut state, None, 0, 0);
    assert!(plan.list.is_some());
    assert_eq!(plan.select, Some(2));
    assert!(plan.draw_previous && plan.draw_current);
    draw_list(&mut shown, &plan);
    assert_eq!(names(&shown), ["c", "b", "a"]);
    // One changed row.
    state.file_list[1] = row("x");
    state.mark_file_list_row_changed(1);
    state.mark_file_list_row_changed(1);
    assert_eq!(state.file_list_dirty_rows, [1]);
    let plan = ticker.tick(&mut state, None, 0, 0);
    assert!(plan.list.is_none());
    assert_eq!(plan.rows.len(), 1);
    assert_eq!(plan.select, None);
    assert!(!plan.draw_previous && !plan.draw_current);
    draw_list(&mut shown, &plan);
    assert_eq!(names(&shown), ["c", "x", "a"]);
    assert_eq!(state.file_list_dirty_rows.len(), 0);
    // A shorter list.
    state.file_list = vec![row("q")];
    state.file_list_version = 2;
    let plan = ticker.tick(&mut state, None, 0, 0);
    draw_list(&mut shown, &plan);
    assert_eq!(names(&shown), ["q"]);
    apply_file_list_to_model(&mut shown, &vec![row("r"), row("s")]);
    assert_eq!(names(&shown), ["r", "s"]);
}

#[test]
fn the_graph_of_a_take_is_drawn_on_every_third_tick() {
    let mut ticker = Ticker::new();
    let mut state = UIState::default();
    state.is_recording = true;
    let drawn: Vec<bool> = (0..6)
        .map(|_| ticker.tick(&mut state, None, 0, 7).draw_current)
        .collect();
    assert_eq!(drawn, [true, false, true, false, false, true]);
    ticker.waveform_tick = u32::MAX;
    assert!(ticker.tick(&mut state, None, 0, 7).draw_current);
    assert_eq!(ticker.waveform_tick, 0);
}

#[test]
fn keys_mean_commands_unless_a_dialog_is_open() {
    let keys = KeyBindings::default();
    let state = UIState::default();
    let press = |key: &str| WindowEvent::KeyPressed(key.to_string());
    assert_eq!(
        event_command(&press("r"), &keys, false, &state),
        Some(Action::Record {
            duration_secs: None
        })
    );
    // The same key on the Russian layout.
    assert_eq!(
        event_command(&press("к"), &keys, false, &state),
        Some(Action::Record {
            duration_secs: None
        })
    );
    assert_eq!(
        event_command(&press("\u{7f}"), &keys, false, &state),
        Some(Action::OpenDeleteChunkDialog)
    );
    assert_eq!(event_command(&press("r"), &keys, true, &state), None);
    assert_eq!(event_command(&press("z"), &keys, false, &state), None);
    assert_eq!(
        event_command(&WindowEvent::FileClicked(2), &keys, false, &state),
        Some(Action::Goto {
            index: Some(2),
            play: false
        })
    );
    assert_eq!(
        event_command(&WindowEvent::FileClicked(2), &keys, true, &state),
        None
    );
    assert_eq!(
        event_command(&WindowEvent::DeleteConfirm(1), &keys, true, &state),
        Some(Action::ConfirmDeleteChunk { ui_index: 1 })
    );
}

#[test]
fn an_export_is_cancelled_once_and_closed_when_it_ended() {
    let keys = KeyBindings::default();
    let mut state = UIState::default();
    let cancel = WindowEvent::CompileCancel;
    assert!(!cancel_enabled(&state));
    assert_eq!(event_command(&cancel, &keys, true, &state), None);
    state.is_compiling = true;
    state.compile_stage = "Merging".to_string();
    assert_eq!(
        event_command(&cancel, &keys, true, &state),
        Some(Action::CompileCancel)
    );
    event_done(&cancel, Some(Err("gone".to_string())), &mut state);
    assert_eq!(
        state.error_message,
        "Cannot request export cancellation: gone"
    );
    assert!(cancel_enabled(&state));
    event_done(&cancel, Some(Ok(())), &mut state);
    assert!(state.compile_cancel_requested);
    assert!(!cancel_enabled(&state));
    event_done(&WindowEvent::CompileClose, None, &mut state);
    assert!(state.is_compiling);
    state.compile_finished_at = Some(9);
    event_done(&WindowEvent::CompileClose, None, &mut state);
    assert!(!state.is_compiling && !state.compile_cancel_requested);
    assert_eq!(state.compile_stage, "");
    event_done(&WindowEvent::DismissError, None, &mut state);
    assert_eq!(state.error_message, "");
    event_done(
        &WindowEvent::OpenMarkers,
        Some(Err("full".to_string())),
        &mut state,
    );
    assert_eq!(state.error_message, "Cannot open marker settings: full");
    state.dialog_delete_open = true;
    state.dialog_shortcuts_open = true;
    event_done(&WindowEvent::DeleteCancel, None, &mut state);
    event_done(&WindowEvent::CloseShortcuts, None, &mut state);
    assert!(!state.dialog_delete_open && !state.dialog_shortcuts_open);
}

#[test]
fn a_double_click_opens_the_form_of_the_row() {
    let mut controller = DialogController::new();
    let mut window = window();
    let mut state = UIState::default();
    state.file_list = vec![row("b"), row("a")];
    let form = file_double_clicked(1, false, &state, &mut controller, &mut window).unwrap();
    assert_eq!(form.title, "title of a");
    assert!(window.chunk_open);
    assert_eq!(window.error_message, "");
    assert!(file_double_clicked(2, false, &state, &mut controller, &mut window).is_none());
    assert!(file_double_clicked(-1, false, &state, &mut controller, &mut window).is_none());
    assert!(file_double_clicked(0, true, &state, &mut controller, &mut window).is_none());
    assert!(project_dialog_requested(true, &state, &mut window).is_none());
    assert!(!window.project_open);
    state.dialog_project_title = "Book".to_string();
    state.dialog_project_cover = "c.png".to_string();
    state.dialog_project_denoise = true;
    let form = project_dialog_requested(false, &state, &mut window).unwrap();
    assert!(window.project_open);
    assert_eq!((form.title.as_str(), form.cover.as_str()), ("Book", "c.png"));
    assert!(form.denoise && !form.section_split);
    state.dialog_toc_list_text = "1. One".to_string();
    assert_eq!(contents_requested(false, &state).as_deref(), Some("1. One"));
    assert_eq!(contents_requested(true, &state), None);
}

#[test]
fn a_save_waits_for_its_own_answer() {
    let mut controller = DialogController::new();
    let mut window = window();
    let mut state = UIState::default();
    controller.save_project(&mut window, meta(), &sent);
    assert!(!window.busy);
    window.project_open = true;
    controller.save_project(&mut window, meta(), &full);
    assert_eq!(
        window.error_message,
        "Cannot submit changes: queue is full. Your edits are still here."
    );
    assert!(!window.busy);
    controller.save_project(&mut window, meta(), &|action| match action {
        Action::SaveDialog {
            request_id: 2,
            edit,
        } if matches!(*edit, DialogEdit::Meta(_)) => Ok(()),
        other => panic!("{other:?}"),
    });
    assert!(window.busy);
    assert!(!DialogController::may_close(&window));
    DialogController::cancel_project(&mut window);
    assert!(window.project_open);
    // An answer to an earlier request is not taken.
    answer(&mut state, 1, Ok(None));
    assert!(!controller.sync(&mut window, &mut state));
    assert!(window.busy && state.dialog_save_result.is_none());
    answer(&mut state, 2, Ok(None));
    assert!(controller.sync(&mut window, &mut state));
    assert!(!window.busy && !window.project_open);
}

#[test]
fn warnings_and_errors_leave_a_dialog_open() {
    let mut controller = DialogController::new();
    let mut window = window();
    let mut state = UIState::default();
    window.chunk_open = true;
    controller.open_chunk(&mut window, "chunks/a".to_string());
    let data = || ChunkSettingsData {
        ui_index: 0,
        title: String::new(),
        author: String::new(),
        year: String::new(),
        hint: String::new(),
    };
    controller.save_chunk(&mut window, data(), &|action| match action {
        Action::SaveDialog { edit, .. } => match *edit {
            DialogEdit::Chunk { expected_path, .. } if expected_path == "chunks/a" => Ok(()),
            other => panic!("{other:?}"),
        },
        other => panic!("{other:?}"),
    });
    answer(&mut state, 1, Ok(Some("not synced".to_string())));
    assert!(!controller.sync(&mut window, &mut state));
    assert!(window.chunk_open);
    assert_eq!(window.error_message, "Saved, but not synced");
    controller.save_chunk(&mut window, data(), &sent);
    answer(&mut state, 2, Err("moved".to_string()));
    controller.sync(&mut window, &mut state);
    assert_eq!(window.error_message, "moved");
    assert!(window.chunk_open && !window.busy);
    DialogController::cancel_chunk(&mut window);
    assert!(!window.chunk_open);
}

#[test]
fn marker_drafts_live_as_long_as_their_dialog() {
    let mut controller = DialogController::new();
    let mut window = window();
    let mut state = UIState::default();
    state.dialog_markers_open = true;
    state.dialog_marker_snapshot.insert(
        "part".to_string(),
        MarkerSettings {
            title: "Part".to_string(),
            shortcut: Some("1".to_string()),
            ..MarkerSettings::default()
        },
    );
    controller.sync(&mut window, &mut state);
    assert!(window.markers_open);
    assert_eq!(window.marker_list, ["part"]);
    assert_eq!(window.selected_index, 0);
    assert_eq!(window.shown.title, "Part");
    assert_eq!(
        window.status_message,
        "Save applies to the selected marker only."
    );
    // An unsaved text survives adding another marker.
    window.shown.title = "Edited".to_string();
    controller.add_marker(&mut window, "  intro ");
    assert_eq!(window.marker_list, ["intro", "part"]);
    assert_eq!(window.selected_index, 0);
    assert_eq!(window.status_message, "New marker — not saved yet.");
    controller.select_marker(&mut window, 1);
    assert_eq!(window.shown.title, "Edited");
    controller.select_marker(&mut window, 5);
    assert_eq!(window.selected_index, 1);
    controller.add_marker(&mut window, "part");
    assert_eq!(window.alias_error, "This alias already exists.");
    controller.add_marker(&mut window, "   ");
    assert_eq!(window.alias_error, "Enter a marker alias.");
    // A key that another marker has is refused before anything is sent.
    let mut form = empty_form("intro");
    form.title = "Intro".to_string();
    form.shortcut = "1".to_string();
    controller.save_marker(&mut window, form, &|_| panic!("sent"));
    assert!(!window.shortcut_error.is_empty());
    assert!(!window.busy);
    let mut form = empty_form("intro");
    form.title = "Intro".to_string();
    controller.save_marker(&mut window, form, &sent);
    assert!(window.busy);
    answer(&mut state, 1, Ok(None));
    controller.sync(&mut window, &mut state);
    assert_eq!(window.status_message, "Saved: intro");
    controller.update_meta(&mut window, &sent);
    answer(&mut state, 2, Ok(None));
    controller.sync(&mut window, &mut state);
    assert_eq!(window.status_message, "File metadata refreshed.");
    controller.cancel_markers(&mut window, &mut state);
    assert!(!window.markers_open && !state.dialog_markers_open);
}

#[test]
fn a_marker_form_saved_unchanged_gives_the_same_marker() {
    let marker = MarkerSettings {
        title: "Part".to_string(),
        hint: "h".to_string(),
        shortcut: Some("4".to_string()),
        section: true,
        assets: MarkerAssets {
            begin: MarkerAsset {
                audio: "a.wav".to_string(),
                kind: "add".to_string(),
                reduction: Some(30),
                repeat: Some(2),
            },
            end: MarkerAsset {
                audio: "b.wav".to_string(),
                kind: "underlay".to_string(),
                reduction: None,
                repeat: Some(1),
            },
        },
        ..MarkerSettings::default()
    };
    let again = validate_marker_form(&marker_form("part", &marker), Some(&marker)).unwrap();
    assert_eq!(format!("{again:?}"), format!("{marker:?}"));
}

#[test]
fn the_window_is_drawn_directly() {
    let mut app = App::new(book(), "/b/book.json".to_string());
    let mut state = UIState::default();
    app.update_ui(&mut state, false, 0, 1_024);
    assert_eq!(
        names(&state.file_list),
        ["000003.wav", "000002.wav", "000001.wav"]
    );
    assert_eq!(state.current_file_index, 0);
    // The status line comes first, before there is a list.
    assert_eq!(state.total_files, "0/3");
    assert_eq!(state.current_file_name, "");
    assert_eq!(state.total_duration, "01:04");
    assert_eq!(state.total_size, "4.5 KB / 5.5 KB");
    assert!(!state.is_recording);
    assert_eq!(state.recording_mode, "A");
    assert!(!app.file_list_update_pending && !app.status_line_update_pending);
    assert_eq!(app.last_file_list_update, Some(0));
    // A list that nothing changed stays for a while.
    let version = state.file_list_version;
    app.update_ui(&mut state, false, 249, 0);
    assert_eq!(state.file_list_version, version);
    app.update_ui(&mut state, false, 250, 0);
    assert_eq!(state.file_list_version, version + 1);
    assert_eq!(app.last_file_list_update, Some(250));
    // Moving shows the selection alone.
    app.current_index = Some(0);
    app.notify_ui_refresh(true, true);
    app.update_ui(&mut state, true, 1_000, 0);
    assert_eq!(state.current_file_index, 2);
    assert_eq!(state.total_files, "3/3");
    assert_eq!(state.current_file_name, "000001.wav");
    assert_eq!(state.file_list_version, version + 1);
    app.current_index = Some(7);
    app.update_ui(&mut state, true, 1_000, 0);
    assert_eq!(state.current_file_index, -1);
    app.current_index = None;
    app.update_ui(&mut state, true, 1_000, 0);
    assert_eq!(state.current_file_index, -1);
}

#[test]
fn a_running_take_keeps_its_status_line_moving() {
    let mut app = App::new(book(), "/b/book.json".to_string());
    let mut state = UIState::default();
    app.recording_started("/b/chunks/000008.wav".to_string(), None, None, None, 1_000);
    app.update_ui(&mut state, false, 1_000, 0);
    // A take without a length is not in the list.
    assert_eq!(state.file_list.len(), 3);
    assert!(state.is_recording);
    assert!(app.status_line_update_pending);
    app.update_ui(&mut state, false, 4_000, 0);
    assert_eq!(state.file_list.len(), 4);
    assert_eq!(state.file_list[0].name, "000008.wav");
    assert_eq!(state.file_list[0].duration, "00:03");
    assert_eq!(state.total_duration, "01:04 / 00:03");
    assert_eq!(state.current_file_index, 0);
    app.current_index = Some(1);
    app.update_ui(&mut state, true, 4_100, 0);
    assert_eq!(state.current_file_index, 0);
}

#[test]
fn a_list_marks_the_playing_row_and_an_inserted_take() {
    let files = book().files;
    let mut state = UIState::default();
    state.update_file_list(&files, Some(1), 0, true, "", RecordingMode::Append);
    assert!(state.file_list[1].is_playing);
    assert_eq!(state.current_file_index, 1);
    state.update_file_list(&files, Some(0), 2_000, false, "a/n.wav", RecordingMode::Insert);
    assert_eq!(
        names(&state.file_list),
        ["000003.wav", "000002.wav", "n.wav", "000001.wav"]
    );
    assert_eq!(state.current_file_index, 2);
    assert_eq!(state.file_list[2].start_time, "01:01");
    state.update_file_list(&files, Some(0), 2_000, false, "a/n.wav", RecordingMode::Update);
    assert_eq!(state.file_list.len(), 3);
    assert!(state.file_list[2].is_recording);
    assert_eq!(state.current_file_index, 2);
    state.update_file_list(&[], None, 0, false, "", RecordingMode::Append);
    assert_eq!(state.current_file_index, -1);
}

#[test]
fn a_status_line_adds_what_was_recorded() {
    let files = book().files;
    let mut state = UIState::default();
    state.update_status_line(Some(2), &files, 3_600_000, None, 0, RecordingMode::Insert);
    assert_eq!(state.total_files, "1/3");
    assert_eq!(state.total_duration, "01:04 / 01:00:00");
    assert_eq!(state.recording_mode, "I");
    state.update_status_line(Some(3), &files, 0, Some(0), 0, RecordingMode::Update);
    assert_eq!(state.total_files, "0/3");
    assert_eq!(state.total_duration, "01:04 / 00:00");
    assert!(state.is_recording);
    state.file_list = vec![row("a")];
    state.update_status_line(None, &files, 0, None, 0, RecordingMode::Update);
    assert_eq!(state.total_files, "3/3");
}
