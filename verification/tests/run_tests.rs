use iamreader::app::app::{App, AppState};
use iamreader::app::dialog_handler::cancel_compile;
use iamreader::app::run::{graph_arrived, publish_graphs, push_level, TAKE_GRAPH_LEVELS};
use iamreader::audio::waveform_loader::WaveformSlot;
use iamreader::project::compile_progress::{ProgressError, Report};
use iamreader::project::compiler::{export_steps, section_ranges, ExportStep};
use iamreader::project::export_run::{
    plan_export, worker_refused, worker_stopped, ExportTask, SectionProgress, StepError,
};
use iamreader::project::project::{MarkerSettings, Project, ProjectFile};
use iamreader::ui::ui::UIState;
use iamreader::utils::transcription::TranscriptionUpdate;

fn fragment(path: &str, markers: &[&str]) -> ProjectFile {
    ProjectFile {
        path: path.to_string(),
        title: String::new(),
        author: String::new(),
        year: String::new(),
        hint: String::new(),
        markers: markers.iter().map(|m| m.to_string()).collect(),
        size: 0,
        duration_ms: 1000,
    }
}

fn book() -> Project {
    let mut project = Project::load(None).unwrap();
    project.files = vec![
        fragment("chunks/a.wav", &[]),
        fragment("chunks/b.wav", &["part"]),
        fragment("chunks/c.wav", &[]),
    ];
    project.markers.insert(
        "part".to_string(),
        MarkerSettings {
            section: true,
            ..MarkerSettings::default()
        },
    );
    project
}

fn running() -> UIState {
    UIState {
        is_compiling: true,
        ..UIState::default()
    }
}

fn report(done: u64, total: u64, now_ms: u64) -> Report {
    Report {
        done,
        total,
        finished: false,
        cancelled: false,
        cancelled_since: false,
        now_ms,
    }
}

fn merged(tasks: &[ExportTask]) -> Vec<usize> {
    tasks
        .iter()
        .filter_map(|task| match task {
            ExportTask::Merge { file, .. } => Some(*file),
            _ => None,
        })
        .collect()
}

#[test]
fn a_recording_is_prepared_mixed_and_merged() {
    let tasks = plan_export(&[(0, 1)], false, true);
    let section = 0;
    let file = 0;
    assert_eq!(
        tasks,
        [
            ExportTask::CheckCancel,
            ExportTask::Open { section },
            ExportTask::Show {
                section,
                file,
                stage: 1,
                third: 0
            },
            ExportTask::CheckCancel,
            ExportTask::Prepare { file },
            ExportTask::Show {
                section,
                file,
                stage: 2,
                third: 1
            },
            ExportTask::CheckCancel,
            ExportTask::Mix { file },
            ExportTask::CheckCancel,
            ExportTask::Merge { section, file },
            ExportTask::Close { section },
            ExportTask::ReleaseModel,
            ExportTask::CheckOutput { section },
            ExportTask::Perform {
                section,
                step: ExportStep::Analyze
            },
            ExportTask::Perform {
                section,
                step: ExportStep::Normalize
            },
            ExportTask::ReportTags { section },
            ExportTask::Stage { section },
            ExportTask::ReportTags { section },
            ExportTask::Perform {
                section,
                step: ExportStep::Metadata
            },
            ExportTask::ReportTags { section },
            ExportTask::Settle { section },
            ExportTask::CheckCancel,
            ExportTask::Inspect { section },
            ExportTask::Announce { section },
            ExportTask::CheckCancel,
            ExportTask::Publish,
        ]
    );
}

#[test]
fn every_recording_is_merged_once_in_the_order_of_the_book() {
    let project = book();
    for split in [false, true] {
        for mp3 in [false, true] {
            let ranges = section_ranges(&project.files, &project.markers, split);
            let tasks = plan_export(&ranges, mp3, true);
            assert_eq!(merged(&tasks), [0, 1, 2]);
            let published = tasks.iter().filter(|t| **t == ExportTask::Publish).count();
            assert_eq!(published, 1);
            assert_eq!(tasks.last(), Some(&ExportTask::Publish));
            let released = tasks
                .iter()
                .filter(|t| **t == ExportTask::ReleaseModel)
                .count();
            assert_eq!(released, 1);
        }
    }
}

#[test]
fn the_performed_steps_are_the_listed_ones() {
    for (format, mp3) in [("wav", false), ("mp3", true)] {
        for normalize in [false, true] {
            let performed: Vec<ExportStep> = plan_export(&[(0, 2)], mp3, normalize)
                .iter()
                .filter_map(|task| match task {
                    ExportTask::Perform { step, .. } => Some(*step),
                    _ => None,
                })
                .collect();
            assert_eq!(performed, export_steps(format, normalize));
        }
    }
}

#[test]
fn an_encoded_merge_is_removed_and_not_inspected() {
    let tasks = plan_export(&[(0, 1), (1, 2)], true, false);
    assert!(tasks.contains(&ExportTask::RemoveMerge { section: 1 }));
    assert!(!tasks
        .iter()
        .any(|t| matches!(t, ExportTask::Inspect { .. } | ExportTask::Stage { .. })));
}

#[test]
fn a_new_step_ends_the_one_before() {
    let mut state = running();
    let mut progress = SectionProgress::new(1, 3, false, true, 44_100, 2);
    let shown = progress
        .report(&mut state, ExportStep::Analyze, report(0, 88_200, 0))
        .unwrap();
    assert_eq!(shown.len(), 1);
    assert_eq!(shown[0].0, 0);
    assert_eq!(
        state.compile_stage,
        "Section 2/3 · Analyze level: 0% · 00:00:00 / 00:00:01"
    );
    // Reports in between are not shown.
    let shown = progress
        .report(&mut state, ExportStep::Analyze, report(44_100, 88_200, 50))
        .unwrap();
    assert_eq!(shown.len(), 0);
    let shown = progress
        .report(&mut state, ExportStep::Normalize, report(0, 88_200, 60))
        .unwrap();
    assert_eq!(shown.len(), 2);
    assert!(shown[0].0 == 0 && shown[0].1.complete);
    assert!(shown[1].0 == 1 && !shown[1].1.complete);
    let shown = progress
        .report(&mut state, ExportStep::Metadata, report(0, 0, 70))
        .unwrap();
    assert_eq!(shown[1].0, 2);
    assert_eq!(
        state.compile_stage,
        "Section 2/3 · Write metadata: working…"
    );
    let shown = progress.settle(&mut state, false, false, 80).unwrap();
    assert_eq!(shown.len(), 1);
    assert_eq!(
        state.compile_stage,
        "Section 2/3 · Write metadata: completed"
    );
}

#[test]
fn steps_are_refused_when_cancelled_or_unknown() {
    let mut state = running();
    let mut progress = SectionProgress::new(0, 1, false, false, 44_100, 2);
    let refused = progress
        .report(&mut state, ExportStep::Encode, report(0, 1, 0))
        .unwrap_err();
    assert_eq!(refused, StepError::Unexpected);
    assert_eq!(refused.message(), "Unexpected export step");
    let refused = progress
        .report(
            &mut state,
            ExportStep::Metadata,
            Report {
                cancelled: true,
                ..report(0, 1, 0)
            },
        )
        .unwrap_err();
    assert_eq!(refused, StepError::Progress(ProgressError::Cancelled));
    assert_eq!(refused.message(), "Compilation cancelled");
    assert_eq!(state.compile_stage, "Cancelling…");
    let mut fresh = SectionProgress::new(0, 1, false, false, 44_100, 2);
    assert_eq!(fresh.settle(&mut state, false, false, 0).unwrap().len(), 0);
}

#[test]
fn a_broken_worker_is_shown() {
    let mut state = running();
    state.compile_publishing = true;
    worker_refused(&mut state, "no memory", 3);
    assert_eq!(
        state.compile_stage,
        "Error: cannot start export worker: no memory"
    );
    assert_eq!(state.compile_finished_at, Some(3));
    worker_stopped(&mut state, "index out of range", 4);
    assert_eq!(
        state.compile_stage,
        "Error: export worker stopped unexpectedly"
    );
    assert_eq!(
        state.error_message,
        "Export worker stopped unexpectedly: index out of range. \
         Check the export directory before retrying."
    );
    assert!(!state.compile_publishing);
    assert_eq!(state.compile_finished_at, Some(4));
}

#[test]
fn the_graph_of_a_take_keeps_its_newest_levels() {
    let mut graph: Vec<u32> = vec![];
    for level in 0..(TAKE_GRAPH_LEVELS as u32 + 2) {
        push_level(&mut graph, level);
    }
    assert_eq!(graph.len(), TAKE_GRAPH_LEVELS);
    assert_eq!(graph[0], 2);
    assert_eq!(graph.last(), Some(&(TAKE_GRAPH_LEVELS as u32 + 1)));
}

#[test]
fn graphs_are_published_with_a_new_version() {
    let mut state = UIState::default();
    publish_graphs(&mut state, true, true);
    assert_eq!(state.waveform_version, 1);
    graph_arrived(&mut state, WaveformSlot::Previous);
    assert!(!state.waveform_prev_loading && state.waveform_current_loading);
    state.waveform_version = u64::MAX;
    graph_arrived(&mut state, WaveformSlot::Current);
    assert!(!state.waveform_current_loading);
    assert_eq!(state.waveform_version, 0);
}

#[test]
fn late_words_change_nothing() {
    let mut app = App::new(book(), "/b/book.json".to_string());
    let update = |hint: &str| TranscriptionUpdate {
        file_path: "chunks/b.wav".to_string(),
        previous_hint: hint.to_string(),
        text: "heard".to_string(),
    };
    assert_eq!(app.take_transcription(&update("other")).len(), 0);
    assert_eq!(app.project.files[1].hint, "");
    let effects = app.take_transcription(&update(""));
    assert_eq!(
        format!("{effects:?}"),
        "[SaveOrReport(\"Failed to save transcription result\"), Changed]"
    );
    assert_eq!(app.project.files[1].hint, "heard");
    assert_eq!(app.take_transcription(&update("")).len(), 0);
}

#[test]
fn silent_players_end_playing() {
    let mut app = App::new(book(), "/b/book.json".to_string());
    assert_eq!(app.players_seen(true).len(), 0);
    app.playback_started(1, true, 0);
    assert_eq!(app.players_seen(false).len(), 0);
    assert_eq!(app.players_seen(true).len(), 4);
    assert!(matches!(app.state, AppState::Idle));
    let mut state = UIState::default();
    app.report_error(&mut state, "no device");
    assert_eq!(state.error_message, "no device");
    app.file_list_update_pending = false;
    app.set_ui_state();
    assert!(app.file_list_update_pending);
}

#[test]
fn an_export_is_asked_to_stop_only_while_it_can() {
    let mut state = UIState::default();
    assert!(!cancel_compile(&mut state, false));
    assert!(!state.compile_cancel_requested);
    state.compile_publishing = true;
    assert!(!cancel_compile(&mut state, true));
    state.compile_publishing = false;
    state.compile_finished_at = Some(1);
    assert!(!cancel_compile(&mut state, true));
    state.compile_finished_at = None;
    assert!(cancel_compile(&mut state, true));
    assert!(state.compile_cancel_requested);
    assert_eq!(state.compile_stage, "Cancelling…");
}
