//! The state of the recorder.
use crate::project::project;
use crate::project::project::Project;
use crate::ui::updater::{UiUpdateCache, UiUpdateKey};
use crate::utils::indexes;
use crate::utils::paths;
use vstd::prelude::*;

verus! {

/// How a recording goes into the project: behind it, over a fragment, or between.
#[derive(Clone, Copy, Debug, PartialEq, Eq, Structural)]
pub enum RecordingMode {
    Append,
    Update,
    Insert,
}

impl RecordingMode {
    /// The letter that a mode is shown as.
    pub open spec fn letter(self) -> Seq<char> {
        match self {
            RecordingMode::Append => "A"@,
            RecordingMode::Update => "U"@,
            RecordingMode::Insert => "I"@,
        }
    }

    pub fn as_str(self) -> (r: &'static str)
        ensures
            r@ == self.letter(),
    {
        match self {
            RecordingMode::Append => "A",
            RecordingMode::Update => "U",
            RecordingMode::Insert => "I",
        }
    }
}

/// How long the window's copy stays as it is, in milliseconds.
pub const UI_UPDATE_THROTTLE_MS: u64 = 50;

/// How long a list that nothing changed stays as it is, in milliseconds.
pub const FILE_LIST_UPDATE_THROTTLE_MS: u64 = 250;

/// What the recorder does.
#[derive(Debug)]
pub enum AppState {
    Idle,
    Recording {
        writer_path: String,
        /// In milliseconds of the clock, as every time here.
        start_ms: u64,
        duration_secs: Option<u64>,
    },
    Playing { current_index: usize, start_ms: u64 },
}

/// What the contracts know of [`AppState`].
#[verifier::ext_equal]
pub ghost enum AppStateModel {
    Idle,
    Recording { writer_path: Seq<char>, start_ms: u64, duration_secs: Option<u64> },
    Playing { current_index: usize, start_ms: u64 },
}

impl View for AppState {
    type V = AppStateModel;

    open spec fn view(&self) -> AppStateModel {
        match self {
            AppState::Idle => AppStateModel::Idle,
            AppState::Recording { writer_path, start_ms, duration_secs } => AppStateModel::Recording {
                writer_path: writer_path@,
                start_ms: *start_ms,
                duration_secs: *duration_secs,
            },
            AppState::Playing { current_index, start_ms } => AppStateModel::Playing {
                current_index: *current_index,
                start_ms: *start_ms,
            },
        }
    }
}

/// A recorder and the project it works on.
pub struct App {
    pub project: Project,
    pub project_path: String,
    pub chunks_dir: String,
    pub state: AppState,
    /// The selected fragment; the newest one if none is.
    pub current_index: Option<usize>,
    pub recording_mode: RecordingMode,
    /// Over which fragment the running take goes.
    pub update_recording_index: Option<usize>,
    /// Where the running take goes in.
    pub insert_recording_index: Option<usize>,
    pub should_exit: bool,
    pub last_ui_update: Option<u64>,
    pub last_file_list_update: Option<u64>,
    pub file_list_update_pending: bool,
    pub status_line_update_pending: bool,
    pub ui_update_cache: UiUpdateCache,
}

/// What the contracts know of [`App`].
#[verifier::ext_equal]
pub ghost struct AppModel {
    pub project: project::ProjectModel,
    pub project_path: Seq<char>,
    pub chunks_dir: Seq<char>,
    pub state: AppStateModel,
    pub current_index: Option<usize>,
    pub recording_mode: RecordingMode,
    pub update_recording_index: Option<usize>,
    pub insert_recording_index: Option<usize>,
    pub should_exit: bool,
    pub last_ui_update: Option<u64>,
    pub last_file_list_update: Option<u64>,
    pub file_list_update_pending: bool,
    pub status_line_update_pending: bool,
    pub ui_update_cache: UiUpdateCache,
}

impl View for App {
    type V = AppModel;

    open spec fn view(&self) -> AppModel {
        AppModel {
            project: self.project@,
            project_path: self.project_path@,
            chunks_dir: self.chunks_dir@,
            state: self.state@,
            current_index: self.current_index,
            recording_mode: self.recording_mode,
            update_recording_index: self.update_recording_index,
            insert_recording_index: self.insert_recording_index,
            should_exit: self.should_exit,
            last_ui_update: self.last_ui_update,
            last_file_list_update: self.last_file_list_update,
            file_list_update_pending: self.file_list_update_pending,
            status_line_update_pending: self.status_line_update_pending,
            ui_update_cache: self.ui_update_cache,
        }
    }
}

/// The directory of a project file.
pub open spec fn project_dir(project_path: Seq<char>) -> Seq<char> {
    match paths::parent_spec(project_path) {
        Some(dir) => dir,
        None => "."@,
    }
}

/// The directory of a project file's recordings.
pub open spec fn recordings_dir(project_path: Seq<char>) -> Seq<char> {
    paths::joined(project_dir(project_path), "chunks"@)
}

/// The selected fragment of a project that is not empty: the one that plays, the
/// one that was chosen, or the newest.
pub open spec fn selected_place(a: AppModel) -> int {
    match (a.state, a.current_index) {
        (AppStateModel::Playing { current_index, .. }, _) => current_index as int,
        (_, Some(index)) => index as int,
        _ => a.project.files.len() - 1,
    }
}

/// The selected fragment and its place in the list.
pub open spec fn selection(a: AppModel) -> Option<(int, int)> {
    let total = a.project.files.len() as int;
    let place = selected_place(a);
    if total == 0 || place >= total {
        None
    } else {
        Some((place, indexes::ui_place(place, total)))
    }
}

/// What a copy of the project is made for.
pub open spec fn update_key(a: AppModel) -> UiUpdateKey {
    UiUpdateKey {
        current_index: match a.current_index {
            Some(index) => Some(index),
            None => if a.project.files.len() == 0 {
                None
            } else {
                Some((a.project.files.len() - 1) as usize)
            },
        },
        total_files: a.project.files.len() as usize,
        recording_mode: a.recording_mode,
        recording_started: match a.state {
            AppStateModel::Recording { start_ms, .. } => Some(start_ms),
            _ => None,
        },
        playing_index: match a.state {
            AppStateModel::Playing { current_index, .. } => Some(current_index),
            _ => None,
        },
        record_length_ms: a.project.stats.record_length as u64,
    }
}

/// Whether a take has reached the length that was asked for.
pub open spec fn take_is_over(state: AppStateModel, now_ms: u64) -> bool {
    match state {
        AppStateModel::Recording { start_ms, duration_secs: Some(seconds), .. } => {
            now_ms - start_ms >= seconds * 1000 && now_ms >= start_ms || seconds == 0
        },
        _ => false,
    }
}

/// Whether the window's copy has been left alone for long enough.
pub open spec fn copy_is_due(last: Option<u64>, now_ms: u64) -> bool {
    match last {
        Some(last) => now_ms - last >= UI_UPDATE_THROTTLE_MS,
        None => true,
    }
}

/// Whether the list is to be built anew.
pub open spec fn list_is_due(a: AppModel, now_ms: u64) -> bool {
    a.file_list_update_pending || match a.last_file_list_update {
        Some(last) => now_ms - last >= FILE_LIST_UPDATE_THROTTLE_MS,
        None => true,
    }
}

impl App {
    /// A recorder at rest on a project that was just read. Its recordings stand in
    /// the directory `chunks` beside the project file.
    pub fn new(project: Project, project_path: String) -> (r: Self)
        ensures
            r@.project == project@,
            r@.project_path == project_path@,
            r@.chunks_dir == recordings_dir(project_path@),
            r@.state is Idle,
            r@.current_index is None,
            r@.recording_mode == RecordingMode::Append,
            r@.update_recording_index is None,
            r@.insert_recording_index is None,
            !r@.should_exit,
            r@.last_ui_update is None,
            r@.last_file_list_update is None,
            r@.file_list_update_pending,
            r@.status_line_update_pending,
            r@.ui_update_cache.built_for() is None,
    {
        let dir = match paths::parent(project_path.as_str()) {
            Some(dir) => dir,
            None => ".".to_owned(),
        };
        let chunks_dir = paths::join(dir.as_str(), "chunks");
        App {
            project,
            project_path,
            chunks_dir,
            state: AppState::Idle,
            current_index: None,
            recording_mode: RecordingMode::Append,
            update_recording_index: None,
            insert_recording_index: None,
            should_exit: false,
            last_ui_update: None,
            last_file_list_update: None,
            file_list_update_pending: true,
            status_line_update_pending: true,
            ui_update_cache: UiUpdateCache::default(),
        }
    }

    /// The full path of a recording of the project.
    pub fn resolve_file_path(&self, stored: &str) -> (r: String)
        ensures
            r@ == paths::joined(project_dir(self@.project_path), stored@),
    {
        let dir = match paths::parent(self.project_path.as_str()) {
            Some(dir) => dir,
            None => ".".to_owned(),
        };
        paths::resolve_project_file(dir.as_str(), stored)
    }

    pub(crate) fn is_recording(&self) -> (r: bool)
        ensures
            r == self@.state is Recording,
    {
        match &self.state {
            AppState::Recording { .. } => true,
            _ => false,
        }
    }

    pub(crate) fn is_playing(&self) -> (r: bool)
        ensures
            r == self@.state is Playing,
    {
        match &self.state {
            AppState::Playing { .. } => true,
            _ => false,
        }
    }

    /// The selected fragment and its place in the list; nothing without fragments.
    pub fn current_orig_and_ui(&self) -> (r: Option<(usize, i32)>)
        requires
            self@.project.files.len() <= i32::MAX,
        ensures
            match (r, selection(self@)) {
                (Some((orig, ui)), Some((place, shown))) => orig == place && ui == shown,
                (None, None) => true,
                _ => false,
            },
    {
        let total: usize = self.project.files.len();
        assert(total == self@.project.files.len());
        if total == 0 {
            return None;
        }
        let orig: usize = match &self.state {
            AppState::Playing { current_index, .. } => *current_index,
            _ => match self.current_index {
                Some(index) => index,
                None => total - 1,
            },
        };
        let ui: i32 = indexes::orig_to_ui_index(orig, total);
        if ui < 0 {
            None
        } else {
            Some((orig, ui))
        }
    }

    /// What the window's copy would be made for now.
    pub fn update_key(&self) -> (r: UiUpdateKey)
        ensures
            r == update_key(self@),
    {
        let total: usize = self.project.files.len();
        assert(total == self@.project.files.len());
        UiUpdateKey {
            current_index: match self.current_index {
                Some(index) => Some(index),
                None => if total == 0 {
                    None
                } else {
                    Some(total - 1)
                },
            },
            total_files: total,
            recording_mode: self.recording_mode,
            recording_started: match &self.state {
                AppState::Recording { start_ms, .. } => Some(*start_ms),
                _ => None,
            },
            playing_index: match &self.state {
                AppState::Playing { current_index, .. } => Some(*current_index),
                _ => None,
            },
            record_length_ms: self.project.stats.record_length,
        }
    }

    /// Asks for the status line, and for the list unless it is skipped.
    pub fn notify_ui_refresh(&mut self, status_line: bool, skip_list: bool)
        ensures
            final(self)@ == (AppModel {
                status_line_update_pending: old(self)@.status_line_update_pending || status_line,
                file_list_update_pending: old(self)@.file_list_update_pending || !skip_list,
                ..old(self)@
            }),
    {
        if status_line {
            self.status_line_update_pending = true;
        }
        if !skip_list {
            self.file_list_update_pending = true;
        }
    }

    /// Asks for everything to be shown anew.
    pub fn update_ui_after_change(&mut self)
        ensures
            final(self)@ == (AppModel {
                status_line_update_pending: true,
                file_list_update_pending: true,
                ..old(self)@
            }),
    {
        self.file_list_update_pending = true;
        self.status_line_update_pending = true;
        self.notify_ui_refresh(false, false);
    }

    /// Whether the list is to be built anew in this round.
    pub fn list_due(&self, now_ms: u64) -> (r: bool)
        ensures
            r == list_is_due(self@, now_ms),
    {
        self.file_list_update_pending || match self.last_file_list_update {
            Some(last) => now_ms.saturating_sub(last) >= FILE_LIST_UPDATE_THROTTLE_MS,
            None => true,
        }
    }

    /// Whether the window's copy is to be brought up to date in this round.
    pub fn copy_due(&self, now_ms: u64) -> (r: bool)
        ensures
            r == copy_is_due(self@.last_ui_update, now_ms),
    {
        match self.last_ui_update {
            Some(last) => now_ms.saturating_sub(last) >= UI_UPDATE_THROTTLE_MS,
            None => true,
        }
    }

    /// Whether the running take has reached the length that was asked for.
    pub fn take_over(&self, now_ms: u64) -> (r: bool)
        ensures
            r == take_is_over(self@.state, now_ms),
    {
        match &self.state {
            AppState::Recording { start_ms, duration_secs: Some(seconds), .. } => {
                now_ms.saturating_sub(*start_ms) as u128 >= *seconds as u128 * 1000
            },
            _ => false,
        }
    }

    /// Whether a round is the last one.
    pub fn exits(&self, running: bool) -> (r: bool)
        ensures
            r == (!running || self@.should_exit),
    {
        !running || self.should_exit
    }
}

} // verus!
