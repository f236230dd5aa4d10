//! The state that the window shows.
use crate::project::marker_map::MarkerMap;
use crate::project::project;
use crate::ui::dialogs;
use crate::ui::dialogs::DialogReply;
use vstd::prelude::*;

verus! {

/// One row of the recording list.
#[derive(Debug)]
pub struct FileInfo {
    pub index: i32,
    pub name: String,
    pub path: String,
    pub markers: String,
    pub duration: String,
    pub start_time: String,
    pub size: String,
    pub is_recording: bool,
    pub is_playing: bool,
    pub title: String,
    pub author: String,
    pub year: String,
    pub hint: String,
}

/// What the contracts know of [`FileInfo`].
#[verifier::ext_equal]
pub ghost struct FileInfoModel {
    pub index: int,
    pub name: Seq<char>,
    pub path: Seq<char>,
    pub markers: Seq<char>,
    pub duration: Seq<char>,
    pub start_time: Seq<char>,
    pub size: Seq<char>,
    pub is_recording: bool,
    pub is_playing: bool,
    pub title: Seq<char>,
    pub author: Seq<char>,
    pub year: Seq<char>,
    pub hint: Seq<char>,
}

impl View for FileInfo {
    type V = FileInfoModel;

    open spec fn view(&self) -> FileInfoModel {
        FileInfoModel {
            index: self.index as int,
            name: self.name@,
            path: self.path@,
            markers: self.markers@,
            duration: self.duration@,
            start_time: self.start_time@,
            size: self.size@,
            is_recording: self.is_recording,
            is_playing: self.is_playing,
            title: self.title@,
            author: self.author@,
            year: self.year@,
            hint: self.hint@,
        }
    }
}

impl Clone for FileInfo {
    fn clone(&self) -> (r: Self)
        ensures
            r@ == self@,
    {
        FileInfo {
            index: self.index,
            name: self.name.clone(),
            path: self.path.clone(),
            markers: self.markers.clone(),
            duration: self.duration.clone(),
            start_time: self.start_time.clone(),
            size: self.size.clone(),
            is_recording: self.is_recording,
            is_playing: self.is_playing,
            title: self.title.clone(),
            author: self.author.clone(),
            year: self.year.clone(),
            hint: self.hint.clone(),
        }
    }
}

/// A row that shows nothing.
pub open spec fn empty_row() -> FileInfoModel {
    FileInfoModel {
        index: 0,
        name: Seq::empty(),
        path: Seq::empty(),
        markers: Seq::empty(),
        duration: Seq::empty(),
        start_time: Seq::empty(),
        size: Seq::empty(),
        is_recording: false,
        is_playing: false,
        title: Seq::empty(),
        author: Seq::empty(),
        year: Seq::empty(),
        hint: Seq::empty(),
    }
}

impl Default for FileInfo {
    fn default() -> (r: Self)
        ensures
            r@ == empty_row(),
    {
        FileInfo {
            index: 0,
            name: String::new(),
            path: String::new(),
            markers: String::new(),
            duration: String::new(),
            start_time: String::new(),
            size: String::new(),
            is_recording: false,
            is_playing: false,
            title: String::new(),
            author: String::new(),
            year: String::new(),
            hint: String::new(),
        }
    }
}

/// The models of a list of rows.
pub open spec fn row_models(rows: Seq<FileInfo>) -> Seq<FileInfoModel> {
    rows.map_values(|r: FileInfo| r@)
}

/// The state that the window shows.
#[derive(Debug)]
pub struct UIState {
    /// How often the graphs were prepared, whatever the list and the selection.
    pub waveform_version: u64,
    pub waveform_current_loading: bool,
    pub waveform_prev_loading: bool,
    pub file_list: Vec<FileInfo>,
    pub current_file_index: i32,
    pub current_file_name: String,
    pub total_files: String,
    pub total_duration: String,
    pub total_size: String,
    pub is_recording: bool,
    pub dialog_project_title: String,
    pub dialog_project_author: String,
    pub dialog_project_year: String,
    pub dialog_project_hint: String,
    pub dialog_project_reader: String,
    pub dialog_project_format_audio: String,
    pub dialog_project_normalize: bool,
    pub dialog_project_cover: String,
    pub dialog_project_section_split: bool,
    pub dialog_project_denoise: bool,
    pub hintbox_current_start: String,
    pub hintbox_current_end: String,
    pub hintbox_prev: String,
    pub hintbox_prev_start: String,
    pub hintbox_prev_end: String,
    pub section_titles: String,
    pub dialog_toc_list_text: String,
    pub dialog_save_result: Option<DialogReply>,
    pub dialog_marker_snapshot: MarkerMap,
    pub dialog_markers_open: bool,
    pub compile_stage: String,
    /// The text of all stages of an export.
    pub dialog_compile_stages_text: String,
    /// The export window stays open after the end, until it is closed.
    pub is_compiling: bool,
    pub compile_cancel_requested: bool,
    pub compile_publishing: bool,
    /// A time means that the export ended; nothing closes the window by itself.
    pub compile_finished_at: Option<u64>,
    /// The version of the whole list; single rows go through the dirty rows.
    pub file_list_version: u64,
    /// Rows that changed without a new list; no row occurs twice.
    pub file_list_dirty_rows: Vec<usize>,
    pub dialog_shortcuts_open: bool,
    pub dialog_shortcuts_list_text: String,
    pub recording_mode: String,
    pub dialog_delete_open: bool,
    pub dialog_delete_text: String,
    pub dialog_delete_file_index: i32,
    /// The last error; it stays until it is dismissed.
    pub error_message: String,
}

/// What the contracts know of [`UIState`].
#[verifier::ext_equal]
pub ghost struct UIStateModel {
    pub waveform_version: u64,
    pub waveform_current_loading: bool,
    pub waveform_prev_loading: bool,
    pub file_list: Seq<FileInfoModel>,
    pub current_file_index: i32,
    pub current_file_name: Seq<char>,
    pub total_files: Seq<char>,
    pub total_duration: Seq<char>,
    pub total_size: Seq<char>,
    pub is_recording: bool,
    pub dialog_project_title: Seq<char>,
    pub dialog_project_author: Seq<char>,
    pub dialog_project_year: Seq<char>,
    pub dialog_project_hint: Seq<char>,
    pub dialog_project_reader: Seq<char>,
    pub dialog_project_format_audio: Seq<char>,
    pub dialog_project_normalize: bool,
    pub dialog_project_cover: Seq<char>,
    pub dialog_project_section_split: bool,
    pub dialog_project_denoise: bool,
    pub hintbox_current_start: Seq<char>,
    pub hintbox_current_end: Seq<char>,
    pub hintbox_prev: Seq<char>,
    pub hintbox_prev_start: Seq<char>,
    pub hintbox_prev_end: Seq<char>,
    pub section_titles: Seq<char>,
    pub dialog_toc_list_text: Seq<char>,
    pub dialog_save_result: Option<dialogs::DialogReplyModel>,
    pub dialog_marker_snapshot: Map<Seq<char>, project::MarkerSettingsModel>,
    pub dialog_markers_open: bool,
    pub compile_stage: Seq<char>,
    pub dialog_compile_stages_text: Seq<char>,
    pub is_compiling: bool,
    pub compile_cancel_requested: bool,
    pub compile_publishing: bool,
    pub compile_finished_at: Option<u64>,
    pub file_list_version: u64,
    pub file_list_dirty_rows: Seq<usize>,
    pub dialog_shortcuts_open: bool,
    pub dialog_shortcuts_list_text: Seq<char>,
    pub recording_mode: Seq<char>,
    pub dialog_delete_open: bool,
    pub dialog_delete_text: Seq<char>,
    pub dialog_delete_file_index: i32,
    pub error_message: Seq<char>,
}

impl View for UIState {
    type V = UIStateModel;

    open spec fn view(&self) -> UIStateModel {
        UIStateModel {
            waveform_version: self.waveform_version,
            waveform_current_loading: self.waveform_current_loading,
            waveform_prev_loading: self.waveform_prev_loading,
            file_list: row_models(self.file_list@),
            current_file_index: self.current_file_index,
            current_file_name: self.current_file_name@,
            total_files: self.total_files@,
            total_duration: self.total_duration@,
            total_size: self.total_size@,
            is_recording: self.is_recording,
            dialog_project_title: self.dialog_project_title@,
            dialog_project_author: self.dialog_project_author@,
            dialog_project_year: self.dialog_project_year@,
            dialog_project_hint: self.dialog_project_hint@,
            dialog_project_reader: self.dialog_project_reader@,
            dialog_project_format_audio: self.dialog_project_format_audio@,
            dialog_project_normalize: self.dialog_project_normalize,
            dialog_project_cover: self.dialog_project_cover@,
            dialog_project_section_split: self.dialog_project_section_split,
            dialog_project_denoise: self.dialog_project_denoise,
            hintbox_current_start: self.hintbox_current_start@,
            hintbox_current_end: self.hintbox_current_end@,
            hintbox_prev: self.hintbox_prev@,
            hintbox_prev_start: self.hintbox_prev_start@,
            hintbox_prev_end: self.hintbox_prev_end@,
            section_titles: self.section_titles@,
            dialog_toc_list_text: self.dialog_toc_list_text@,
            dialog_save_result: dialogs::reply_view(self.dialog_save_result),
            dialog_marker_snapshot: self.dialog_marker_snapshot@,
            dialog_markers_open: self.dialog_markers_open,
            compile_stage: self.compile_stage@,
            dialog_compile_stages_text: self.dialog_compile_stages_text@,
            is_compiling: self.is_compiling,
            compile_cancel_requested: self.compile_cancel_requested,
            compile_publishing: self.compile_publishing,
            compile_finished_at: self.compile_finished_at,
            file_list_version: self.file_list_version,
            file_list_dirty_rows: self.file_list_dirty_rows@,
            dialog_shortcuts_open: self.dialog_shortcuts_open,
            dialog_shortcuts_list_text: self.dialog_shortcuts_list_text@,
            recording_mode: self.recording_mode@,
            dialog_delete_open: self.dialog_delete_open,
            dialog_delete_text: self.dialog_delete_text@,
            dialog_delete_file_index: self.dialog_delete_file_index,
            error_message: self.error_message@,
        }
    }
}

/// The state before anything was shown.
pub open spec fn initial_state() -> UIStateModel {
    UIStateModel {
        waveform_version: 0,
        waveform_current_loading: false,
        waveform_prev_loading: false,
        file_list: Seq::empty(),
        current_file_index: (-1) as i32,
        current_file_name: Seq::empty(),
        total_files: Seq::empty(),
        total_duration: Seq::empty(),
        total_size: Seq::empty(),
        is_recording: false,
        dialog_project_title: Seq::empty(),
        dialog_project_author: Seq::empty(),
        dialog_project_year: Seq::empty(),
        dialog_project_hint: Seq::empty(),
        dialog_project_reader: Seq::empty(),
        dialog_project_format_audio: "wav"@,
        dialog_project_normalize: true,
        dialog_project_cover: "cover.png"@,
        dialog_project_section_split: false,
        dialog_project_denoise: false,
        hintbox_current_start: Seq::empty(),
        hintbox_current_end: Seq::empty(),
        hintbox_prev: Seq::empty(),
        hintbox_prev_start: Seq::empty(),
        hintbox_prev_end: Seq::empty(),
        section_titles: Seq::empty(),
        dialog_toc_list_text: Seq::empty(),
        dialog_save_result: None,
        dialog_marker_snapshot: Map::empty(),
        dialog_markers_open: false,
        compile_stage: Seq::empty(),
        dialog_compile_stages_text: Seq::empty(),
        is_compiling: false,
        compile_cancel_requested: false,
        compile_publishing: false,
        compile_finished_at: None,
        file_list_version: 0,
        file_list_dirty_rows: Seq::empty(),
        dialog_shortcuts_open: false,
        dialog_shortcuts_list_text: Seq::empty(),
        recording_mode: "A"@,
        dialog_delete_open: false,
        dialog_delete_text: Seq::empty(),
        dialog_delete_file_index: (-1) as i32,
        error_message: Seq::empty(),
    }
}

impl Default for UIState {
    fn default() -> (r: Self)
        ensures
            r@ == initial_state(),
    {
        let r = UIState {
            waveform_version: 0,
            waveform_current_loading: false,
            waveform_prev_loading: false,
            file_list: Vec::new(),
            current_file_index: -1,
            current_file_name: String::new(),
            total_files: String::new(),
            total_duration: String::new(),
            total_size: String::new(),
            is_recording: false,
            dialog_project_title: String::new(),
            dialog_project_author: String::new(),
            dialog_project_year: String::new(),
            dialog_project_hint: String::new(),
            dialog_project_reader: String::new(),
            dialog_project_format_audio: "wav".to_owned(),
            dialog_project_normalize: true,
            dialog_project_cover: "cover.png".to_owned(),
            dialog_project_section_split: false,
            dialog_project_denoise: false,
            hintbox_current_start: String::new(),
            hintbox_current_end: String::new(),
            hintbox_prev: String::new(),
            hintbox_prev_start: String::new(),
            hintbox_prev_end: String::new(),
            section_titles: String::new(),
            dialog_toc_list_text: String::new(),
            dialog_save_result: None,
            dialog_marker_snapshot: MarkerMap::new(),
            dialog_markers_open: false,
            compile_stage: String::new(),
            dialog_compile_stages_text: String::new(),
            is_compiling: false,
            compile_cancel_requested: false,
            compile_publishing: false,
            compile_finished_at: None,
            file_list_version: 0,
            file_list_dirty_rows: Vec::new(),
            dialog_shortcuts_open: false,
            dialog_shortcuts_list_text: String::new(),
            recording_mode: "A".to_owned(),
            dialog_delete_open: false,
            dialog_delete_text: String::new(),
            dialog_delete_file_index: -1,
            error_message: String::new(),
        };
        assert(r@ =~= initial_state());
        r
    }
}

} // verus!
