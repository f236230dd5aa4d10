//! Bringing the window's state up to date.
use crate::app::app;
use crate::app::app::{App, AppState, RecordingMode};
use crate::project::project;
use crate::project::project::ProjectFile;
use crate::ui::snapshot;
use crate::ui::snapshot::{build_file_list, RunningTake, Snapshot, HINT_MAX_LEN};
use crate::ui::ui;
use crate::ui::ui::UIState;
use crate::ui::updater;
use crate::ui::updater::UiUpdateKey;
use crate::utils::indexes;
use crate::utils::stats;
use crate::utils::text;
use vstd::prelude::*;

verus! {

/// The state with a row marked as changed.
pub open spec fn with_row_changed(s: ui::UIStateModel, i: int) -> ui::UIStateModel {
    if 0 <= i < s.file_list.len() && !s.file_list_dirty_rows.contains(i as usize) {
        ui::UIStateModel {
            file_list_dirty_rows: s.file_list_dirty_rows.push(i as usize),
            ..s
        }
    } else {
        s
    }
}

/// The state with a row marked as changed, if there is one.
pub open spec fn with_place_changed(s: ui::UIStateModel, place: Option<int>) -> ui::UIStateModel {
    match place {
        Some(i) => with_row_changed(s, i),
        None => s,
    }
}

/// The state with the hints of the selected and the previous fragment.
pub open spec fn with_hints(
    s: ui::UIStateModel,
    files: Seq<project::ProjectFileModel>,
    current: Option<usize>,
) -> ui::UIStateModel {
    let now = crate::utils::format::hint_at(files, current, HINT_MAX_LEN as nat);
    let before = crate::utils::format::hint_at(
        files,
        crate::utils::format::place_before(current),
        HINT_MAX_LEN as nat,
    );
    ui::UIStateModel {
        hintbox_current_start: now.0,
        hintbox_current_end: now.1,
        hintbox_prev_start: before.0,
        hintbox_prev_end: before.1,
        hintbox_prev: snapshot::whole_hint(before.0, before.1),
        ..s
    }
}

/// A version after one more change.
pub open spec fn next_version(v: u64) -> u64 {
    if v == u64::MAX {
        0
    } else {
        (v + 1) as u64
    }
}

fn bump(v: u64) -> (r: u64)
    ensures
        r == next_version(v),
{
    if v == u64::MAX {
        0
    } else {
        v + 1
    }
}

/// The state that shows a copy of the project.
pub open spec fn with_snapshot(s: ui::UIStateModel, c: Snapshot) -> ui::UIStateModel {
    ui::UIStateModel {
        file_list: ui::row_models(c.file_list@),
        file_list_version: next_version(s.file_list_version),
        file_list_dirty_rows: Seq::empty(),
        current_file_index: c.current_file_index,
        current_file_name: c.current_file_name@,
        total_files: c.total_files@,
        total_duration: c.total_duration@,
        total_size: c.total_size@,
        is_recording: c.is_recording,
        recording_mode: c.recording_mode@,
        hintbox_current_start: c.hintbox_current_start@,
        hintbox_current_end: c.hintbox_current_end@,
        hintbox_prev_start: c.hintbox_prev_start@,
        hintbox_prev_end: c.hintbox_prev_end@,
        hintbox_prev: c.hintbox_prev@,
        section_titles: c.section_titles@,
        dialog_toc_list_text: c.dialog_toc_list_text@,
        ..s
    }
}

/// The state after the playing row moved.
pub open spec fn with_playing_moved(
    s: ui::UIStateModel,
    from: Option<usize>,
    to: Option<usize>,
) -> ui::UIStateModel {
    if from == to {
        s
    } else {
        let middle = updater::mark_row(s.file_list, from, false);
        with_place_changed(
            with_place_changed(
                ui::UIStateModel { file_list: updater::mark_row(middle, to, true), ..s },
                updater::changed_row(s.file_list, from, false),
            ),
            updater::changed_row(middle, to, true),
        )
    }
}

/// The state after the selection moved.
pub open spec fn with_selection(
    s: ui::UIStateModel,
    files: Seq<project::ProjectFileModel>,
    key: UiUpdateKey,
) -> ui::UIStateModel {
    let total = key.total_files;
    let selected = updater::selected_row(
        total as nat,
        key.current_index,
        key.recording_mode,
        false,
    );
    let number = if 0 <= selected <= total {
        (total - selected) as nat
    } else {
        0
    };
    with_hints(
        ui::UIStateModel {
            current_file_index: selected,
            current_file_name: snapshot::name_at(files, key.current_index),
            total_files: snapshot::counter(number, total as nat),
            ..s
        },
        files,
        key.current_index,
    )
}

/// The state after the selection or the playing row moved.
pub open spec fn with_navigation(
    s: ui::UIStateModel,
    files: Seq<project::ProjectFileModel>,
    previous: UiUpdateKey,
    key: UiUpdateKey,
) -> ui::UIStateModel {
    let played = with_playing_moved(s, previous.playing_index, key.playing_index);
    if previous.current_index == key.current_index {
        played
    } else {
        with_selection(played, files, key)
    }
}

/// A list after the time of the recording row was set.
pub open spec fn with_row_time(rows: Seq<ui::FileInfoModel>, i: int, ms: u64) -> Seq<
    ui::FileInfoModel,
> {
    if 0 <= i < rows.len() && rows[i].is_recording {
        rows.update(
            i,
            ui::FileInfoModel {
                duration: crate::utils::format::clock(ms as nat / 1000, false),
                ..rows[i]
            },
        )
    } else {
        rows
    }
}

/// The state with what changes between rebuilds.
pub open spec fn with_live(s: ui::UIStateModel, live: updater::LiveUpdateModel) -> ui::UIStateModel {
    ui::UIStateModel {
        file_list: match live.row_elapsed_ms {
            Some(ms) => with_row_time(s.file_list, s.current_file_index as int, ms),
            None => s.file_list,
        },
        total_duration: match live.total_duration {
            Some(t) => t,
            None => s.total_duration,
        },
        total_size: match live.total_size {
            Some(t) => t,
            None => s.total_size,
        },
        ..s
    }
}

/// The running take of a recorder.
pub open spec fn running_take(a: app::AppModel, now_ms: u64) -> Option<(Seq<char>, nat)> {
    match a.state {
        app::AppStateModel::Recording { writer_path, start_ms, .. } => Some(
            (
                writer_path,
                if now_ms >= start_ms {
                    (now_ms - start_ms) as nat
                } else {
                    0
                },
            ),
        ),
        _ => None,
    }
}

/// Whether the window's copy has to be rebuilt.
pub open spec fn is_stale(a: app::AppModel) -> bool {
    match a.ui_update_cache.built_for() {
        None => true,
        Some(previous) => a.file_list_update_pending || updater::structure_differs(
            previous,
            app::update_key(a),
        ),
    }
}

/// Whether bringing the window's copy up to date first led from one state to
/// another: a rebuild if the copy is stale, a touch if only the selection or the
/// playing row moved.
pub open spec fn brought_up(
    a: app::AppModel,
    s: ui::UIStateModel,
    now_ms: u64,
    free_space: u64,
    t: ui::UIStateModel,
) -> bool {
    let key = app::update_key(a);
    if is_stale(a) {
        exists|copy: Snapshot|
            t == with_snapshot(s, copy) && #[trigger] snapshot::shows(
                copy,
                a.project,
                key.current_index,
                a.recording_mode,
                running_take(a, now_ms),
                key.playing_index,
                free_space as nat,
            )
    } else if updater::navigation_differs(a.ui_update_cache.built_for()->0, key) {
        t == with_navigation(s, a.project.files, a.ui_update_cache.built_for()->0, key)
    } else {
        t == s
    }
}

/// What the recorder remembers of the copy after it was brought up.
pub open spec fn copy_remembered(
    a: app::AppModel,
    now_ms: u64,
    cache: updater::UiUpdateCache,
) -> bool {
    let before = a.ui_update_cache;
    let files = a.project.files;
    let n = files.len() as int;
    &&& cache.built_for() == Some(app::update_key(a))
    &&& if is_stale(a) {
        &&& cache.sections() == snapshot::section_places(files, a.project.markers, n)
        &&& cache.totals() == (
            stats::duration_before(files, n) as u128,
            stats::size_before(files, n) as u64,
        )
        &&& cache.asked_free_space() == Some(now_ms)
        &&& cache.shown_second() is None
    } else {
        &&& cache.sections() == before.sections()
        &&& cache.totals() == before.totals()
        &&& cache.asked_free_space() == before.asked_free_space()
        &&& cache.shown_second() == before.shown_second()
    }
}

impl UIState {
    /// Remembers that a row changed, until the window looks again. No row is
    /// remembered twice.
    pub fn mark_file_list_row_changed(&mut self, index: usize)
        ensures
            final(self)@ == with_row_changed(old(self)@, index as int),
    {
        assert(self.file_list@.len() == self@.file_list.len());
        if index >= self.file_list.len() {
            return;
        }
        let mut i: usize = 0;
        while i < self.file_list_dirty_rows.len()
            invariant
                i <= self.file_list_dirty_rows.len(),
                *self == *old(self),
                index < self@.file_list.len(),
                forall|k: int| 0 <= k < i ==> self.file_list_dirty_rows@[k] != index,
            decreases self.file_list_dirty_rows.len() - i,
        {
            if self.file_list_dirty_rows[i] == index {
                assert(self@.file_list_dirty_rows.contains(index));
                return;
            }
            i = i + 1;
        }
        assert(!self@.file_list_dirty_rows.contains(index));
        self.file_list_dirty_rows.push(index);
        assert(final(self)@ =~= with_row_changed(old(self)@, index as int));
    }

    /// Shows the hints of the selected and the previous fragment.
    pub fn update_file_hints(&mut self, files: &[ProjectFile], current_index: Option<usize>)
        ensures
            final(self)@ == with_hints(
                old(self)@,
                project::file_models(files@),
                current_index,
            ),
    {
        let (cur_start, cur_end, prev_start, prev_end) =
            crate::utils::format::current_and_prev_file_hints(
            files,
            current_index,
            HINT_MAX_LEN,
        );
        self.hintbox_prev = snapshot::join_hint(prev_start.as_str(), prev_end.as_str());
        self.hintbox_current_start = cur_start;
        self.hintbox_current_end = cur_end;
        self.hintbox_prev_start = prev_start;
        self.hintbox_prev_end = prev_end;
        assert(final(self)@ =~= with_hints(
            old(self)@,
            project::file_models(files@),
            current_index,
        ));
    }

    /// Shows a copy of the project.
    pub fn apply_snapshot(&mut self, c: Snapshot)
        ensures
            final(self)@ == with_snapshot(old(self)@, c),
    {
        self.file_list = c.file_list;
        self.file_list_version = bump(self.file_list_version);
        self.file_list_dirty_rows = Vec::new();
        self.current_file_index = c.current_file_index;
        self.current_file_name = c.current_file_name;
        self.total_files = c.total_files;
        self.total_duration = c.total_duration;
        self.total_size = c.total_size;
        self.is_recording = c.is_recording;
        self.recording_mode = c.recording_mode;
        self.hintbox_current_start = c.hintbox_current_start;
        self.hintbox_current_end = c.hintbox_current_end;
        self.hintbox_prev_start = c.hintbox_prev_start;
        self.hintbox_prev_end = c.hintbox_prev_end;
        self.hintbox_prev = c.hintbox_prev;
        self.section_titles = c.section_titles;
        self.dialog_toc_list_text = c.dialog_toc_list_text;
        assert(final(self)@ =~= with_snapshot(old(self)@, c));
    }

    /// Shows that the selection or the playing row moved, and touches nothing else.
    pub fn update_ui_navigation(
        &mut self,
        files: &[ProjectFile],
        previous: UiUpdateKey,
        key: UiUpdateKey,
    )
        ensures
            final(self)@ == with_navigation(
                old(self)@,
                project::file_models(files@),
                previous,
                key,
            ),
    {
        self.move_playing(previous.playing_index, key.playing_index);
        if !updater::same_place(previous.current_index, key.current_index) {
            self.select_row(files, key);
        }
    }

    fn move_playing(&mut self, from: Option<usize>, to: Option<usize>)
        ensures
            final(self)@ == with_playing_moved(old(self)@, from, to),
    {
        let changed: [Option<usize>; 2] = self.mark_playing(from, to);
        if let Some(i) = changed[0] {
            self.mark_file_list_row_changed(i);
        }
        if let Some(i) = changed[1] {
            self.mark_file_list_row_changed(i);
        }
    }

    fn mark_playing(&mut self, from: Option<usize>, to: Option<usize>) -> (r: [Option<usize>; 2])
        ensures
            ({
                let before = old(self)@.file_list;
                let middle = updater::mark_row(before, from, false);
                &&& final(self)@ == (ui::UIStateModel {
                    file_list: if from == to {
                        before
                    } else {
                        updater::mark_row(middle, to, true)
                    },
                    ..old(self)@
                })
                &&& from == to ==> r@[0] is None && r@[1] is None
                &&& from != to ==> {
                    &&& updater::changed_row(before, from, false) == updater::place_of(r@[0])
                    &&& updater::changed_row(middle, to, true) == updater::place_of(r@[1])
                }
            }),
    {
        updater::update_playing_rows(&mut self.file_list, from, to)
    }

    fn select_row(&mut self, files: &[ProjectFile], key: UiUpdateKey)
        ensures
            final(self)@ == with_selection(old(self)@, project::file_models(files@), key),
    {
        let selected: i32 = updater::file_list_current_index(
            key.total_files,
            key.current_index,
            key.recording_mode,
            false,
        );
        let number: usize = if selected >= 0 && selected as usize <= key.total_files {
            key.total_files - selected as usize
        } else {
            0
        };
        self.current_file_index = selected;
        self.current_file_name = snapshot::shown_name_at(files, key.current_index);
        self.total_files =
        text::decimal_text(number as u128).concat("/").concat(
            text::decimal_text(key.total_files as u128).as_str(),
        );
        self.update_file_hints(files, key.current_index);
    }

    fn set_row_time(&mut self, ms: u64)
        ensures
            final(self)@ == (ui::UIStateModel {
                file_list: with_row_time(
                    old(self)@.file_list,
                    old(self)@.current_file_index as int,
                    ms,
                ),
                ..old(self)@
            }),
    {
        let ghost rows = self@.file_list;
        let selected: i32 = self.current_file_index;
        updater::update_recording_row_duration(&mut self.file_list, selected, ms);
        assert(ui::row_models(self.file_list@) =~= with_row_time(rows, selected as int, ms));
    }

    /// Shows what changed between rebuilds.
    pub fn apply_live(&mut self, live: updater::LiveUpdate)
        ensures
            final(self)@ == with_live(old(self)@, live@),
    {
        if let Some(ms) = live.row_elapsed_ms {
            self.set_row_time(ms);
        }
        self.set_totals(live.total_duration, live.total_size);
    }

    fn set_totals(&mut self, duration: Option<String>, size: Option<String>)
        ensures
            final(self)@ == (ui::UIStateModel {
                total_duration: match duration {
                    Some(t) => t@,
                    None => old(self)@.total_duration,
                },
                total_size: match size {
                    Some(t) => t@,
                    None => old(self)@.total_size,
                },
                ..old(self)@
            }),
    {
        match duration {
            Some(t) => {
                self.total_duration = t;
            },
            None => {},
        }
        match size {
            Some(t) => {
                self.total_size = t;
            },
            None => {},
        }
    }
}

/// The row of the selection in a list that was built for a running take or none.
pub open spec fn listed_selection(
    total: int,
    current: Option<usize>,
    mode: RecordingMode,
    recording: bool,
) -> i32 {
    if recording && mode == RecordingMode::Insert && current is Some {
        (total - 1 - current->0) as i32
    } else if recording && mode != RecordingMode::Update {
        0i32
    } else {
        match current {
            Some(i) => if i < total {
                indexes::ui_place(i as int, total) as i32
            } else {
                (-1) as i32
            },
            None => if total > 0 {
                0i32
            } else {
                (-1) as i32
            },
        }
    }
}

/// The state with a status line.
pub open spec fn with_status(
    s: ui::UIStateModel,
    name: Seq<char>,
    counter: Seq<char>,
    duration: Seq<char>,
    size: Seq<char>,
    recording: bool,
    mode: Seq<char>,
) -> ui::UIStateModel {
    ui::UIStateModel {
        current_file_name: name,
        total_files: counter,
        total_duration: duration,
        total_size: size,
        is_recording: recording,
        recording_mode: mode,
        ..s
    }
}

/// The state with the totals of a project in the status line.
pub open spec fn with_status_line(
    s: ui::UIStateModel,
    files: Seq<project::ProjectFileModel>,
    current: Option<usize>,
    record_length_ms: nat,
    elapsed_ms: Option<nat>,
    free_space: nat,
    mode: RecordingMode,
) -> ui::UIStateModel {
    let total = files.len() as int;
    let size = stats::size_before(files, total);
    let number = match current {
        Some(i) => if i < total {
            (total - i) as nat
        } else {
            0
        },
        None => if s.file_list.len() > 0 {
            total as nat
        } else {
            0
        },
    };
    with_status(
        s,
        snapshot::name_at(files, current),
        snapshot::counter(number, total as nat),
        snapshot::length_shown(stats::duration_before(files, total), record_length_ms, elapsed_ms),
        updater::sizes_shown(size, size + free_space),
        elapsed_ms is Some,
        mode.letter(),
    )
}

/// The state with the list of a project and of a take that has a length.
pub open spec fn with_list(
    s: ui::UIStateModel,
    files: Seq<project::ProjectFileModel>,
    current: Option<usize>,
    take: Option<(Seq<char>, nat)>,
    is_playing: bool,
    mode: RecordingMode,
) -> ui::UIStateModel {
    with_hints(
        ui::UIStateModel {
            file_list: crate::utils::format::reversed_rows(
                snapshot::listed_rows(
                    files,
                    current,
                    mode,
                    take,
                    if is_playing {
                        current
                    } else {
                        None
                    },
                ),
            ),
            file_list_dirty_rows: Seq::empty(),
            file_list_version: next_version(s.file_list_version),
            current_file_index: listed_selection(files.len() as int, current, mode, take is Some),
            ..s
        },
        files,
        current,
    )
}

/// The state after the status line was asked for or was not.
pub open spec fn status_shown(
    a: app::AppModel,
    s: ui::UIStateModel,
    now_ms: u64,
    free_space: u64,
) -> ui::UIStateModel {
    if a.status_line_update_pending {
        with_status_line(
            s,
            a.project.files,
            a.current_index,
            a.project.stats.record_length as nat,
            match running_take(a, now_ms) {
                Some(take) => Some(take.1),
                None => None,
            },
            free_space as nat,
            a.recording_mode,
        )
    } else {
        s
    }
}

/// The state after only the selection was shown.
pub open spec fn selection_shown(a: app::AppModel, s: ui::UIStateModel) -> ui::UIStateModel {
    let total = a.project.files.len() as int;
    with_hints(
        ui::UIStateModel {
            current_file_index: if a.state is Recording {
                0i32
            } else {
                match a.current_index {
                    Some(i) => if i < total {
                        indexes::ui_place(i as int, total) as i32
                    } else {
                        (-1) as i32
                    },
                    None => (-1) as i32,
                }
            },
            ..s
        },
        a.project.files,
        a.current_index,
    )
}

/// The state after the list was built anew.
pub open spec fn list_shown(
    a: app::AppModel,
    s: ui::UIStateModel,
    now_ms: u64,
) -> ui::UIStateModel {
    with_list(
        s,
        a.project.files,
        a.current_index,
        match running_take(a, now_ms) {
            Some(take) => if take.1 > 0 {
                Some(take)
            } else {
                None
            },
            None => None,
        },
        a.state is Playing,
        a.recording_mode,
    )
}

fn shown_length(files: &[ProjectFile], record_length_ms: u64, elapsed_ms: Option<u64>) -> (r: String)
    ensures
        r@ == snapshot::length_shown(
            stats::duration_before(project::file_models(files@), files@.len() as int),
            record_length_ms as nat,
            match elapsed_ms {
                Some(ms) => Some(ms as nat),
                None => None,
            },
        ),
{
    let duration_ms: u128 = stats::calculate_total_duration(files);
    match elapsed_ms {
        Some(ms) => updater::duration_pair(duration_ms, record_length_ms as u128 + ms as u128),
        None => if record_length_ms > 0 {
            updater::duration_pair(duration_ms, record_length_ms as u128)
        } else {
            crate::utils::format::format_duration(duration_ms, false)
        },
    }
}

impl UIState {
    /// Shows the totals of a project in the status line. The number of a fragment
    /// counts from the newest.
    pub fn update_status_line(
        &mut self,
        current_index: Option<usize>,
        files: &[ProjectFile],
        record_length_ms: u64,
        recording_elapsed_ms: Option<u64>,
        free_space: u64,
        mode: RecordingMode,
    )
        requires
            stats::size_before(project::file_models(files@), files@.len() as int) + free_space
                <= u64::MAX,
        ensures
            final(self)@ == with_status_line(
                old(self)@,
                project::file_models(files@),
                current_index,
                record_length_ms as nat,
                match recording_elapsed_ms {
                    Some(ms) => Some(ms as nat),
                    None => None,
                },
                free_space as nat,
                mode,
            ),
    {
        let total: usize = files.len();
        assert(total == project::file_models(files@).len());
        assert(self.file_list@.len() == self@.file_list.len());
        let number: usize = match current_index {
            Some(i) => if i < total {
                total - i
            } else {
                0
            },
            None => if self.file_list.len() > 0 {
                total
            } else {
                0
            },
        };
        let size: u64 = stats::calculate_sizes(files);
        self.set_status(
            snapshot::shown_name_at(files, current_index),
            text::decimal_text(number as u128).concat("/").concat(
                text::decimal_text(total as u128).as_str(),
            ),
            shown_length(files, record_length_ms, recording_elapsed_ms),
            updater::size_pair(size, size + free_space),
            recording_elapsed_ms.is_some(),
            mode.as_str().to_owned(),
        );
    }

    fn set_status(
        &mut self,
        name: String,
        counter: String,
        duration: String,
        size: String,
        recording: bool,
        mode: String,
    )
        ensures
            final(self)@ == with_status(
                old(self)@,
                name@,
                counter@,
                duration@,
                size@,
                recording,
                mode@,
            ),
    {
        self.current_file_name = name;
        self.total_files = counter;
        self.total_duration = duration;
        self.total_size = size;
        self.is_recording = recording;
        self.recording_mode = mode;
    }

    /// Builds the list anew. A take that has no length yet is not in it.
    pub fn update_file_list(
        &mut self,
        files: &[ProjectFile],
        current_index: Option<usize>,
        recording_ms: u64,
        is_playing: bool,
        take_path: &str,
        mode: RecordingMode,
    )
        requires
            recording_ms > 0 && mode == RecordingMode::Insert ==> (current_index matches Some(i)
                ==> i < files@.len()),
        ensures
            final(self)@ == with_list(
                old(self)@,
                project::file_models(files@),
                current_index,
                if recording_ms > 0 {
                    Some((take_path@, recording_ms as nat))
                } else {
                    None
                },
                is_playing,
                mode,
            ),
    {
        let total: usize = files.len();
        assert(total == project::file_models(files@).len());
        let take: Option<RunningTake> = if recording_ms > 0 {
            Some(RunningTake { path: take_path, elapsed_ms: recording_ms })
        } else {
            None
        };
        let playing: Option<usize> = if is_playing {
            current_index
        } else {
            None
        };
        let selected: i32 = if recording_ms > 0 && mode == RecordingMode::Insert
            && current_index.is_some() {
            match current_index {
                Some(i) => (total - 1 - i) as i32,
                None => 0,
            }
        } else if recording_ms > 0 && mode != RecordingMode::Update {
            0
        } else {
            match current_index {
                Some(i) => indexes::orig_to_ui_index(i, total),
                None => if total > 0 {
                    0
                } else {
                    -1
                },
            }
        };
        self.set_list(build_file_list(files, current_index, mode, take, playing), selected);
        self.update_file_hints(files, current_index);
    }

    fn set_list(&mut self, list: Vec<ui::FileInfo>, selected: i32)
        ensures
            final(self)@ == (ui::UIStateModel {
                file_list: ui::row_models(list@),
                file_list_dirty_rows: Seq::empty(),
                file_list_version: next_version(old(self)@.file_list_version),
                current_file_index: selected,
                ..old(self)@
            }),
    {
        self.file_list = list;
        self.file_list_dirty_rows = Vec::new();
        self.file_list_version = bump(self.file_list_version);
        self.current_file_index = selected;
        assert(self.file_list_dirty_rows@ =~= Seq::empty());
    }
}

impl App {
    /// Whether the free space is needed to bring the window's copy up to date.
    pub fn needs_free_space(&self, now_ms: u64) -> (r: bool)
        ensures
            r == (is_stale(self@) || updater::space_due(
                self@.ui_update_cache.asked_free_space(),
                now_ms,
            )),
    {
        let key = self.update_key();
        self.ui_update_cache.needs_rebuild(key, self.file_list_update_pending)
            || self.ui_update_cache.free_space_due(now_ms)
    }

    fn bring_up(&mut self, state: &mut UIState, now_ms: u64, free_space: u64)
        requires
            stats::size_before(old(self)@.project.files, old(self)@.project.files.len() as int)
                + free_space <= u64::MAX,
        ensures
            brought_up(old(self)@, old(state)@, now_ms, free_space, final(state)@),
            copy_remembered(old(self)@, now_ms, final(self)@.ui_update_cache),
            final(self)@ == (app::AppModel {
                ui_update_cache: final(self)@.ui_update_cache,
                file_list_update_pending: old(self)@.file_list_update_pending && !is_stale(
                    old(self)@,
                ),
                status_line_update_pending: old(self)@.status_line_update_pending && !is_stale(
                    old(self)@,
                ),
                ..old(self)@
            }),
    {
        let key = self.update_key();
        if self.ui_update_cache.needs_rebuild(key, self.file_list_update_pending) {
            self.rebuild_copy(state, now_ms, free_space);
        } else if self.ui_update_cache.needs_navigation_update(key) {
            if let Some(previous) = self.ui_update_cache.key() {
                state.update_ui_navigation(self.project.files.as_slice(), previous, key);
                self.ui_update_cache.record_navigation(key);
            }
        }
    }

    fn copy_of(&self, now_ms: u64, free_space: u64) -> (r: Snapshot)
        requires
            stats::size_before(self@.project.files, self@.project.files.len() as int) + free_space
                <= u64::MAX,
        ensures
            snapshot::shows(
                r,
                self@.project,
                app::update_key(self@).current_index,
                self@.recording_mode,
                running_take(self@, now_ms),
                app::update_key(self@).playing_index,
                free_space as nat,
            ),
    {
        let key = self.update_key();
        let take: Option<RunningTake> = match &self.state {
            AppState::Recording { writer_path, start_ms, .. } => Some(
                RunningTake {
                    path: writer_path.as_str(),
                    elapsed_ms: now_ms.saturating_sub(*start_ms),
                },
            ),
            _ => None,
        };
        assert(snapshot::take_view(take) == running_take(self@, now_ms));
        snapshot::rebuild_ui_state(
            &self.project,
            key.current_index,
            self.recording_mode,
            take,
            key.playing_index,
            free_space,
        )
    }

    fn rebuild_copy(&mut self, state: &mut UIState, now_ms: u64, free_space: u64)
        requires
            is_stale(old(self)@),
            stats::size_before(old(self)@.project.files, old(self)@.project.files.len() as int)
                + free_space <= u64::MAX,
        ensures
            brought_up(old(self)@, old(state)@, now_ms, free_space, final(state)@),
            copy_remembered(old(self)@, now_ms, final(self)@.ui_update_cache),
            final(self)@ == (app::AppModel {
                ui_update_cache: final(self)@.ui_update_cache,
                file_list_update_pending: false,
                status_line_update_pending: false,
                ..old(self)@
            }),
    {
        let ghost a = self@;
        let total: usize = self.project.files.len();
        let key = self.update_key();
        let copy = self.copy_of(now_ms, free_space);
        let sections = copy_places(&copy.section_indices);
        let duration_ms: u128 = copy.duration_ms;
        let size: u64 = copy.size;
        proof {
            assert(total == a.project.files.len());
            snapshot::section_places_are_the_sections(
                a.project.files,
                a.project.markers,
                a.project.files.len() as int,
            );
        }
        state.apply_snapshot(copy);
        self.ui_update_cache.record_rebuild(key, duration_ms, size, sections, now_ms);
        self.file_list_update_pending = false;
        self.status_line_update_pending = false;
    }

    /// Brings the window's copy up to date: a rebuild only when the project or its
    /// structure changed, else what moved or runs. The free space counts only when
    /// it is needed.
    pub fn update_ui_state(&mut self, state: &mut UIState, now_ms: u64, free_space: u64)
        requires
            stats::size_before(old(self)@.project.files, old(self)@.project.files.len() as int)
                + free_space <= u64::MAX,
        ensures
            exists|t: ui::UIStateModel, cache: updater::UiUpdateCache|
                #![trigger brought_up(old(self)@, old(state)@, now_ms, free_space, t), copy_remembered(old(self)@, now_ms, cache)]
                {
                    let key = app::update_key(old(self)@);
                    let live = updater::live(
                        cache,
                        key,
                        now_ms,
                        if updater::space_due(cache.asked_free_space(), now_ms) {
                            Some(free_space)
                        } else {
                            None
                        },
                    );
                    &&& brought_up(old(self)@, old(state)@, now_ms, free_space, t)
                    &&& copy_remembered(old(self)@, now_ms, cache)
                    &&& final(state)@ == with_live(t, live)
                    &&& final(self)@.ui_update_cache.shown_second() == (if live.idle {
                        cache.shown_second()
                    } else {
                        updater::recorded_second(key, now_ms)
                    })
                    &&& final(self)@.ui_update_cache.sections() == cache.sections()
                    &&& final(self)@.ui_update_cache.totals() == cache.totals()
                    &&& final(self)@.ui_update_cache.asked_free_space() == (if updater::space_due(
                        cache.asked_free_space(),
                        now_ms,
                    ) {
                        Some(now_ms)
                    } else {
                        cache.asked_free_space()
                    })
                },
            final(self)@ == (app::AppModel {
                ui_update_cache: final(self)@.ui_update_cache,
                file_list_update_pending: old(self)@.file_list_update_pending && !is_stale(
                    old(self)@,
                ),
                status_line_update_pending: false,
                ..old(self)@
            }),
            final(self)@.ui_update_cache.built_for() == Some(app::update_key(old(self)@)),
    {
        let key = self.update_key();
        self.bring_up(state, now_ms, free_space);
        let ghost t = state@;
        let ghost cache = self@.ui_update_cache;
        let free: Option<u64> = if self.ui_update_cache.free_space_due(now_ms) {
            Some(free_space)
        } else {
            None
        };
        let live = self.ui_update_cache.live_update(key, now_ms, free);
        assert(brought_up(old(self)@, old(state)@, now_ms, free_space, t));
        assert(copy_remembered(old(self)@, now_ms, cache));
        state.apply_live(live);
        self.status_line_update_pending = false;
    }
}

impl App {
    fn show_status(&self, state: &mut UIState, now_ms: u64, free_space: u64)
        requires
            stats::size_before(self@.project.files, self@.project.files.len() as int) + free_space
                <= u64::MAX,
        ensures
            final(state)@ == status_shown(self@, old(state)@, now_ms, free_space),
    {
        if self.status_line_update_pending {
            let elapsed: Option<u64> = match &self.state {
                AppState::Recording { start_ms, .. } => Some(now_ms.saturating_sub(*start_ms)),
                _ => None,
            };
            state.update_status_line(
                self.current_index,
                self.project.files.as_slice(),
                self.project.stats.record_length,
                elapsed,
                free_space,
                self.recording_mode,
            );
        }
    }

    fn show_selection(&self, state: &mut UIState)
        ensures
            final(state)@ == selection_shown(self@, old(state)@),
    {
        let total: usize = self.project.files.len();
        assert(total == self@.project.files.len());
        let selected: i32 = if self.is_recording() {
            0
        } else {
            match self.current_index {
                Some(i) => indexes::orig_to_ui_index(i, total),
                None => -1,
            }
        };
        state.current_file_index = selected;
        state.update_file_hints(self.project.files.as_slice(), self.current_index);
    }

    fn show_list(&self, state: &mut UIState, now_ms: u64)
        requires
            self@.state is Recording && self@.recording_mode == RecordingMode::Insert ==> (
            self@.current_index matches Some(i) ==> i < self@.project.files.len()),
        ensures
            final(state)@ == list_shown(self@, old(state)@, now_ms),
    {
        let is_playing = match &self.state {
            AppState::Playing { .. } => true,
            _ => false,
        };
        let (path, ms): (&str, u64) = match &self.state {
            AppState::Recording { writer_path, start_ms, .. } => (
                writer_path.as_str(),
                now_ms.saturating_sub(*start_ms),
            ),
            _ => ("", 0),
        };
        state.update_file_list(
            self.project.files.as_slice(),
            self.current_index,
            ms,
            is_playing,
            path,
            self.recording_mode,
        );
    }

    /// Shows the project in the window. The status line follows when it was asked
    /// for, and is asked for again while a take runs. The list is built anew when it
    /// changed or is old; with `skip_file_list_rebuild` only the selection moves.
    pub fn update_ui(
        &mut self,
        state: &mut UIState,
        skip_file_list_rebuild: bool,
        now_ms: u64,
        free_space: u64,
    )
        requires
            stats::size_before(old(self)@.project.files, old(self)@.project.files.len() as int)
                + free_space <= u64::MAX,
            old(self)@.state is Recording && old(self)@.recording_mode == RecordingMode::Insert
                ==> (old(self)@.current_index matches Some(i) ==> i
                < old(self)@.project.files.len()),
        ensures
            ({
                let a = old(self)@;
                let s = status_shown(a, old(state)@, now_ms, free_space);
                let rebuilt = !skip_file_list_rebuild && app::list_is_due(a, now_ms);
                &&& final(state)@ == if skip_file_list_rebuild {
                    selection_shown(a, s)
                } else if rebuilt {
                    list_shown(a, s, now_ms)
                } else {
                    s
                }
                &&& final(self)@ == (app::AppModel {
                    status_line_update_pending: a.status_line_update_pending
                        && a.state is Recording,
                    file_list_update_pending: a.file_list_update_pending && !rebuilt,
                    last_file_list_update: if rebuilt {
                        Some(now_ms)
                    } else {
                        a.last_file_list_update
                    },
                    ..a
                })
            }),
    {
        self.show_status(state, now_ms, free_space);
        let rebuilt = !skip_file_list_rebuild && self.list_due(now_ms);
        if skip_file_list_rebuild {
            self.show_selection(state);
        } else if rebuilt {
            self.show_list(state, now_ms);
        }
        let recording = self.is_recording();
        self.status_line_update_pending = self.status_line_update_pending && recording;
        if rebuilt {
            self.file_list_update_pending = false;
            self.last_file_list_update = Some(now_ms);
        }
    }
}

fn copy_places(v: &Vec<usize>) -> (r: Vec<usize>)
    ensures
        r@ == v@,
{
    let mut out: Vec<usize> = Vec::new();
    let mut i: usize = 0;
    while i < v.len()
        invariant
            i <= v.len(),
            out@ == v@.take(i as int),
        decreases v.len() - i,
    {
        out.push(v[i]);
        assert(v@.take(i + 1) =~= v@.take(i as int).push(v@[i as int]));
        i = i + 1;
    }
    assert(v@.take(i as int) =~= v@);
    out
}

/// Whether a recorder remembers the sections and the totals of its project.
pub open spec fn remembers_project(p: project::ProjectModel, cache: updater::UiUpdateCache) -> bool {
    let n = p.files.len() as int;
    &&& cache.sections() == snapshot::section_places(p.files, p.markers, n)
    &&& cache.totals() == (
        stats::duration_before(p.files, n) as u128,
        stats::size_before(p.files, n) as u64,
    )
}

/// Bringing the copy up to date leaves a recorder that remembers its project, if it
/// did before or the copy was stale.
pub proof fn fresh_copy_remembers_the_project(
    a: app::AppModel,
    now_ms: u64,
    cache: updater::UiUpdateCache,
)
    requires
        copy_remembered(a, now_ms, cache),
        is_stale(a) || remembers_project(a.project, a.ui_update_cache),
    ensures
        remembers_project(a.project, cache),
{
}

/// Moving the selection and the playing row back and forth leaves the list as it
/// was.
pub proof fn playing_there_and_back_keeps_the_list(
    rows: Seq<ui::FileInfoModel>,
    from: usize,
    to: usize,
)
    requires
        rows.len() <= i32::MAX,
        from < rows.len(),
        to < rows.len(),
        forall|i: int|
            0 <= i < rows.len() ==> (#[trigger] rows[i]).is_playing == (i == rows.len() - 1 - from),
    ensures
        ({
            let there = updater::mark_row(
                updater::mark_row(rows, Some(from), false),
                Some(to),
                true,
            );
            updater::mark_row(updater::mark_row(there, Some(to), false), Some(from), true) == rows
        }),
{
    let there = updater::mark_row(updater::mark_row(rows, Some(from), false), Some(to), true);
    let back = updater::mark_row(updater::mark_row(there, Some(to), false), Some(from), true);
    assert forall|i: int| 0 <= i < rows.len() implies back[i] == rows[i] by {
        assert(rows[i].is_playing == (i == rows.len() - 1 - from));
    }
    assert(back =~= rows);
}

} // verus!
