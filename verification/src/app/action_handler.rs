//! What commands do.
use crate::app::app;
use crate::app::app::{App, RecordingMode};
use crate::app::effects;
use crate::app::effects::{no_effects, then_do, Effect, Step};
use crate::app::playback;
use crate::project::markers;
use crate::project::project;
use crate::project::project::Project;
use crate::ui::snapshot;
use crate::ui::updater;
use crate::utils::indexes;
use crate::utils::keyboard;
use crate::utils::keyboard::Action;
use crate::utils::text;
use vstd::prelude::*;

verus! {

/// Nothing happened.
pub open spec fn nothing(
    a: app::AppModel,
    b: app::AppModel,
    step: effects::StepModel,
) -> bool {
    b == a && step == effects::StepModel::Apply(Seq::empty())
}

/// Only the selection moved.
pub open spec fn moved(
    a: app::AppModel,
    b: app::AppModel,
    step: effects::StepModel,
    index: Option<i32>,
    play: bool,
    now_ms: u64,
) -> bool {
    &&& b == playback::after_goto(a, index, now_ms)
    &&& step == effects::StepModel::Apply(playback::goto_effects(a, index, play))
}

/// The selection moved to a target and is played, if there is a target.
pub open spec fn moved_if(
    a: app::AppModel,
    b: app::AppModel,
    step: effects::StepModel,
    target: Option<i32>,
    play: bool,
    now_ms: u64,
) -> bool {
    match target {
        Some(index) => moved(a, b, step, Some(index), play, now_ms),
        None => nothing(a, b, step),
    }
}

/// Whether a place of the list shows a section.
pub open spec fn shows_section(p: project::ProjectModel, ui: int) -> bool {
    &&& 0 <= ui < p.files.len()
    &&& markers::starts_section(p.files[p.files.len() - 1 - ui], p.markers)
}

/// The nearest section above a place of the list when `next`, else below it.
pub open spec fn nearest_section(
    p: project::ProjectModel,
    ui: int,
    next: bool,
    r: Option<i32>,
) -> bool {
    match r {
        Some(found) => {
            &&& shows_section(p, found as int)
            &&& if next {
                found < ui
            } else {
                found > ui
            }
            &&& forall|k: int|
                (if next {
                    found < k < ui
                } else {
                    ui < k < found
                }) ==> !#[trigger] shows_section(p, k)
        },
        None => forall|k: int|
            (if next {
                k < ui
            } else {
                k > ui
            }) ==> !#[trigger] shows_section(p, k),
    }
}

/// The place of the list for a section of the window's copy.
pub open spec fn place_in_list(total: int, place: Option<usize>) -> Option<i32> {
    match place {
        Some(place) => Some(
            if place < total {
                indexes::ui_place(place as int, total) as i32
            } else {
                (-1) as i32
            },
        ),
        None => None,
    }
}

/// Where moving by a section goes. The window's copy knows the sections unless a
/// change waits to be shown.
pub open spec fn section_target(a: app::AppModel, next: bool, r: Option<i32>) -> bool {
    match app::selection(a) {
        None => r is None,
        Some((place, ui)) => if !a.file_list_update_pending && a.ui_update_cache.built_for() is Some {
            exists|found: Option<usize>|
                r == place_in_list(a.project.files.len() as int, found)
                    && #[trigger] updater::is_adjacent(
                    a.ui_update_cache.sections(),
                    place as usize,
                    next,
                    found,
                )
        } else {
            nearest_section(a.project, ui, next, r)
        },
    }
}

/// Which fragment a place of the list shows. While recording, the take is in the
/// first place.
pub open spec fn searched_place(a: app::AppModel, ui: int) -> int {
    let total = a.project.files.len() as int;
    if a.state is Recording {
        total - ui
    } else {
        total - 1 - ui
    }
}

/// Whether the hint in a place of the list has a text in it, whatever the case of
/// the letters.
pub open spec fn hint_matches(a: app::AppModel, ui: int, query: Seq<char>) -> bool {
    let place = searched_place(a, ui);
    &&& 0 <= place < a.project.files.len()
    &&& !(a.state is Recording && ui == 0)
    &&& text::has_within(text::lowercase(a.project.files[place].hint), query)
}

/// Where searching for a text goes: the nearest match below the place that is
/// shown when `down`, else above it.
pub open spec fn search_target(
    a: app::AppModel,
    shown: Option<i32>,
    query: Seq<char>,
    down: bool,
    r: Option<i32>,
) -> bool {
    let wanted = text::lowercase(query);
    match shown {
        Some(at) if wanted.len() > 0 => match r {
            Some(found) => {
                &&& hint_matches(a, found as int, wanted)
                &&& 0 <= found
                &&& if down {
                    at < found
                } else {
                    found < at
                }
                &&& forall|k: int|
                    (if down {
                        at < k < found
                    } else {
                        found < k < at
                    }) ==> !#[trigger] hint_matches(a, k, wanted)
            },
            None => forall|k: int|
                0 <= k && (if down {
                    at < k
                } else {
                    k < at
                }) ==> !#[trigger] hint_matches(a, k, wanted),
        },
        _ => r is None,
    }
}

/// Whether a marker is bound to a key.
pub open spec fn bound_to(p: project::ProjectModel, name: Seq<char>, key: Seq<char>) -> bool {
    p.markers.dom().contains(name) && p.markers[name].shortcut == Some(key)
}

/// Only one fragment of a project changed.
pub open spec fn fragment_changed(a: app::AppModel, b: app::AppModel, i: int) -> bool {
    b == (app::AppModel {
        project: project::ProjectModel {
            files: a.project.files.update(i, b.project.files[i]),
            ..a.project
        },
        ..a
    })
}

/// The fragment that a marker key goes to.
pub open spec fn marked_place(a: app::AppModel, shown: Option<i32>) -> Option<int> {
    let total = a.project.files.len() as int;
    match (a.current_index, shown) {
        (Some(index), _) => if index < total {
            Some(index as int)
        } else {
            None
        },
        (None, Some(ui)) => if 0 <= ui < total {
            Some(total - 1 - ui)
        } else {
            None
        },
        (None, None) => None,
    }
}

/// What a marker key does: it switches a marker that is bound to it.
pub open spec fn marker_switched(
    a: app::AppModel,
    key: Seq<char>,
    shown: Option<i32>,
    b: app::AppModel,
    step: effects::StepModel,
) -> bool {
    match marked_place(a, shown) {
        None => nothing(a, b, step),
        Some(i) => {
            ||| nothing(a, b, step) && forall|name: Seq<char>| !#[trigger] bound_to(a.project, name, key)
            ||| {
                &&& step == effects::StepModel::SaveThenShow
                &&& fragment_changed(a, b, i)
                &&& exists|name: Seq<char>| #[trigger]
                    bound_to(a.project, name, key) && markers::switched(
                        a.project.files[i],
                        b.project.files[i],
                        name,
                        markers::is_section(a.project.markers, name),
                        (i + 1) as nat,
                    )
            }
        },
    }
}

/// What an edit of the markers of a counted fragment does.
pub open spec fn markers_edited(
    a: app::AppModel,
    action: keyboard::ActionModel,
    b: app::AppModel,
    step: effects::StepModel,
) -> bool {
    let total = a.project.files.len();
    match action {
        keyboard::ActionModel::AddMarkers { file_index, markers } => if 1 <= file_index <= total {
            let i = file_index - 1;
            let before = a.project.files[i];
            let after = b.project.files[i];
            &&& step == effects::StepModel::SaveThenShow
            &&& fragment_changed(a, b, i)
            &&& markers::sorted_from(markers::with_new(before.markers, markers), after.markers)
            &&& after == (project::ProjectFileModel {
                markers: after.markers,
                title: if markers::brings_section(before.markers, markers, a.project.markers)
                    && before.title.len() == 0 {
                    markers::section_title(file_index as nat)
                } else {
                    before.title
                },
                ..before
            })
        } else {
            nothing(a, b, step)
        },
        keyboard::ActionModel::RemoveMarkers { file_index, markers } => if 1 <= file_index <= total {
            let i = file_index - 1;
            let before = a.project.files[i];
            let after = b.project.files[i];
            &&& step == effects::StepModel::SaveThenShow
            &&& fragment_changed(a, b, i)
            &&& markers::sorted_from(markers::without(before.markers, markers), after.markers)
            &&& after == (project::ProjectFileModel { markers: after.markers, ..before })
        } else {
            nothing(a, b, step)
        },
        keyboard::ActionModel::SetMarkers { file_index, markers } => if 1 <= file_index <= total {
            let i = file_index - 1;
            let before = a.project.files[i];
            let after = b.project.files[i];
            &&& step == effects::StepModel::SaveThenShow
            &&& fragment_changed(a, b, i)
            &&& markers::sorted_from(markers::with_new(Seq::empty(), markers), after.markers)
            &&& after == (project::ProjectFileModel { markers: after.markers, ..before })
        } else {
            nothing(a, b, step)
        },
        _ => false,
    }
}

/// What switching a mode does. While recording, or without fragments, nothing.
pub open spec fn mode_switched(
    a: app::AppModel,
    mode: RecordingMode,
    b: app::AppModel,
    step: effects::StepModel,
) -> bool {
    if a.state is Recording || a.project.files.len() == 0 {
        nothing(a, b, step)
    } else {
        let off = a.recording_mode == mode;
        &&& step == effects::StepModel::Apply(
            seq![effects::EffectModel::Refresh { status_line: true, skip_list: false }],
        )
        &&& b == (app::AppModel {
            recording_mode: if off {
                RecordingMode::Append
            } else {
                mode
            },
            update_recording_index: if !off && mode == RecordingMode::Update {
                None
            } else {
                a.update_recording_index
            },
            insert_recording_index: if !off && mode == RecordingMode::Insert {
                None
            } else {
                a.insert_recording_index
            },
            ..a
        })
    }
}

/// What a command does to the recorder and what follows it. `shown` is the place
/// that the window shows, if there is a window.
pub open spec fn handled(
    a: app::AppModel,
    action: keyboard::ActionModel,
    shown: Option<i32>,
    now_ms: u64,
    b: app::AppModel,
    step: effects::StepModel,
) -> bool {
    let total = a.project.files.len() as int;
    match action {
        keyboard::ActionModel::Record { duration_secs } => b == a && step
            == effects::StepModel::Record {
            duration_secs,
            replace_current: !(a.state is Recording),
        },
        keyboard::ActionModel::Accept => b == a && step == (if a.state is Recording {
            effects::StepModel::Accept { go_on: a.recording_mode == RecordingMode::Append }
        } else {
            effects::StepModel::Record { duration_secs: None, replace_current: false }
        }),
        keyboard::ActionModel::Stop => if a.state is Recording {
            &&& b == playback::after_stop_recording(a, now_ms)
            &&& step == effects::StepModel::Apply(playback::stop_recording_effects(a))
        } else {
            &&& b == playback::after_stop_playback(a)
            &&& step == effects::StepModel::Apply(playback::stop_playback_effects(a))
        },
        keyboard::ActionModel::Prev => match app::selection(a) {
            Some((_, ui)) if ui + 1 < total => moved(
                a,
                b,
                step,
                Some((ui + 1) as i32),
                true,
                now_ms,
            ),
            _ => nothing(a, b, step),
        },
        keyboard::ActionModel::Next => match app::selection(a) {
            Some((_, ui)) if ui > 0 => moved(a, b, step, Some((ui - 1) as i32), true, now_ms),
            _ => nothing(a, b, step),
        },
        keyboard::ActionModel::PrevSect => exists|target: Option<i32>| #[trigger]
            section_target(a, false, target) && moved_if(a, b, step, target, true, now_ms),
        keyboard::ActionModel::NextSect => exists|target: Option<i32>| #[trigger]
            section_target(a, true, target) && moved_if(a, b, step, target, true, now_ms),
        keyboard::ActionModel::ModeUpdate => mode_switched(a, RecordingMode::Update, b, step),
        keyboard::ActionModel::ModeInsert => mode_switched(a, RecordingMode::Insert, b, step),
        keyboard::ActionModel::Play => b == a && step == effects::StepModel::Play,
        keyboard::ActionModel::Goto { index, play } => moved(a, b, step, index, play, now_ms),
        keyboard::ActionModel::SearchHintUp(query) => exists|target: Option<i32>| #[trigger]
            search_target(a, shown, query, false, target) && moved_if(
                a,
                b,
                step,
                target,
                false,
                now_ms,
            ),
        keyboard::ActionModel::SearchHintDown(query) => exists|target: Option<i32>| #[trigger]
            search_target(a, shown, query, true, target) && moved_if(
                a,
                b,
                step,
                target,
                false,
                now_ms,
            ),
        keyboard::ActionModel::Shutdown => {
            &&& b == (app::AppModel { should_exit: true, ..a })
            &&& step == effects::StepModel::Apply(Seq::empty())
        },
        keyboard::ActionModel::SaveDialog { request_id, edit } => b == a && step
            == effects::StepModel::SaveDialog { request_id, edit },
        keyboard::ActionModel::AddMarker { marker } => marker_switched(a, marker, shown, b, step),
        keyboard::ActionModel::AddMarkers { .. } => markers_edited(a, action, b, step),
        keyboard::ActionModel::RemoveMarkers { .. } => markers_edited(a, action, b, step),
        keyboard::ActionModel::SetMarkers { .. } => markers_edited(a, action, b, step),
        keyboard::ActionModel::OpenMarkerSettings => b == a && step
            == effects::StepModel::OpenMarkerSettings,
        keyboard::ActionModel::Compile => b == a && step == effects::StepModel::Compile,
        keyboard::ActionModel::CompileCancel => b == a && step == effects::StepModel::CancelCompile,
        keyboard::ActionModel::Transcribe { file_index } => b == a && step
            == effects::StepModel::Apply(
            if 1 <= file_index <= total {
                seq![effects::EffectModel::Transcribe((total - file_index) as usize)]
            } else {
                Seq::empty()
            },
        ),
        keyboard::ActionModel::OpenShortcutsDialog => b == a && step
            == effects::StepModel::OpenShortcuts,
        keyboard::ActionModel::OpenDeleteChunkDialog => b == a && step
            == effects::StepModel::OpenDelete,
        keyboard::ActionModel::ConfirmDeleteChunk { ui_index } => b == a && step
            == effects::StepModel::ConfirmDelete { ui_index },
        keyboard::ActionModel::Nothing => nothing(a, b, step),
    }
}

impl App {
    /// Does what a command asks for, as far as the recorder's own state goes, and
    /// says what has to follow outside.
    pub fn handle_action(&mut self, action: Action, shown: Option<i32>, now_ms: u64) -> (r: Step)
        requires
            old(self)@.project.files.len() < i32::MAX,
        ensures
            handled(old(self)@, action@, shown, now_ms, final(self)@, r@),
    {
        let total: usize = self.project.files.len();
        assert(total == self@.project.files.len());
        let ghost act = action@;
        match action {
            Action::Record { duration_secs } => {
                let replace_current = !self.is_recording();
                Step::Record { duration_secs, replace_current }
            },
            Action::Accept => if self.is_recording() {
                let go_on = self.recording_mode != RecordingMode::Update && self.recording_mode
                    != RecordingMode::Insert;
                Step::Accept { go_on }
            } else {
                Step::Record { duration_secs: None, replace_current: false }
            },
            Action::Stop => if self.is_recording() {
                Step::Apply(self.stop_recording(now_ms))
            } else {
                Step::Apply(self.stop_playback())
            },
            Action::Prev => {
                let target: Option<i32> = match self.current_orig_and_ui() {
                    Some((_, ui)) => if (ui as usize) + 1 < total {
                        Some(ui + 1)
                    } else {
                        None
                    },
                    None => None,
                };
                self.move_to(target, true, now_ms)
            },
            Action::Next => {
                let target: Option<i32> = match self.current_orig_and_ui() {
                    Some((_, ui)) => if ui > 0 {
                        Some(ui - 1)
                    } else {
                        None
                    },
                    None => None,
                };
                self.move_to(target, true, now_ms)
            },
            Action::PrevSect => self.handle_adjacent_section(false, now_ms),
            Action::NextSect => self.handle_adjacent_section(true, now_ms),
            Action::ModeUpdate => self.switch_mode(RecordingMode::Update),
            Action::ModeInsert => self.switch_mode(RecordingMode::Insert),
            Action::Play => Step::Play,
            Action::Goto { index, play } => Step::Apply(self.goto_to_index(index, play, now_ms)),
            Action::SearchHintUp(query) => {
                let target: Option<i32> = self.find_hint(query.as_str(), false, shown);
                assert(act == keyboard::ActionModel::SearchHintUp(query@));
                assert(search_target(old(self)@, shown, act->SearchHintUp_0, false, target));
                self.move_to(target, false, now_ms)
            },
            Action::SearchHintDown(query) => {
                let target: Option<i32> = self.find_hint(query.as_str(), true, shown);
                assert(act == keyboard::ActionModel::SearchHintDown(query@));
                assert(search_target(old(self)@, shown, act->SearchHintDown_0, true, target));
                self.move_to(target, false, now_ms)
            },
            Action::Shutdown => {
                self.should_exit = true;
                Step::Apply(no_effects())
            },
            Action::SaveDialog { request_id, edit } => Step::SaveDialog { request_id, edit: *edit },
            Action::AddMarker { marker } => self.switch_marker(marker.as_str(), shown),
            Action::AddMarkers { file_index, markers } => {
                match Project::file_index_1based_to_orig(file_index, total) {
                    Some(i) => {
                        let ghost before = self@;
                        markers::add_markers(
                            &mut self.project.files[i],
                            &markers,
                            &self.project.markers,
                            i,
                        );
                        assert(self@.project.files =~= before.project.files.update(
                            i as int,
                            self@.project.files[i as int],
                        ));
                        assert(before.project.files[i as int] == old(
                            self,
                        ).project.files@[i as int]@);
                        Step::SaveThenShow
                    },
                    None => Step::Apply(no_effects()),
                }
            },
            Action::RemoveMarkers { file_index, markers } => {
                match Project::file_index_1based_to_orig(file_index, total) {
                    Some(i) => {
                        let ghost before = self@;
                        markers::remove_markers(&mut self.project.files[i], &markers);
                        assert(self@.project.files =~= before.project.files.update(
                            i as int,
                            self@.project.files[i as int],
                        ));
                        assert(before.project.files[i as int] == old(
                            self,
                        ).project.files@[i as int]@);
                        Step::SaveThenShow
                    },
                    None => Step::Apply(no_effects()),
                }
            },
            Action::SetMarkers { file_index, markers } => {
                match Project::file_index_1based_to_orig(file_index, total) {
                    Some(i) => {
                        let ghost before = self@;
                        markers::set_markers(&mut self.project.files[i], &markers);
                        assert(self@.project.files =~= before.project.files.update(
                            i as int,
                            self@.project.files[i as int],
                        ));
                        assert(before.project.files[i as int] == old(
                            self,
                        ).project.files@[i as int]@);
                        Step::SaveThenShow
                    },
                    None => Step::Apply(no_effects()),
                }
            },
            Action::OpenMarkerSettings => Step::OpenMarkerSettings,
            Action::Compile => Step::Compile,
            Action::CompileCancel => Step::CancelCompile,
            Action::Transcribe { file_index } => {
                let mut out = no_effects();
                if file_index >= 1 {
                    if let Some(i) = indexes::ui_to_orig_index(file_index - 1, total) {
                        then_do(&mut out, Effect::Transcribe(i));
                        assert(effects::effect_models(out@) =~= seq![
                            effects::EffectModel::Transcribe(i),
                        ]);
                    }
                }
                Step::Apply(out)
            },
            Action::OpenShortcutsDialog => Step::OpenShortcuts,
            Action::OpenDeleteChunkDialog => Step::OpenDelete,
            Action::ConfirmDeleteChunk { ui_index } => Step::ConfirmDelete { ui_index },
            Action::Nothing => Step::Apply(no_effects()),
        }
    }

    fn switch_mode(&mut self, mode: RecordingMode) -> (r: Step)
        requires
            mode != RecordingMode::Append,
        ensures
            mode_switched(old(self)@, mode, final(self)@, r@),
    {
        let mut out = no_effects();
        assert(self.project.files.len() == self@.project.files.len());
        if !self.is_recording() && self.project.files.len() > 0 {
            if self.recording_mode == mode {
                self.recording_mode = RecordingMode::Append;
            } else {
                if mode == RecordingMode::Update {
                    self.update_recording_index = None;
                } else {
                    self.insert_recording_index = None;
                }
                self.recording_mode = mode;
            }
            then_do(&mut out, Effect::Refresh { status_line: true, skip_list: false });
            assert(effects::effect_models(out@) =~= seq![
                effects::EffectModel::Refresh { status_line: true, skip_list: false },
            ]);
        }
        Step::Apply(out)
    }

    fn move_to(&mut self, target: Option<i32>, play: bool, now_ms: u64) -> (r: Step)
        ensures
            moved_if(old(self)@, final(self)@, r@, target, play, now_ms),
    {
        match target {
            Some(index) => Step::Apply(self.goto_to_index(Some(index), play, now_ms)),
            None => Step::Apply(no_effects()),
        }
    }

    fn adjacent_section(&self, next: bool) -> (r: Option<i32>)
        requires
            self@.project.files.len() < i32::MAX,
        ensures
            section_target(self@, next, r),
    {
        let total: usize = self.project.files.len();
        assert(total == self@.project.files.len());
        let (place, ui) = match self.current_orig_and_ui() {
            Some(pair) => pair,
            None => {
                return None;
            },
        };
        if !self.file_list_update_pending {
            if let Some(indices) = self.ui_update_cache.section_indices() {
                let found: Option<usize> = updater::adjacent_section_index(indices, place, next);
                let r: Option<i32> = match found {
                    Some(index) => Some(indexes::orig_to_ui_index(index, total)),
                    None => None,
                };
                assert(app::selection(self@) == Some((place as int, ui as int)));
                assert(r == place_in_list(self@.project.files.len() as int, found));
                assert(updater::is_adjacent(
                    self@.ui_update_cache.sections(),
                    (place as int) as usize,
                    next,
                    found,
                ));
                return r;
            }
        }
        let files = &self.project.files;
        let known = &self.project.markers;
        let has_section = |index: usize| -> (said: bool)
            requires
                index < files@.len(),
            ensures
                said == markers::starts_section(files@[index as int]@, known@),
            { markers::file_starts_section(&files[index], known) };
        let r: Option<i32> = indexes::find_section_ui_index(total, ui, next, &has_section);
        proof {
            let p = self@.project;
            assert forall|k: int, said: bool| #[trigger]
                indexes::section_shown(&has_section, total as int, k, said) implies shows_section(
                p,
                k,
            ) == said by {
                assert(p.files[total - 1 - k] == files@[total - 1 - k]@);
            }
            match r {
                Some(found) => {
                    assert forall|k: int|
                        (if next {
                            found < k < ui
                        } else {
                            ui < k < found
                        }) implies !#[trigger] shows_section(p, k) by {
                        if 0 <= k < total {
                            assert(indexes::section_shown(&has_section, total as int, k, false));
                        }
                    }
                },
                None => {
                    assert forall|k: int|
                        (if next {
                            k < ui
                        } else {
                            k > ui
                        }) implies !#[trigger] shows_section(p, k) by {
                        if 0 <= k < total {
                            assert(indexes::section_shown(&has_section, total as int, k, false));
                        }
                    }
                },
            }
        }
        r
    }

    fn handle_adjacent_section(&mut self, next: bool, now_ms: u64) -> (r: Step)
        requires
            old(self)@.project.files.len() < i32::MAX,
        ensures
            exists|target: Option<i32>| #[trigger]
                section_target(old(self)@, next, target) && moved_if(
                    old(self)@,
                    final(self)@,
                    r@,
                    target,
                    true,
                    now_ms,
                ),
    {
        let target: Option<i32> = self.adjacent_section(next);
        self.move_to(target, true, now_ms)
    }

    fn hint_fits(&self, ui: i32, wanted: &str) -> (r: bool)
        requires
            self@.project.files.len() < i32::MAX,
            0 <= ui,
        ensures
            r == hint_matches(self@, ui as int, wanted@),
    {
        let total: usize = self.project.files.len();
        assert(total == self@.project.files.len());
        let recording = self.is_recording();
        let shown: i32 = if recording {
            ui - 1
        } else {
            ui
        };
        match indexes::ui_to_orig_index(shown, total) {
            Some(place) => {
                assert(self@.project.files[place as int] == self.project.files@[place as int]@);
                let hint = text::to_lowercase(self.project.files[place].hint.as_str());
                text::contains(hint.as_str(), wanted)
            },
            None => false,
        }
    }

    /// Searches the hints for a text.
    fn find_hint(&self, query: &str, down: bool, shown: Option<i32>) -> (r: Option<i32>)
        requires
            self@.project.files.len() < i32::MAX,
        ensures
            search_target(self@, shown, query@, down, r),
    {
        let wanted = text::to_lowercase(query);
        let at: i32 = match shown {
            Some(at) => at,
            None => {
                return None;
            },
        };
        if wanted.as_str().is_empty() {
            return None;
        }
        let total: usize = self.project.files.len();
        assert(total == self@.project.files.len());
        let ghost w = wanted@;
        if down {
            let mut ui: i32 = if at < 0 {
                0
            } else if at as usize > total {
                return None;
            } else {
                at + 1
            };
            while ui as usize <= total
                invariant
                    0 <= ui <= total + 1,
                    at < ui,
                    total < i32::MAX,
                    total == self@.project.files.len(),
                    shown == Some(at),
                    w == wanted@,
                    w == text::lowercase(query@),
                    w.len() > 0,
                    down,
                    forall|k: int| at < k < ui ==> !#[trigger] hint_matches(self@, k, w),
                decreases total + 1 - ui,
            {
                if self.hint_fits(ui, wanted.as_str()) {
                    return Some(ui);
                }
                ui = ui + 1;
            }
        } else {
            let mut ui: i32 = at;
            while ui > 0
                invariant
                    ui <= at,
                    self@.project.files.len() < i32::MAX,
                    shown == Some(at),
                    w == wanted@,
                    w == text::lowercase(query@),
                    w.len() > 0,
                    !down,
                    forall|k: int| ui <= k < at ==> !#[trigger] hint_matches(self@, k, w),
                decreases ui,
            {
                ui = ui - 1;
                if self.hint_fits(ui, wanted.as_str()) {
                    return Some(ui);
                }
            }
        }
        None
    }

    fn bound_marker(&self, key: &str) -> (r: Option<String>)
        ensures
            match r {
                Some(name) => bound_to(self@.project, name@, key@),
                None => forall|name: Seq<char>| !#[trigger] bound_to(self@.project, name, key@),
            },
    {
        let known = &self.project.markers;
        let total: usize = known.len();
        let mut i: usize = 0;
        while i < total
            invariant
                i <= total == known.names().len(),
                known == &self.project.markers,
                forall|name: Seq<char>| #[trigger]
                    known@.dom().contains(name) <==> known.names().contains(name),
                forall|k: int|
                    0 <= k < i ==> !bound_to(self@.project, #[trigger] known.names()[k], key@),
            decreases total - i,
        {
            let name = known.name_at(i);
            if let Some(shortcut) = &known.settings_at(i).shortcut {
                if text::same_text(shortcut.as_str(), key) {
                    return Some(name.clone());
                }
            }
            i = i + 1;
        }
        proof {
            assert forall|name: Seq<char>| !#[trigger] bound_to(self@.project, name, key@) by {
                if known@.dom().contains(name) {
                    assert(known.names().contains(name));
                    let k = choose|k: int| 0 <= k < known.names().len() && known.names()[k] == name;
                    assert(known.names()[k] == name);
                }
            }
        }
        None
    }

    fn switch_marker(&mut self, key: &str, shown: Option<i32>) -> (r: Step)
        ensures
            marker_switched(old(self)@, key@, shown, final(self)@, r@),
    {
        let total: usize = self.project.files.len();
        assert(total == self@.project.files.len());
        let place: Option<usize> = match self.current_index {
            Some(index) => if index < total {
                Some(index)
            } else {
                None
            },
            None => match shown {
                Some(ui) => indexes::ui_to_orig_index(ui, total),
                None => None,
            },
        };
        let i: usize = match place {
            Some(i) => i,
            None => {
                return Step::Apply(no_effects());
            },
        };
        match self.bound_marker(key) {
            None => Step::Apply(no_effects()),
            Some(name) => {
                let ghost before = self@;
                let section = markers::marker_is_section(&self.project.markers, name.as_str());
                markers::toggle_marker(&mut self.project.files[i], name.as_str(), section, i);
                proof {
                    assert(self@.project.files =~= before.project.files.update(
                        i as int,
                        self@.project.files[i as int],
                    ));
                    assert(before.project.files[i as int] == old(self).project.files@[i as int]@);
                    assert(bound_to(before.project, name@, key@));
                }
                Step::SaveThenShow
            },
        }
    }
}

/// The window's copy finds the same section as a walk over the project, as long as it
/// was made from the project.
pub proof fn fresh_copy_finds_the_same_section(
    p: project::ProjectModel,
    place: int,
    next: bool,
    found: Option<usize>,
)
    requires
        p.files.len() < i32::MAX,
        0 <= place < p.files.len(),
        updater::is_adjacent(
            snapshot::section_places(p.files, p.markers, p.files.len() as int),
            place as usize,
            next,
            found,
        ),
    ensures
        nearest_section(
            p,
            indexes::ui_place(place, p.files.len() as int),
            next,
            place_in_list(p.files.len() as int, found),
        ),
{
    let total = p.files.len() as int;
    let places = snapshot::section_places(p.files, p.markers, total);
    let ui = indexes::ui_place(place, total);
    snapshot::section_places_are_the_sections(p.files, p.markers, total);
    let r = place_in_list(total, found);
    if let Some(at) = found {
        assert(places.contains(at));
    }
    assert forall|k: int|
        (match r {
            Some(f) => if next {
                f < k < ui
            } else {
                ui < k < f
            },
            None => if next {
                k < ui
            } else {
                k > ui
            },
        }) implies !#[trigger] shows_section(p, k) by {
        if shows_section(p, k) {
            let section = (total - 1 - k) as usize;
            assert(places.contains(section));
            let i = choose|i: int| 0 <= i < places.len() && places[i] == section;
            assert(places[i] == section);
        }
    }
}

} // verus!
