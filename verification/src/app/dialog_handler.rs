//! What the dialogs ask of the recorder, and what it shows in them.
use crate::app::app;
use crate::app::app::App;
use crate::app::effects;
use crate::app::effects::{no_effects, then_do, then_do_all, Effect};
use crate::app::playback;
use crate::app::recording;
use crate::project::dialog_edit;
use crate::project::dialog_edit::{
    persist_staged, save_chunk_dialog, save_marker_dialog, save_meta_dialog, DialogError,
    DialogSaveOutcome, SaveReport,
};
use crate::project::markers;
use crate::project::markers::{compute_effective_durations_ms, SoundLengths};
use crate::project::project;
use crate::project::project::{MarkerSettingsData, Project};
use crate::ui::dialogs;
use crate::ui::dialogs::DialogReply;
use crate::ui::ui;
use crate::ui::ui::UIState;
use crate::utils::indexes;
use crate::utils::keyboard;
use crate::utils::keyboard::DialogEdit;
use crate::utils::paths;
use crate::utils::text;
use vstd::prelude::*;

verus! {

/// Whether a save of a dialog did what its edit asks for.
pub open spec fn edit_saved<F: Fn(&Project) -> SaveReport>(
    save: &F,
    path: Seq<char>,
    before: project::ProjectModel,
    edit: keyboard::DialogEditModel,
    after: project::ProjectModel,
    r: Result<DialogSaveOutcome, DialogError>,
) -> bool {
    match edit {
        keyboard::DialogEditModel::Meta(data) => if data.format_audio == "wav"@
            || data.format_audio == "mp3"@ {
            let staged = dialog_edit::with_meta(before, data);
            &&& dialog_edit::was_persisted(save, path, staged, r)
            &&& after == (if r is Ok {
                staged
            } else {
                before
            })
        } else {
            &&& r matches Err(DialogError::Field(e)) && e@ == (dialog_edit::FieldErrorModel {
                marker: Seq::empty(),
                field: "format_audio"@,
                message: "Choose WAV or MP3"@,
            })
            &&& after == before
        },
        keyboard::DialogEditModel::Chunk { data, expected_path } => match dialog_edit::stale_selection(
            before,
            data.ui_index,
            expected_path,
        ) {
            Some(text) => r matches Err(DialogError::Refused(e)) && e@ == text && after == before,
            None => {
                let staged = dialog_edit::with_chunk(
                    before,
                    before.files.len() - 1 - data.ui_index,
                    data,
                );
                &&& dialog_edit::was_persisted(save, path, staged, r)
                &&& after == (if r is Ok {
                    staged
                } else {
                    before
                })
            },
        },
        keyboard::DialogEditModel::Marker(form) => match dialog_edit::accepted(
            before.markers,
            seq![form],
        ) {
            Err(e) => r matches Err(DialogError::Field(error)) && error@ == e && after == before,
            Ok(markers) => {
                let staged = project::ProjectModel { markers, ..before };
                &&& dialog_edit::was_persisted(save, path, staged, r)
                &&& after == (if r is Ok {
                    staged
                } else {
                    before
                })
            },
        },
        keyboard::DialogEditModel::RefreshMetadata => false,
    }
}

/// A project with sizes and lengths as they were measured; the sounds of the
/// markers count.
pub open spec fn with_measurements(
    p: project::ProjectModel,
    measured: Seq<Option<(u64, u64)>>,
    lengths: Map<Seq<char>, u64>,
    divisor: nat,
) -> project::ProjectModel {
    project::ProjectModel {
        files: Seq::new(
            p.files.len(),
            |i: int|
                {
                    let file = project::measured_file(p.files[i], measured, i);
                    project::ProjectFileModel {
                        duration_ms: markers::effective_ms(file, p.markers, lengths, divisor),
                        ..file
                    }
                },
        ),
        ..p
    }
}

/// The answer to a save.
pub open spec fn reply_of(request_id: u64, saved: Result<DialogSaveOutcome, DialogError>) -> dialogs::DialogReplyModel {
    dialogs::DialogReplyModel {
        request_id,
        result: match saved {
            Ok(outcome) => Ok(text::option_text(outcome.warning)),
            Err(e) => Err(e.spec_text()),
        },
        field: match saved {
            Err(DialogError::Field(e)) => Some(e@.field),
            _ => None,
        },
    }
}

/// The window's state with the book data of a project.
pub open spec fn with_book(state: ui::UIStateModel, p: project::ProjectModel) -> ui::UIStateModel {
    ui::UIStateModel {
        dialog_project_title: p.meta.title,
        dialog_project_author: p.meta.author,
        dialog_project_year: p.meta.year,
        dialog_project_hint: p.meta.hint,
        dialog_project_reader: p.meta.reader,
        dialog_project_format_audio: p.settings.format_audio,
        dialog_project_normalize: p.settings.normalize,
        dialog_project_cover: p.settings.cover,
        dialog_project_section_split: p.settings.section_split,
        dialog_project_denoise: p.settings.denoise,
        ..state
    }
}

/// The line of a key in the list of keys.
pub open spec fn key_line(key: Seq<char>, meaning: Seq<char>) -> Seq<char> {
    key + " — "@ + meaning
}

/// The lines of the fixed keys.
pub open spec fn key_lines(keys: project::KeyBindingsModel) -> Seq<Seq<char>> {
    seq![
        key_line(keys.record, "Start/restart recording"@),
        key_line(keys.ok, "Phrase OK, new recording"@),
        key_line(keys.stop, "Stop recording"@),
        key_line(keys.prev, "Previous recording"@),
        key_line(keys.next, "Next recording"@),
        key_line(keys.play, "Playback"@),
        key_line(keys.chapter_next, "Next chapter"@),
        key_line(keys.chapter_prev, "Previous chapter"@),
    ]
}

/// The line of a marker's key.
pub open spec fn marker_key_line(bound: (Seq<char>, Seq<char>)) -> Seq<char> {
    bound.0 + " — marker \""@ + bound.1 + "\""@
}

/// Whether a list of keys and names is that of the markers with a key, in the order
/// of the keys.
pub open spec fn lists_keys(
    known: Map<Seq<char>, project::MarkerSettingsModel>,
    bound: Seq<(Seq<char>, Seq<char>)>,
) -> bool {
    &&& bound.no_duplicates()
    &&& forall|key: Seq<char>, name: Seq<char>|
        #![trigger bound.contains((key, name))]
        bound.contains((key, name)) <==> known.dom().contains(name) && known[name].shortcut == Some(
            key,
        )
    &&& keys_in_order(bound)
}

/// The list of keys as it is shown.
pub open spec fn shortcuts_text(
    keys: project::KeyBindingsModel,
    bound: Seq<(Seq<char>, Seq<char>)>,
) -> Seq<char> {
    text::join(
        key_lines(keys) + bound.map_values(|b: (Seq<char>, Seq<char>)| marker_key_line(b)),
        "\n"@,
    )
}

/// The question whether to delete a fragment.
pub open spec fn delete_text(number: nat, file: project::ProjectFileModel) -> Seq<char> {
    let title = if file.title.len() == 0 {
        "—"@
    } else {
        file.title
    };
    "Запись №"@ + text::decimal(number) + ": "@ + title + ", файл: "@ + file.path
}

/// The selected fragment after one was deleted.
pub open spec fn selected_after_delete(current: Option<usize>, deleted: int, left: int) -> Option<
    usize,
> {
    match current {
        Some(c) => if c == deleted {
            if deleted > 0 {
                Some((deleted - 1) as usize)
            } else if left > 0 {
                Some(0usize)
            } else {
                None
            }
        } else if c > deleted {
            Some((c - 1) as usize)
        } else {
            Some(c)
        },
        None => None,
    }
}

/// The recorder after a fragment was deleted.
pub open spec fn after_delete(a: app::AppModel, i: int) -> app::AppModel {
    let stopped = if a.state is Playing {
        playback::after_stop_playback(a)
    } else {
        a
    };
    app::AppModel {
        project: project::ProjectModel { files: a.project.files.remove(i), ..a.project },
        current_index: selected_after_delete(
            stopped.current_index,
            i,
            a.project.files.len() - 1,
        ),
        ..stopped
    }
}

/// What deleting a fragment asks for.
pub open spec fn delete_effects(a: app::AppModel, i: int) -> Seq<effects::EffectModel> {
    seq![
        effects::EffectModel::RemoveRecording(
            paths::joined(app::project_dir(a.project_path), a.project.files[i].path),
        ),
    ] + playback::stop_playback_effects(a) + seq![
        effects::EffectModel::DrawCurrentGraph,
        effects::EffectModel::DrawPreviousGraph,
        effects::EffectModel::Changed,
        effects::EffectModel::CloseDeleteDialog,
    ]
}

/// Puts the book data of a project into the window's state.
pub fn load_meta_from_project(state: &mut UIState, p: &Project)
    ensures
        final(state)@ == with_book(old(state)@, p@),
{
    state.dialog_project_title = p.meta.title.clone();
    state.dialog_project_author = p.meta.author.clone();
    state.dialog_project_year = p.meta.year.clone();
    state.dialog_project_hint = p.meta.hint.clone();
    state.dialog_project_reader = p.meta.reader.clone();
    state.dialog_project_format_audio = p.settings.format_audio.clone();
    state.dialog_project_normalize = p.settings.normalize;
    state.dialog_project_cover = p.settings.cover.clone();
    state.dialog_project_section_split = p.settings.section_split;
    state.dialog_project_denoise = p.settings.denoise;
    assert(final(state)@ =~= with_book(old(state)@, p@));
}

/// Asks an export to stop, unless it ended or is being published. Gives whether
/// it was asked.
pub fn cancel_compile(state: &mut UIState, worker_runs: bool) -> (asked: bool)
    ensures
        asked == (worker_runs && old(state)@.compile_finished_at is None
            && !old(state)@.compile_publishing),
        final(state)@ == (if asked {
            ui::UIStateModel {
                compile_cancel_requested: true,
                compile_stage: "Cancelling…"@,
                ..old(state)@
            }
        } else {
            old(state)@
        }),
{
    if !worker_runs || state.compile_finished_at.is_some() || state.compile_publishing {
        return false;
    }
    state.compile_cancel_requested = true;
    state.compile_stage = "Cancelling…".to_owned();
    assert(final(state)@ =~= (ui::UIStateModel {
        compile_cancel_requested: true,
        compile_stage: "Cancelling…"@,
        ..old(state)@
    }));
    true
}

fn line_of_key(key: &str, meaning: &str) -> (r: String)
    ensures
        r@ == key_line(key@, meaning@),
{
    key.to_owned().concat(" — ").concat(meaning)
}

/// The texts of a list of pairs.
pub open spec fn pair_texts(v: Seq<(String, String)>) -> Seq<(Seq<char>, Seq<char>)> {
    v.map_values(|p: (String, String)| (p.0@, p.1@))
}

/// Whether pairs are in the order of their keys.
pub open spec fn keys_in_order(v: Seq<(Seq<char>, Seq<char>)>) -> bool {
    forall|i: int, j: int|
        #![trigger v[i], v[j]]
        0 <= i < j < v.len() ==> !text::comes_before(v[j].0, v[i].0)
}

proof fn push_contains(s: Seq<Seq<char>>, x: Seq<char>, y: Seq<char>)
    ensures
        s.push(x).contains(y) <==> s.contains(y) || y == x,
{
    let t = s.push(x);
    assert(t[t.len() - 1] == x);
    if s.contains(y) {
        let k = choose|k: int| 0 <= k < s.len() && s[k] == y;
        assert(t[k] == y);
    }
    if t.contains(y) {
        let k = choose|k: int| 0 <= k < t.len() && t[k] == y;
        if k < s.len() {
            assert(s[k] == y);
        }
    }
}

proof fn insert_keeps(s: Seq<(Seq<char>, Seq<char>)>, at: int, x: (Seq<char>, Seq<char>))
    requires
        0 <= at <= s.len(),
        s.no_duplicates(),
        !s.contains(x),
    ensures
        s.insert(at, x).no_duplicates(),
        forall|y: (Seq<char>, Seq<char>)| #[trigger]
            s.insert(at, x).contains(y) <==> s.contains(y) || y == x,
{
    let t = s.insert(at, x);
    assert forall|y: (Seq<char>, Seq<char>)| #[trigger] t.contains(y) <==> s.contains(y) || y
        == x by {
        assert(t[at] == x);
        if s.contains(y) {
            let k = choose|k: int| 0 <= k < s.len() && s[k] == y;
            assert(t[if k < at {
                k
            } else {
                k + 1
            }] == y);
        }
        if t.contains(y) {
            let k = choose|k: int| 0 <= k < t.len() && t[k] == y;
            if k < at {
                assert(s[k] == y);
            } else if k > at {
                assert(s[k - 1] == y);
            }
        }
    }
    assert forall|i: int, j: int| 0 <= i < t.len() && 0 <= j < t.len() && i != j implies t[i]
        != t[j] by {
        let si = if i < at {
            i
        } else {
            i - 1
        };
        let sj = if j < at {
            j
        } else {
            j - 1
        };
        if i == at {
            assert(s[sj] == t[j]);
        } else if j == at {
            assert(s[si] == t[i]);
        } else {
            assert(s[si] == t[i] && s[sj] == t[j]);
        }
    }
}

/// Where a key goes behind those that do not come after it.
fn place_of_key(v: &Vec<(String, String)>, key: &str) -> (at: usize)
    requires
        keys_in_order(pair_texts(v@)),
    ensures
        at <= v@.len(),
        forall|x: Seq<char>|
            keys_in_order(#[trigger] pair_texts(v@).insert(at as int, (key@, x))),
{
    let ghost pairs = pair_texts(v@);
    let mut at: usize = v.len();
    while at > 0 && text::is_before(key, v[at - 1].0.as_str())
        invariant
            at <= v.len(),
            pairs == pair_texts(v@),
            forall|k: int| at <= k < pairs.len() ==> text::comes_before(key@, #[trigger] pairs[k].0),
        decreases at,
    {
        assert(pairs[at - 1].0 == v@[at - 1].0@);
        at = at - 1;
    }
    proof {
        if at > 0 {
            assert(pairs[at - 1].0 == v@[at - 1].0@);
        }
        assert forall|x: Seq<char>|
            keys_in_order(#[trigger] pair_texts(v@).insert(at as int, (key@, x))) by {
            let t = pairs.insert(at as int, (key@, x));
            assert forall|i: int, j: int|
                #![trigger t[i], t[j]]
                0 <= i < j < t.len() implies !text::comes_before(t[j].0, t[i].0) by {
                if i == at {
                    assert(t[j] == pairs[j - 1]);
                    text::order_is_total(key@, pairs[j - 1].0);
                } else if j == at {
                    assert(t[i] == pairs[i]);
                    if i < at - 1 {
                        text::order_is_transitive(pairs[i].0, pairs[at - 1].0, key@);
                    }
                } else {
                    let si = if i < at {
                        i
                    } else {
                        i - 1
                    };
                    let sj = if j < at {
                        j
                    } else {
                        j - 1
                    };
                    assert(t[i] == pairs[si] && t[j] == pairs[sj]);
                }
            }
        }
    }
    at
}

impl App {
    /// Saves an edit of a dialog. Measuring files anew is not one of them.
    pub fn handle_save_dialog<F: Fn(&Project) -> SaveReport>(
        &mut self,
        edit: &DialogEdit,
        save: &F,
    ) -> (r: Result<DialogSaveOutcome, DialogError>)
        requires
            !(edit@ is RefreshMetadata),
            forall|p: &Project| call_requires(save, (p,)),
        ensures
            edit_saved(
                save,
                old(self)@.project_path,
                old(self)@.project,
                edit@,
                final(self)@.project,
                r,
            ),
            final(self)@ == (app::AppModel { project: final(self)@.project, ..old(self)@ }),
    {
        match edit {
            DialogEdit::Meta(data) => save_meta_dialog(
                &mut self.project,
                self.project_path.as_str(),
                data,
                save,
            ),
            DialogEdit::Chunk { data, expected_path } => save_chunk_dialog(
                &mut self.project,
                self.project_path.as_str(),
                data,
                expected_path.as_str(),
                save,
            ),
            DialogEdit::Marker(form) => {
                let mut forms: Vec<MarkerSettingsData> = Vec::new();
                forms.push(form.clone());
                assert(dialog_edit::form_models(forms@) =~= seq![form@]);
                save_marker_dialog(
                    &mut self.project,
                    self.project_path.as_str(),
                    forms.as_slice(),
                    save,
                )
            },
            DialogEdit::RefreshMetadata => Err(DialogError::Refused(String::new())),
        }
    }

    /// Tells whether measured lengths can be counted, the sounds of the markers
    /// included.
    pub fn measurements_countable(
        &self,
        measured: &[Option<(u64, u64)>],
        lengths: &SoundLengths,
        sample_rate: u32,
        channels: u16,
    ) -> (r: bool)
        requires
            sample_rate > 0,
            channels > 0,
        ensures
            r == (forall|i: int|
                0 <= i < self@.project.files.len() ==> markers::lengths_fit(
                    #[trigger] project::measured_file(self@.project.files[i], measured@, i),
                    self@.project.markers,
                    lengths@,
                    (sample_rate * channels) as nat,
                )),
    {
        let ghost p = self@.project;
        let mut staged = self.project.clone();
        staged.update_files_meta_from_disk(measured);
        let total: usize = staged.files.len();
        assert(staged@.files.len() == total);
        let mut i: usize = 0;
        while i < total
            invariant
                i <= total == staged.files@.len(),
                total == p.files.len(),
                p == self@.project,
                sample_rate > 0,
                channels > 0,
                staged@.markers == p.markers,
                forall|k: int|
                    0 <= k < total ==> #[trigger] staged@.files[k] == project::measured_file(
                        p.files[k],
                        measured@,
                        k,
                    ),
                forall|k: int|
                    0 <= k < i ==> markers::lengths_fit(
                        #[trigger] project::measured_file(p.files[k], measured@, k),
                        p.markers,
                        lengths@,
                        (sample_rate * channels) as nat,
                    ),
            decreases total - i,
        {
            assert(staged@.files[i as int] == staged.files@[i as int]@);
            let fits = markers::lengths_countable(
                &staged.files[i],
                &staged.markers,
                lengths,
                sample_rate,
                channels,
            );
            if !fits {
                assert(!markers::lengths_fit(
                    project::measured_file(p.files[i as int], measured@, i as int),
                    p.markers,
                    lengths@,
                    (sample_rate * channels) as nat,
                ));
                return false;
            }
            i = i + 1;
        }
        true
    }

    /// Takes over sizes and lengths that were measured, and stores the project.
    pub fn handle_update_files_meta<F: Fn(&Project) -> SaveReport>(
        &mut self,
        measured: &[Option<(u64, u64)>],
        lengths: &SoundLengths,
        sample_rate: u32,
        channels: u16,
        save: &F,
    ) -> (r: Result<DialogSaveOutcome, DialogError>)
        requires
            sample_rate > 0,
            channels > 0,
            forall|i: int|
                0 <= i < old(self)@.project.files.len() ==> markers::lengths_fit(
                    #[trigger] project::measured_file(old(self)@.project.files[i], measured@, i),
                    old(self)@.project.markers,
                    lengths@,
                    (sample_rate * channels) as nat,
                ),
            forall|p: &Project| call_requires(save, (p,)),
        ensures
            ({
                let staged = with_measurements(
                    old(self)@.project,
                    measured@,
                    lengths@,
                    (sample_rate * channels) as nat,
                );
                &&& dialog_edit::was_persisted(save, old(self)@.project_path, staged, r)
                &&& final(self)@ == (app::AppModel {
                    project: if r is Ok {
                        staged
                    } else {
                        old(self)@.project
                    },
                    ..old(self)@
                })
            }),
    {
        let ghost p = self@.project;
        let ghost divisor = (sample_rate * channels) as nat;
        let ghost wanted = with_measurements(p, measured@, lengths@, divisor);
        let mut staged = self.project.clone();
        staged.update_files_meta_from_disk(measured);
        let ghost fresh = staged@;
        proof {
            assert(fresh.files.len() == staged.files@.len());
            assert forall|i: int| 0 <= i < staged.files@.len() implies markers::lengths_fit(
                #[trigger] staged.files@[i]@,
                staged.markers@,
                lengths@,
                divisor,
            ) by {
                assert(fresh.files[i] == staged.files@[i]@);
                assert(fresh.files[i] == project::measured_file(p.files[i], measured@, i));
            }
        }
        let effective = compute_effective_durations_ms(
            staged.files.as_slice(),
            &staged.markers,
            lengths,
            sample_rate,
            channels,
        );
        let total: usize = staged.files.len();
        let mut i: usize = 0;
        while i < total
            invariant
                i <= total,
                total == staged.files@.len(),
                total == fresh.files.len(),
                total == effective@.len(),
                total == wanted.files.len(),
                staged@ == (project::ProjectModel { files: staged@.files, ..fresh }),
                forall|k: int| 0 <= k < i ==> #[trigger] staged@.files[k] == wanted.files[k],
                forall|k: int| i <= k < total ==> #[trigger] staged@.files[k] == fresh.files[k],
                forall|k: int|
                    0 <= k < total ==> #[trigger] wanted.files[k] == (project::ProjectFileModel {
                        duration_ms: effective@[k] as nat,
                        ..fresh.files[k]
                    }),
            decreases total - i,
        {
            let ghost before = staged@.files;
            assert(before[i as int] == staged.files@[i as int]@);
            staged.files[i].duration_ms = effective[i];
            assert(staged@.files =~= before.update(i as int, wanted.files[i as int]));
            i = i + 1;
        }
        proof {
            assert(staged@.files =~= wanted.files);
            assert(staged@ =~= wanted);
        }
        match persist_staged(&mut self.project, self.project_path.as_str(), staged, save) {
            Ok(outcome) => Ok(outcome),
            Err(e) => Err(DialogError::Refused(e)),
        }
    }

    /// Answers a save in the window's state. What was stored and the answer appear
    /// together.
    pub fn answer_dialog(
        &self,
        state: &mut UIState,
        request_id: u64,
        saved: Result<DialogSaveOutcome, DialogError>,
    )
        ensures
            final(state)@ == (ui::UIStateModel {
                dialog_save_result: Some(reply_of(request_id, saved)),
                ..if saved is Ok {
                    with_book(old(state)@, self@.project)
                } else {
                    old(state)@
                }
            }),
    {
        if saved.is_ok() {
            load_meta_from_project(state, &self.project);
        }
        let field = match &saved {
            Err(DialogError::Field(e)) => Some(e.field.clone()),
            _ => None,
        };
        let result = match saved {
            Ok(outcome) => Ok(outcome.warning),
            Err(e) => Err(e.text()),
        };
        state.dialog_save_result = Some(DialogReply { request_id, result, field });
    }

    /// Opens the marker dialog on a copy of the markers.
    pub fn open_marker_settings(&self, state: &mut UIState)
        ensures
            final(state)@ == (ui::UIStateModel {
                dialog_marker_snapshot: self@.project.markers,
                dialog_markers_open: true,
                ..old(state)@
            }),
    {
        state.dialog_marker_snapshot = self.project.markers.clone();
        state.dialog_markers_open = true;
        assert(final(state)@ =~= (ui::UIStateModel {
            dialog_marker_snapshot: self@.project.markers,
            dialog_markers_open: true,
            ..old(state)@
        }));
    }

    fn bound_keys(&self) -> (r: Vec<(String, String)>)
        ensures
            lists_keys(self@.project.markers, pair_texts(r@)),
    {
        let known = &self.project.markers;
        let total: usize = known.len();
        let ghost names = known.names();
        let mut out: Vec<(String, String)> = Vec::new();
        let mut n: usize = 0;
        assert(pair_texts(out@) =~= Seq::empty());
        while n < total
            invariant
                n <= total == names.len(),
                names == known.names(),
                names.no_duplicates(),
                known == &self.project.markers,
                keys_in_order(pair_texts(out@)),
                pair_texts(out@).no_duplicates(),
                forall|key: Seq<char>, name: Seq<char>|
                    #![trigger pair_texts(out@).contains((key, name))]
                    pair_texts(out@).contains((key, name)) <==> names.take(n as int).contains(name)
                        && known@[name].shortcut == Some(key),
            decreases total - n,
        {
            let name = known.name_at(n);
            let settings = known.settings_at(n);
            let ghost before = pair_texts(out@);
            let ghost x = names[n as int];
            proof {
                assert(names.take(n + 1) =~= names.take(n as int).push(x));
                assert forall|y: Seq<char>|
                    names.take(n + 1).contains(y) <==> names.take(n as int).contains(y) || y
                        == x by {
                    push_contains(names.take(n as int), x, y);
                }
                assert(!names.take(n as int).contains(x)) by {
                    if names.take(n as int).contains(x) {
                        let k = choose|k: int| 0 <= k < n && names.take(n as int)[k] == x;
                        assert(names[k] == names[n as int]);
                    }
                }
            }
            if let Some(shortcut) = &settings.shortcut {
                let key = shortcut.clone();
                let ghost pair = (key@, x);
                let at: usize = place_of_key(&out, key.as_str());
                out.insert(at, (key, name.clone()));
                proof {
                    assert(pair_texts(out@) =~= before.insert(at as int, pair));
                    assert(!before.contains(pair));
                    insert_keeps(before, at as int, pair);
                    assert forall|key: Seq<char>, name: Seq<char>|
                        #![trigger pair_texts(out@).contains((key, name))]
                        pair_texts(out@).contains((key, name)) <==> names.take(n + 1).contains(name)
                            && known@[name].shortcut == Some(key) by {
                        assert(before.contains((key, name)) <==> names.take(n as int).contains(name)
                            && known@[name].shortcut == Some(key));
                    }
                }
            } else {
                proof {
                    assert forall|key: Seq<char>, name: Seq<char>|
                        #![trigger pair_texts(out@).contains((key, name))]
                        pair_texts(out@).contains((key, name)) <==> names.take(n + 1).contains(name)
                            && known@[name].shortcut == Some(key) by {
                        assert(before.contains((key, name)) <==> names.take(n as int).contains(name)
                            && known@[name].shortcut == Some(key));
                    }
                }
            }
            n = n + 1;
        }
        assert(names.take(n as int) =~= names);
        out
    }

    /// Opens the list of keys.
    pub fn handle_open_shortcuts_dialog(&self, state: &mut UIState)
        ensures
            exists|bound: Seq<(Seq<char>, Seq<char>)>| #[trigger]
                lists_keys(self@.project.markers, bound) && final(state)@ == (ui::UIStateModel {
                    dialog_shortcuts_list_text: shortcuts_text(self@.project.settings.keys, bound),
                    dialog_shortcuts_open: true,
                    ..old(state)@
                }),
    {
        let keys = &self.project.settings.keys;
        let mut lines: Vec<String> = Vec::new();
        lines.push(line_of_key(keys.record.as_str(), "Start/restart recording"));
        lines.push(line_of_key(keys.ok.as_str(), "Phrase OK, new recording"));
        lines.push(line_of_key(keys.stop.as_str(), "Stop recording"));
        lines.push(line_of_key(keys.prev.as_str(), "Previous recording"));
        lines.push(line_of_key(keys.next.as_str(), "Next recording"));
        lines.push(line_of_key(keys.play.as_str(), "Playback"));
        lines.push(line_of_key(keys.chapter_next.as_str(), "Next chapter"));
        lines.push(line_of_key(keys.chapter_prev.as_str(), "Previous chapter"));
        let ghost fixed = key_lines(keys@);
        assert(text::texts(lines@) =~= fixed);
        let bound = self.bound_keys();
        let ghost pairs = pair_texts(bound@);
        let ghost all = fixed + pairs.map_values(|b: (Seq<char>, Seq<char>)| marker_key_line(b));
        let mut i: usize = 0;
        assert(all.take(8) =~= fixed);
        while i < bound.len()
            invariant
                i <= bound.len(),
                pairs == pair_texts(bound@),
                fixed.len() == 8,
                all == fixed + pairs.map_values(|b: (Seq<char>, Seq<char>)| marker_key_line(b)),
                text::texts(lines@) == all.take(8 + i),
            decreases bound.len() - i,
        {
            let ghost before = text::texts(lines@);
            let line = bound[i].0.clone().concat(" — marker \"").concat(bound[i].1.as_str()).concat(
                "\"",
            );
            let ghost shown = line@;
            lines.push(line);
            proof {
                assert(pairs[i as int] == (bound@[i as int].0@, bound@[i as int].1@));
                assert(shown == marker_key_line(pairs[i as int]));
                assert(text::texts(lines@) =~= before.push(shown));
                assert(all.take(8 + i + 1) =~= all.take(8 + i).push(shown));
            }
            i = i + 1;
        }
        assert(all.take(8 + i) =~= all);
        state.dialog_shortcuts_list_text = text::join_texts(&lines, "\n");
        state.dialog_shortcuts_open = true;
        proof {
            assert(lists_keys(self@.project.markers, pairs));
            assert(final(state)@ =~= (ui::UIStateModel {
                dialog_shortcuts_list_text: shortcuts_text(self@.project.settings.keys, pairs),
                dialog_shortcuts_open: true,
                ..old(state)@
            }));
        }
    }

    /// Opens the question whether to delete the selected fragment.
    pub fn handle_open_delete_chunk_dialog(&self, state: &mut UIState)
        requires
            self@.project.files.len() <= i32::MAX,
        ensures
            final(state)@ == (match app::selection(self@) {
                Some((place, shown)) if !(self@.state is Recording) => ui::UIStateModel {
                    dialog_delete_text: delete_text(
                        (self@.project.files.len() - shown) as nat,
                        self@.project.files[place],
                    ),
                    dialog_delete_file_index: shown as i32,
                    dialog_delete_open: true,
                    ..old(state)@
                },
                _ => old(state)@,
            }),
    {
        if self.is_recording() {
            return;
        }
        let (place, shown) = match self.current_orig_and_ui() {
            Some(pair) => pair,
            None => {
                return;
            },
        };
        let total: usize = self.project.files.len();
        assert(total == self@.project.files.len());
        assert(self@.project.files[place as int] == self.project.files@[place as int]@);
        let file = &self.project.files[place];
        let number = text::decimal_text((total - shown as usize) as u128);
        let title = if file.title.as_str().is_empty() {
            "—".to_owned()
        } else {
            file.title.clone()
        };
        state.dialog_delete_text =
        "Запись №".to_owned().concat(number.as_str()).concat(": ").concat(title.as_str()).concat(
            ", файл: ",
        ).concat(file.path.as_str());
        state.dialog_delete_file_index = shown;
        state.dialog_delete_open = true;
    }

    /// Deletes the fragment in a place of the list, once the project without it was
    /// stored. Not while recording.
    pub fn handle_confirm_delete_chunk<G: Fn(&Project) -> Result<(), String>>(
        &mut self,
        ui_index: i32,
        save: &G,
    ) -> (r: Result<Vec<Effect>, String>)
        requires
            forall|p: &Project| call_requires(save, (p,)),
        ensures
            ({
                let a = old(self)@;
                let total = a.project.files.len() as int;
                let i = total - 1 - ui_index;
                if a.state is Recording || !(0 <= ui_index < total) {
                    &&& final(self)@ == a
                    &&& r matches Ok(done) && effects::effect_models(done@) == Seq::<
                        effects::EffectModel,
                    >::empty()
                } else {
                    match r {
                        Ok(done) => {
                            &&& recording::saved_as(save, after_delete(a, i).project, Ok(()))
                            &&& final(self)@ == after_delete(a, i)
                            &&& effects::effect_models(done@) == delete_effects(a, i)
                        },
                        Err(e) => final(self)@ == a && recording::saved_as(
                            save,
                            after_delete(a, i).project,
                            Err(e),
                        ),
                    }
                }
            }),
    {
        let ghost a = self@;
        let total: usize = self.project.files.len();
        assert(total == self@.project.files.len());
        if self.is_recording() {
            return Ok(no_effects());
        }
        let i: usize = match indexes::ui_to_orig_index(ui_index, total) {
            Some(i) => i,
            None => {
                return Ok(no_effects());
            },
        };
        let mut staged = self.project.clone();
        let removed = match staged.remove_file_at(i) {
            Some(path) => path,
            None => {
                return Ok(no_effects());
            },
        };
        match save(&staged) {
            Err(e) => {
                assert(recording::saved_as(save, staged@, Err(e)));
                return Err(e);
            },
            Ok(done) => {
                assert(done == ());
                assert(call_ensures(save, (&staged,), Ok(())));
            },
        }
        assert(recording::saved_as(save, staged@, Ok(())));
        let mut out = no_effects();
        let full = self.resolve_file_path(removed.as_str());
        then_do(&mut out, Effect::RemoveRecording(full));
        self.project = staged;
        if self.is_playing() {
            then_do_all(&mut out, self.stop_playback());
        }
        let left: usize = self.project.files.len();
        assert(left == self@.project.files.len());
        self.current_index =
        match self.current_index {
            Some(c) => if c == i {
                if i > 0 {
                    Some(i - 1)
                } else if left > 0 {
                    Some(0)
                } else {
                    None
                }
            } else if c > i {
                Some(c - 1)
            } else {
                Some(c)
            },
            None => None,
        };
        then_do(&mut out, Effect::DrawCurrentGraph);
        then_do(&mut out, Effect::DrawPreviousGraph);
        then_do(&mut out, Effect::Changed);
        then_do(&mut out, Effect::CloseDeleteDialog);
        assert(effects::effect_models(out@) =~= delete_effects(a, i as int));
        Ok(out)
    }
}

/// A fragment that was selected before another one was deleted stays selected.
pub proof fn deleting_keeps_the_selection(a: app::AppModel, i: int, c: usize)
    requires
        a.state is Idle,
        a.current_index == Some(c),
        0 <= i < a.project.files.len(),
        c < a.project.files.len(),
        c != i,
    ensures
        ({
            let b = after_delete(a, i);
            &&& b.current_index is Some
            &&& b.current_index->0 < b.project.files.len()
            &&& b.project.files[b.current_index->0 as int] == a.project.files[c as int]
        }),
{
}

} // verus!
