//! Takes: how they begin, and how they come into the project.
use crate::app::app;
use crate::app::app::{App, AppState, RecordingMode};
use crate::app::effects;
use crate::app::effects::{no_effects, then_do, Effect};
use crate::project::project;
use crate::project::project::{NextPathError, Project, ProjectError, ProjectFile};
use crate::utils::paths;
use crate::utils::text;
use crate::utils::transcription::TranscriptionTask;
use vstd::prelude::*;

verus! {

/// A project that is about to be stored for a take.
#[verifier::ext_equal]
pub ghost struct StagedTake {
    pub project: project::ProjectModel,
    pub current_index: Option<usize>,
    pub update_index: Option<usize>,
    pub insert_index: Option<usize>,
    /// The paths of the fragments that are cut off.
    pub removed: Seq<Seq<char>>,
}

/// The fragment that a take refers to.
pub open spec fn reference_place(a: app::AppModel) -> int {
    match a.current_index {
        Some(index) => index as int,
        None => if a.project.files.len() == 0 {
            0
        } else {
            a.project.files.len() - 1
        },
    }
}

/// From where a take behind the project cuts it off.
pub open spec fn cut_place(a: app::AppModel, replace_current: bool) -> int {
    let from = if replace_current {
        reference_place(a)
    } else {
        reference_place(a) + 1
    };
    if from < a.project.files.len() {
        from
    } else {
        a.project.files.len() as int
    }
}

/// The project as it is stored before a take, or why there is none.
pub open spec fn staged_take(a: app::AppModel, replace_current: bool, next_number: nat) -> Result<
    StagedTake,
    Seq<char>,
> {
    let place = reference_place(a);
    let total = a.project.files.len() as int;
    let reserved = project::ProjectModel { next_chunk_number: next_number, ..a.project };
    match a.recording_mode {
        RecordingMode::Append => {
            let cut = cut_place(a, replace_current);
            Ok(
                StagedTake {
                    project: project::ProjectModel { files: a.project.files.take(cut), ..reserved },
                    current_index: None,
                    update_index: None,
                    insert_index: None,
                    removed: a.project.files.skip(cut).map_values(
                        |f: project::ProjectFileModel| f.path,
                    ),
                },
            )
        },
        RecordingMode::Update => if place < total {
            Ok(
                StagedTake {
                    project: reserved,
                    current_index: Some(place as usize),
                    update_index: Some(place as usize),
                    insert_index: None,
                    removed: Seq::empty(),
                },
            )
        } else {
            Err("No fragment selected for replacement"@)
        },
        RecordingMode::Insert => if total == 0 || place < total {
            Ok(
                StagedTake {
                    project: reserved,
                    current_index: Some(place as usize),
                    update_index: None,
                    insert_index: Some(
                        if total == 0 {
                            0
                        } else {
                            (place + 1) as usize
                        },
                    ),
                    removed: Seq::empty(),
                },
            )
        } else {
            Err("Insertion position is no longer available"@)
        },
    }
}

/// Whether looking for a free number from `from` on ended at `n`.
pub open spec fn reserves<F: Fn(u64) -> Result<bool, String>>(
    occupied: &F,
    from: nat,
    n: u64,
) -> bool {
    &&& 0 < from <= n < u64::MAX
    &&& call_ensures(occupied, (n,), Ok(false))
    &&& forall|k: u64| from <= k < n ==> #[trigger] call_ensures(occupied, (k,), Ok(true))
}

/// Whether no number could be reserved.
pub open spec fn reserves_none<F: Fn(u64) -> Result<bool, String>>(
    occupied: &F,
    from: nat,
    e: NextPathError<String>,
) -> bool {
    match e {
        NextPathError::Project(ProjectError::ChunkNumberNotPositive) => from == 0,
        NextPathError::Project(ProjectError::ChunkNumberExhausted) => 0 < from && forall|k: u64|
            from <= k < u64::MAX ==> #[trigger] call_ensures(occupied, (k,), Ok(true)),
        NextPathError::Lookup(e) => exists|n: u64| #[trigger]
            call_ensures(occupied, (n,), Err(e)) && 0 < from <= n && forall|k: u64|
                from <= k < n ==> #[trigger] call_ensures(occupied, (k,), Ok(true)),
    }
}

/// Whether a project with a given content was handed to the save, and what came
/// of it.
pub open spec fn saved_as<G: Fn(&Project) -> Result<(), String>>(
    save: &G,
    content: project::ProjectModel,
    result: Result<(), String>,
) -> bool {
    exists|p: &Project| p@ == content && #[trigger] call_ensures(save, (p,), result)
}

/// A take whose project was stored. Its recorder is not running yet.
#[derive(Debug)]
pub struct ReadyTake {
    pub path: String,
    pub update_index: Option<usize>,
    pub insert_index: Option<usize>,
    /// What is to be done before the recorder starts.
    pub effects: Vec<Effect>,
}

/// Why a take did not begin.
#[derive(Debug)]
pub enum TakeError {
    Number(NextPathError<String>),
    NothingToReplace,
    NoPlaceToInsert,
    NotSaved { path: String, cause: String },
}

impl TakeError {
    /// The sentence that belongs to an error.
    pub open spec fn spec_text(&self) -> Seq<char> {
        match self {
            TakeError::Number(NextPathError::Project(e)) => e.text(),
            TakeError::Number(NextPathError::Lookup(e)) => e@,
            TakeError::NothingToReplace => "No fragment selected for replacement"@,
            TakeError::NoPlaceToInsert => "Insertion position is no longer available"@,
            TakeError::NotSaved { path, cause } => "Could not save the project before recording to "@
                + text::quoted(path@) + "; no existing WAV was removed: "@ + cause@,
        }
    }

    pub fn text(&self) -> (r: String)
        ensures
            r@ == self.spec_text(),
    {
        match self {
            TakeError::Number(NextPathError::Project(e)) => e.message().to_owned(),
            TakeError::Number(NextPathError::Lookup(e)) => e.clone(),
            TakeError::NothingToReplace => "No fragment selected for replacement".to_owned(),
            TakeError::NoPlaceToInsert => "Insertion position is no longer available".to_owned(),
            TakeError::NotSaved { path, cause } => {
                "Could not save the project before recording to ".to_owned().concat(
                    text::quote(path.as_str()).as_str(),
                ).concat("; no existing WAV was removed: ").concat(cause.as_str())
            },
        }
    }
}

/// The effects of a take whose project was stored: no graph is left, and the
/// recordings that were cut off are removed.
pub open spec fn ready_effects(project_path: Seq<char>, removed: Seq<Seq<char>>) -> Seq<
    effects::EffectModel,
> {
    seq![effects::EffectModel::ClearGraphs] + removed.map_values(
        |stored: Seq<char>|
            effects::EffectModel::RemoveOverwritten {
                stored,
                path: paths::joined(app::project_dir(project_path), stored),
            },
    )
}

/// The content of a finished take, before it has a place.
pub open spec fn take_file(stored: Seq<char>, size: u64, duration_ms: u64) -> project::ProjectFileModel {
    project::ProjectFileModel {
        path: stored,
        title: Seq::empty(),
        author: Seq::empty(),
        year: Seq::empty(),
        hint: Seq::empty(),
        markers: Seq::empty(),
        size: size as nat,
        duration_ms: duration_ms as nat,
    }
}

/// The fragments with a finished take and the place it has, or why it has none. A
/// take over a fragment keeps what was written about it.
pub open spec fn placed_take(a: app::AppModel, file: project::ProjectFileModel) -> Result<
    (Seq<project::ProjectFileModel>, int),
    Seq<char>,
> {
    let files = a.project.files;
    match a.recording_mode {
        RecordingMode::Append => Ok((files.push(file), files.len() as int)),
        RecordingMode::Update => match a.update_recording_index {
            None => Err("No replacement target"@),
            Some(i) => if i < files.len() {
                let old = files[i as int];
                Ok(
                    (
                        files.update(
                            i as int,
                            project::ProjectFileModel {
                                path: file.path,
                                size: file.size,
                                duration_ms: file.duration_ms,
                                ..old
                            },
                        ),
                        i as int,
                    ),
                )
            } else {
                Err("Replacement target is no longer available"@)
            },
        },
        RecordingMode::Insert => match a.insert_recording_index {
            None => Err("No insertion position"@),
            Some(i) => if i <= files.len() {
                Ok((files.insert(i as int, file), i as int))
            } else {
                Err("Insertion position is no longer available"@)
            },
        },
    }
}

/// The project with a finished take, or why it has no place.
pub open spec fn finished_project(a: app::AppModel, file: project::ProjectFileModel) -> Result<
    project::ProjectModel,
    Seq<char>,
> {
    match placed_take(a, file) {
        Ok((files, _)) => {
            let recorded = a.project.stats.record_length + file.duration_ms;
            Ok(
                project::ProjectModel {
                    files,
                    stats: project::ProjectStatsModel {
                        record_length: if recorded > u64::MAX {
                            u64::MAX as nat
                        } else {
                            recorded
                        },
                    },
                    ..a.project
                },
            )
        },
        Err(e) => Err(e),
    }
}

/// The recorder once the recorder of a take runs.
pub open spec fn now_recording(
    a: app::AppModel,
    path: Seq<char>,
    update_index: Option<usize>,
    insert_index: Option<usize>,
    duration_secs: Option<u64>,
    now_ms: u64,
) -> app::AppModel {
    app::AppModel {
        state: app::AppStateModel::Recording { writer_path: path, start_ms: now_ms, duration_secs },
        update_recording_index: update_index,
        insert_recording_index: insert_index,
        ..a
    }
}

/// The recorder once a take came into the project.
pub open spec fn after_take(a: app::AppModel, content: project::ProjectModel, place: usize) -> app::AppModel {
    app::AppModel {
        project: content,
        current_index: Some(place),
        recording_mode: RecordingMode::Append,
        update_recording_index: None,
        insert_recording_index: None,
        ..a
    }
}

/// A take that runs is known by its file, its start, its length and its place, and changes
/// nothing else. One that came into the project is the selected fragment, and the next one
/// goes behind.
pub proof fn takes_are_known_while_they_run(
    a: app::AppModel,
    path: Seq<char>,
    update_index: Option<usize>,
    insert_index: Option<usize>,
    duration_secs: Option<u64>,
    now_ms: u64,
    content: project::ProjectModel,
    place: usize,
)
    ensures
        ({
            let b = now_recording(a, path, update_index, insert_index, duration_secs, now_ms);
            let c = after_take(a, content, place);
            &&& b.state == (app::AppStateModel::Recording {
                writer_path: path,
                start_ms: now_ms,
                duration_secs,
            })
            &&& b.update_recording_index == update_index
            &&& b.insert_recording_index == insert_index
            &&& b.project == a.project
            &&& b.current_index == a.current_index
            &&& b.recording_mode == a.recording_mode
            &&& c.project == content
            &&& c.current_index == Some(place)
            &&& c.recording_mode == RecordingMode::Append
            &&& c.update_recording_index is None
            &&& c.insert_recording_index is None
            &&& c.state == a.state
        }),
{
}

/// The recorder after a take ended, whatever came of it: no target is left.
pub open spec fn without_targets(a: app::AppModel) -> app::AppModel {
    app::AppModel { update_recording_index: None, insert_recording_index: None, ..a }
}

/// The recording that a finished take goes over, if it is another file.
pub open spec fn replaced_recording(a: app::AppModel, writer_path: Seq<char>) -> Option<Seq<char>> {
    match (a.recording_mode, a.update_recording_index) {
        (RecordingMode::Update, Some(i)) => {
            let path = paths::joined(
                app::project_dir(a.project_path),
                a.project.files[i as int].path,
            );
            if paths::same_path_spec(path, writer_path) {
                None
            } else {
                Some(path)
            }
        },
        _ => None,
    }
}

/// What a finished take asks for.
pub open spec fn finished_effects(a: app::AppModel, writer_path: Seq<char>, place: int) -> Seq<
    effects::EffectModel,
> {
    let removed = match replaced_recording(a, writer_path) {
        Some(path) => seq![effects::EffectModel::RemoveRecording(path)],
        None => Seq::empty(),
    };
    removed + seq![
        effects::EffectModel::ClearCurrentGraph,
        effects::EffectModel::DrawCurrentGraph,
        effects::EffectModel::DrawPreviousGraph,
        effects::EffectModel::Transcribe(place as usize),
        effects::EffectModel::Changed,
    ]
}

/// What a take that failed asks for.
pub open spec fn failed_effects() -> Seq<effects::EffectModel> {
    seq![
        effects::EffectModel::ForgetGraphRequests,
        effects::EffectModel::DrawCurrentGraph,
        effects::EffectModel::DrawPreviousGraph,
    ]
}

/// The sentence of a take whose end could not be confirmed.
pub open spec fn unconfirmed(writer_path: Seq<char>, cause: Seq<char>) -> Seq<char> {
    "Could not confirm recording completion. WAV kept at "@ + text::quoted(writer_path)
        + "; no previously accepted WAV was removed while finishing: "@ + cause
}

/// A take that did not come into the project.
#[derive(Debug)]
pub struct FailedTake {
    pub error: String,
    pub effects: Vec<Effect>,
}

/// The task to put a fragment into words, if its recording is there.
pub open spec fn transcription_view(task: TranscriptionTask) -> (Seq<char>, Seq<char>, Seq<char>) {
    (task.file_path@, task.project_file_path@, task.previous_hint@)
}

impl App {
    fn reference_index(&self) -> (r: usize)
        ensures
            r == reference_place(self@),
    {
        let total: usize = self.project.files.len();
        assert(total == self@.project.files.len());
        match self.current_index {
            Some(index) => index,
            None => total.saturating_sub(1),
        }
    }

    /// Begins a take: reserves its number, cuts the project off where the take goes
    /// behind it, and stores the project before anything is recorded. A number that
    /// was reserved is never used again, whether or not the project could be stored.
    /// The recorder has to be at rest.
    pub fn start_recording_with_duration<
        F: Fn(u64) -> Result<bool, String>,
        G: Fn(&Project) -> Result<(), String>,
    >(&mut self, replace_current: bool, occupied: &F, save: &G) -> (r: Result<ReadyTake, TakeError>)
        requires
            forall|n: u64| call_requires(occupied, (n,)),
            forall|p: &Project| call_requires(save, (p,)),
        ensures
            ({
                let a = old(self)@;
                let from = a.project.next_chunk_number;
                match r {
                    Ok(take) => exists|n: u64| #[trigger]
                        reserves(occupied, from, n) && {
                            &&& staged_take(a, replace_current, n as nat + 1) is Ok
                            &&& take.path@ == project::chunk_path(a.chunks_dir, n as nat)
                            &&& {
                                let s = staged_take(a, replace_current, n as nat + 1)->Ok_0;
                                &&& saved_as(save, s.project, Ok(()))
                                &&& final(self)@ == (app::AppModel {
                                    project: s.project,
                                    current_index: s.current_index,
                                    ..a
                                })
                                &&& take.update_index == s.update_index
                                &&& take.insert_index == s.insert_index
                                &&& effects::effect_models(take.effects@) == ready_effects(
                                    a.project_path,
                                    s.removed,
                                )
                            }
                        },
                    Err(TakeError::NotSaved { path, cause }) => exists|n: u64| #[trigger]
                        reserves(occupied, from, n) && {
                            &&& staged_take(a, replace_current, n as nat + 1) is Ok
                            &&& path@ == project::chunk_path(a.chunks_dir, n as nat)
                            &&& saved_as(
                                save,
                                staged_take(a, replace_current, n as nat + 1)->Ok_0.project,
                                Err(cause),
                            )
                            &&& final(self)@ == (app::AppModel {
                                project: project::ProjectModel {
                                    next_chunk_number: n as nat + 1,
                                    ..a.project
                                },
                                ..a
                            })
                        },
                    Err(TakeError::Number(e)) => final(self)@ == a && reserves_none(
                        occupied,
                        from,
                        e,
                    ),
                    Err(e) => final(self)@ == a && exists|n: u64| #[trigger]
                        reserves(occupied, from, n) && staged_take(a, replace_current, n as nat + 1)
                            == Err::<StagedTake, Seq<char>>(e.spec_text()),
                }
            }),
    {
        let place: usize = self.reference_index();
        let mut staged = self.project.clone();
        let total: usize = staged.files.len();
        assert(total == self@.project.files.len());
        let ghost a = self@;
        let path = match staged.get_next_file_path(self.chunks_dir.as_str(), occupied) {
            Ok(path) => path,
            Err(e) => {
                return Err(TakeError::Number(e));
            },
        };
        let ghost n = (staged.next_chunk_number - 1) as u64;
        assert(reserves(occupied, a.project.next_chunk_number, n));
        let ghost after_reserve = staged@;
        let mut removed: Vec<String> = Vec::new();
        let mut current_index: Option<usize> = Some(place);
        let mut update_index: Option<usize> = None;
        let mut insert_index: Option<usize> = None;
        match self.recording_mode {
            RecordingMode::Append => {
                let cut: usize = if replace_current {
                    place
                } else if place < total {
                    place + 1
                } else {
                    total
                };
                removed = staged.remove_files_from_index(cut);
                current_index = None;
            },
            RecordingMode::Update => {
                if place >= total {
                    return Err(TakeError::NothingToReplace);
                }
                update_index = Some(place);
            },
            RecordingMode::Insert => {
                if total == 0 {
                    insert_index = Some(0);
                } else if place >= total {
                    return Err(TakeError::NoPlaceToInsert);
                } else {
                    insert_index = Some(place + 1);
                }
            },
        }
        let ghost s = staged_take(a, replace_current, n as nat + 1)->Ok_0;
        proof {
            assert(text::texts(removed@) =~= s.removed);
            assert(staged@ == s.project);
        }
        match save(&staged) {
            Err(cause) => {
                assert(saved_as(save, s.project, Err(cause)));
                if staged.next_chunk_number > self.project.next_chunk_number {
                    self.project.next_chunk_number = staged.next_chunk_number;
                }
                return Err(TakeError::NotSaved { path, cause });
            },
            Ok(done) => {
                assert(done == ());
                assert(call_ensures(save, (&staged,), Ok(())));
            },
        }
        assert(saved_as(save, s.project, Ok(())));
        self.project = staged;
        self.current_index = current_index;
        let mut out = no_effects();
        then_do(&mut out, Effect::ClearGraphs);
        let mut i: usize = 0;
        let ghost wanted = ready_effects(a.project_path, s.removed);
        assert(effects::effect_models(out@) =~= wanted.take(1));
        while i < removed.len()
            invariant
                i <= removed.len(),
                text::texts(removed@) == s.removed,
                self@ == (app::AppModel {
                    project: s.project,
                    current_index: s.current_index,
                    ..a
                }),
                wanted == ready_effects(a.project_path, s.removed),
                effects::effect_models(out@) == wanted.take(i + 1),
            decreases removed.len() - i,
        {
            assert(s.removed[i as int] == removed@[i as int]@);
            let stored = removed[i].clone();
            let full = self.resolve_file_path(stored.as_str());
            then_do(&mut out, Effect::RemoveOverwritten { stored, path: full });
            assert(wanted.take(i + 2) =~= wanted.take(i + 1).push(wanted[i + 1]));
            i = i + 1;
        }
        assert(wanted.take(i + 1) =~= wanted);
        Ok(ReadyTake { path, update_index, insert_index, effects: out })
    }

    /// Takes in that the recorder of a take runs.
    pub fn recording_started(
        &mut self,
        path: String,
        update_index: Option<usize>,
        insert_index: Option<usize>,
        duration_secs: Option<u64>,
        now_ms: u64,
    ) -> (r: Vec<Effect>)
        ensures
            final(self)@ == (app::AppModel {
                state: app::AppStateModel::Recording {
                    writer_path: path@,
                    start_ms: now_ms,
                    duration_secs,
                },
                update_recording_index: update_index,
                insert_recording_index: insert_index,
                ..old(self)@
            }),
            final(self)@ == now_recording(
                old(self)@,
                path@,
                update_index,
                insert_index,
                duration_secs,
                now_ms,
            ),
            effects::effect_models(r@) == seq![
                effects::EffectModel::DrawPreviousGraph,
                effects::EffectModel::Refresh { status_line: true, skip_list: false },
            ],
    {
        self.update_recording_index = update_index;
        self.insert_recording_index = insert_index;
        self.state = AppState::Recording { writer_path: path, start_ms: now_ms, duration_secs };
        let mut out = no_effects();
        then_do(&mut out, Effect::DrawPreviousGraph);
        then_do(&mut out, Effect::Refresh { status_line: true, skip_list: false });
        assert(effects::effect_models(out@) =~= seq![
            effects::EffectModel::DrawPreviousGraph,
            effects::EffectModel::Refresh { status_line: true, skip_list: false },
        ]);
        out
    }

    /// What follows when the recorder of a take could not be started.
    pub fn recording_refused(path: &str, cause: &str) -> (r: FailedTake)
        ensures
            r.error@ == "Could not start recording; an incomplete WAV may remain at "@
                + text::quoted(path@) + ": "@ + cause@,
            effects::effect_models(r.effects@) == seq![
                effects::EffectModel::DrawCurrentGraph,
                effects::EffectModel::DrawPreviousGraph,
                effects::EffectModel::Changed,
            ],
    {
        let mut out = no_effects();
        then_do(&mut out, Effect::DrawCurrentGraph);
        then_do(&mut out, Effect::DrawPreviousGraph);
        then_do(&mut out, Effect::Changed);
        assert(effects::effect_models(out@) =~= seq![
            effects::EffectModel::DrawCurrentGraph,
            effects::EffectModel::DrawPreviousGraph,
            effects::EffectModel::Changed,
        ]);
        FailedTake {
            error: "Could not start recording; an incomplete WAV may remain at ".to_owned().concat(
                text::quote(path).as_str(),
            ).concat(": ").concat(cause),
            effects: out,
        }
    }

    /// Ends the running take, before its writer is closed. Gives the path of its file.
    pub fn end_take(&mut self) -> (r: Option<String>)
        ensures
            final(self)@ == (app::AppModel { state: app::AppStateModel::Idle, ..old(self)@ }),
            match (r, old(self)@.state) {
                (Some(path), app::AppStateModel::Recording { writer_path, .. }) => path@
                    == writer_path,
                (None, app::AppStateModel::Recording { .. }) => false,
                (Some(_), _) => false,
                (None, _) => true,
            },
    {
        let path = match &self.state {
            AppState::Recording { writer_path, .. } => Some(writer_path.clone()),
            _ => None,
        };
        self.state = AppState::Idle;
        path
    }

    fn place_take(&self, file: ProjectFile) -> (r: Result<(Project, usize), &'static str>)
        ensures
            match (r, finished_project(self@, file@)) {
                (Ok((project, place)), Ok(content)) => project@ == content && place
                    == placed_take(self@, file@)->Ok_0.1,
                (Err(e), Err(text)) => e@ == text,
                _ => false,
            },
    {
        let mut staged = self.project.clone();
        let total: usize = staged.files.len();
        let duration_ms: u64 = file.duration_ms;
        let ghost f = file@;
        let ghost before = staged@;
        assert(total == staged@.files.len());
        let place: usize = match self.recording_mode {
            RecordingMode::Append => {
                staged.files.push(file);
                assert(staged@.files =~= before.files.push(f));
                total
            },
            RecordingMode::Update => match self.update_recording_index {
                None => {
                    return Err("No replacement target");
                },
                Some(i) => {
                    if i >= total {
                        return Err("Replacement target is no longer available");
                    }
                    assert(before.files[i as int] == staged.files@[i as int]@);
                    let old_file = staged.files[i].clone();
                    staged.files.set(
                        i,
                        ProjectFile {
                            path: file.path,
                            title: old_file.title,
                            author: old_file.author,
                            year: old_file.year,
                            hint: old_file.hint,
                            markers: old_file.markers,
                            size: file.size,
                            duration_ms: file.duration_ms,
                        },
                    );
                    assert(staged@.files =~= placed_take(self@, f)->Ok_0.0);
                    i
                },
            },
            RecordingMode::Insert => match self.insert_recording_index {
                None => {
                    return Err("No insertion position");
                },
                Some(i) => {
                    if i > total {
                        return Err("Insertion position is no longer available");
                    }
                    staged.files.insert(i, file);
                    assert(staged@.files =~= before.files.insert(i as int, f));
                    i
                },
            },
        };
        staged.stats.record_length = staged.stats.record_length.saturating_add(duration_ms);
        Ok((staged, place))
    }

    fn replaced_path(&self, writer_path: &str) -> (r: Option<String>)
        requires
            self@.recording_mode == RecordingMode::Update ==> (
            self@.update_recording_index matches Some(i) ==> i < self@.project.files.len()),
        ensures
            match (r, replaced_recording(self@, writer_path@)) {
                (Some(path), Some(wanted)) => path@ == wanted,
                (None, None) => true,
                _ => false,
            },
    {
        match (self.recording_mode, self.update_recording_index) {
            (RecordingMode::Update, Some(i)) => {
                assert(self@.project.files[i as int].path == self.project.files@[i as int].path@);
                let path = self.resolve_file_path(self.project.files[i].path.as_str());
                if paths::same_path(path.as_str(), writer_path) {
                    None
                } else {
                    Some(path)
                }
            },
            _ => None,
        }
    }

    /// Brings a take into the project once its file was closed and measured: size
    /// and length, or why that failed. The project is stored first and published
    /// only then; nothing that was accepted before is removed when it fails.
    pub fn finish_recording<G: Fn(&Project) -> Result<(), String>>(
        &mut self,
        writer_path: &str,
        measured: Result<(u64, u64), String>,
        save: &G,
    ) -> (r: Result<Vec<Effect>, FailedTake>)
        requires
            forall|p: &Project| call_requires(save, (p,)),
        ensures
            ({
                let a = old(self)@;
                let stored = paths::below(writer_path@, app::project_dir(a.project_path));
                match (stored, measured) {
                    (None, _) => {
                        &&& final(self)@ == a
                        &&& r is Err
                        &&& r->Err_0.error@ == "Recording is outside the project directory"@
                        &&& effects::effect_models(r->Err_0.effects@) == Seq::<
                            effects::EffectModel,
                        >::empty()
                    },
                    (Some(_), Err(cause)) => {
                        &&& final(self)@ == without_targets(a)
                        &&& r is Err
                        &&& r->Err_0.error@ == unconfirmed(writer_path@, cause@)
                        &&& effects::effect_models(r->Err_0.effects@) == failed_effects()
                    },
                    (Some(stored), Ok((size, duration_ms))) => {
                        let file = take_file(stored, size, duration_ms);
                        match finished_project(a, file) {
                            Err(cause) => {
                                &&& final(self)@ == without_targets(a)
                                &&& r is Err
                                &&& r->Err_0.error@ == unconfirmed(writer_path@, cause)
                                &&& effects::effect_models(r->Err_0.effects@) == failed_effects()
                            },
                            Ok(content) => {
                                let place = placed_take(a, file)->Ok_0.1;
                                match r {
                                    Ok(done) => {
                                        &&& saved_as(save, content, Ok(()))
                                        &&& final(self)@ == without_targets(
                                            app::AppModel {
                                                project: content,
                                                current_index: Some(place as usize),
                                                recording_mode: RecordingMode::Append,
                                                ..a
                                            },
                                        )
                                        &&& final(self)@ == after_take(a, content, place as usize)
                                        &&& effects::effect_models(done@) == finished_effects(
                                            a,
                                            writer_path@,
                                            place,
                                        )
                                    },
                                    Err(failed) => exists|cause: String| #[trigger]
                                        saved_as(save, content, Err(cause)) && {
                                            &&& final(self)@ == without_targets(a)
                                            &&& failed.error@ == unconfirmed(writer_path@, cause@)
                                            &&& effects::effect_models(failed.effects@)
                                                == failed_effects()
                                        },
                                }
                            },
                        }
                    },
                }
            }),
    {
        let ghost a = self@;
        let dir = match paths::parent(self.project_path.as_str()) {
            Some(dir) => dir,
            None => ".".to_owned(),
        };
        let stored = match paths::stored_recording_path(dir.as_str(), writer_path) {
            Ok(stored) => stored,
            Err(e) => {
                return Err(FailedTake { error: e.message().to_owned(), effects: no_effects() });
            },
        };
        let (size, duration_ms) = match measured {
            Ok(pair) => pair,
            Err(cause) => {
                return Err(self.fail_take(writer_path, cause.as_str()));
            },
        };
        let file = ProjectFile {
            path: stored,
            title: String::new(),
            author: String::new(),
            year: String::new(),
            hint: String::new(),
            markers: Vec::new(),
            size,
            duration_ms,
        };
        let ghost f = take_file(stored@, size, duration_ms);
        assert(file@ =~= f);
        let (staged, place) = match self.place_take(file) {
            Ok(pair) => pair,
            Err(cause) => {
                return Err(self.fail_take(writer_path, cause));
            },
        };
        match save(&staged) {
            Err(cause) => {
                assert(saved_as(save, staged@, Err(cause)));
                return Err(self.fail_take(writer_path, cause.as_str()));
            },
            Ok(done) => {
                assert(done == ());
                assert(call_ensures(save, (&staged,), Ok(())));
            },
        }
        assert(saved_as(save, staged@, Ok(())));
        let replaced = self.replaced_path(writer_path);
        self.project = staged;
        self.current_index = Some(place);
        self.recording_mode = RecordingMode::Append;
        self.update_recording_index = None;
        self.insert_recording_index = None;
        let mut out = no_effects();
        if let Some(path) = replaced {
            then_do(&mut out, Effect::RemoveRecording(path));
        }
        then_do(&mut out, Effect::ClearCurrentGraph);
        then_do(&mut out, Effect::DrawCurrentGraph);
        then_do(&mut out, Effect::DrawPreviousGraph);
        then_do(&mut out, Effect::Transcribe(place));
        then_do(&mut out, Effect::Changed);
        assert(effects::effect_models(out@) =~= finished_effects(a, writer_path@, place as int));
        Ok(out)
    }

    fn fail_take(&mut self, writer_path: &str, cause: &str) -> (r: FailedTake)
        ensures
            final(self)@ == without_targets(old(self)@),
            r.error@ == unconfirmed(writer_path@, cause@),
            effects::effect_models(r.effects@) == failed_effects(),
    {
        self.update_recording_index = None;
        self.insert_recording_index = None;
        let mut out = no_effects();
        then_do(&mut out, Effect::ForgetGraphRequests);
        then_do(&mut out, Effect::DrawCurrentGraph);
        then_do(&mut out, Effect::DrawPreviousGraph);
        assert(effects::effect_models(out@) =~= failed_effects());
        FailedTake {
            error: "Could not confirm recording completion. WAV kept at ".to_owned().concat(
                text::quote(writer_path).as_str(),
            ).concat("; no previously accepted WAV was removed while finishing: ").concat(cause),
            effects: out,
        }
    }

    /// The task to put a fragment into words, if `there` finds its recording.
    pub fn start_transcription_for_file<H: Fn(&str) -> bool>(
        &self,
        file_index: usize,
        there: &H,
    ) -> (r: Option<TranscriptionTask>)
        requires
            forall|path: &str| call_requires(there, (path,)),
        ensures
            file_index >= self@.project.files.len() ==> r is None,
            file_index < self@.project.files.len() ==> {
                let file = self@.project.files[file_index as int];
                let full = paths::joined(app::project_dir(self@.project_path), file.path);
                exists|path: &str, found: bool| #[trigger]
                    call_ensures(there, (path,), found) && path@ == full && match r {
                        Some(task) => found && transcription_view(task) == (
                            full,
                            file.path,
                            file.hint,
                        ),
                        None => !found,
                    }
            },
    {
        if file_index >= self.project.files.len() {
            return None;
        }
        assert(self@.project.files[file_index as int] == self.project.files@[file_index as int]@);
        let file = &self.project.files[file_index];
        let full = self.resolve_file_path(file.path.as_str());
        let found = there(full.as_str());
        if found {
            Some(
                TranscriptionTask {
                    file_path: full,
                    project_file_path: file.path.clone(),
                    previous_hint: file.hint.clone(),
                },
            )
        } else {
            None
        }
    }
}

/// A take that goes over a fragment, or in between, leaves every other fragment as
/// it was; one that goes behind them leaves them all.
pub proof fn takes_keep_other_fragments(a: app::AppModel, file: project::ProjectFileModel)
    requires
        placed_take(a, file) is Ok,
    ensures
        ({
            let (files, place) = placed_take(a, file)->Ok_0;
            let before = a.project.files;
            &&& 0 <= place < files.len()
            &&& files.take(place) == before.take(place)
            &&& files.skip(place + 1) == before.skip(
                if a.recording_mode == RecordingMode::Update {
                    place + 1
                } else {
                    place
                },
            )
            &&& files[place].path == file.path
        }),
{
    let (files, place) = placed_take(a, file)->Ok_0;
    let before = a.project.files;
    assert(files.take(place) =~= before.take(place));
    assert(files.skip(place + 1) =~= before.skip(
        if a.recording_mode == RecordingMode::Update {
            place + 1
        } else {
            place
        },
    ));
}

/// A take never gets the path of an earlier one: whatever became of the earlier
/// take, its number is not reserved again.
pub proof fn takes_have_paths_of_their_own<F: Fn(u64) -> Result<bool, String>>(
    a: app::AppModel,
    replace_current: bool,
    first: &F,
    m: u64,
    later: &F,
    n: u64,
)
    requires
        reserves(first, a.project.next_chunk_number, m),
        staged_take(a, replace_current, m as nat + 1) is Ok,
        reserves(
            later,
            staged_take(a, replace_current, m as nat + 1)->Ok_0.project.next_chunk_number,
            n,
        ),
    ensures
        project::chunk_path(a.chunks_dir, m as nat) != project::chunk_path(a.chunks_dir, n as nat),
{
    project::chunk_paths_differ(a.chunks_dir, m as nat, n as nat);
}

/// A take over a fragment changes nothing but the recording: the fragment in its place keeps
/// the title, the author, the year, the hint and the markers that it had, and its path, size
/// and length are those of the take. Every other fragment stays as it was, and so does what
/// is said of the book; the time that was spent recording grows by the length of the take.
pub proof fn takes_over_a_fragment_keep_its_words(
    a: app::AppModel,
    stored: Seq<char>,
    size: u64,
    duration_ms: u64,
    i: usize,
)
    requires
        a.recording_mode == RecordingMode::Update,
        a.update_recording_index == Some(i),
        i < a.project.files.len(),
    ensures
        finished_project(a, take_file(stored, size, duration_ms)) is Ok,
        placed_take(a, take_file(stored, size, duration_ms))->Ok_0.1 == i,
        ({
            let before = a.project;
            let after = finished_project(a, take_file(stored, size, duration_ms))->Ok_0;
            let old_file = before.files[i as int];
            let new_file = after.files[i as int];
            &&& after.files.len() == before.files.len()
            &&& new_file.title == old_file.title
            &&& new_file.author == old_file.author
            &&& new_file.year == old_file.year
            &&& new_file.hint == old_file.hint
            &&& new_file.markers == old_file.markers
            &&& new_file.path == stored
            &&& new_file.size == size
            &&& new_file.duration_ms == duration_ms
            &&& forall|j: int|
                0 <= j < before.files.len() && j != i ==> #[trigger] after.files[j]
                    == before.files[j]
            &&& keeps_the_book(before, after)
            &&& counts_the_take(before, after, duration_ms)
        }),
{
}

/// Whether all that is said of a book, and the number of its next recording, stay as they
/// are.
pub open spec fn keeps_the_book(before: project::ProjectModel, after: project::ProjectModel) -> bool {
    &&& after.next_chunk_number == before.next_chunk_number
    &&& after.settings == before.settings
    &&& after.meta == before.meta
    &&& after.markers == before.markers
}

/// Whether the time that was spent recording grew by the length of a take, as far as it can
/// be counted.
pub open spec fn counts_the_take(
    before: project::ProjectModel,
    after: project::ProjectModel,
    duration_ms: u64,
) -> bool {
    after.stats.record_length == vstd::math::min(
        before.stats.record_length + duration_ms,
        u64::MAX as int,
    )
}

/// A take that is a fragment of its own has nothing but its recording, and leaves every
/// fragment as it was: those behind it move on by one place. It stands behind all of them,
/// or in the place that was chosen for it.
pub proof fn new_takes_are_fragments_of_their_own(
    a: app::AppModel,
    stored: Seq<char>,
    size: u64,
    duration_ms: u64,
    place: int,
)
    requires
        a.recording_mode == RecordingMode::Append && place == a.project.files.len()
            || a.recording_mode == RecordingMode::Insert && (
        a.insert_recording_index matches Some(i) && i == place && i <= a.project.files.len()),
    ensures
        finished_project(a, take_file(stored, size, duration_ms)) is Ok,
        placed_take(a, take_file(stored, size, duration_ms))->Ok_0.1 == place,
        ({
            let before = a.project;
            let after = finished_project(a, take_file(stored, size, duration_ms))->Ok_0;
            let new_file = after.files[place];
            &&& after.files.len() == before.files.len() + 1
            &&& new_file.title.len() == 0
            &&& new_file.author.len() == 0
            &&& new_file.year.len() == 0
            &&& new_file.hint.len() == 0
            &&& new_file.markers.len() == 0
            &&& new_file.path == stored
            &&& new_file.size == size
            &&& new_file.duration_ms == duration_ms
            &&& forall|j: int|
                0 <= j < place ==> #[trigger] after.files[j] == before.files[j]
            &&& forall|j: int|
                place < j < after.files.len() ==> #[trigger] after.files[j] == before.files[j - 1]
            &&& keeps_the_book(before, after)
            &&& counts_the_take(before, after, duration_ms)
        }),
{
}

/// A take whose place is gone, or was never chosen, does not come into the project.
pub proof fn takes_without_a_place_are_refused(a: app::AppModel, file: project::ProjectFileModel)
    ensures
        (finished_project(a, file) is Err) == match a.recording_mode {
            RecordingMode::Append => false,
            RecordingMode::Update => !(a.update_recording_index matches Some(i) && i
                < a.project.files.len()),
            RecordingMode::Insert => !(a.insert_recording_index matches Some(i) && i
                <= a.project.files.len()),
        },
{
}

/// A take behind the selected fragment cuts off what comes after it, and the selected
/// fragment too where that is to be replaced: exactly the recordings that are cut off are
/// removed, and the fragments before them stay.
pub proof fn takes_behind_cut_off_the_rest(
    a: app::AppModel,
    selected: usize,
    replace_current: bool,
    next_number: nat,
)
    requires
        a.recording_mode == RecordingMode::Append,
        a.current_index == Some(selected) || (a.current_index is None && selected
            == a.project.files.len() - 1),
        selected < a.project.files.len(),
    ensures
        staged_take(a, replace_current, next_number) is Ok,
        ({
            let before = a.project;
            let s = staged_take(a, replace_current, next_number)->Ok_0;
            let after = s.project;
            let kept = if replace_current {
                selected as int
            } else {
                selected + 1
            };
            &&& after.files.len() == kept
            &&& forall|j: int| 0 <= j < kept ==> #[trigger] after.files[j] == before.files[j]
            &&& s.removed.len() == before.files.len() - kept
            &&& forall|j: int|
                0 <= j < s.removed.len() ==> #[trigger] s.removed[j] == before.files[kept + j].path
            &&& after.next_chunk_number == next_number
            &&& after.settings == before.settings
    &&& after.meta == before.meta
            &&& after.markers == before.markers
            &&& after.stats == before.stats
            &&& s.current_index is None
            &&& s.update_index is None
            &&& s.insert_index is None
        }),
{
}

/// A take over the selected fragment, or behind it with all others kept, changes no fragment
/// before it is finished and removes no recording. It goes over the selected one, or right
/// behind it.
pub proof fn takes_in_between_cut_off_nothing(
    a: app::AppModel,
    selected: usize,
    replace_current: bool,
    next_number: nat,
)
    requires
        a.recording_mode == RecordingMode::Update || a.recording_mode == RecordingMode::Insert,
        a.current_index == Some(selected) || (a.current_index is None && selected
            == a.project.files.len() - 1),
        selected < a.project.files.len(),
        a.project.files.len() <= usize::MAX,
    ensures
        staged_take(a, replace_current, next_number) is Ok,
        ({
            let before = a.project;
            let s = staged_take(a, replace_current, next_number)->Ok_0;
            let after = s.project;
            &&& after.files == before.files
            &&& s.removed.len() == 0
            &&& after.next_chunk_number == next_number
            &&& after.settings == before.settings
    &&& after.meta == before.meta
            &&& after.markers == before.markers
            &&& after.stats == before.stats
            &&& s.current_index == Some(selected)
            &&& if a.recording_mode == RecordingMode::Update {
                s.update_index == Some(selected) && s.insert_index is None
            } else {
                s.insert_index == Some((selected + 1) as usize) && s.insert_index->0 == selected + 1
                    && s.update_index is None
            }
        }),
{
}

/// A take over a fragment removes the recording that the fragment had, and no other one,
/// unless it was written to the same file. Other takes remove none when they are finished.
pub proof fn finished_takes_remove_what_they_replace(
    a: app::AppModel,
    writer_path: Seq<char>,
    place: int,
    path: Seq<char>,
)
    ensures
        finished_effects(a, writer_path, place).contains(
            effects::EffectModel::RemoveRecording(path),
        ) == (a.recording_mode == RecordingMode::Update && (
        a.update_recording_index matches Some(i) && path == paths::joined(
            app::project_dir(a.project_path),
            a.project.files[i as int].path,
        ) && !paths::same_path_spec(path, writer_path))),
        finished_effects(a, writer_path, place).contains(
            effects::EffectModel::Transcribe(place as usize),
        ),
        finished_effects(a, writer_path, place).last() == effects::EffectModel::Changed,
{
    let all = finished_effects(a, writer_path, place);
    let n = all.len();
    assert(all[n - 2] == effects::EffectModel::Transcribe(place as usize));
    if let Some(old_path) = replaced_recording(a, writer_path) {
        assert(all[0] == effects::EffectModel::RemoveRecording(old_path));
        assert(all.subrange(1, 6) =~= seq![
            effects::EffectModel::ClearCurrentGraph,
            effects::EffectModel::DrawCurrentGraph,
            effects::EffectModel::DrawPreviousGraph,
            effects::EffectModel::Transcribe(place as usize),
            effects::EffectModel::Changed,
        ]);
    }
}

} // verus!
