//! What the main loop takes in between two commands.
use crate::app::app;
use crate::app::app::App;
use crate::app::effects;
use crate::app::effects::{no_effects, then_do, Effect};
use crate::app::playback;
use crate::audio::waveform_loader::WaveformSlot;
use crate::project::project;
use crate::ui::ui;
use crate::ui::ui::UIState;
use crate::utils::transcription::TranscriptionUpdate;
use vstd::prelude::*;

verus! {

/// How many levels the graph of a running take keeps.
pub const TAKE_GRAPH_LEVELS: usize = 1500;

/// The last entries of a list, no more than `limit`.
pub open spec fn newest<T>(v: Seq<T>, limit: int) -> Seq<T> {
    if v.len() <= limit {
        v
    } else {
        v.skip(v.len() - limit)
    }
}

/// Puts a level behind the graph of a running take. When it is full, the oldest level
/// leaves.
pub fn push_level<T>(graph: &mut Vec<T>, level: T)
    requires
        old(graph)@.len() <= TAKE_GRAPH_LEVELS,
    ensures
        final(graph)@ == newest(old(graph)@.push(level), TAKE_GRAPH_LEVELS as int),
        final(graph)@.len() <= TAKE_GRAPH_LEVELS,
{
    graph.push(level);
    if graph.len() > TAKE_GRAPH_LEVELS {
        graph.remove(0);
        assert(graph@ =~= old(graph)@.push(level).skip(1));
    }
}

/// Tells the window that its graphs changed.
pub fn publish_graphs(state: &mut UIState, previous_loading: bool, current_loading: bool)
    ensures
        final(state)@ == (ui::UIStateModel {
            waveform_prev_loading: previous_loading,
            waveform_current_loading: current_loading,
            waveform_version: if old(state)@.waveform_version == u64::MAX {
                0
            } else {
                (old(state)@.waveform_version + 1) as u64
            },
            ..old(state)@
        }),
{
    let version: u64 = if state.waveform_version == u64::MAX {
        0
    } else {
        state.waveform_version + 1
    };
    state.waveform_prev_loading = previous_loading;
    state.waveform_current_loading = current_loading;
    state.waveform_version = version;
}

/// Takes in that the graph of a slot was loaded, or could not be: the window waits for
/// it no longer.
pub fn graph_arrived(state: &mut UIState, slot: WaveformSlot)
    ensures
        final(state)@ == (ui::UIStateModel {
            waveform_prev_loading: old(state)@.waveform_prev_loading && slot
                != WaveformSlot::Previous,
            waveform_current_loading: old(state)@.waveform_current_loading && slot
                != WaveformSlot::Current,
            waveform_version: if old(state)@.waveform_version == u64::MAX {
                0
            } else {
                (old(state)@.waveform_version + 1) as u64
            },
            ..old(state)@
        }),
{
    let previous = state.waveform_prev_loading && slot != WaveformSlot::Previous;
    let current = state.waveform_current_loading && slot != WaveformSlot::Current;
    publish_graphs(state, previous, current);
}

/// What a result of putting a fragment into words asks for. One that came too late
/// asks for nothing.
pub open spec fn heard_effects(changed: bool) -> Seq<effects::EffectModel> {
    if changed {
        seq![
            effects::EffectModel::SaveOrReport("Failed to save transcription result"@),
            effects::EffectModel::Changed,
        ]
    } else {
        Seq::empty()
    }
}

/// Whether a result still fits the fragment that it was made for.
pub open spec fn still_wanted(
    p: project::ProjectModel,
    path: Seq<char>,
    previous_hint: Seq<char>,
    heard: Seq<char>,
    i: int,
) -> bool {
    &&& project::first_at_path(p.files, path, i)
    &&& p.files[i].hint == previous_hint
    &&& previous_hint != heard
}

impl App {
    /// Shows a failure in the window. It stays until it is dismissed.
    pub fn report_error(&self, state: &mut UIState, error: &str)
        ensures
            final(state)@ == (ui::UIStateModel { error_message: error@, ..old(state)@ }),
    {
        state.error_message = error.to_owned();
    }

    /// Takes in that a window follows the recorder from now on.
    pub fn set_ui_state(&mut self)
        ensures
            final(self)@ == (app::AppModel { file_list_update_pending: true, ..old(self)@ }),
    {
        self.file_list_update_pending = true;
    }

    /// Takes in the words of a fragment. Only the recorder changes and stores the
    /// project.
    pub fn take_transcription(&mut self, update: &TranscriptionUpdate) -> (r: Vec<Effect>)
        ensures
            ({
                let a = old(self)@;
                let path = update.file_path@;
                let before = update.previous_hint@;
                let heard = update.text@;
                let changed = exists|i: int| still_wanted(a.project, path, before, heard, i);
                &&& effects::effect_models(r@) == heard_effects(changed)
                &&& !changed ==> final(self)@ == a
                &&& changed ==> exists|i: int| #[trigger]
                    project::first_at_path(a.project.files, path, i) && final(self)@ == (
                    app::AppModel {
                        project: project::ProjectModel {
                            files: a.project.files.update(
                                i,
                                project::ProjectFileModel { hint: heard, ..a.project.files[i] },
                            ),
                            ..a.project
                        },
                        ..a
                    })
                &&& changed ==> exists|i: int| #[trigger]
                    project::first_at_path(a.project.files, path, i) && final(self)@ == (
                    app::AppModel { project: project::with_words(a.project, i, heard), ..a })
            }),
    {
        let ghost a = self@;
        let ghost path = update.file_path@;
        let ghost before = update.previous_hint@;
        let ghost heard = update.text@;
        let changed = self.project.apply_transcription(
            update.file_path.as_str(),
            update.previous_hint.as_str(),
            update.text.as_str(),
        );
        proof {
            if changed {
                let i = choose|i: int|
                    project::first_at_path(a.project.files, path, i) && a.project.files[i].hint
                        == before && before != heard;
                assert(still_wanted(a.project, path, before, heard, i));
            } else if exists|i: int| still_wanted(a.project, path, before, heard, i) {
                let i = choose|i: int| still_wanted(a.project, path, before, heard, i);
                assert(project::first_at_path(a.project.files, path, i));
            }
        }
        let mut out = no_effects();
        if changed {
            then_do(
                &mut out,
                Effect::SaveOrReport("Failed to save transcription result".to_owned()),
            );
            then_do(&mut out, Effect::Changed);
        }
        assert(effects::effect_models(out@) =~= heard_effects(changed));
        out
    }

    /// Takes in whether every player fell silent. Then playing is over.
    pub fn players_seen(&mut self, silent: bool) -> (r: Vec<Effect>)
        ensures
            final(self)@ == (if silent && old(self)@.state is Playing {
                playback::after_stop_playback(old(self)@)
            } else {
                old(self)@
            }),
            effects::effect_models(r@) == (if silent {
                playback::stop_playback_effects(old(self)@)
            } else {
                Seq::empty()
            }),
    {
        if silent && self.is_playing() {
            self.stop_playback()
        } else {
            no_effects()
        }
    }
}

/// A result for a fragment whose hint was edited meanwhile changes nothing.
pub proof fn late_results_change_nothing(
    p: project::ProjectModel,
    path: Seq<char>,
    previous_hint: Seq<char>,
    heard: Seq<char>,
    i: int,
)
    requires
        project::first_at_path(p.files, path, i),
        p.files[i].hint != previous_hint,
    ensures
        forall|k: int| !#[trigger] still_wanted(p, path, previous_hint, heard, k),
{
    assert forall|k: int| !#[trigger] still_wanted(p, path, previous_hint, heard, k) by {
        if still_wanted(p, path, previous_hint, heard, k) {
            assert(k == i);
        }
    }
}

} // verus!
