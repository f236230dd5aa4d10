//! Playing fragments and moving between them.
use crate::app::app;
use crate::app::app::{App, AppState};
use crate::app::effects;
use crate::app::effects::{no_effects, then_do, then_do_all, Effect};
use crate::utils::indexes;
use vstd::prelude::*;

verus! {

/// After playing stopped, the fragment that played is the selected one.
pub open spec fn after_stop_playback(a: app::AppModel) -> app::AppModel {
    match a.state {
        app::AppStateModel::Playing { current_index, .. } => app::AppModel {
            state: app::AppStateModel::Idle,
            current_index: Some(current_index),
            ..a
        },
        _ => app::AppModel { state: app::AppStateModel::Idle, ..a },
    }
}

pub open spec fn stop_playback_effects(a: app::AppModel) -> Seq<effects::EffectModel> {
    if a.state is Playing {
        seq![
            effects::EffectModel::StopPlayers,
            effects::EffectModel::DrawPreviousGraph,
            effects::EffectModel::DrawCurrentGraph,
            effects::EffectModel::Refresh { status_line: true, skip_list: false },
        ]
    } else {
        Seq::empty()
    }
}

/// After a take was dropped: its length counts as recorded, and it leaves no
/// target behind.
pub open spec fn after_stop_recording(a: app::AppModel, now_ms: u64) -> app::AppModel {
    match a.state {
        app::AppStateModel::Recording { start_ms, .. } => {
            let elapsed = if now_ms >= start_ms {
                now_ms - start_ms
            } else {
                0
            };
            let recorded = a.project.stats.record_length + elapsed;
            app::AppModel {
                project: crate::project::project::ProjectModel {
                    stats: crate::project::project::ProjectStatsModel {
                        record_length: if recorded > u64::MAX {
                            u64::MAX as nat
                        } else {
                            recorded as nat
                        },
                        ..a.project.stats
                    },
                    ..a.project
                },
                state: app::AppStateModel::Idle,
                update_recording_index: None,
                insert_recording_index: None,
                ..a
            }
        },
        _ => app::AppModel { state: app::AppStateModel::Idle, ..a },
    }
}

pub open spec fn stop_recording_effects(a: app::AppModel) -> Seq<effects::EffectModel> {
    match a.state {
        app::AppStateModel::Recording { writer_path, .. } => seq![
            effects::EffectModel::SaveOrReport("Failed to save project after discarding recording"@),
            effects::EffectModel::Discard(writer_path),
            effects::EffectModel::ClearCurrentGraph,
            effects::EffectModel::DrawCurrentGraph,
            effects::EffectModel::DrawPreviousGraph,
            effects::EffectModel::Refresh { status_line: true, skip_list: false },
        ],
        _ => Seq::empty(),
    }
}

/// The recorder at rest: a take is dropped, playing is stopped.
pub open spec fn quieted(a: app::AppModel, now_ms: u64) -> app::AppModel {
    match a.state {
        app::AppStateModel::Recording { .. } => after_stop_recording(a, now_ms),
        app::AppStateModel::Playing { .. } => after_stop_playback(a),
        app::AppStateModel::Idle => a,
    }
}

/// What it takes to bring the recorder to rest.
pub open spec fn quieting(a: app::AppModel) -> Seq<effects::EffectModel> {
    match a.state {
        app::AppStateModel::Recording { .. } => stop_recording_effects(a),
        app::AppStateModel::Playing { .. } => stop_playback_effects(a).push(
            effects::EffectModel::Pause,
        ),
        app::AppStateModel::Idle => Seq::empty(),
    }
}

/// Where a move goes: to the fragment in a place of the list, or to the newest.
pub open spec fn goto_place(total: int, ui_index: Option<i32>) -> Option<int> {
    match ui_index {
        _ if total == 0 => None,
        None => Some(total - 1),
        Some(i) => if i == -1 {
            Some(total - 1)
        } else if 0 <= i < total {
            Some(total - 1 - i)
        } else {
            None
        },
    }
}

/// The recorder after a move.
pub open spec fn after_goto(a: app::AppModel, ui_index: Option<i32>, now_ms: u64) -> app::AppModel {
    let q = quieted(a, now_ms);
    match goto_place(q.project.files.len() as int, ui_index) {
        Some(place) => app::AppModel { current_index: Some(place as usize), ..q },
        None => q,
    }
}

/// What a move asks for. A fragment without a hint is put into words.
pub open spec fn goto_effects(a: app::AppModel, ui_index: Option<i32>, play: bool) -> Seq<
    effects::EffectModel,
> {
    let total = a.project.files.len() as int;
    match goto_place(total, ui_index) {
        None => quieting(a),
        Some(place) => {
            let heard = if a.project.files[place].hint.len() == 0 {
                seq![effects::EffectModel::Transcribe(place as usize)]
            } else {
                Seq::empty()
            };
            let shown = seq![
                effects::EffectModel::DrawPreviousGraph,
                effects::EffectModel::DrawCurrentGraph,
                effects::EffectModel::RefreshCopy,
                effects::EffectModel::ShowIndex(indexes::ui_place(place, total) as i32),
                effects::EffectModel::Refresh { status_line: true, skip_list: true },
            ];
            let played = if play {
                seq![
                    effects::EffectModel::Play { first: place as usize, end: (place + 1) as usize },
                    effects::EffectModel::Refresh { status_line: true, skip_list: false },
                ]
            } else {
                Seq::empty()
            };
            quieting(a) + heard + shown + played
        },
    }
}

/// Where playing starts, and which fragment is selected then.
pub open spec fn playback_start(total: int, current: Option<usize>, single: Option<usize>) -> (
    int,
    Option<usize>,
) {
    let newest = if total == 0 {
        0
    } else {
        total - 1
    };
    match (single, current) {
        (Some(place), _) if place < total => (place as int, current),
        (Some(_), Some(index)) => (index as int, current),
        (Some(_), None) => (newest, None),
        (None, Some(index)) if index < total => (index as int, current),
        (None, _) => if total == 0 {
            (0, current)
        } else {
            (newest, Some(newest as usize))
        },
    }
}

/// Which fragments are played: one, or all from a place on.
pub open spec fn playback_range(total: int, current: Option<usize>, single: Option<usize>) -> (
    int,
    int,
) {
    let (start, _) = playback_start(total, current, single);
    (
        start,
        if single is Some {
            start + 1
        } else {
            total
        },
    )
}

impl App {
    /// Stops playing.
    pub fn stop_playback(&mut self) -> (r: Vec<Effect>)
        ensures
            final(self)@ == after_stop_playback(old(self)@),
            effects::effect_models(r@) == stop_playback_effects(old(self)@),
    {
        let mut out = no_effects();
        if let AppState::Playing { current_index, .. } = &self.state {
            let played: usize = *current_index;
            self.current_index = Some(played);
            then_do(&mut out, Effect::StopPlayers);
            then_do(&mut out, Effect::DrawPreviousGraph);
            then_do(&mut out, Effect::DrawCurrentGraph);
            then_do(&mut out, Effect::Refresh { status_line: true, skip_list: false });
        }
        self.state = AppState::Idle;
        assert(effects::effect_models(out@) =~= stop_playback_effects(old(self)@));
        out
    }

    /// Drops the running take.
    pub fn stop_recording(&mut self, now_ms: u64) -> (r: Vec<Effect>)
        ensures
            final(self)@ == after_stop_recording(old(self)@, now_ms),
            effects::effect_models(r@) == stop_recording_effects(old(self)@),
    {
        let mut out = no_effects();
        if let AppState::Recording { writer_path, start_ms, .. } = &self.state {
            let elapsed: u64 = now_ms.saturating_sub(*start_ms);
            let path = writer_path.clone();
            self.project.stats.record_length = self.project.stats.record_length.saturating_add(
                elapsed,
            );
            self.update_recording_index = None;
            self.insert_recording_index = None;
            then_do(
                &mut out,
                Effect::SaveOrReport("Failed to save project after discarding recording".to_owned()),
            );
            then_do(&mut out, Effect::Discard(path));
            then_do(&mut out, Effect::ClearCurrentGraph);
            then_do(&mut out, Effect::DrawCurrentGraph);
            then_do(&mut out, Effect::DrawPreviousGraph);
            then_do(&mut out, Effect::Refresh { status_line: true, skip_list: false });
        }
        self.state = AppState::Idle;
        assert(effects::effect_models(out@) =~= stop_recording_effects(old(self)@));
        out
    }

    /// Brings the recorder to rest before something else starts.
    pub fn quiet(&mut self, now_ms: u64) -> (r: Vec<Effect>)
        ensures
            final(self)@ == quieted(old(self)@, now_ms),
            effects::effect_models(r@) == quieting(old(self)@),
    {
        if self.is_recording() {
            self.stop_recording(now_ms)
        } else if self.is_playing() {
            let mut out = self.stop_playback();
            then_do(&mut out, Effect::Pause);
            out
        } else {
            no_effects()
        }
    }

    /// Moves to a place of the list; to the newest fragment without one.
    #[verifier::rlimit(60)]
    pub fn goto_to_index(&mut self, ui_index: Option<i32>, play_after: bool, now_ms: u64) -> (r:
        Vec<Effect>)
        ensures
            final(self)@ == after_goto(old(self)@, ui_index, now_ms),
            effects::effect_models(r@) == goto_effects(old(self)@, ui_index, play_after),
    {
        let mut out = self.quiet(now_ms);
        let total: usize = self.project.files.len();
        assert(total == self@.project.files.len());
        assert(self@.project.files == old(self)@.project.files);
        let place: Option<usize> = if total == 0 {
            None
        } else {
            match ui_index {
                None => Some(total - 1),
                Some(i) => if i == -1 {
                    Some(total - 1)
                } else {
                    indexes::ui_to_orig_index(i, total)
                },
            }
        };
        if let Some(index) = place {
            self.current_index = Some(index);
            assert(self@.project.files[index as int].hint == self.project.files@[index as int].hint@);
            if self.project.files[index].hint.as_str().is_empty() {
                then_do(&mut out, Effect::Transcribe(index));
            }
            then_do(&mut out, Effect::DrawPreviousGraph);
            then_do(&mut out, Effect::DrawCurrentGraph);
            then_do(&mut out, Effect::RefreshCopy);
            then_do(&mut out, Effect::ShowIndex(indexes::orig_to_ui_index(index, total)));
            then_do(&mut out, Effect::Refresh { status_line: true, skip_list: true });
            if play_after {
                then_do(&mut out, Effect::Play { first: index, end: index + 1 });
                then_do(&mut out, Effect::Refresh { status_line: true, skip_list: false });
            }
        }
        assert(effects::effect_models(out@) =~= goto_effects(old(self)@, ui_index, play_after));
        out
    }

    /// Plays the selected fragment; the newest one if none is selected.
    pub fn start_playback(&mut self, now_ms: u64) -> (r: Vec<Effect>)
        requires
            ({
                let q = quieted(old(self)@, now_ms);
                let single = app::update_key(old(self)@).current_index;
                let total = q.project.files.len() as int;
                single is Some ==> playback_start(total, q.current_index, single).0 < total
            }),
        ensures
            ({
                let a = old(self)@;
                let single = app::update_key(a).current_index;
                let q = quieted(a, now_ms);
                let total = q.project.files.len() as int;
                let (start, end) = playback_range(total, q.current_index, single);
                &&& final(self)@ == (app::AppModel {
                    current_index: playback_start(total, q.current_index, single).1,
                    ..q
                })
                &&& effects::effect_models(r@) == quieting(a).push(
                    effects::EffectModel::Play { first: start as usize, end: end as usize },
                )
            }),
    {
        let single = self.update_key().current_index;
        self.start_playback_from_index(single, now_ms)
    }

    /// Plays one fragment, or every fragment from the selected one on.
    pub fn start_playback_from_index(&mut self, single: Option<usize>, now_ms: u64) -> (r: Vec<
        Effect,
    >)
        requires
            ({
                let q = quieted(old(self)@, now_ms);
                let total = q.project.files.len() as int;
                single is Some ==> playback_start(total, q.current_index, single).0 < total
            }),
        ensures
            ({
                let a = old(self)@;
                let q = quieted(a, now_ms);
                let total = q.project.files.len() as int;
                let (start, end) = playback_range(total, q.current_index, single);
                &&& 0 <= start <= end <= total
                &&& final(self)@ == (app::AppModel {
                    current_index: playback_start(total, q.current_index, single).1,
                    ..q
                })
                &&& effects::effect_models(r@) == quieting(a).push(
                    effects::EffectModel::Play { first: start as usize, end: end as usize },
                )
            }),
    {
        let mut out = self.quiet(now_ms);
        let total: usize = self.project.files.len();
        assert(total == self@.project.files.len());
        let newest: usize = if total == 0 {
            0
        } else {
            total - 1
        };
        let start: usize = match single {
            Some(place) => if place < total {
                place
            } else {
                match self.current_index {
                    Some(index) => index,
                    None => newest,
                }
            },
            None => match self.current_index {
                Some(index) if index < total => index,
                _ => {
                    if total > 0 {
                        self.current_index = Some(newest);
                    }
                    newest
                },
            },
        };
        let end: usize = if single.is_some() {
            start + 1
        } else {
            total
        };
        then_do(&mut out, Effect::Play { first: start, end });
        out
    }

    /// Takes in that players were started, if any of them was.
    pub fn playback_started(&mut self, first: usize, any_player: bool, now_ms: u64) -> (r: Vec<
        Effect,
    >)
        ensures
            if any_player {
                &&& final(self)@ == (app::AppModel {
                    current_index: Some(first),
                    state: app::AppStateModel::Playing { current_index: first, start_ms: now_ms },
                    ..old(self)@
                })
                &&& effects::effect_models(r@) == seq![
                    effects::EffectModel::DrawPreviousGraph,
                    effects::EffectModel::DrawCurrentGraph,
                    effects::EffectModel::Refresh { status_line: true, skip_list: false },
                ]
            } else {
                final(self)@ == old(self)@ && effects::effect_models(r@) == Seq::<
                    effects::EffectModel,
                >::empty()
            },
            any_player ==> final(self)@ == now_playing(old(self)@, first, now_ms),
    {
        let mut out = no_effects();
        if any_player {
            self.current_index = Some(first);
            self.state = AppState::Playing { current_index: first, start_ms: now_ms };
            then_do(&mut out, Effect::DrawPreviousGraph);
            then_do(&mut out, Effect::DrawCurrentGraph);
            then_do(&mut out, Effect::Refresh { status_line: true, skip_list: false });
            assert(effects::effect_models(out@) =~= seq![
                effects::EffectModel::DrawPreviousGraph,
                effects::EffectModel::DrawCurrentGraph,
                effects::EffectModel::Refresh { status_line: true, skip_list: false },
            ]);
        }
        out
    }
}

/// The recorder once players run.
pub open spec fn now_playing(a: app::AppModel, first: usize, now_ms: u64) -> app::AppModel {
    app::AppModel {
        current_index: Some(first),
        state: app::AppStateModel::Playing { current_index: first, start_ms: now_ms },
        ..a
    }
}

/// Playing selects the fragment that plays, and leaves it selected when it stops. Nothing
/// else changes.
pub proof fn playing_selects_what_plays(a: app::AppModel, first: usize, now_ms: u64)
    ensures
        ({
            let b = now_playing(a, first, now_ms);
            let c = after_stop_playback(b);
            &&& b.state == (app::AppStateModel::Playing { current_index: first, start_ms: now_ms })
            &&& b.current_index == Some(first)
            &&& b.project == a.project
            &&& b.recording_mode == a.recording_mode
            &&& c.state == app::AppStateModel::Idle
            &&& c.current_index == Some(first)
            &&& c.project == a.project
        }),
{
}

} // verus!
