//! What commands change and what they keep.
use crate::app::action_handler;
use crate::app::app;
use crate::app::app::RecordingMode;
use crate::app::effects;
use crate::app::playback;
use crate::app::recording;
use crate::project::markers;
use crate::project::metadata;
use crate::project::project;
use crate::ui::snapshot;
use crate::utils::indexes;
use crate::utils::keyboard;
use crate::utils::text;
use vstd::prelude::*;

verus! {

/// Whether two fragments differ in nothing but their markers and their title.
pub open spec fn same_recording(
    before: project::ProjectFileModel,
    after: project::ProjectFileModel,
) -> bool {
    &&& after.path == before.path
    &&& after.author == before.author
    &&& after.year == before.year
    &&& after.hint == before.hint
    &&& after.size == before.size
    &&& after.duration_ms == before.duration_ms
}

/// Whether a command is about the markers of a fragment.
pub open spec fn edits_markers(action: keyboard::ActionModel) -> bool {
    action is AddMarker || action is AddMarkers || action is RemoveMarkers || action is SetMarkers
}

/// No command takes a fragment away, adds one or moves it by itself, and none changes what
/// is said of the book. Only commands about markers change a fragment, and then nothing but
/// its markers and its title.
pub proof fn commands_keep_the_recordings(
    a: app::AppModel,
    action: keyboard::ActionModel,
    shown: Option<i32>,
    now_ms: u64,
    b: app::AppModel,
    step: effects::StepModel,
    i: int,
)
    requires
        action_handler::handled(a, action, shown, now_ms, b, step),
        0 <= i < a.project.files.len(),
    ensures
        b.project.files.len() == a.project.files.len(),
        b.project.meta == a.project.meta,
        b.project.settings == a.project.settings,
        b.project.markers == a.project.markers,
        b.project.next_chunk_number == a.project.next_chunk_number,
        b.project_path == a.project_path,
        b.chunks_dir == a.chunks_dir,
        same_recording(a.project.files[i], b.project.files[i]),
        !edits_markers(action) ==> b.project.files == a.project.files,
        !(action is Shutdown) ==> b.should_exit == a.should_exit,
        action is Shutdown ==> b.should_exit,
{
    match action {
        keyboard::ActionModel::AddMarker { marker } => marker_key_keeps(a, marker, shown, b, step, i),
        keyboard::ActionModel::AddMarkers { .. } => marker_edit_keeps(a, action, b, step, i),
        keyboard::ActionModel::RemoveMarkers { .. } => marker_edit_keeps(a, action, b, step, i),
        keyboard::ActionModel::SetMarkers { .. } => marker_edit_keeps(a, action, b, step, i),
        _ => other_commands_keep(a, action, shown, now_ms, b, step),
    }
}

/// Whether all of a recorder but its state stays as it is, and how much was recorded.
spec fn keeps(a: app::AppModel, b: app::AppModel) -> bool {
    &&& b.project.files == a.project.files
    &&& b.project.meta == a.project.meta
    &&& b.project.settings == a.project.settings
    &&& b.project.markers == a.project.markers
    &&& b.project.next_chunk_number == a.project.next_chunk_number
    &&& b.project_path == a.project_path
    &&& b.chunks_dir == a.chunks_dir
    &&& b.should_exit == a.should_exit
}

proof fn moves_keep(a: app::AppModel, index: Option<i32>, now_ms: u64)
    ensures
        keeps(a, playback::after_goto(a, index, now_ms)),
{
}

proof fn marker_key_keeps(
    a: app::AppModel,
    key: Seq<char>,
    shown: Option<i32>,
    b: app::AppModel,
    step: effects::StepModel,
    i: int,
)
    requires
        action_handler::marker_switched(a, key, shown, b, step),
        0 <= i < a.project.files.len(),
    ensures
        same_recording(a.project.files[i], b.project.files[i]),
        keeps(a, app::AppModel { project: a.project, ..b }),
        b.project == (project::ProjectModel { files: b.project.files, ..a.project }),
        b.project.files.len() == a.project.files.len(),
{
}

proof fn marker_edit_keeps(
    a: app::AppModel,
    action: keyboard::ActionModel,
    b: app::AppModel,
    step: effects::StepModel,
    i: int,
)
    requires
        action_handler::markers_edited(a, action, b, step),
        0 <= i < a.project.files.len(),
    ensures
        same_recording(a.project.files[i], b.project.files[i]),
        keeps(a, app::AppModel { project: a.project, ..b }),
        b.project == (project::ProjectModel { files: b.project.files, ..a.project }),
        b.project.files.len() == a.project.files.len(),
{
}

proof fn other_commands_keep(
    a: app::AppModel,
    action: keyboard::ActionModel,
    shown: Option<i32>,
    now_ms: u64,
    b: app::AppModel,
    step: effects::StepModel,
)
    requires
        action_handler::handled(a, action, shown, now_ms, b, step),
        !edits_markers(action),
    ensures
        keeps(a, app::AppModel { should_exit: a.should_exit, ..b }),
        b.should_exit == (a.should_exit || action is Shutdown),
{
    match action {
        keyboard::ActionModel::Prev => {
            if let Some((_, ui)) = app::selection(a) {
                moves_keep(a, Some((ui + 1) as i32), now_ms);
            }
        },
        keyboard::ActionModel::Next => {
            if let Some((_, ui)) = app::selection(a) {
                moves_keep(a, Some((ui - 1) as i32), now_ms);
            }
        },
        keyboard::ActionModel::PrevSect => {
            let target = choose|target: Option<i32>| #[trigger]
                action_handler::section_target(a, false, target) && action_handler::moved_if(
                    a,
                    b,
                    step,
                    target,
                    true,
                    now_ms,
                );
            moves_keep(a, target, now_ms);
        },
        keyboard::ActionModel::NextSect => {
            let target = choose|target: Option<i32>| #[trigger]
                action_handler::section_target(a, true, target) && action_handler::moved_if(
                    a,
                    b,
                    step,
                    target,
                    true,
                    now_ms,
                );
            moves_keep(a, target, now_ms);
        },
        keyboard::ActionModel::SearchHintUp(query) => {
            let target = choose|target: Option<i32>| #[trigger]
                action_handler::search_target(a, shown, query, false, target)
                    && action_handler::moved_if(a, b, step, target, false, now_ms);
            moves_keep(a, target, now_ms);
        },
        keyboard::ActionModel::SearchHintDown(query) => {
            let target = choose|target: Option<i32>| #[trigger]
                action_handler::search_target(a, shown, query, true, target)
                    && action_handler::moved_if(a, b, step, target, false, now_ms);
            moves_keep(a, target, now_ms);
        },
        keyboard::ActionModel::Goto { index, .. } => {
            moves_keep(a, index, now_ms);
        },
        _ => {},
    }
}

/// Whether the recorder is at rest on a fragment.
pub open spec fn rests_on(a: app::AppModel, place: int) -> bool {
    &&& a.state == app::AppStateModel::Idle
    &&& 0 <= place < a.project.files.len() < i32::MAX
    &&& a.current_index matches Some(index) && index == place
}

/// Whether a step selects a fragment and plays nothing else.
pub open spec fn plays(step: effects::StepModel, place: int) -> bool {
    &&& step matches effects::StepModel::Apply(asked) && asked.contains(
        effects::EffectModel::Play { first: place as usize, end: (place + 1) as usize },
    )
}

/// Going on selects the fragment behind the selected one and plays it; behind the last one
/// there is nothing.
pub proof fn going_on_selects_the_next_fragment(
    a: app::AppModel,
    place: int,
    shown: Option<i32>,
    now_ms: u64,
    b: app::AppModel,
    step: effects::StepModel,
)
    requires
        rests_on(a, place),
        action_handler::handled(a, keyboard::ActionModel::Next, shown, now_ms, b, step),
    ensures
        place + 1 < a.project.files.len() ==> rests_on(b, place + 1) && plays(step, place + 1),
        place + 1 == a.project.files.len() ==> b == a && step == effects::StepModel::Apply(
            Seq::empty(),
        ),
{
    if place + 1 < a.project.files.len() {
        let total = a.project.files.len() as int;
        moves_play(a, Some((total - 1 - place - 1) as i32));
    }
}

/// Going back selects the fragment before the selected one and plays it; before the first
/// one there is nothing.
pub proof fn going_back_selects_the_fragment_before(
    a: app::AppModel,
    place: int,
    shown: Option<i32>,
    now_ms: u64,
    b: app::AppModel,
    step: effects::StepModel,
)
    requires
        rests_on(a, place),
        action_handler::handled(a, keyboard::ActionModel::Prev, shown, now_ms, b, step),
    ensures
        place > 0 ==> rests_on(b, place - 1) && plays(step, place - 1),
        place == 0 ==> b == a && step == effects::StepModel::Apply(Seq::empty()),
{
    if place > 0 {
        let total = a.project.files.len() as int;
        moves_play(a, Some((total - 1 - place + 1) as i32));
    }
}

proof fn moves_play(a: app::AppModel, ui_index: Option<i32>)
    requires
        playback::goto_place(a.project.files.len() as int, ui_index) is Some,
    ensures
        ({
            let place = playback::goto_place(a.project.files.len() as int, ui_index)->0;
            playback::goto_effects(a, ui_index, true).contains(
                effects::EffectModel::Play { first: place as usize, end: (place + 1) as usize },
            )
        }),
{
    let place = playback::goto_place(a.project.files.len() as int, ui_index)->0;
    let all = playback::goto_effects(a, ui_index, true);
    assert(all[all.len() - 2] == effects::EffectModel::Play {
        first: place as usize,
        end: (place + 1) as usize,
    });
}

/// A fragment can be gone to by its place in the list, which shows the newest one first.
/// Without a place, and with minus one, it is the newest. A place that is not in the list
/// leaves the selection as it is.
pub proof fn moves_go_where_the_list_says(
    a: app::AppModel,
    index: Option<i32>,
    play: bool,
    shown: Option<i32>,
    now_ms: u64,
    b: app::AppModel,
    step: effects::StepModel,
)
    requires
        a.state == app::AppStateModel::Idle,
        0 < a.project.files.len() < i32::MAX,
        action_handler::handled(
            a,
            keyboard::ActionModel::Goto { index, play },
            shown,
            now_ms,
            b,
            step,
        ),
    ensures
        index is None || index == Some(-1i32) ==> rests_on(b, a.project.files.len() - 1),
        index matches Some(i) && 0 <= i < a.project.files.len() ==> rests_on(
            b,
            a.project.files.len() - 1 - index->0,
        ),
        index matches Some(i) && (i < -1 || i >= a.project.files.len()) ==> b == a,
        forall|place: int| #[trigger]
            rests_on(b, place) && !(b == a) ==> (plays(step, place) == play),
        forall|place: int| #[trigger]
            rests_on(b, place) && !(b == a) ==> (step matches effects::StepModel::Apply(asked)
                && asked.contains(effects::EffectModel::Transcribe(place as usize)) == (
            a.project.files[place].hint.len() == 0)),
{
    let total = a.project.files.len() as int;
    if let Some(place) = playback::goto_place(total, index) {
        let all = playback::goto_effects(a, index, play);
        let heard = effects::EffectModel::Transcribe(place as usize);
        let played = effects::EffectModel::Play {
            first: place as usize,
            end: (place + 1) as usize,
        };
        if play {
            moves_play(a, index);
        }
        if a.project.files[place].hint.len() == 0 {
            assert(all[0] == heard);
        }
        assert(rests_on(b, place));
        assert(all.contains(played) == play);
        assert(all.contains(heard) == (a.project.files[place].hint.len() == 0));
    }
}

/// Moving by a section finds the nearest fragment behind the selected one that starts a
/// section, or the nearest one before it, as long as the window's copy is one of the
/// project. Without such a fragment nothing moves.
pub proof fn section_moves_find_the_nearest_section(
    a: app::AppModel,
    place: int,
    next: bool,
    shown: Option<i32>,
    now_ms: u64,
    b: app::AppModel,
    step: effects::StepModel,
)
    requires
        rests_on(a, place),
        a.file_list_update_pending || a.ui_update_cache.built_for() is None
            || a.ui_update_cache.sections() == snapshot::section_places(
            a.project.files,
            a.project.markers,
            a.project.files.len() as int,
        ),
        action_handler::handled(
            a,
            if next {
                keyboard::ActionModel::NextSect
            } else {
                keyboard::ActionModel::PrevSect
            },
            shown,
            now_ms,
            b,
            step,
        ),
    ensures
        ({
            ||| {
                &&& b == a
                &&& step == effects::StepModel::Apply(Seq::empty())
                &&& forall|k: int|
                    0 <= k < a.project.files.len() && (if next {
                        k > place
                    } else {
                        k < place
                    }) ==> !metadata::opens_section(
                        #[trigger] a.project.files[k],
                        a.project.markers,
                    )
            }
            ||| exists|found: int|
                {
                    &&& #[trigger] rests_on(b, found)
                    &&& plays(step, found)
                    &&& metadata::opens_section(a.project.files[found], a.project.markers)
                    &&& if next {
                        found > place
                    } else {
                        found < place
                    }
                    &&& forall|k: int|
                        (if next {
                            place < k < found
                        } else {
                            found < k < place
                        }) ==> !metadata::opens_section(
                            #[trigger] a.project.files[k],
                            a.project.markers,
                        )
                }
        }),
{
    let p = a.project;
    let total = p.files.len() as int;
    let ui = total - 1 - place;
    let target = choose|target: Option<i32>| #[trigger]
        action_handler::section_target(a, next, target) && action_handler::moved_if(
            a,
            b,
            step,
            target,
            true,
            now_ms,
        );
    assert(app::selection(a) == Some((place, ui)));
    if !a.file_list_update_pending && a.ui_update_cache.built_for() is Some {
        let found = choose|found: Option<usize>|
            target == action_handler::place_in_list(total, found)
                && #[trigger] crate::ui::updater::is_adjacent(
                a.ui_update_cache.sections(),
                place as usize,
                next,
                found,
            );
        action_handler::fresh_copy_finds_the_same_section(p, place, next, found);
    }
    assert(action_handler::nearest_section(p, ui, next, target));
    assert forall|k: int| 0 <= k < total implies action_handler::shows_section(p, total - 1 - k)
        == metadata::opens_section(#[trigger] p.files[k], p.markers) by {
        same_sections(p.files[k], p.markers);
    }
    match target {
        Some(row) => {
            let found = total - 1 - row;
            assert(action_handler::shows_section(p, row as int));
            moves_play(a, Some(row));
            assert(rests_on(b, found));
            assert(metadata::opens_section(p.files[found], p.markers)) by {
                same_sections(p.files[found], p.markers);
            }
            assert forall|k: int|
                (if next {
                    place < k < found
                } else {
                    found < k < place
                }) implies !metadata::opens_section(#[trigger] p.files[k], p.markers) by {
                assert(!action_handler::shows_section(p, total - 1 - k));
            }
        },
        None => {
            assert forall|k: int|
                0 <= k < total && (if next {
                    k > place
                } else {
                    k < place
                }) implies !metadata::opens_section(#[trigger] p.files[k], p.markers) by {
                assert(!action_handler::shows_section(p, total - 1 - k));
            }
        },
    }
}

proof fn same_sections(
    f: project::ProjectFileModel,
    known: Map<Seq<char>, project::MarkerSettingsModel>,
)
    ensures
        markers::starts_section(f, known) == metadata::opens_section(f, known),
{
    if markers::starts_section(f, known) {
        let j = choose|j: int|
            0 <= j < f.markers.len() && markers::is_section(known, #[trigger] f.markers[j]);
        assert(known.dom().contains(f.markers[j]));
    }
    if metadata::opens_section(f, known) {
        let j = choose|j: int|
            0 <= j < f.markers.len() && known.dom().contains(#[trigger] f.markers[j])
                && known[f.markers[j]].section == true;
        assert(markers::is_section(known, f.markers[j]));
    }
}

/// Searching finds the nearest fragment in the list whose hint has the text in it, without
/// regard to case: down the list, towards older fragments, or up. It does not play.
/// Without such a fragment, or without a text, nothing moves.
pub proof fn searches_find_the_nearest_hint(
    a: app::AppModel,
    at: i32,
    query: Seq<char>,
    down: bool,
    now_ms: u64,
    b: app::AppModel,
    step: effects::StepModel,
)
    requires
        a.state == app::AppStateModel::Idle,
        0 < a.project.files.len() < i32::MAX,
        action_handler::handled(
            a,
            if down {
                keyboard::ActionModel::SearchHintDown(query)
            } else {
                keyboard::ActionModel::SearchHintUp(query)
            },
            Some(at),
            now_ms,
            b,
            step,
        ),
    ensures
        ({
            let wanted = text::lowercase(query);
            let total = a.project.files.len() as int;
            ||| {
                &&& b == a
                &&& step == effects::StepModel::Apply(Seq::empty())
                &&& wanted.len() == 0 || forall|k: int|
                    0 <= k < total && (if down {
                        total - 1 - k > at
                    } else {
                        total - 1 - k < at
                    }) ==> !text::has_within(
                        text::lowercase((#[trigger] a.project.files[k]).hint),
                        wanted,
                    )
            }
            ||| exists|found: int|
                {
                    &&& #[trigger] rests_on(b, found)
                    &&& wanted.len() > 0
                    &&& text::has_within(text::lowercase(a.project.files[found].hint), wanted)
                    &&& if down {
                        total - 1 - found > at
                    } else {
                        total - 1 - found < at
                    }
                    &&& forall|k: int|
                        (if down {
                            found < k < total && total - 1 - k > at
                        } else {
                            0 <= k < found && total - 1 - k < at
                        }) ==> !text::has_within(
                            text::lowercase((#[trigger] a.project.files[k]).hint),
                            wanted,
                        )
                    &&& forall|place: int| 0 <= place < total ==> !#[trigger] plays(step, place)
                }
        }),
{
    let wanted = text::lowercase(query);
    let total = a.project.files.len() as int;
    let target = choose|target: Option<i32>| #[trigger]
        action_handler::search_target(a, Some(at), query, down, target) && action_handler::moved_if(
            a,
            b,
            step,
            target,
            false,
            now_ms,
        );
    match target {
        Some(row) => {
            let found = total - 1 - row;
            assert(action_handler::hint_matches(a, row as int, wanted));
            assert(rests_on(b, found));
            assert forall|k: int|
                (if down {
                    found < k < total && total - 1 - k > at
                } else {
                    0 <= k < found && total - 1 - k < at
                }) implies !text::has_within(
                text::lowercase((#[trigger] a.project.files[k]).hint),
                wanted,
            ) by {
                assert(!action_handler::hint_matches(a, total - 1 - k, wanted));
            }
            assert forall|place: int| 0 <= place < total implies !#[trigger] plays(
                step,
                place,
            ) by {}
        },
        None => {
            if wanted.len() > 0 {
                assert forall|k: int|
                    0 <= k < total && (if down {
                        total - 1 - k > at
                    } else {
                        total - 1 - k < at
                    }) implies !text::has_within(
                    text::lowercase((#[trigger] a.project.files[k]).hint),
                    wanted,
                ) by {
                    assert(!action_handler::hint_matches(a, total - 1 - k, wanted));
                }
            }
        },
    }
}

/// A key for a mode turns it on, and off again: takes then go behind the selected fragment.
/// While recording, or without a fragment, it does nothing.
pub proof fn modes_switch_on_and_off(
    a: app::AppModel,
    update: bool,
    shown: Option<i32>,
    now_ms: u64,
    b: app::AppModel,
    step: effects::StepModel,
)
    requires
        action_handler::handled(
            a,
            if update {
                keyboard::ActionModel::ModeUpdate
            } else {
                keyboard::ActionModel::ModeInsert
            },
            shown,
            now_ms,
            b,
            step,
        ),
    ensures
        ({
            let mode = if update {
                RecordingMode::Update
            } else {
                RecordingMode::Insert
            };
            let idle = !(a.state is Recording) && a.project.files.len() > 0;
            &&& idle && a.recording_mode == mode ==> b.recording_mode == RecordingMode::Append
            &&& idle && a.recording_mode != mode ==> b.recording_mode == mode
            &&& !idle ==> b == a
            &&& b.current_index == a.current_index
            &&& b.state == a.state
            &&& b.project == a.project
        }),
{
}

/// The key for takes begins one over what is selected, or goes on with the next; the key to
/// accept begins one behind it, and while recording it goes on only where takes go behind
/// one another.
pub proof fn record_keys_begin_takes(
    a: app::AppModel,
    duration_secs: Option<u64>,
    shown: Option<i32>,
    now_ms: u64,
    b: app::AppModel,
    recorded: effects::StepModel,
    accepted: effects::StepModel,
)
    requires
        action_handler::handled(
            a,
            keyboard::ActionModel::Record { duration_secs },
            shown,
            now_ms,
            b,
            recorded,
        ),
        action_handler::handled(a, keyboard::ActionModel::Accept, shown, now_ms, b, accepted),
    ensures
        b == a,
        recorded matches effects::StepModel::Record { duration_secs: asked, replace_current }
            && asked == duration_secs && replace_current == !(a.state is Recording),
        !(a.state is Recording) ==> (accepted matches effects::StepModel::Record {
            duration_secs: asked,
            replace_current,
        } && asked is None && !replace_current),
        a.state is Recording ==> (accepted matches effects::StepModel::Accept { go_on } && go_on
            == (a.recording_mode == RecordingMode::Append)),
{
}

/// Stopping brings the recorder to rest. The fragment that played is the selected one then;
/// a take that ran is dropped with its file, its length counts as recorded, and it leaves no
/// fragment behind.
pub proof fn stopping_brings_to_rest(
    a: app::AppModel,
    shown: Option<i32>,
    now_ms: u64,
    b: app::AppModel,
    step: effects::StepModel,
)
    requires
        action_handler::handled(a, keyboard::ActionModel::Stop, shown, now_ms, b, step),
    ensures
        b.state == app::AppStateModel::Idle,
        b.project.files == a.project.files,
        b.recording_mode == a.recording_mode,
        a.state matches app::AppStateModel::Playing { current_index, .. } ==> b.current_index
            == Some(current_index) && (step matches effects::StepModel::Apply(asked)
            && asked.contains(effects::EffectModel::StopPlayers)),
        !(a.state is Playing) ==> b.current_index == a.current_index,
        !(a.state is Recording) ==> b.project == a.project,
        a.state matches app::AppStateModel::Recording { writer_path, start_ms, .. } ==> {
            &&& step matches effects::StepModel::Apply(asked) && asked.contains(
                effects::EffectModel::Discard(writer_path),
            )
            &&& b.update_recording_index is None
            &&& b.insert_recording_index is None
            &&& now_ms < start_ms ==> b.project.stats.record_length == vstd::math::min(
                a.project.stats.record_length as int,
                u64::MAX as int,
            )
            &&& now_ms >= start_ms ==> b.project.stats.record_length == vstd::math::min(
                a.project.stats.record_length + (now_ms - start_ms),
                u64::MAX as int,
            )
        },
{
    if a.state is Playing {
        assert(playback::stop_playback_effects(a)[0] == effects::EffectModel::StopPlayers);
    }
    if let app::AppStateModel::Recording { writer_path, .. } = a.state {
        assert(playback::stop_recording_effects(a)[1] == effects::EffectModel::Discard(
            writer_path,
        ));
    }
}

/// One fragment is played alone; without one, all from the selected fragment on are played,
/// or the newest one where none is selected.
pub proof fn playing_goes_from_the_selected_fragment(
    total: int,
    current: Option<usize>,
    place: usize,
)
    requires
        0 <= place < total <= usize::MAX,
    ensures
        playback::playback_range(total, current, Some(place)) == (place as int, place + 1),
        playback::playback_range(total, Some(place), None) == (place as int, total),
        playback::playback_range(total, None, None) == (total - 1, total),
        playback::playback_start(total, None, None).1 == Some((total - 1) as usize),
        playback::playback_start(total, Some(place), None).1 == Some(place),
        playback::playback_start(total, current, Some(place)).1 == current,
{
}

/// A key for a marker goes to the selected fragment, or to the one that the list shows where
/// none is selected, and changes no other one. It does so only if a marker is bound to it,
/// and then it switches such a marker.
pub proof fn marker_keys_change_the_selected_fragment(
    a: app::AppModel,
    key: Seq<char>,
    shown: Option<i32>,
    now_ms: u64,
    b: app::AppModel,
    step: effects::StepModel,
    place: int,
    i: int,
)
    requires
        action_handler::handled(
            a,
            keyboard::ActionModel::AddMarker { marker: key },
            shown,
            now_ms,
            b,
            step,
        ),
        0 <= place < a.project.files.len(),
        a.current_index matches Some(index) && index == place || (a.current_index is None && (
        shown matches Some(row) && row == a.project.files.len() - 1 - place)),
        0 <= i < a.project.files.len(),
    ensures
        i != place ==> b.project.files[i] == a.project.files[i],
        (forall|name: Seq<char>|
            !(#[trigger] a.project.markers.dom().contains(name)
                && a.project.markers[name].shortcut == Some(key))) ==> b == a,
        b == a || exists|name: Seq<char>| #[trigger]
            a.project.markers.dom().contains(name) && a.project.markers[name].shortcut == Some(key)
                && b.project.files[place].markers.contains(name)
                == !a.project.files[place].markers.contains(name) && b.project.files[place].title
                == (if !a.project.files[place].markers.contains(name)
                && a.project.markers[name].section && a.project.files[place].title.len() == 0 {
                "Title for "@ + text::decimal((place + 1) as nat)
            } else {
                a.project.files[place].title
            }),
        (exists|name: Seq<char>| #[trigger]
            a.project.markers.dom().contains(name) && a.project.markers[name].shortcut == Some(
                key,
            )) ==> step == effects::StepModel::SaveThenShow,
{
    let before = a.project.files[place];
    let after = b.project.files[place];
    assert(action_handler::marked_place(a, shown) == Some(place));
    if step == effects::StepModel::SaveThenShow {
        let name = choose|name: Seq<char>| #[trigger]
            action_handler::bound_to(a.project, name, key) && markers::switched(
                before,
                after,
                name,
                markers::is_section(a.project.markers, name),
                (place + 1) as nat,
            );
        markers::switching_changes_one_marker(
            before,
            after,
            name,
            markers::is_section(a.project.markers, name),
            (place + 1) as nat,
            name,
        );
        assert(a.project.markers.dom().contains(name));
    } else {
        assert(forall|name: Seq<char>| !#[trigger] action_handler::bound_to(a.project, name, key));
        assert forall|name: Seq<char>|
            !(#[trigger] a.project.markers.dom().contains(name)
                && a.project.markers[name].shortcut == Some(key)) by {
            assert(!action_handler::bound_to(a.project, name, key));
        }
    }
}

/// A command with a number counts the fragments from one, the oldest first. It changes the
/// markers of that fragment alone, and no fragment where there is none of that number.
pub proof fn numbered_markers_change_one_fragment(
    a: app::AppModel,
    file_index: i32,
    names: Seq<Seq<char>>,
    shown: Option<i32>,
    now_ms: u64,
    b: app::AppModel,
    step: effects::StepModel,
    i: int,
    name: Seq<char>,
)
    requires
        0 <= i < a.project.files.len(),
    ensures
        ({
            let here = 1 <= file_index <= a.project.files.len();
            let before = a.project.files[i].markers;
            let after = b.project.files[i].markers;
            let added = keyboard::ActionModel::AddMarkers { file_index, markers: names };
            let removed = keyboard::ActionModel::RemoveMarkers { file_index, markers: names };
            let set = keyboard::ActionModel::SetMarkers { file_index, markers: names };
            &&& action_handler::handled(a, added, shown, now_ms, b, step) ==> {
                &&& !here ==> b == a
                &&& here && i != file_index - 1 ==> b.project.files[i] == a.project.files[i]
                &&& here && i == file_index - 1 ==> after.contains(name) == (before.contains(name)
                    || names.contains(name))
                &&& here && i == file_index - 1 ==> b.project.files[i].title == (if (exists|k: int|
                    0 <= k < names.len() && a.project.markers.dom().contains(#[trigger] names[k])
                        && a.project.markers[names[k]].section == true && !before.contains(
                        names[k],
                    )) && a.project.files[i].title.len() == 0 {
                    "Title for "@ + text::decimal(file_index as nat)
                } else {
                    a.project.files[i].title
                })
            }
            &&& action_handler::handled(a, removed, shown, now_ms, b, step) ==> {
                &&& !here ==> b == a
                &&& here && i != file_index - 1 ==> b.project.files[i] == a.project.files[i]
                &&& here && i == file_index - 1 ==> after.contains(name) == (before.contains(name)
                    && !names.contains(name))
            }
            &&& action_handler::handled(a, set, shown, now_ms, b, step) ==> {
                &&& !here ==> b == a
                &&& here && i != file_index - 1 ==> b.project.files[i] == a.project.files[i]
                &&& here && i == file_index - 1 ==> after.contains(name) == names.contains(name)
                    && b.project.files[i].title == a.project.files[i].title
            }
        }),
{
    let before = a.project.files[i].markers;
    let after = b.project.files[i].markers;
    before.to_multiset_ensures();
    after.to_multiset_ensures();
    if 1 <= file_index <= a.project.files.len() && i == file_index - 1 {
        if action_handler::handled(
            a,
            keyboard::ActionModel::AddMarkers { file_index, markers: names },
            shown,
            now_ms,
            b,
            step,
        ) {
            markers::adding_puts_in_the_missing_markers(before, names, after, name);
            markers::new_sections_are_missing_markers(before, names, a.project.markers);
        }
        if action_handler::handled(
            a,
            keyboard::ActionModel::RemoveMarkers { file_index, markers: names },
            shown,
            now_ms,
            b,
            step,
        ) {
            markers::removing_takes_the_given_markers(before, names, after, name);
        }
        if action_handler::handled(
            a,
            keyboard::ActionModel::SetMarkers { file_index, markers: names },
            shown,
            now_ms,
            b,
            step,
        ) {
            markers::set_markers_hold_each_name_once(names, after, name);
        }
    }
}

/// The place of a fragment in the list counts from the newest one.
pub proof fn the_list_counts_from_the_newest(a: app::AppModel, place: int)
    requires
        rests_on(a, place),
    ensures
        app::selection(a) == Some((place, a.project.files.len() - 1 - place)),
        indexes::ui_place(a.project.files.len() - 1, a.project.files.len() as int) == 0,
{
}

/// Commands that open something, play or export change nothing of the recorder themselves;
/// what they ask for is what they are named after.
pub proof fn opening_commands_change_nothing(
    a: app::AppModel,
    action: keyboard::ActionModel,
    shown: Option<i32>,
    now_ms: u64,
    b: app::AppModel,
    step: effects::StepModel,
)
    requires
        action_handler::handled(a, action, shown, now_ms, b, step),
    ensures
        action is Play ==> b == a && step == effects::StepModel::Play,
        action is Compile ==> b == a && step == effects::StepModel::Compile,
        action is CompileCancel ==> b == a && step == effects::StepModel::CancelCompile,
        action is OpenMarkerSettings ==> b == a && step == effects::StepModel::OpenMarkerSettings,
        action is OpenShortcutsDialog ==> b == a && step == effects::StepModel::OpenShortcuts,
        action is OpenDeleteChunkDialog ==> b == a && step == effects::StepModel::OpenDelete,
        action matches keyboard::ActionModel::ConfirmDeleteChunk { ui_index } ==> b == a && step
            == (effects::StepModel::ConfirmDelete { ui_index }),
        action matches keyboard::ActionModel::SaveDialog { request_id, edit } ==> b == a && step
            == (effects::StepModel::SaveDialog { request_id, edit }),
        action matches keyboard::ActionModel::Transcribe { file_index } ==> b == a && (
        step matches effects::StepModel::Apply(asked) && if 1 <= file_index
            <= a.project.files.len() {
            asked.len() == 1 && asked[0] == effects::EffectModel::Transcribe(
                (a.project.files.len() - file_index) as usize,
            )
        } else {
            asked.len() == 0
        }),
        action is Nothing ==> b == a && step == effects::StepModel::Apply(Seq::empty()),
{
}

/// Before a take begins, exactly the recordings that are cut off are removed, each where the
/// project has it.
pub proof fn cut_recordings_are_removed(
    project_path: Seq<char>,
    removed: Seq<Seq<char>>,
    stored: Seq<char>,
    path: Seq<char>,
)
    ensures
        recording::ready_effects(project_path, removed).contains(
            effects::EffectModel::RemoveOverwritten { stored, path },
        ) == (removed.contains(stored) && path == crate::utils::paths::joined(
            app::project_dir(project_path),
            stored,
        )),
        recording::ready_effects(project_path, removed)[0] == effects::EffectModel::ClearGraphs,
        recording::ready_effects(project_path, removed).len() == removed.len() + 1,
{
    let all = recording::ready_effects(project_path, removed);
    let wanted = effects::EffectModel::RemoveOverwritten { stored, path };
    if removed.contains(stored) {
        let k = choose|k: int| 0 <= k < removed.len() && removed[k] == stored;
        assert(all[k + 1] == (effects::EffectModel::RemoveOverwritten {
            stored,
            path: crate::utils::paths::joined(app::project_dir(project_path), stored),
        }));
    }
    if all.contains(wanted) {
        let k = choose|k: int| 0 <= k < all.len() && all[k] == wanted;
        assert(k > 0);
        assert(all[k] == (effects::EffectModel::RemoveOverwritten {
            stored: removed[k - 1],
            path: crate::utils::paths::joined(app::project_dir(project_path), removed[k - 1]),
        }));
    }
}

/// The window's copy is made for the selected fragment, or the newest one, for what plays or
/// is recorded, and for how much was recorded.
pub proof fn copies_are_made_for_the_selection(a: app::AppModel, c: usize)
    requires
        0 < a.project.files.len() <= usize::MAX,
        a.project.stats.record_length <= u64::MAX,
    ensures
        ({
            let key = app::update_key(a);
            &&& a.current_index == Some(c) ==> key.current_index == Some(c)
            &&& a.current_index is None ==> key.current_index == Some(
                (a.project.files.len() - 1) as usize,
            )
            &&& key.total_files == a.project.files.len()
            &&& key.recording_mode == a.recording_mode
            &&& a.state matches app::AppStateModel::Playing { current_index, .. }
                ==> key.playing_index == Some(current_index) && key.recording_started is None
            &&& a.state matches app::AppStateModel::Recording { start_ms, .. }
                ==> key.recording_started == Some(start_ms) && key.playing_index is None
            &&& a.state is Idle ==> key.playing_index is None && key.recording_started is None
            &&& key.record_length_ms == a.project.stats.record_length
        }),
{
}

} // verus!
