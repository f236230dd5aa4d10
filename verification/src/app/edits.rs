//! What dialogs change and what they keep.
use crate::app::app;
use crate::app::dialog_handler;
use crate::app::effects;
use crate::app::playback;
use crate::project::dialog_edit;
use crate::project::project;
use crate::ui::ui;
use crate::utils::paths;
use crate::utils::text;
use vstd::prelude::*;

verus! {

/// The book form changes what is said of the book and how it is exported, each to what the
/// form has, and the form that is opened next shows just that. Nothing else changes.
pub proof fn book_form_is_taken_over(
    p: project::ProjectModel,
    data: project::MetaDataModel,
    state: ui::UIStateModel,
)
    ensures
        ({
            let q = dialog_edit::with_meta(p, data);
            let shown = dialog_handler::with_book(state, q);
            &&& q.meta.title == data.title && shown.dialog_project_title == data.title
            &&& q.meta.author == data.author && shown.dialog_project_author == data.author
            &&& q.meta.year == data.year && shown.dialog_project_year == data.year
            &&& q.meta.hint == data.hint && shown.dialog_project_hint == data.hint
            &&& q.meta.reader == data.reader && shown.dialog_project_reader == data.reader
            &&& q.settings.format_audio == data.format_audio && shown.dialog_project_format_audio
                == data.format_audio
            &&& q.settings.normalize == data.normalize && shown.dialog_project_normalize
                == data.normalize
            &&& q.settings.cover == data.cover && shown.dialog_project_cover == data.cover
            &&& q.settings.section_split == data.section_split
                && shown.dialog_project_section_split == data.section_split
            &&& q.settings.denoise == data.denoise && shown.dialog_project_denoise == data.denoise
            &&& q.settings == (project::SettingsModel {
                format_audio: data.format_audio,
                normalize: data.normalize,
                cover: data.cover,
                section_split: data.section_split,
                denoise: data.denoise,
                ..p.settings
            })
            &&& q.files == p.files
            &&& q.next_chunk_number == p.next_chunk_number
            &&& q.stats == p.stats
            &&& q.markers == p.markers
        }),
{
}

/// The recording form changes the words of one fragment to those of the form. The fragment
/// keeps its recording and its markers, and every other fragment stays as it is.
pub proof fn recording_form_changes_one_fragment(
    p: project::ProjectModel,
    i: int,
    data: project::ChunkSettingsDataModel,
    j: int,
)
    requires
        0 <= i < p.files.len(),
        0 <= j < p.files.len(),
    ensures
        ({
            let q = dialog_edit::with_chunk(p, i, data);
            &&& q.files.len() == p.files.len()
            &&& q.files[i].title == data.title
            &&& q.files[i].author == data.author
            &&& q.files[i].year == data.year
            &&& q.files[i].hint == data.hint
            &&& q.files[i].path == p.files[i].path
            &&& q.files[i].markers == p.files[i].markers
            &&& q.files[i].size == p.files[i].size
            &&& q.files[i].duration_ms == p.files[i].duration_ms
            &&& j != i ==> q.files[j] == p.files[j]
            &&& q.meta == p.meta
            &&& q.settings == p.settings
            &&& q.next_chunk_number == p.next_chunk_number
            &&& q.stats == p.stats
            &&& q.markers == p.markers
        }),
{
}

/// The recording form is refused exactly if the list has no longer the recording in its
/// place that the form was opened for.
pub proof fn stale_forms_are_refused(
    p: project::ProjectModel,
    i: int,
    expected_path: Seq<char>,
)
    requires
        0 <= i < p.files.len(),
    ensures
        (dialog_edit::stale_selection(p, p.files.len() - 1 - i, expected_path) is None) == (
        p.files[i].path == expected_path),
        dialog_edit::stale_selection(p, p.files.len() as int, expected_path) is Some,
        dialog_edit::stale_selection(p, -1, expected_path) is Some,
{
}

/// A marker form that is accepted becomes the marker of its name: what stands on the form is
/// taken over, the sound of the begin as the begin and the sound of the end as the end, and
/// what the form does not have stays as it was. Every other marker stays.
pub proof fn marker_form_is_taken_over(
    existing: Map<Seq<char>, project::MarkerSettingsModel>,
    form: project::MarkerSettingsDataModel,
    markers: Map<Seq<char>, project::MarkerSettingsModel>,
    other: Seq<char>,
)
    requires
        dialog_edit::accepted(existing, seq![form]) == Ok::<_, dialog_edit::FieldErrorModel>(
            markers,
        ),
    ensures
        ({
            let name = text::trimmed(form.marker);
            let m = markers[name];
            &&& name.len() > 0
            &&& markers.dom().contains(name)
            &&& m.title == form.title
            &&& m.hint == form.hint
            &&& m.section == form.section
            &&& m.assets.begin.audio == form.begin_audio
            &&& m.assets.begin.kind == text::trimmed(form.begin_kind)
            &&& m.assets.begin.kind == "add"@ || m.assets.begin.kind == "underlay"@
            &&& m.assets.end.audio == form.end_audio
            &&& m.assets.end.kind == text::trimmed(form.end_kind)
            &&& m.assets.end.kind == "add"@ || m.assets.end.kind == "underlay"@
            &&& text::trimmed(form.shortcut).len() == 0 ==> m.shortcut is None
            &&& text::trimmed(form.shortcut).len() > 0 ==> m.shortcut == Some(
                text::trimmed(form.shortcut),
            )
            &&& text::trimmed(form.begin_reduction).len() == 0 ==> m.assets.begin.reduction is None
            &&& text::trimmed(form.end_reduction).len() == 0 ==> m.assets.end.reduction is None
            &&& m.assets.begin.reduction matches Some(n) ==> text::unsigned(
                text::trimmed(form.begin_reduction),
            ) == Some(n as nat) && n <= 100
            &&& m.assets.end.reduction matches Some(n) ==> text::unsigned(
                text::trimmed(form.end_reduction),
            ) == Some(n as nat) && n <= 100
            &&& text::trimmed(form.begin_repeat).len() == 0 ==> m.assets.begin.repeat == Some(1i32)
            &&& text::trimmed(form.end_repeat).len() == 0 ==> m.assets.end.repeat == Some(1i32)
            &&& text::trimmed(form.begin_repeat).len() > 0 ==> (
            m.assets.begin.repeat matches Some(n) && text::signed(text::trimmed(form.begin_repeat))
                == Some(n as int))
            &&& text::trimmed(form.end_repeat).len() > 0 ==> (m.assets.end.repeat matches Some(n)
                && text::signed(text::trimmed(form.end_repeat)) == Some(n as int))
            &&& existing.dom().contains(name) ==> m.author == existing[name].author && m.year
                == existing[name].year
            &&& !existing.dom().contains(name) ==> m.author.len() == 0 && m.year.len() == 0
            &&& other != name ==> markers.dom().contains(other) == existing.dom().contains(other)
            &&& other != name && existing.dom().contains(other) ==> markers[other]
                == existing[other]
        }),
{
    let forms = seq![form];
    assert(forms.drop_last() =~= Seq::empty());
    assert(dialog_edit::merged(existing, forms.drop_last()) == Ok::<
        Map<Seq<char>, project::MarkerSettingsModel>,
        dialog_edit::FieldErrorModel,
    >(existing));
    assert(forms.last() == form);
}

/// Deleting takes one fragment away and leaves the others in their order; nothing else of
/// the project changes. The fragment before it is selected if it was, the first one if
/// there was none before it, and none if none is left. Its recording is removed, and no
/// other one.
pub proof fn deleting_takes_one_fragment(a: app::AppModel, i: int, j: int, path: Seq<char>)
    requires
        0 <= i < a.project.files.len() <= usize::MAX,
        0 <= j < a.project.files.len() - 1,
    ensures
        ({
            let b = dialog_handler::after_delete(a, i);
            let asked = dialog_handler::delete_effects(a, i);
            &&& b.project.files.len() == a.project.files.len() - 1
            &&& j < i ==> b.project.files[j] == a.project.files[j]
            &&& j >= i ==> b.project.files[j] == a.project.files[j + 1]
            &&& b.project.meta == a.project.meta
            &&& b.project.settings == a.project.settings
            &&& b.project.next_chunk_number == a.project.next_chunk_number
            &&& b.project.stats == a.project.stats
            &&& b.project.markers == a.project.markers
            &&& !(b.state is Playing)
            &&& asked.contains(effects::EffectModel::RemoveRecording(path)) == (path
                == paths::joined(app::project_dir(a.project_path), a.project.files[i].path))
        }),
{
    let asked = dialog_handler::delete_effects(a, i);
    let full = paths::joined(app::project_dir(a.project_path), a.project.files[i].path);
    assert(asked[0] == effects::EffectModel::RemoveRecording(full));
    if asked.contains(effects::EffectModel::RemoveRecording(path)) {
        let k = choose|k: int|
            0 <= k < asked.len() && asked[k] == effects::EffectModel::RemoveRecording(path);
        let stopped = playback::stop_playback_effects(a);
        if 1 <= k < 1 + stopped.len() {
            assert(asked[k] == stopped[k - 1]);
        }
    }
}

/// Deleting the selected fragment selects the one before it, or the first one that is left.
pub proof fn deleting_selects_the_fragment_before(a: app::AppModel, i: usize)
    requires
        a.state is Idle,
        a.current_index == Some(i),
        i < a.project.files.len(),
    ensures
        i > 0 ==> dialog_handler::after_delete(a, i as int).current_index == Some((i - 1) as usize),
        i == 0 && a.project.files.len() > 1 ==> dialog_handler::after_delete(
            a,
            i as int,
        ).current_index == Some(0usize),
        i == 0 && a.project.files.len() == 1 ==> dialog_handler::after_delete(
            a,
            i as int,
        ).current_index is None,
{
}

/// A failed save holds exactly if what is stored turns out to be what should have been
/// stored; a save that did not fail holds without a warning.
pub proof fn failed_saves_hold_if_they_are_stored(
    path: Seq<char>,
    error: Seq<char>,
    comparison: Result<bool, Seq<char>>,
)
    ensures
        (dialog_edit::comparison_verdict(path, error, comparison) is Ok) == (comparison == Ok::<
            bool,
            Seq<char>,
        >(true)),
        comparison == Ok::<bool, Seq<char>>(true) ==> dialog_edit::comparison_verdict(
            path,
            error,
            comparison,
        )->Ok_0 is Some,
        comparison == Ok::<bool, Seq<char>>(false) ==> dialog_edit::comparison_verdict(
            path,
            error,
            comparison,
        ) == Err::<Option<Seq<char>>, Seq<char>>(error),
        dialog_edit::settled(path, dialog_edit::SaveReport::Saved) == Ok::<
            Option<Seq<char>>,
            Seq<char>,
        >(None),
{
}

/// Measuring recordings changes sizes and lengths alone: the size to what was found where
/// something was found, and the length to that with the sounds of the markers.
pub proof fn measuring_changes_sizes_and_lengths(
    p: project::ProjectModel,
    measured: Seq<Option<(u64, u64)>>,
    lengths: Map<Seq<char>, u64>,
    divisor: nat,
    i: int,
)
    requires
        0 <= i < p.files.len(),
        measured.len() == p.files.len(),
        divisor > 0,
    ensures
        ({
            let q = dialog_handler::with_measurements(p, measured, lengths, divisor);
            &&& q.files.len() == p.files.len()
            &&& q.files[i].path == p.files[i].path
            &&& q.files[i].title == p.files[i].title
            &&& q.files[i].author == p.files[i].author
            &&& q.files[i].year == p.files[i].year
            &&& q.files[i].hint == p.files[i].hint
            &&& q.files[i].markers == p.files[i].markers
            &&& measured[i] matches Some((size, ms)) ==> q.files[i].size == size && (
            p.files[i].markers.len() == 0 ==> q.files[i].duration_ms == ms)
            &&& measured[i] is None ==> q.files[i].size == p.files[i].size && (
            p.files[i].markers.len() == 0 ==> q.files[i].duration_ms == p.files[i].duration_ms)
            &&& q.meta == p.meta
            &&& q.settings == p.settings
            &&& q.markers == p.markers
            &&& q.stats == p.stats
            &&& q.next_chunk_number == p.next_chunk_number
        }),
{
    crate::project::markers::fragments_last_with_their_sounds(
        project::measured_file(p.files[i], measured, i),
        p.markers,
        lengths,
        divisor,
        Seq::empty(),
    );
}

/// The book form that was opened and saved unchanged leaves the project as it was.
pub proof fn unchanged_book_forms_change_nothing(p: project::ProjectModel, state: ui::UIStateModel)
    ensures
        dialog_edit::with_meta(
            p,
            crate::ui::window::book_shown(dialog_handler::with_book(state, p)),
        ) == p,
{
}

/// The recording form that was opened on a row of the list and saved unchanged leaves the
/// project as it was.
pub proof fn unchanged_recording_forms_change_nothing(
    p: project::ProjectModel,
    current: Option<usize>,
    mode: app::RecordingMode,
    playing: Option<usize>,
    ui_index: i32,
)
    requires
        0 <= ui_index < p.files.len() < i32::MAX,
    ensures
        ({
            let row = crate::utils::format::reversed_rows(
                crate::ui::snapshot::listed_rows(p.files, current, mode, None, playing),
            )[ui_index as int];
            let data = project::ChunkSettingsDataModel {
                ui_index: ui_index as int,
                title: row.title,
                author: row.author,
                year: row.year,
                hint: row.hint,
            };
            &&& dialog_edit::stale_selection(p, ui_index as int, row.path) is None
            &&& dialog_edit::with_chunk(p, p.files.len() - 1 - ui_index, data) == p
        }),
{
    let i = p.files.len() - 1 - ui_index;
    let row = crate::utils::format::reversed_rows(
        crate::ui::snapshot::listed_rows(p.files, current, mode, None, playing),
    )[ui_index as int];
    let data = project::ChunkSettingsDataModel {
        ui_index: ui_index as int,
        title: row.title,
        author: row.author,
        year: row.year,
        hint: row.hint,
    };
    assert(row.path == p.files[i].path);
    assert(dialog_edit::with_chunk(p, i, data).files =~= p.files);
}

/// A take ends by itself once it has lasted as long as was asked for, and not before; one
/// without a length does not end by itself.
pub proof fn takes_end_when_they_are_long_enough(
    writer_path: Seq<char>,
    start_ms: u64,
    seconds: u64,
    now_ms: u64,
)
    requires
        now_ms >= start_ms,
    ensures
        app::take_is_over(
            app::AppStateModel::Recording { writer_path, start_ms, duration_secs: Some(seconds) },
            now_ms,
        ) == (now_ms - start_ms >= 1000 * seconds),
        !app::take_is_over(
            app::AppStateModel::Recording { writer_path, start_ms, duration_secs: None },
            now_ms,
        ),
        !app::take_is_over(app::AppStateModel::Idle, now_ms),
{
}

/// The graph beside a take, or beside the selected fragment, is that of the fragment before
/// the place of either.
pub proof fn graphs_show_the_fragment_before(a: app::AppModel, i: usize)
    ensures
        a.state is Recording && a.recording_mode == app::RecordingMode::Append
            ==> crate::app::graphs::place_after_previous(a) == a.project.files.len(),
        a.state is Recording && a.recording_mode == app::RecordingMode::Update
            && a.update_recording_index == Some(i) ==> crate::app::graphs::place_after_previous(a)
            == i,
        a.state is Recording && a.recording_mode == app::RecordingMode::Insert
            && a.insert_recording_index == Some(i) ==> crate::app::graphs::place_after_previous(a)
            == i,
        !(a.state is Recording) && a.current_index == Some(i)
            ==> crate::app::graphs::place_after_previous(a) == i
            && crate::app::graphs::shown_place(a) == i,
        !(a.state is Recording) && a.current_index is None && a.project.files.len() > 0
            ==> crate::app::graphs::place_after_previous(a) == a.project.files.len() - 1,
{
}

/// The graph of a running take keeps its newest levels, in their order.
pub proof fn graphs_keep_the_newest_levels<T>(v: Seq<T>, limit: int, k: int)
    requires
        0 < limit,
        0 <= k < crate::app::run::newest(v, limit).len(),
    ensures
        crate::app::run::newest(v, limit).len() == vstd::math::min(v.len() as int, limit),
        crate::app::run::newest(v, limit)[k] == v[v.len() - crate::app::run::newest(
            v,
            limit,
        ).len() + k],
        crate::app::run::newest(v, limit).last() == v.last(),
{
}

/// The words of a long recording are those of its start and of its end, without white space
/// around them; where one of them is silent, they are those of the other.
pub proof fn words_come_from_both_ends(first: Seq<char>, last: Seq<char>)
    ensures
        ({
            let a = text::trimmed(first);
            let b = text::trimmed(last);
            let heard = crate::utils::transcription::both_ends(first, last);
            &&& a.len() == 0 ==> heard == b
            &&& b.len() == 0 ==> heard == a
            &&& a.len() > 0 && b.len() > 0 ==> heard.take(a.len() as int) == a && heard.skip(
                heard.len() - b.len(),
            ) == b && heard.subrange(a.len() as int, heard.len() - b.len()) == "[...]"@
        }),
{
    let a = text::trimmed(first);
    let b = text::trimmed(last);
    let heard = crate::utils::transcription::both_ends(first, last);
    if a.len() > 0 && b.len() > 0 {
        assert(heard.take(a.len() as int) =~= a);
        assert(heard.skip(heard.len() - b.len()) =~= b);
        assert(heard.subrange(a.len() as int, heard.len() - b.len()) =~= "[...]"@);
    } else if a.len() == 0 && b.len() == 0 {
        assert(a =~= b);
    }
}

/// Whether the fields of a sound make sense: its kind is known, its reduction is blank or
/// a percentage, and its count is blank or a whole number that the kind allows.
pub open spec fn sensible_sound(kind: Seq<char>, reduction: Seq<char>, repeat: Seq<char>) -> bool {
    let k = text::trimmed(kind);
    let r = text::trimmed(reduction);
    let n = text::trimmed(repeat);
    &&& k == "add"@ || k == "underlay"@
    &&& r.len() == 0 || (text::unsigned(r) matches Some(percent) && percent <= 100)
    &&& n.len() == 0 || (text::signed(n) matches Some(count) && count <= i32::MAX && count >= (
    if k == "add"@ {
        0int
    } else {
        -1
    }))
}

/// A marker form is refused exactly for a reason: it has no name, its key is neither blank
/// nor one digit, or one of its sounds makes no sense.
pub proof fn marker_forms_are_refused_for_a_reason(
    form: project::MarkerSettingsDataModel,
    existing: Option<project::MarkerSettingsModel>,
)
    ensures
        (dialog_edit::form_settings(form, existing) is Ok) == ({
            let key = text::trimmed(form.shortcut);
            &&& text::trimmed(form.marker).len() > 0
            &&& key.len() == 0 || (key.len() == 1 && '0' <= key[0] <= '9')
            &&& sensible_sound(form.begin_kind, form.begin_reduction, form.begin_repeat)
            &&& sensible_sound(form.end_kind, form.end_reduction, form.end_repeat)
        }),
{
    kinds_are_two();
}

proof fn kinds_are_two()
    ensures
        "add"@ != "underlay"@,
{
    reveal_strlit("add");
    reveal_strlit("underlay");
    assert("add"@.len() != "underlay"@.len());
}

/// The window is brought up to date at once when something changed, and else at most twenty
/// times a second, its list at most four times a second.
pub proof fn the_window_is_brought_up_to_date_in_time(a: app::AppModel, last: u64, now_ms: u64)
    requires
        now_ms >= last,
    ensures
        app::copy_is_due(Some(last), now_ms) == (now_ms - last >= 50),
        app::copy_is_due(None, now_ms),
        a.file_list_update_pending ==> app::list_is_due(a, now_ms),
        !a.file_list_update_pending && a.last_file_list_update == Some(last) ==> app::list_is_due(
            a,
            now_ms,
        ) == (now_ms - last >= 250),
        a.last_file_list_update is None ==> app::list_is_due(a, now_ms),
{
}

} // verus!
