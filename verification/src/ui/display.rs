//! What the window shows of a project.
use crate::app::app::RecordingMode;
use crate::project::markers;
use crate::project::metadata;
use crate::project::project;
use crate::ui::snapshot;
use crate::ui::status;
use crate::ui::ui;
use crate::ui::updater;
use crate::ui::updater::UiUpdateKey;
use crate::utils::stats;
use crate::utils::text;
use vstd::prelude::*;

verus! {

/// Whether a row shows a fragment with its number.
pub open spec fn shows_fragment(
    row: ui::FileInfoModel,
    files: Seq<project::ProjectFileModel>,
    i: int,
    number: int,
) -> bool {
    &&& row.index == number
    &&& row.path == files[i].path
    &&& row.title == files[i].title
    &&& row.author == files[i].author
    &&& row.year == files[i].year
    &&& row.hint == files[i].hint
    &&& row.duration == crate::utils::format::clock(files[i].duration_ms / 1000, false)
    &&& row.start_time == crate::utils::format::clock(
        stats::duration_before(files, i) / 1000,
        false,
    )
    &&& row.size == crate::utils::format::size_text(files[i].size)
}

/// The list shows every fragment once, the newest first, with its number counted from the
/// oldest. Only the fragment that plays is marked.
pub proof fn every_fragment_has_its_row(
    files: Seq<project::ProjectFileModel>,
    current: Option<usize>,
    mode: RecordingMode,
    playing: Option<usize>,
    i: int,
)
    requires
        0 <= i < files.len() < i32::MAX,
    ensures
        ({
            let rows = crate::utils::format::reversed_rows(
                snapshot::listed_rows(files, current, mode, None, playing),
            );
            let row = rows[files.len() - 1 - i];
            &&& rows.len() == files.len()
            &&& shows_fragment(row, files, i, i + 1)
            &&& row.is_playing == (playing == Some(i as usize))
            &&& !row.is_recording
        }),
{
}

/// A take that goes behind all fragments stands above them in the list, with the next
/// number.
pub proof fn takes_behind_stand_on_top(
    files: Seq<project::ProjectFileModel>,
    current: Option<usize>,
    path: Seq<char>,
    elapsed_ms: nat,
    playing: Option<usize>,
    i: int,
)
    requires
        0 <= i < files.len() < i32::MAX - 1,
    ensures
        ({
            let n = files.len() as int;
            let rows = crate::utils::format::reversed_rows(
                snapshot::listed_rows(
                    files,
                    current,
                    RecordingMode::Append,
                    Some((path, elapsed_ms)),
                    playing,
                ),
            );
            &&& rows.len() == n + 1
            &&& rows[0].is_recording
            &&& rows[0].path == path
            &&& rows[0].index == n + 1
            &&& rows[0].duration == crate::utils::format::clock(elapsed_ms / 1000, false)
            &&& rows[0].start_time == crate::utils::format::clock(
                stats::duration_before(files, n) / 1000,
                false,
            )
            &&& shows_fragment(rows[n - i], files, i, i + 1)
            &&& !rows[n - i].is_recording
            &&& updater::selected_row(files.len(), current, RecordingMode::Append, true) == 0
        }),
{
}

/// A take that goes in between stands above the selected fragment in the list; the
/// fragments behind it have the next numbers.
pub proof fn takes_in_between_stand_above_the_selected(
    files: Seq<project::ProjectFileModel>,
    c: usize,
    path: Seq<char>,
    elapsed_ms: nat,
    playing: Option<usize>,
    i: int,
)
    requires
        0 <= i < files.len() < i32::MAX - 1,
        c < files.len(),
    ensures
        ({
            let n = files.len() as int;
            let rows = crate::utils::format::reversed_rows(
                snapshot::listed_rows(
                    files,
                    Some(c),
                    RecordingMode::Insert,
                    Some((path, elapsed_ms)),
                    playing,
                ),
            );
            let selected = updater::selected_row(
                files.len(),
                Some(c),
                RecordingMode::Insert,
                true,
            );
            &&& rows.len() == n + 1
            &&& selected == n - 1 - c
            &&& rows[selected as int].is_recording
            &&& rows[selected as int].path == path
            &&& rows[selected as int].index == c + 2
            &&& i <= c ==> shows_fragment(rows[n - i], files, i, i + 1)
            &&& i > c ==> shows_fragment(rows[n - 1 - i], files, i, i + 2)
        }),
{
}

/// A take over a fragment has the row of that fragment, which alone is marked.
pub proof fn takes_over_a_fragment_mark_its_row(
    files: Seq<project::ProjectFileModel>,
    c: usize,
    path: Seq<char>,
    elapsed_ms: nat,
    playing: Option<usize>,
    i: int,
)
    requires
        0 <= i < files.len() < i32::MAX,
        c < files.len(),
    ensures
        ({
            let n = files.len() as int;
            let rows = crate::utils::format::reversed_rows(
                snapshot::listed_rows(
                    files,
                    Some(c),
                    RecordingMode::Update,
                    Some((path, elapsed_ms)),
                    playing,
                ),
            );
            &&& rows.len() == n
            &&& shows_fragment(rows[n - 1 - i], files, i, i + 1)
            &&& rows[n - 1 - i].is_recording == (i == c)
            &&& updater::selected_row(files.len(), Some(c), RecordingMode::Update, true) == n - 1
                - c
        }),
{
}

/// The first fragment starts the book, and each other one starts where the one before it
/// ends. A book is as long, and takes as many bytes, as its fragments together.
pub proof fn fragments_start_where_others_end(files: Seq<project::ProjectFileModel>, i: int)
    requires
        0 <= i < files.len(),
    ensures
        stats::duration_before(files, 0) == 0,
        stats::duration_before(files, i + 1) == stats::duration_before(files, i)
            + files[i].duration_ms,
        stats::size_before(files, 0) == 0,
        stats::size_before(files, i + 1) == stats::size_before(files, i) + files[i].size,
{
}

/// A marker is numbered by how often it stood before in the book: the first time with one,
/// and from then on one more for each time.
pub proof fn markers_are_numbered_through(
    files: Seq<project::ProjectFileModel>,
    i: int,
    name: Seq<char>,
)
    requires
        0 <= i < files.len(),
    ensures
        crate::utils::format::marker_count(files, 0, name) == 0,
        crate::utils::format::marker_count(files, i + 1, name)
            == crate::utils::format::marker_count(files, i, name)
            + files[i].markers.to_multiset().count(name),
        files[i].markers == seq![name] ==> crate::utils::format::numbered_markers(files, i) == name
            + text::decimal(crate::utils::format::marker_count(files, i, name) + 1),
{
    occurrences_are_counted(files[i].markers, name);
    if files[i].markers == seq![name] {
        let shown = files[i].markers.map_values(
            |m: Seq<char>|
                m + text::decimal(crate::utils::format::marker_count(files, i, m) + 1),
        );
        assert(shown.len() == 1);
        assert(shown[0] == name + text::decimal(
            crate::utils::format::marker_count(files, i, name) + 1,
        ));
    }
}

proof fn occurrences_are_counted(names: Seq<Seq<char>>, name: Seq<char>)
    ensures
        crate::utils::format::occurrences(names, name) == names.to_multiset().count(name),
    decreases names.len(),
{
    names.to_multiset_ensures();
    if names.len() > 0 {
        let front = names.drop_last();
        occurrences_are_counted(front, name);
        front.to_multiset_ensures();
        assert(names =~= front.push(names.last()));
        assert(front.push(names.last()).to_multiset() =~= front.to_multiset().insert(
            names.last(),
        ));
    } else {
        assert(!names.contains(name));
    }
}

/// A time is shown as hours, minutes and seconds; hours that are zero are left out unless
/// they are asked for.
pub proof fn clocks_show_the_time(h: nat, m: nat, s: nat)
    requires
        m < 60,
        s < 60,
    ensures
        ({
            let secs = 3600 * h + 60 * m + s;
            let full = text::zero_padded(h, 2) + ":"@ + (text::zero_padded(m, 2) + ":"@
                + text::zero_padded(s, 2));
            &&& crate::utils::format::clock(secs, true) == full
            &&& h > 0 ==> crate::utils::format::clock(secs, false) == full
            &&& h == 0 ==> crate::utils::format::clock(secs, false) == text::zero_padded(m, 2)
                + ":"@ + text::zero_padded(s, 2)
        }),
{
    let secs = 3600 * h + 60 * m + s;
    assert(secs / 3600 == h);
    assert(secs % 3600 == 60 * m + s);
    assert((60 * m + s) / 60 == m);
    assert(secs % 60 == s);
}

/// A whole number of units below the next one is shown as that number.
pub proof fn sizes_show_whole_units(k: nat)
    requires
        k < 1024,
    ensures
        crate::utils::format::size_text(k) == text::decimal(k) + "."@ + text::decimal(0) + " "@
            + "B"@,
        k > 0 ==> crate::utils::format::size_text(k * 1024) == text::decimal(k) + "."@
            + text::decimal(0) + " "@ + "KB"@,
        k > 0 ==> crate::utils::format::size_text(k * 1024 * 1024) == text::decimal(k) + "."@
            + text::decimal(0) + " "@ + "MB"@,
        k > 0 ==> crate::utils::format::size_text(k * 1024 * 1024 * 1024) == text::decimal(k)
            + "."@ + text::decimal(0) + " "@ + "GB"@,
{
    small_numbers_are_significant(k);
    small_numbers_are_significant(k * 1024);
    small_numbers_are_significant(k * 1024 * 1024);
    small_numbers_are_significant(k * 1024 * 1024 * 1024);
    whole_units_are_whole(k, 1);
    whole_units_are_whole(k, 0x400);
    whole_units_are_whole(k, 0x10_0000);
    whole_units_are_whole(k, 0x4000_0000);
    assert(text::decimal(k) + "."@ + text::decimal(0) == crate::utils::format::tenths_shown(
        10 * k,
    ));
    assert(crate::utils::format::size_unit(k) == ("B"@, 1nat));
    if k > 0 {
        assert(crate::utils::format::size_unit(k * 1024) == ("KB"@, 0x400nat));
        assert(crate::utils::format::size_unit(k * 1024 * 1024) == ("MB"@, 0x10_0000nat));
        assert(crate::utils::format::size_unit(k * 1024 * 1024 * 1024) == ("GB"@, 0x4000_0000nat));
    }
}

proof fn whole_units_are_whole(k: nat, scale: nat)
    requires
        scale > 0,
    ensures
        crate::utils::format::half_even(10 * (k * scale), scale) == 10 * k,
{
    let n = 10 * (k * scale);
    assert(n == (10 * k) * scale) by (nonlinear_arith)
        requires
            n == 10 * (k * scale),
    ;
    vstd::arithmetic::div_mod::lemma_fundamental_div_mod_converse(
        n as int,
        scale as int,
        (10 * k) as int,
        0,
    );
}

proof fn small_numbers_are_significant(n: nat)
    requires
        n < 0x20_0000_0000_0000,
    ensures
        crate::utils::format::significant(n) == n,
{
    let d = crate::utils::format::spacing(n);
    let rounded = crate::utils::format::half_even(n, d);
    assert(d == 1);
    assert(n / 1 == n);
    assert(n % 1 == 0);
    assert(rounded == n);
    assert(rounded * d == n) by (nonlinear_arith)
        requires
            rounded == n,
            d == 1,
    ;
}

/// The contents list every fragment that starts a section, and no other one, in the order of
/// the book: `from` names the fragments. Each line has the time at which its fragment
/// starts, and its title, or the name of its file where it has none.
pub proof fn contents_list_the_sections(
    files: Seq<project::ProjectFileModel>,
    known: Map<Seq<char>, project::MarkerSettingsModel>,
    n: int,
) -> (from: Seq<int>)
    requires
        0 <= n <= files.len(),
    ensures
        from.len() == snapshot::section_lines(files, known, n).len(),
        forall|m: int|
            #![trigger from[m]]
            0 <= m < from.len() ==> {
                let f = files[from[m]];
                let line = snapshot::section_lines(files, known, n)[m];
                let time = stats::duration_before(files, from[m]);
                &&& 0 <= from[m] < n
                &&& metadata::opens_section(f, known)
                &&& time <= u64::MAX ==> line == crate::utils::format::clock(time / 1000, true)
                    + "  "@ + (if f.title.len() > 0 {
                    f.title
                } else {
                    snapshot::name_of(f.path)
                })
            },
        forall|a: int, b: int|
            #![trigger from[a], from[b]]
            0 <= a < b < from.len() ==> from[a] < from[b],
        forall|i: int|
            #![trigger files[i]]
            0 <= i < n && metadata::opens_section(files[i], known) ==> from.contains(i),
    decreases n,
{
    if n == 0 {
        Seq::empty()
    } else {
        let before = contents_list_the_sections(files, known, n - 1);
        sections_are_sections(files[n - 1], known);
        if metadata::opens_section(files[n - 1], known) {
            let from = before.push(n - 1);
            assert forall|i: int|
                #![trigger files[i]]
                0 <= i < n && metadata::opens_section(files[i], known) implies from.contains(i) by {
                if i < n - 1 {
                    assert(before.contains(i));
                    assert(from[before.index_of(i)] == i);
                } else {
                    assert(from[before.len() as int] == i);
                }
            }
            from
        } else {
            before
        }
    }
}

proof fn sections_are_sections(
    f: project::ProjectFileModel,
    known: Map<Seq<char>, project::MarkerSettingsModel>,
)
    ensures
        markers::starts_section(f, known) == metadata::opens_section(f, known),
{
    if markers::starts_section(f, known) {
        let j = choose|j: int|
            0 <= j < f.markers.len() && markers::is_section(known, #[trigger] f.markers[j]);
        assert(known.dom().contains(f.markers[j]));
    }
    if metadata::opens_section(f, known) {
        let j = choose|j: int|
            0 <= j < f.markers.len() && known.dom().contains(#[trigger] f.markers[j])
                && known[f.markers[j]].section == true;
        assert(markers::is_section(known, f.markers[j]));
    }
}

/// The newest title of a marker is that of the last fragment with a title that has the
/// marker.
pub proof fn newest_titles_are_the_last(
    files: Seq<project::ProjectFileModel>,
    name: Seq<char>,
    n: int,
    i: int,
)
    requires
        0 <= i < n <= files.len(),
        files[i].title.len() > 0,
        files[i].markers.contains(name),
        forall|k: int|
            i < k < n ==> (#[trigger] files[k]).title.len() == 0 || !files[k].markers.contains(
                name,
            ),
    ensures
        snapshot::freshest_title(files, name, n) == Some(files[i].title),
    decreases n,
{
    if i < n - 1 {
        assert(files[n - 1].title.len() == 0 || !files[n - 1].markers.contains(name));
        newest_titles_are_the_last(files, name, n - 1, i);
    }
}

/// The hints that are shown are those of the selected fragment and of the one before it;
/// short ones are shown whole.
pub proof fn hints_belong_to_the_selected(
    s: ui::UIStateModel,
    files: Seq<project::ProjectFileModel>,
    c: usize,
)
    requires
        c < files.len(),
    ensures
        ({
            let t = status::with_hints(s, files, Some(c));
            &&& files[c as int].hint.len() <= 100 ==> t.hintbox_current_start == files[c as int].hint
                && t.hintbox_current_end.len() == 0
            &&& files[c as int].hint.len() > 100 ==> {
                &&& t.hintbox_current_start == files[c as int].hint.take(
                    t.hintbox_current_start.len() as int,
                )
                &&& t.hintbox_current_end == files[c as int].hint.skip(
                    files[c as int].hint.len() - t.hintbox_current_end.len(),
                )
                &&& t.hintbox_current_start.len() + 5 + t.hintbox_current_end.len() == 100
            }
            &&& c == 0 ==> t.hintbox_prev.len() == 0
            &&& c > 0 && files[c - 1].hint.len() <= 100 ==> t.hintbox_prev == files[c - 1].hint
            &&& t.file_list == s.file_list
            &&& t.current_file_index == s.current_file_index
        }),
{
    crate::utils::format::truncation_keeps_both_ends(files[c as int].hint, 100);
    if c > 0 {
        crate::utils::format::truncation_keeps_both_ends(files[c - 1].hint, 100);
    }
}

/// A fragment is selected in its row, and counted from the oldest.
pub proof fn the_selected_row_is_counted(
    s: ui::UIStateModel,
    files: Seq<project::ProjectFileModel>,
    key: UiUpdateKey,
    c: usize,
)
    requires
        key.current_index == Some(c),
        key.total_files == files.len(),
        c < files.len() < i32::MAX,
    ensures
        ({
            let t = status::with_selection(s, files, key);
            &&& t.current_file_index == files.len() - 1 - c
            &&& t.current_file_name == snapshot::name_of(files[c as int].path)
            &&& t.total_files == text::decimal((c + 1) as nat) + "/"@ + text::decimal(files.len())
            &&& t.file_list == s.file_list
            &&& snapshot::selected_number(files.len(), t.current_file_index) == c + 1
        }),
{
}

/// When playing moves on, the fragment that plays is marked in its row, the one that played
/// is not, and every other row stays as it is.
pub proof fn the_playing_mark_moves(
    s: ui::UIStateModel,
    from: usize,
    to: usize,
    i: int,
)
    requires
        from < s.file_list.len() < i32::MAX,
        to < s.file_list.len(),
        from != to,
        0 <= i < s.file_list.len(),
    ensures
        ({
            let t = status::with_playing_moved(s, Some(from), Some(to));
            let n = s.file_list.len() as int;
            &&& t.file_list.len() == n
            &&& t.file_list[n - 1 - to].is_playing
            &&& !t.file_list[n - 1 - from].is_playing
            &&& i != n - 1 - to && i != n - 1 - from ==> t.file_list[i] == s.file_list[i]
            &&& t.file_list[i].path == s.file_list[i].path
        }),
{
}

/// A copy is made anew when the number of fragments, the mode, the take or the recorded time
/// changed, and while recording when the selection moved. Else it is not.
pub proof fn copies_are_made_anew_when_the_project_changed(previous: UiUpdateKey, key: UiUpdateKey)
    ensures
        previous.total_files != key.total_files ==> updater::structure_differs(previous, key),
        previous.recording_mode != key.recording_mode ==> updater::structure_differs(
            previous,
            key,
        ),
        previous.recording_started != key.recording_started ==> updater::structure_differs(
            previous,
            key,
        ),
        previous.record_length_ms != key.record_length_ms ==> updater::structure_differs(
            previous,
            key,
        ),
        key.recording_started is Some && previous.current_index != key.current_index
            ==> updater::structure_differs(previous, key),
        key.recording_started is None && key == (UiUpdateKey {
            current_index: key.current_index,
            playing_index: key.playing_index,
            ..previous
        }) ==> !updater::structure_differs(previous, key),
        previous.playing_index != key.playing_index ==> updater::navigation_differs(previous, key),
        previous.current_index != key.current_index ==> updater::navigation_differs(previous, key),
{
}

/// The line of section titles has one title for each marker that starts a section and has
/// a titled fragment: `from` names the fragment and the marker of each. It is the newest
/// title of that marker, behind the number of the fragment among those with the marker.
pub proof fn section_titles_are_the_newest(
    files: Seq<project::ProjectFileModel>,
    known: Map<Seq<char>, project::MarkerSettingsModel>,
    i: int,
    k: int,
) -> (from: Seq<(int, int)>)
    requires
        0 <= i <= files.len(),
        0 <= k,
        i < files.len() ==> k <= files[i].markers.len(),
        i == files.len() ==> k == 0,
    ensures
        from.len() == snapshot::titles_upto(files, known, i, k).1.len(),
        forall|m: int|
            #![trigger from[m]]
            0 <= m < from.len() ==> {
                let (a, b) = from[m];
                let name = files[a].markers[b];
                &&& 0 <= a < files.len()
                &&& a < i || (a == i && b < k)
                &&& 0 <= b < files[a].markers.len()
                &&& known.dom().contains(name)
                &&& known[name].section == true
                &&& files[a].title.len() > 0
                &&& snapshot::freshest_title(files, name, files.len() as int) == Some(
                    files[a].title,
                )
                &&& snapshot::titles_upto(files, known, i, k).1[m] == text::decimal(
                    snapshot::titled_count(files, a, name) + 1,
                ) + ": "@ + files[a].title
                &&& snapshot::titles_upto(files, known, i, k).0.contains(name)
            },
        forall|m: int, n: int|
            #![trigger from[m], from[n]]
            0 <= m < n < from.len() ==> files[from[m].0].markers[from[m].1]
                != files[from[n].0].markers[from[n].1],
        forall|a: int, b: int|
            #![trigger files[a].markers[b]]
            0 <= a < files.len() && 0 <= b < files[a].markers.len() && (a < i || (a == i && b < k))
                && known.dom().contains(files[a].markers[b]) && known[files[a].markers[b]].section
                == true && files[a].title.len() > 0 && snapshot::freshest_title(
                files,
                files[a].markers[b],
                files.len() as int,
            ) == Some(files[a].title) ==> snapshot::titles_upto(files, known, i, k).0.contains(
                files[a].markers[b],
            ),
    decreases i, k,
{
    if k > 0 {
        let before = section_titles_are_the_newest(files, known, i, k - 1);
        let (done, lines) = snapshot::titles_upto(files, known, i, k - 1);
        let name = files[i].markers[k - 1];
        if files[i].title.len() > 0 && known.dom().contains(name) && known[name].section
            && !done.contains(name) && snapshot::freshest_title(files, name, files.len() as int)
            == Some(files[i].title) {
            let from = before.push((i, k - 1));
            assert forall|m: int| #![trigger from[m]] 0 <= m < from.len() implies {
                let (a, b) = from[m];
                let name = files[a].markers[b];
                &&& 0 <= a < files.len()
                &&& a < i || (a == i && b < k)
                &&& 0 <= b < files[a].markers.len()
                &&& known.dom().contains(name)
                &&& known[name].section == true
                &&& files[a].title.len() > 0
                &&& snapshot::freshest_title(files, name, files.len() as int) == Some(
                    files[a].title,
                )
                &&& snapshot::titles_upto(files, known, i, k).1[m] == text::decimal(
                    snapshot::titled_count(files, a, name) + 1,
                ) + ": "@ + files[a].title
                &&& snapshot::titles_upto(files, known, i, k).0.contains(name)
            } by {
                if m < before.len() {
                    assert(from[m] == before[m]);
                }
            }
            assert forall|m: int, n: int|
                #![trigger from[m], from[n]]
                0 <= m < n < from.len() implies files[from[m].0].markers[from[m].1]
                != files[from[n].0].markers[from[n].1] by {
                assert(from[m] == before[m]);
                if n < before.len() {
                    assert(from[n] == before[n]);
                }
            }
            from
        } else {
            before
        }
    } else if i > 0 {
        section_titles_are_the_newest(files, known, i - 1, files[i - 1].markers.len() as int)
    } else {
        Seq::empty()
    }
}

/// The status line shows the totals of the book: how long its fragments are together, how
/// many bytes they take, and how many that is with the free space.
pub proof fn status_lines_show_the_totals(
    s: ui::UIStateModel,
    files: Seq<project::ProjectFileModel>,
    c: usize,
    free_space: nat,
    mode: RecordingMode,
)
    requires
        c < files.len(),
    ensures
        ({
            let t = status::with_status_line(s, files, Some(c), 0, None, free_space, mode);
            let n = files.len() as int;
            let size = stats::size_before(files, n);
            &&& t.current_file_name == snapshot::name_of(files[c as int].path)
            &&& t.total_duration == crate::utils::format::clock(
                stats::duration_before(files, n) / 1000,
                false,
            )
            &&& t.total_size == crate::utils::format::size_text(size) + " / "@
                + crate::utils::format::size_text(size + free_space)
            &&& !t.is_recording
            &&& mode == RecordingMode::Append ==> t.recording_mode == "A"@
            &&& mode == RecordingMode::Update ==> t.recording_mode == "U"@
            &&& mode == RecordingMode::Insert ==> t.recording_mode == "I"@
            &&& t.file_list == s.file_list
        }),
{
}

/// While a take runs, or once something was recorded, the time at the microphone stands
/// behind the length of the book.
pub proof fn lengths_show_the_time_at_the_microphone(total_ms: nat, recorded: nat, elapsed: nat)
    ensures
        snapshot::length_shown(total_ms, recorded, Some(elapsed)) == crate::utils::format::clock(
            total_ms / 1000,
            false,
        ) + " / "@ + crate::utils::format::clock((recorded + elapsed) / 1000, false),
        recorded > 0 ==> snapshot::length_shown(total_ms, recorded, None)
            == crate::utils::format::clock(total_ms / 1000, false) + " / "@
            + crate::utils::format::clock(recorded / 1000, false),
        snapshot::length_shown(total_ms, 0, None) == crate::utils::format::clock(
            total_ms / 1000,
            false,
        ),
{
}

/// Behind the sections the contents have a block for each marker, with a line for each time
/// that the marker stands in the book, in its order.
pub proof fn contents_list_every_marker(
    files: Seq<project::ProjectFileModel>,
    names: Seq<Seq<char>>,
    k: int,
    i: int,
)
    requires
        0 <= k < names.len(),
        0 <= i < files.len(),
    ensures
        ({
            let name = names[k];
            let line = snapshot::contents_line(files, i) + "\n"@;
            let before = snapshot::marker_lines(files, name, i);
            let after = snapshot::marker_lines(files, name, i + 1);
            &&& snapshot::marker_blocks(files, names, k + 1) == snapshot::marker_blocks(
                files,
                names,
                k,
            ) + "\n\n\n"@ + name + "\n"@ + snapshot::marker_lines(
                files,
                name,
                files.len() as int,
            )
            &&& !files[i].markers.contains(name) ==> after == before
            &&& files[i].markers.to_multiset().count(name) == 1 ==> after == before + line
            &&& snapshot::used_markers(files, files.len() as int).contains(name)
                == exists|j: int|
                0 <= j < files.len() && (#[trigger] files[j]).markers.contains(name)
        }),
{
    let name = names[k];
    let line = snapshot::contents_line(files, i) + "\n"@;
    occurrences_are_counted(files[i].markers, name);
    files[i].markers.to_multiset_ensures();
    let times = crate::utils::format::occurrences(files[i].markers, name);
    let before = snapshot::marker_lines(files, name, i);
    let after = snapshot::marker_lines(files, name, i + 1);
    assert(after == before + snapshot::repeated(line, times));
    if times == 0 {
        assert(snapshot::repeated(line, 0) =~= Seq::empty());
        assert(after =~= before);
    }
    if times == 1 {
        assert(snapshot::repeated(line, 0) =~= Seq::empty());
        assert(snapshot::repeated(line, 1) =~= line);
    }
}

/// While a take runs, its row and the time at the microphone are brought up to date once
/// a second; the size is brought up to date when the free space is known.
pub proof fn running_takes_are_shown_by_the_second(
    cache: updater::UiUpdateCache,
    key: UiUpdateKey,
    now_ms: u64,
    started: u64,
    free: u64,
)
    requires
        key.recording_started == Some(started),
        now_ms >= started,
        cache.totals().1 + free <= u64::MAX,
    ensures
        ({
            let elapsed = (now_ms - started) as u64;
            let l = updater::live(cache, key, now_ms, Some(free));
            let quiet = updater::live(cache, key, now_ms, None);
            &&& cache.shown_second() == Some(elapsed / 1000) ==> quiet.row_elapsed_ms is None
                && quiet.total_duration is None
            &&& cache.shown_second() != Some(elapsed / 1000) ==> l.row_elapsed_ms == Some(elapsed)
                && l.total_duration == Some(
                crate::utils::format::clock(cache.totals().0 as nat / 1000, false) + " / "@
                    + crate::utils::format::clock(
                    (key.record_length_ms as nat + elapsed as nat) / 1000,
                    false,
                ),
            )
            &&& l.total_size == Some(
                crate::utils::format::size_text(cache.totals().1 as nat) + " / "@
                    + crate::utils::format::size_text((cache.totals().1 + free) as nat),
            )
            &&& quiet.total_size is None
            &&& !l.idle
        }),
{
}

/// Whichever way the list is brought up to date, the same row is selected.
pub proof fn the_same_row_is_selected_either_way(
    total: nat,
    current: Option<usize>,
    mode: RecordingMode,
    recording: bool,
)
    requires
        total < i32::MAX,
        current matches Some(i) ==> i < total,
    ensures
        status::listed_selection(total as int, current, mode, recording) == updater::selected_row(
            total,
            current,
            mode,
            recording,
        ),
{
}

/// The selection is shown in the row of its fragment; while recording it is the first row.
pub proof fn the_selection_is_shown_in_its_row(
    a: crate::app::app::AppModel,
    s: ui::UIStateModel,
    c: usize,
)
    requires
        a.current_index == Some(c),
        c < a.project.files.len() < i32::MAX,
    ensures
        ({
            let t = status::selection_shown(a, s);
            &&& !(a.state is Recording) ==> t.current_file_index == a.project.files.len() - 1 - c
            &&& a.state is Recording ==> t.current_file_index == 0
            &&& t.file_list == s.file_list
            &&& a.project.files[c as int].hint.len() <= 100 ==> t.hintbox_current_start
                == a.project.files[c as int].hint
        }),
{
    crate::utils::format::truncation_keeps_both_ends(a.project.files[c as int].hint, 100);
}

/// The time of a running take is set in its own row and in no other one, and nothing else of
/// a row changes.
pub proof fn times_are_set_in_the_row_of_the_take(
    rows: Seq<ui::FileInfoModel>,
    i: int,
    ms: u64,
    j: int,
)
    requires
        0 <= j < rows.len(),
    ensures
        ({
            let t = status::with_row_time(rows, i, ms);
            &&& t.len() == rows.len()
            &&& j != i || !rows[j].is_recording ==> t[j] == rows[j]
            &&& j == i && rows[j].is_recording ==> t[j].duration == crate::utils::format::clock(
                ms as nat / 1000,
                false,
            )
            &&& t[j].path == rows[j].path
            &&& t[j].index == rows[j].index
            &&& t[j].title == rows[j].title
        }),
{
}

} // verus!
