//! The window's copy of a project: rows, totals, hints, titles and contents.
use crate::app::app::RecordingMode;
use crate::project::marker_map::MarkerMap;
use crate::project::markers;
use crate::project::project;
use crate::project::project::{Project, ProjectFile};
use crate::ui::ui;
use crate::ui::ui::FileInfo;
use crate::ui::updater;
use crate::utils::paths;
use crate::utils::stats;
use crate::utils::text;
use vstd::hash_map::StringHashMap;
use vstd::prelude::*;

verus! {

/// The longest hint that is shown in full.
pub const HINT_MAX_LEN: usize = 100;

/// The file name of a path, or nothing.
pub open spec fn name_of(path: Seq<char>) -> Seq<char> {
    match paths::file_name_spec(path) {
        Some(name) => name,
        None => Seq::empty(),
    }
}

/// The file name of a path as it is shown.
pub fn shown_name(path: &str) -> (r: String)
    ensures
        r@ == name_of(path@),
{
    match paths::file_name(path) {
        Some(name) => name,
        None => String::new(),
    }
}

/// The row of a fragment, before the list is turned round.
pub open spec fn file_row(
    files: Seq<project::ProjectFileModel>,
    i: int,
    playing: Option<usize>,
    recording: Option<usize>,
) -> ui::FileInfoModel {
    ui::FileInfoModel {
        index: (i + 1) as i32 as int,
        name: name_of(files[i].path),
        path: files[i].path,
        markers: crate::utils::format::numbered_markers(files, i),
        duration: crate::utils::format::clock(files[i].duration_ms / 1000, false),
        start_time: crate::utils::format::clock(stats::duration_before(files, i) / 1000, false),
        size: crate::utils::format::size_text(files[i].size),
        is_recording: recording == Some(i as usize),
        is_playing: playing == Some(i as usize),
        title: files[i].title,
        author: files[i].author,
        year: files[i].year,
        hint: files[i].hint,
    }
}

/// The rows of all fragments, oldest first.
pub open spec fn file_rows(
    files: Seq<project::ProjectFileModel>,
    playing: Option<usize>,
    recording: Option<usize>,
) -> Seq<ui::FileInfoModel> {
    Seq::new(files.len(), |i: int| file_row(files, i, playing, recording))
}

fn is_place(place: Option<usize>, i: usize) -> (r: bool)
    ensures
        r == (place == Some(i)),
{
    match place {
        Some(p) => p == i,
        None => false,
    }
}

fn build_rows(
    files: &[ProjectFile],
    playing: Option<usize>,
    recording: Option<usize>,
) -> (r: Vec<FileInfo>)
    ensures
        ui::row_models(r@) == file_rows(project::file_models(files@), playing, recording),
{
    let ghost all = project::file_models(files@);
    let total: usize = files.len();
    let numbered = crate::utils::format::format_markers_with_ordinals_batch(files);
    let mut out: Vec<FileInfo> = Vec::new();
    let mut start: u128 = 0;
    let mut i: usize = 0;
    while i < total
        invariant
            i <= total == files@.len() == numbered@.len(),
            start == stats::duration_before(all, i as int),
            all == project::file_models(files@),
            out@.len() == i,
            forall|k: int|
                0 <= k < total ==> (#[trigger] numbered@[k])@
                    == crate::utils::format::numbered_markers(all, k),
            forall|k: int|
                0 <= k < i ==> (#[trigger] out@[k])@ == file_row(all, k, playing, recording),
        decreases total - i,
    {
        let f = &files[i];
        assert(all[i as int] == f@);
        out.push(
            FileInfo {
                index: (i as u128 + 1) as i32,
                name: shown_name(f.path.as_str()),
                path: f.path.clone(),
                markers: numbered[i].clone(),
                duration: crate::utils::format::format_duration(f.duration_ms as u128, false),
                start_time: crate::utils::format::format_duration(start, false),
                size: crate::utils::format::format_size(f.size),
                is_recording: is_place(recording, i),
                is_playing: is_place(playing, i),
                title: f.title.clone(),
                author: f.author.clone(),
                year: f.year.clone(),
                hint: f.hint.clone(),
            },
        );
        proof {
            stats::duration_fits(files@, i + 1);
        }
        start = start + f.duration_ms as u128;
        i = i + 1;
    }
    assert(ui::row_models(out@) =~= file_rows(all, playing, recording));
    out
}

/// The row of a running recording that has no fragment yet.
pub open spec fn temporary_row(
    place: int,
    path: Seq<char>,
    elapsed_ms: nat,
    start_ms: nat,
) -> ui::FileInfoModel {
    ui::FileInfoModel {
        index: (place + 1) as i32 as int,
        name: name_of(path),
        path,
        duration: crate::utils::format::clock(elapsed_ms / 1000, false),
        start_time: crate::utils::format::clock(start_ms / 1000, false),
        size: "..."@,
        is_recording: true,
        ..ui::empty_row()
    }
}

fn temporary_info(place: usize, path: &str, elapsed_ms: u64, start_ms: u128) -> (r: FileInfo)
    ensures
        r@ == temporary_row(place as int, path@, elapsed_ms as nat, start_ms as nat),
{
    FileInfo {
        index: (place as u128 + 1) as i32,
        name: shown_name(path),
        path: path.to_owned(),
        markers: String::new(),
        duration: crate::utils::format::format_duration(elapsed_ms as u128, false),
        start_time: crate::utils::format::format_duration(start_ms, false),
        size: "...".to_owned(),
        is_recording: true,
        is_playing: false,
        title: String::new(),
        author: String::new(),
        year: String::new(),
        hint: String::new(),
    }
}

/// A running recording as the list needs it.
#[derive(Clone, Copy, Debug)]
pub struct RunningTake<'a> {
    pub path: &'a str,
    pub elapsed_ms: u64,
}

/// Where the row of a running recording goes: nowhere when a fragment is
/// recorded anew, behind the selection when one is put in, else to the end.
pub open spec fn temporary_place(
    total: nat,
    current: Option<usize>,
    mode: RecordingMode,
) -> Option<int> {
    match mode {
        RecordingMode::Update => None,
        RecordingMode::Insert => match current {
            Some(i) => if i < total {
                Some(i + 1)
            } else {
                Some(total as int)
            },
            None => Some(total as int),
        },
        RecordingMode::Append => Some(total as int),
    }
}

/// The rows of the list, oldest first, with the one of a running recording.
pub open spec fn listed_rows(
    files: Seq<project::ProjectFileModel>,
    current: Option<usize>,
    mode: RecordingMode,
    take: Option<(Seq<char>, nat)>,
    playing: Option<usize>,
) -> Seq<ui::FileInfoModel> {
    match take {
        None => file_rows(files, playing, None),
        Some((path, elapsed_ms)) => match temporary_place(files.len(), current, mode) {
            None => file_rows(files, playing, current),
            Some(at) => file_rows(files, playing, None).insert(
                at,
                temporary_row(at, path, elapsed_ms, stats::duration_before(files, at)),
            ),
        },
    }
}

/// A running recording in the contracts.
pub open spec fn take_view(take: Option<RunningTake>) -> Option<(Seq<char>, nat)> {
    match take {
        Some(t) => Some((t.path@, t.elapsed_ms as nat)),
        None => None,
    }
}

/// Builds the list as it is shown: newest first, numbered from the oldest.
pub fn build_file_list(
    files: &[ProjectFile],
    current: Option<usize>,
    mode: RecordingMode,
    take: Option<RunningTake>,
    playing: Option<usize>,
) -> (r: Vec<FileInfo>)
    ensures
        ui::row_models(r@) == crate::utils::format::reversed_rows(
            listed_rows(
                project::file_models(files@),
                current,
                mode,
                take_view(take),
                playing,
            ),
        ),
{
    let ghost all = project::file_models(files@);
    let total: usize = files.len();
    let recording: Option<usize> = match take {
        Some(_) => if mode == RecordingMode::Update {
            current
        } else {
            None
        },
        None => None,
    };
    let mut rows = build_rows(files, playing, recording);
    if let Some(t) = take {
        if mode != RecordingMode::Update {
            let at: usize = match current {
                Some(i) => if mode == RecordingMode::Insert && i < total {
                    i + 1
                } else {
                    total
                },
                None => total,
            };
            let ghost before = ui::row_models(rows@);
            assert(before.len() == total);
            let start: u128 = stats::duration_of_first(files, at);
            let info = temporary_info(at, t.path, t.elapsed_ms, start);
            let ghost row = info@;
            rows.insert(at, info);
            assert(ui::row_models(rows@) =~= before.insert(at as int, row));
        }
    }
    crate::utils::format::reverse_and_reindex_file_list(rows)
}

/// The newest title of a fragment that carries a marker.
pub open spec fn freshest_title(
    files: Seq<project::ProjectFileModel>,
    name: Seq<char>,
    n: int,
) -> Option<Seq<char>>
    decreases n,
{
    if n <= 0 {
        None
    } else if files[n - 1].title.len() > 0 && files[n - 1].markers.contains(name) {
        Some(files[n - 1].title)
    } else {
        freshest_title(files, name, n - 1)
    }
}

/// How often a marker occurs in the titled ones of the first `n` fragments.
pub open spec fn titled_count(
    files: Seq<project::ProjectFileModel>,
    n: int,
    name: Seq<char>,
) -> nat
    decreases n,
{
    if n <= 0 {
        0
    } else {
        titled_count(files, n - 1, name) + if files[n - 1].title.len() > 0 {
            crate::utils::format::occurrences(files[n - 1].markers, name)
        } else {
            0
        }
    }
}

/// The titles of sections after the first `i` fragments and the first `k`
/// markers of the next one: which markers are done, and the lines.
pub open spec fn titles_upto(
    files: Seq<project::ProjectFileModel>,
    known: Map<Seq<char>, project::MarkerSettingsModel>,
    i: int,
    k: int,
) -> (Set<Seq<char>>, Seq<Seq<char>>)
    decreases i, k,
{
    if k > 0 {
        let (done, lines) = titles_upto(files, known, i, k - 1);
        let name = files[i].markers[k - 1];
        if files[i].title.len() > 0 && markers::is_section(known, name) && !done.contains(name)
            && freshest_title(files, name, files.len() as int) == Some(files[i].title) {
            (
                done.insert(name),
                lines.push(
                    text::decimal(titled_count(files, i, name) + 1) + ": "@ + files[i].title,
                ),
            )
        } else {
            (done, lines)
        }
    } else if i > 0 {
        titles_upto(files, known, i - 1, files[i - 1].markers.len() as int)
    } else {
        (Set::empty(), Seq::empty())
    }
}

/// The line of section titles: for each section marker, its newest title with
/// the number of the fragment that bears it.
pub open spec fn section_titles(
    files: Seq<project::ProjectFileModel>,
    known: Map<Seq<char>, project::MarkerSettingsModel>,
) -> Seq<char> {
    text::join(titles_upto(files, known, files.len() as int, 0).1, " | "@)
}

/// Whether the newest titled fragment with a marker bears a given title.
fn is_freshest(files: &[ProjectFile], name: &str, title: &str) -> (r: bool)
    ensures
        r == (freshest_title(project::file_models(files@), name@, files@.len() as int) == Some(
            title@,
        )),
{
    let ghost all = project::file_models(files@);
    let total: usize = files.len();
    let mut n: usize = total;
    while n > 0
        invariant
            n <= total == files@.len(),
            all == project::file_models(files@),
            freshest_title(all, name@, total as int) == freshest_title(all, name@, n as int),
        decreases n,
    {
        let f = &files[n - 1];
        assert(all[n - 1] == f@);
        if !f.title.as_str().is_empty() && markers::contains_text(&f.markers, name) {
            return text::same_text(f.title.as_str(), title);
        }
        n = n - 1;
    }
    false
}

proof fn titled_count_bound(
    files: Seq<project::ProjectFileModel>,
    n: int,
    name: Seq<char>,
)
    ensures
        titled_count(files, n, name) <= crate::utils::format::marker_count(files, n, name),
    decreases n,
{
    if n > 0 {
        titled_count_bound(files, n - 1, name);
    }
}

fn build_section_titles(files: &[ProjectFile], known: &MarkerMap) -> (r: String)
    ensures
        r@ == section_titles(project::file_models(files@), known@),
{
    let ghost all = project::file_models(files@);
    let total: usize = files.len();
    let mut counts = crate::utils::format::MarkerCounts::new();
    let mut done: StringHashMap<bool> = StringHashMap::new();
    let mut lines: Vec<String> = Vec::new();
    let mut i: usize = 0;
    assert(text::texts(lines@) =~= Seq::empty());
    assert(done@.dom() =~= Set::empty());
    while i < total
        invariant
            i <= total == files@.len(),
            all == project::file_models(files@),
            (done@.dom(), text::texts(lines@)) == titles_upto(all, known@, i as int, 0),
            forall|name: Seq<char>| #[trigger]
                counts.count(name) == titled_count(all, i as int, name),
        decreases total - i,
    {
        let f = &files[i];
        assert(all[i as int] == f@);
        proof {
            assert forall|name: Seq<char>| #[trigger]
                counts.count(name) + f.markers@.len() + 1 <= u128::MAX by {
                titled_count_bound(all, i as int, name);
                crate::utils::format::marker_count_fits(files@, i as int, name);
            }
        }
        if !f.title.as_str().is_empty() {
            let mut k: usize = 0;
            while k < f.markers.len()
                invariant
                    k <= f.markers.len(),
                    i < total == files@.len(),
                    all == project::file_models(files@),
                    *f == files@[i as int],
                    all[i as int] == f@,
                    f@.title.len() > 0,
                    (done@.dom(), text::texts(lines@)) == titles_upto(
                        all,
                        known@,
                        i as int,
                        k as int,
                    ),
                    forall|name: Seq<char>| #[trigger]
                        counts.count(name) == titled_count(all, i as int, name),
                    forall|name: Seq<char>| #[trigger]
                        counts.count(name) + f.markers@.len() + 1 <= u128::MAX,
                decreases f.markers.len() - k,
            {
                let name = f.markers[k].as_str();
                assert(all[i as int].markers[k as int] == name@);
                assert(counts.count(name@) + f.markers@.len() + 1 <= u128::MAX);
                if markers::marker_is_section(known, name) && !done.contains_key(name)
                    && is_freshest(files, name, f.title.as_str()) {
                    let mut line = text::decimal_text(counts.get(name) + 1);
                    line.append(": ");
                    line.append(f.title.as_str());
                    let ghost before = text::texts(lines@);
                    let ghost marked = done@.dom();
                    let ghost added = line@;
                    lines.push(line);
                    done.insert(name.to_owned(), true);
                    proof {
                        assert(text::texts(lines@) =~= before.push(added));
                        assert(done@.dom() =~= marked.insert(name@));
                    }
                }
                k = k + 1;
            }
            counts.add(&f.markers);
        } else {
            proof {
                untitled_adds_nothing(all, known@, i as int, f@.markers.len() as int);
            }
        }
        i = i + 1;
    }
    text::join_texts(&lines, " | ")
}

proof fn untitled_adds_nothing(
    files: Seq<project::ProjectFileModel>,
    known: Map<Seq<char>, project::MarkerSettingsModel>,
    i: int,
    k: int,
)
    requires
        0 <= k,
        files[i].title.len() == 0,
    ensures
        titles_upto(files, known, i, k) == titles_upto(files, known, i, 0),
    decreases k,
{
    if k > 0 {
        untitled_adds_nothing(files, known, i, k - 1);
    }
}

/// What a fragment is called: its title, or its file name.
pub open spec fn display_name(file: project::ProjectFileModel) -> Seq<char> {
    if file.title.len() == 0 {
        name_of(file.path)
    } else {
        file.title
    }
}

fn display_text(file: &ProjectFile) -> (r: String)
    ensures
        r@ == display_name(file@),
{
    if file.title.as_str().is_empty() {
        shown_name(file.path.as_str())
    } else {
        file.title.clone()
    }
}

/// When a fragment starts in the book.
pub open spec fn start_ms(files: Seq<project::ProjectFileModel>, i: int) -> nat {
    vstd::math::min(stats::duration_before(files, i) as int, u64::MAX as int) as nat
}

/// The line of a fragment in the contents: when it starts and what it is called.
pub open spec fn contents_line(files: Seq<project::ProjectFileModel>, i: int) -> Seq<char> {
    crate::utils::format::clock(start_ms(files, i) / 1000, true) + "  "@ + display_name(files[i])
}

/// The lines of the sections among the first `n` fragments.
pub open spec fn section_lines(
    files: Seq<project::ProjectFileModel>,
    known: Map<Seq<char>, project::MarkerSettingsModel>,
    n: int,
) -> Seq<Seq<char>>
    decreases n,
{
    if n <= 0 {
        Seq::empty()
    } else {
        let before = section_lines(files, known, n - 1);
        if markers::starts_section(files[n - 1], known) {
            before.push(contents_line(files, n - 1))
        } else {
            before
        }
    }
}

/// The places of the sections among the first `n` fragments.
pub open spec fn section_places(
    files: Seq<project::ProjectFileModel>,
    known: Map<Seq<char>, project::MarkerSettingsModel>,
    n: int,
) -> Seq<usize>
    decreases n,
{
    if n <= 0 {
        Seq::empty()
    } else {
        let before = section_places(files, known, n - 1);
        if markers::starts_section(files[n - 1], known) {
            before.push((n - 1) as usize)
        } else {
            before
        }
    }
}

/// A text repeated.
pub open spec fn repeated(s: Seq<char>, n: nat) -> Seq<char>
    decreases n,
{
    if n == 0 {
        Seq::empty()
    } else {
        repeated(s, (n - 1) as nat) + s
    }
}

/// The lines of a marker: one for each time it occurs in the first `n` fragments.
pub open spec fn marker_lines(
    files: Seq<project::ProjectFileModel>,
    name: Seq<char>,
    n: int,
) -> Seq<char>
    decreases n,
{
    if n <= 0 {
        Seq::empty()
    } else {
        marker_lines(files, name, n - 1) + repeated(
            contents_line(files, n - 1) + "\n"@,
            crate::utils::format::occurrences(files[n - 1].markers, name),
        )
    }
}

/// The blocks of the first `n` of some markers.
pub open spec fn marker_blocks(
    files: Seq<project::ProjectFileModel>,
    names: Seq<Seq<char>>,
    n: int,
) -> Seq<char>
    decreases n,
{
    if n <= 0 {
        Seq::empty()
    } else {
        marker_blocks(files, names, n - 1) + "\n\n\n"@ + names[n - 1] + "\n"@ + marker_lines(
            files,
            names[n - 1],
            files.len() as int,
        )
    }
}

/// The names of all markers that occur in the first `n` fragments.
pub open spec fn used_markers(files: Seq<project::ProjectFileModel>, n: int) -> Set<Seq<char>> {
    Set::new(
        |name: Seq<char>|
            exists|i: int| 0 <= i < n && (#[trigger] files[i]).markers.contains(name),
    )
}

/// The table of contents: the sections, then a block for each marker in order.
pub open spec fn contents(
    files: Seq<project::ProjectFileModel>,
    known: Map<Seq<char>, project::MarkerSettingsModel>,
) -> Seq<char> {
    let names = text::ordered(used_markers(files, files.len() as int));
    text::join(section_lines(files, known, files.len() as int), "\n"@) + marker_blocks(
        files,
        names,
        names.len() as int,
    )
}

fn build_lines(files: &[ProjectFile]) -> (r: Vec<String>)
    ensures
        r@.len() == files@.len(),
        forall|i: int|
            0 <= i < r@.len() ==> (#[trigger] r@[i])@ == contents_line(
                project::file_models(files@),
                i,
            ),
{
    let ghost all = project::file_models(files@);
    let total: usize = files.len();
    let mut out: Vec<String> = Vec::new();
    let mut start: u64 = 0;
    let mut i: usize = 0;
    while i < total
        invariant
            i <= total == files@.len(),
            all == project::file_models(files@),
            out@.len() == i,
            start == start_ms(all, i as int),
            forall|k: int| 0 <= k < i ==> (#[trigger] out@[k])@ == contents_line(all, k),
        decreases total - i,
    {
        assert(all[i as int] == files@[i as int]@);
        let mut line = crate::utils::format::format_duration(start as u128, true);
        line.append("  ");
        line.append(display_text(&files[i]).as_str());
        out.push(line);
        start = start.saturating_add(files[i].duration_ms);
        i = i + 1;
    }
    out
}

fn build_sections(files: &[ProjectFile], known: &MarkerMap, lines: &Vec<String>) -> (r: (
    Vec<usize>,
    Vec<String>,
))
    requires
        lines@.len() == files@.len(),
        forall|i: int|
            0 <= i < lines@.len() ==> (#[trigger] lines@[i])@ == contents_line(
                project::file_models(files@),
                i,
            ),
    ensures
        r.0@ == section_places(project::file_models(files@), known@, files@.len() as int),
        text::texts(r.1@) == section_lines(
            project::file_models(files@),
            known@,
            files@.len() as int,
        ),
{
    let ghost all = project::file_models(files@);
    let total: usize = files.len();
    let mut places: Vec<usize> = Vec::new();
    let mut out: Vec<String> = Vec::new();
    let mut i: usize = 0;
    assert(text::texts(out@) =~= Seq::empty());
    while i < total
        invariant
            i <= total == files@.len() == lines@.len(),
            all == project::file_models(files@),
            forall|k: int|
                0 <= k < lines@.len() ==> (#[trigger] lines@[k])@ == contents_line(all, k),
            places@ == section_places(all, known@, i as int),
            text::texts(out@) == section_lines(all, known@, i as int),
        decreases total - i,
    {
        assert(all[i as int] == files@[i as int]@);
        if markers::file_starts_section(&files[i], known) {
            let ghost before = text::texts(out@);
            places.push(i);
            out.push(lines[i].clone());
            assert(text::texts(out@) =~= before.push(contents_line(all, i as int)));
        }
        i = i + 1;
    }
    (places, out)
}

fn collect_markers(files: &[ProjectFile]) -> (r: Vec<String>)
    ensures
        text::texts(r@) == text::ordered(
            used_markers(project::file_models(files@), files@.len() as int),
        ),
{
    let ghost all = project::file_models(files@);
    let total: usize = files.len();
    let mut seen: StringHashMap<bool> = StringHashMap::new();
    let mut names: Vec<String> = Vec::new();
    let mut i: usize = 0;
    while i < total
        invariant
            i <= total == files@.len(),
            all == project::file_models(files@),
            text::texts(names@).no_duplicates(),
            forall|name: Seq<char>| #[trigger]
                seen@.dom().contains(name) <==> text::texts(names@).contains(name),
            forall|name: Seq<char>| #[trigger]
                seen@.dom().contains(name) <==> used_markers(all, i as int).contains(name),
        decreases total - i,
    {
        let f = &files[i];
        assert(all[i as int] == f@);
        let ghost before = seen@.dom();
        let mut k: usize = 0;
        while k < f.markers.len()
            invariant
                k <= f.markers.len(),
                text::texts(names@).no_duplicates(),
                forall|name: Seq<char>| #[trigger]
                    seen@.dom().contains(name) <==> text::texts(names@).contains(name),
                forall|name: Seq<char>| #[trigger]
                    seen@.dom().contains(name) <==> before.contains(name)
                        || f@.markers.take(k as int).contains(name),
            decreases f.markers.len() - k,
        {
            let name = f.markers[k].as_str();
            let ghost now = seen@.dom();
            let ghost listed = text::texts(names@);
            assert(f@.markers[k as int] == name@);
            if !seen.contains_key(name) {
                names.push(f.markers[k].clone());
                seen.insert(name.to_owned(), true);
                proof {
                    assert(text::texts(names@) =~= listed.push(name@));
                    assert forall|other: Seq<char>| listed.push(name@).contains(other)
                        == (listed.contains(other) || other == name@) by {
                        push_contains(listed, name@, other);
                    }
                }
            }
            proof {
                assert(f@.markers.take(k + 1) =~= f@.markers.take(k as int).push(name@));
                assert forall|other: Seq<char>| f@.markers.take(k + 1).contains(other)
                    == (f@.markers.take(k as int).contains(other) || other == name@) by {
                    push_contains(f@.markers.take(k as int), name@, other);
                }
            }
            k = k + 1;
        }
        proof {
            assert(f@.markers.take(k as int) =~= f@.markers);
            assert forall|name: Seq<char>| #[trigger] seen@.dom().contains(name) <==> used_markers(
                all,
                i + 1,
            ).contains(name) by {
                if used_markers(all, i as int).contains(name) {
                    let j = choose|j: int|
                        0 <= j < i && (#[trigger] all[j]).markers.contains(name);
                    assert(all[j].markers.contains(name));
                }
                if all[i as int].markers.contains(name) {
                    assert(used_markers(all, i + 1).contains(name));
                }
            }
        }
        i = i + 1;
    }
    proof {
        assert forall|name: Seq<char>| #[trigger]
            used_markers(all, total as int).contains(name) <==> text::texts(names@).contains(
            name,
        ) by {
            assert(seen@.dom().contains(name) <==> text::texts(names@).contains(name));
        }
    }
    text::sort_names(names, Ghost(used_markers(all, total as int)))
}

proof fn push_contains(s: Seq<Seq<char>>, x: Seq<char>, name: Seq<char>)
    ensures
        s.push(x).contains(name) == (s.contains(name) || name == x),
{
    let t = s.push(x);
    assert(t[t.len() - 1] == x);
    if s.contains(name) {
        let k = choose|k: int| 0 <= k < s.len() && s[k] == name;
        assert(t[k] == name);
    }
    if t.contains(name) {
        let k = choose|k: int| 0 <= k < t.len() && t[k] == name;
        if k < s.len() {
            assert(s[k] == name);
        }
    }
}

fn append_marker_lines(
    out: &mut String,
    files: &[ProjectFile],
    lines: &Vec<String>,
    name: &str,
)
    requires
        lines@.len() == files@.len(),
        forall|i: int|
            0 <= i < lines@.len() ==> (#[trigger] lines@[i])@ == contents_line(
                project::file_models(files@),
                i,
            ),
    ensures
        final(out)@ == old(out)@ + marker_lines(
            project::file_models(files@),
            name@,
            files@.len() as int,
        ),
{
    let ghost all = project::file_models(files@);
    let total: usize = files.len();
    let mut i: usize = 0;
    assert(out@ =~= old(out)@ + marker_lines(all, name@, 0));
    while i < total
        invariant
            i <= total == files@.len() == lines@.len(),
            all == project::file_models(files@),
            forall|k: int|
                0 <= k < lines@.len() ==> (#[trigger] lines@[k])@ == contents_line(all, k),
            out@ == old(out)@ + marker_lines(all, name@, i as int),
        decreases total - i,
    {
        let f = &files[i];
        assert(all[i as int] == f@);
        let ghost line = contents_line(all, i as int) + "\n"@;
        let ghost before = out@;
        let mut k: usize = 0;
        assert(f@.markers.take(0) =~= Seq::empty());
        assert(before + repeated(line, 0) =~= before);
        while k < f.markers.len()
            invariant
                k <= f.markers.len(),
                i < total == lines@.len(),
                lines@[i as int]@ + "\n"@ == line,
                out@ == before + repeated(
                    line,
                    crate::utils::format::occurrences(f@.markers.take(k as int), name@),
                ),
            decreases f.markers.len() - k,
        {
            proof {
                assert(f@.markers.take(k + 1).drop_last() =~= f@.markers.take(k as int));
                assert(f@.markers.take(k + 1).last() == f.markers@[k as int]@);
            }
            if text::same_text(f.markers[k].as_str(), name) {
                let ghost now = out@;
                out.append(lines[i].as_str());
                out.append("\n");
                assert(out@ =~= now + line);
                assert(out@ =~= before + repeated(
                    line,
                    crate::utils::format::occurrences(f@.markers.take(k + 1), name@),
                ));
            }
            k = k + 1;
        }
        assert(f@.markers.take(k as int) =~= f@.markers);
        assert(out@ =~= old(out)@ + marker_lines(all, name@, i + 1));
        i = i + 1;
    }
}

fn build_contents(
    files: &[ProjectFile],
    known: &MarkerMap,
    lines: &Vec<String>,
    sections: &Vec<String>,
) -> (r: String)
    requires
        lines@.len() == files@.len(),
        forall|i: int|
            0 <= i < lines@.len() ==> (#[trigger] lines@[i])@ == contents_line(
                project::file_models(files@),
                i,
            ),
        text::texts(sections@) == section_lines(
            project::file_models(files@),
            known@,
            files@.len() as int,
        ),
    ensures
        r@ == contents(project::file_models(files@), known@),
{
    let ghost all = project::file_models(files@);
    let names = collect_markers(files);
    let ghost order = text::texts(names@);
    let mut out = text::join_texts(sections, "\n");
    let ghost head = out@;
    let mut n: usize = 0;
    assert(head + marker_blocks(all, order, 0) =~= head);
    while n < names.len()
        invariant
            n <= names.len(),
            all == project::file_models(files@),
            order == text::texts(names@),
            lines@.len() == files@.len(),
            forall|i: int|
                0 <= i < lines@.len() ==> (#[trigger] lines@[i])@ == contents_line(all, i),
            out@ == head + marker_blocks(all, order, n as int),
        decreases names.len() - n,
    {
        let ghost before = out@;
        assert(order[n as int] == names@[n as int]@);
        out.append("\n\n\n");
        out.append(names[n].as_str());
        out.append("\n");
        append_marker_lines(&mut out, files, lines, names[n].as_str());
        assert(out@ =~= head + marker_blocks(all, order, n + 1));
        n = n + 1;
    }
    out
}

/// The window's copy of a project.
#[derive(Debug)]
pub struct Snapshot {
    pub file_list: Vec<FileInfo>,
    pub current_file_index: i32,
    pub current_file_name: String,
    pub total_files: String,
    pub total_duration: String,
    pub total_size: String,
    pub is_recording: bool,
    pub recording_mode: String,
    pub hintbox_current_start: String,
    pub hintbox_current_end: String,
    pub hintbox_prev_start: String,
    pub hintbox_prev_end: String,
    pub hintbox_prev: String,
    pub section_titles: String,
    pub dialog_toc_list_text: String,
    pub section_indices: Vec<usize>,
    pub duration_ms: u128,
    pub size: u64,
}

/// The number of the selected row, counted from the oldest.
pub open spec fn selected_number(rows: nat, selected: i32) -> nat {
    if 0 <= selected < rows {
        (rows - selected) as nat
    } else {
        0
    }
}

/// The counter of the status line.
pub open spec fn counter(number: nat, total: nat) -> Seq<char> {
    text::decimal(number) + "/"@ + text::decimal(total)
}

/// The length of the project, with the time at the microphone once there is any.
pub open spec fn length_shown(
    total_ms: nat,
    record_length_ms: nat,
    elapsed_ms: Option<nat>,
) -> Seq<char> {
    if record_length_ms > 0 || elapsed_ms is Some {
        updater::durations_shown(
            total_ms,
            record_length_ms + match elapsed_ms {
                Some(ms) => ms,
                None => 0,
            },
        )
    } else {
        crate::utils::format::clock(total_ms / 1000, false)
    }
}

/// The previous hint in one piece.
pub open spec fn whole_hint(start: Seq<char>, end: Seq<char>) -> Seq<char> {
    if end.len() == 0 {
        start
    } else {
        start + "[...]"@ + end
    }
}

/// The hint in one piece.
pub fn join_hint(start: &str, end: &str) -> (r: String)
    ensures
        r@ == whole_hint(start@, end@),
{
    if end.is_empty() {
        start.to_owned()
    } else {
        start.to_owned().concat("[...]").concat(end)
    }
}

/// The file name of the fragment in a place, or nothing.
pub open spec fn name_at(
    files: Seq<project::ProjectFileModel>,
    place: Option<usize>,
) -> Seq<char> {
    match place {
        Some(i) => if i < files.len() {
            name_of(files[i as int].path)
        } else {
            Seq::empty()
        },
        None => Seq::empty(),
    }
}

/// Shows the file name of the fragment in a place.
pub fn shown_name_at(files: &[ProjectFile], place: Option<usize>) -> (r: String)
    ensures
        r@ == name_at(project::file_models(files@), place),
{
    if let Some(i) = place {
        if i < files.len() {
            return shown_name(files[i].path.as_str());
        }
    }
    String::new()
}

/// Whether a copy shows a project.
pub open spec fn shows(
    snapshot: Snapshot,
    project: project::ProjectModel,
    current: Option<usize>,
    mode: RecordingMode,
    take: Option<(Seq<char>, nat)>,
    playing: Option<usize>,
    free_space: nat,
) -> bool {
    let files = project.files;
    let n = files.len() as int;
    let rows = listed_rows(files, current, mode, take, playing);
    let selected = updater::selected_row(files.len(), current, mode, take is Some);
    let now = crate::utils::format::hint_at(files, current, HINT_MAX_LEN as nat);
    let before = crate::utils::format::hint_at(
        files,
        crate::utils::format::place_before(current),
        HINT_MAX_LEN as nat,
    );
    &&& ui::row_models(snapshot.file_list@) == crate::utils::format::reversed_rows(rows)
    &&& snapshot.current_file_index == selected
    &&& snapshot.current_file_name@ == name_at(files, current)
    &&& snapshot.total_files@ == counter(selected_number(rows.len(), selected), files.len())
    &&& snapshot.total_duration@ == length_shown(
        stats::duration_before(files, n),
        project.stats.record_length,
        match take {
            Some((_, elapsed_ms)) => Some(elapsed_ms),
            None => None,
        },
    )
    &&& snapshot.total_size@ == updater::sizes_shown(
        stats::size_before(files, n),
        stats::size_before(files, n) + free_space,
    )
    &&& snapshot.is_recording == take is Some
    &&& snapshot.recording_mode@ == mode.letter()
    &&& (snapshot.hintbox_current_start@, snapshot.hintbox_current_end@) == now
    &&& (snapshot.hintbox_prev_start@, snapshot.hintbox_prev_end@) == before
    &&& snapshot.hintbox_prev@ == whole_hint(before.0, before.1)
    &&& snapshot.section_titles@ == section_titles(files, project.markers)
    &&& snapshot.dialog_toc_list_text@ == contents(files, project.markers)
    &&& snapshot.section_indices@ == section_places(files, project.markers, n)
    &&& snapshot.duration_ms == stats::duration_before(files, n)
    &&& snapshot.size == stats::size_before(files, n)
}

/// Builds the window's copy of a project.
pub fn rebuild_ui_state(
    project: &Project,
    current: Option<usize>,
    mode: RecordingMode,
    take: Option<RunningTake>,
    playing: Option<usize>,
    free_space: u64,
) -> (r: Snapshot)
    requires
        stats::size_before(project@.files, project@.files.len() as int) + free_space <= u64::MAX,
    ensures
        shows(r, project@, current, mode, take_view(take), playing, free_space as nat),
{
    let files = project.files.as_slice();
    let total: usize = files.len();
    let file_list = build_file_list(files, current, mode, take, playing);
    let rows: usize = file_list.len();
    let selected: i32 = updater::file_list_current_index(total, current, mode, take.is_some());
    let duration_ms: u128 = stats::calculate_total_duration(files);
    let size: u64 = stats::calculate_sizes(files);
    let number: usize = if selected >= 0 && (selected as usize) < rows {
        rows - selected as usize
    } else {
        0
    };
    let mut total_files = text::decimal_text(number as u128);
    total_files.append("/");
    total_files.append(text::decimal_text(total as u128).as_str());
    let recorded: u64 = project.stats.record_length;
    let total_duration = match take {
        Some(t) => updater::duration_pair(duration_ms, recorded as u128 + t.elapsed_ms as u128),
        None => if recorded > 0 {
            updater::duration_pair(duration_ms, recorded as u128)
        } else {
            crate::utils::format::format_duration(duration_ms, false)
        },
    };
    let (cur_start, cur_end, prev_start, prev_end) =
        crate::utils::format::current_and_prev_file_hints(
        files,
        current,
        HINT_MAX_LEN,
    );
    let hintbox_prev = join_hint(prev_start.as_str(), prev_end.as_str());
    let lines = build_lines(files);
    let (section_indices, sections) = build_sections(files, &project.markers, &lines);
    let dialog_toc_list_text = build_contents(files, &project.markers, &lines, &sections);
    assert(rows == listed_rows(project@.files, current, mode, take_view(take), playing).len()) by {
        assert(ui::row_models(file_list@).len() == file_list@.len());
    }
    Snapshot {
        file_list,
        current_file_index: selected,
        current_file_name: shown_name_at(files, current),
        total_files,
        total_duration,
        total_size: updater::size_pair(size, size + free_space),
        is_recording: take.is_some(),
        recording_mode: mode.as_str().to_owned(),
        hintbox_current_start: cur_start,
        hintbox_current_end: cur_end,
        hintbox_prev_start: prev_start,
        hintbox_prev_end: prev_end,
        hintbox_prev,
        section_titles: build_section_titles(files, &project.markers),
        dialog_toc_list_text,
        section_indices,
        duration_ms,
        size,
    }
}

/// The places of sections are in order, none twice, and they are exactly the places of the
/// fragments that start one.
pub proof fn section_places_are_the_sections(
    files: Seq<project::ProjectFileModel>,
    known: Map<Seq<char>, project::MarkerSettingsModel>,
    n: int,
)
    requires
        0 <= n <= files.len() <= usize::MAX,
    ensures
        updater::in_places(section_places(files, known, n)),
        forall|i: int, j: int|
            #![trigger section_places(files, known, n)[i], section_places(files, known, n)[j]]
            0 <= i < j < section_places(files, known, n).len() ==> section_places(
                files,
                known,
                n,
            )[i] < section_places(files, known, n)[j],
        forall|i: int|
            0 <= i < section_places(files, known, n).len() ==> (
            #[trigger] section_places(files, known, n)[i]) < n,
        forall|place: usize|
            #![trigger section_places(files, known, n).contains(place)]
            section_places(files, known, n).contains(place) <==> place < n
                && markers::starts_section(files[place as int], known),
    decreases n,
{
    let places = section_places(files, known, n);
    if n > 0 {
        section_places_are_the_sections(files, known, n - 1);
        let before = section_places(files, known, n - 1);
        assert forall|place: usize|
            #![trigger places.contains(place)]
            places.contains(place) <==> place < n && markers::starts_section(
                files[place as int],
                known,
            ) by {
            assert(before.contains(place) <==> place < n - 1 && markers::starts_section(
                files[place as int],
                known,
            ));
            if markers::starts_section(files[n - 1], known) {
                assert(places[places.len() - 1] == (n - 1) as usize);
                if before.contains(place) {
                    let k = choose|k: int| 0 <= k < before.len() && before[k] == place;
                    assert(places[k] == place);
                }
                if places.contains(place) {
                    let k = choose|k: int| 0 <= k < places.len() && places[k] == place;
                    if k < before.len() {
                        assert(before[k] == place);
                    }
                }
            }
        }
    }
}

} // verus!
