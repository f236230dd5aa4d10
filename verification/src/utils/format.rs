//! Durations, sizes, hints and marker lists as they are shown.
use crate::project::project;
use crate::project::project::ProjectFile;
use crate::ui::ui;
use crate::ui::ui::FileInfo;
use crate::utils::text;
use vstd::hash_map::StringHashMap;
use vstd::prelude::*;

verus! {

/// Whole seconds as `MM:SS` or `HH:MM:SS`.
pub open spec fn clock(secs: nat, hours: bool) -> Seq<char> {
    let rest = text::zero_padded(secs % 3600 / 60, 2) + ":"@ + text::zero_padded(secs % 60, 2);
    if hours || secs / 3600 != 0 {
        text::zero_padded(secs / 3600, 2) + ":"@ + rest
    } else {
        rest
    }
}

/// Shows a duration. The hours are left out when they are zero, unless `hours`.
pub fn format_duration(duration_ms: u128, hours: bool) -> (r: String)
    ensures
        r@ == clock(duration_ms as nat / 1000, hours),
{
    let secs: u128 = duration_ms / 1000;
    let hrs: u128 = secs / 3600;
    let mut rest = text::padded_text(secs % 3600 / 60, 2);
    rest.append(":");
    rest.append(text::padded_text(secs % 60, 2).as_str());
    if hours || hrs != 0 {
        let mut out = text::padded_text(hrs, 2);
        out.append(":");
        out.append(rest.as_str());
        out
    } else {
        rest
    }
}

/// A fraction rounded to the nearest whole number, halves to the even one.
pub open spec fn half_even(n: nat, d: nat) -> nat {
    let q = n / d;
    let rem = n % d;
    if 2 * rem > d || (2 * rem == d && q % 2 == 1) {
        q + 1
    } else {
        q
    }
}

/// The distance between neighbouring numbers of 53 significant bits around `n`.
pub open spec fn spacing(n: nat) -> nat
    decreases n,
{
    if n < 0x20_0000_0000_0000 {
        1
    } else {
        2 * spacing(n / 2)
    }
}

/// A number rounded to 53 significant bits.
pub open spec fn significant(n: nat) -> nat {
    half_even(n, spacing(n)) * spacing(n)
}

/// The unit in which a size is shown, and how many bytes it is.
pub open spec fn size_unit(n: nat) -> (Seq<char>, nat) {
    if n < 0x400 {
        ("B"@, 1)
    } else if n < 0x10_0000 {
        ("KB"@, 0x400)
    } else if n < 0x4000_0000 {
        ("MB"@, 0x10_0000)
    } else {
        ("GB"@, 0x4000_0000)
    }
}

/// A size with one decimal digit and its unit.
pub open spec fn size_text(bytes: nat) -> Seq<char> {
    let n = significant(bytes);
    let (unit, scale) = size_unit(n);
    tenths_shown(half_even(10 * n, scale)) + " "@ + unit
}

/// A number of tenths as a decimal fraction.
pub open spec fn tenths_shown(tenths: nat) -> Seq<char> {
    text::decimal(tenths / 10) + "."@ + text::decimal(tenths % 10)
}

fn half_even_of(n: u128, d: u128) -> (r: u128)
    requires
        0 < d <= 0x1_0000_0000_0000,
        n <= 0x100_0000_0000_0000_0000,
    ensures
        r == half_even(n as nat, d as nat),
        r <= n / d + 1,
{
    let q: u128 = n / d;
    let rem: u128 = n % d;
    if 2 * rem > d || (2 * rem == d && q % 2 == 1) {
        assert(q <= n) by (nonlinear_arith)
            requires
                q == n / d,
                d > 0,
        ;
        q + 1
    } else {
        q
    }
}

proof fn spacing_bounds(n: nat)
    requires
        n <= u64::MAX,
    ensures
        1 <= spacing(n) <= 2048,
        n / spacing(n) < 0x20_0000_0000_0000,
{
    reveal_with_fuel(spacing, 13);
    spacing_divides(n);
}

proof fn spacing_divides(n: nat)
    ensures
        spacing(n) > 0,
        n / spacing(n) < 0x20_0000_0000_0000,
    decreases n,
{
    if n >= 0x20_0000_0000_0000 {
        spacing_divides(n / 2);
        vstd::arithmetic::div_mod::lemma_div_denominator(n as int, 2, spacing(n / 2) as int);
    } else {
        assert(n / 1 == n);
    }
}

fn spacing_of(n: u64) -> (r: u64)
    ensures
        r == spacing(n as nat),
    decreases n,
{
    if n < 0x20_0000_0000_0000 {
        1
    } else {
        proof {
            spacing_bounds((n / 2) as nat);
        }
        2 * spacing_of(n / 2)
    }
}

fn significant_of(bytes: u64) -> (r: u128)
    ensures
        r == significant(bytes as nat),
        r <= 0x20_0000_0000_0000 * 2048,
{
    let step: u64 = spacing_of(bytes);
    proof {
        spacing_bounds(bytes as nat);
    }
    let units: u128 = half_even_of(bytes as u128, step as u128);
    assert(units * step <= 0x20_0000_0000_0000 * 2048) by (nonlinear_arith)
        requires
            0 <= units <= 0x20_0000_0000_0000,
            1 <= step <= 2048,
    ;
    units * step as u128
}

fn tenths_text(n: u128, scale: u128) -> (r: String)
    requires
        n <= 0x20_0000_0000_0000 * 2048,
        0 < scale <= 0x4000_0000,
    ensures
        r@ == tenths_shown(half_even(10 * n as nat, scale as nat)),
{
    let tenths: u128 = half_even_of(10 * n, scale);
    let mut out = text::decimal_text(tenths / 10);
    out.append(".");
    out.append(text::decimal_text(tenths % 10).as_str());
    out
}

/// Shows a size in bytes.
pub fn format_size(bytes: u64) -> (r: String)
    ensures
        r@ == size_text(bytes as nat),
{
    let n: u128 = significant_of(bytes);
    let (unit, scale): (&str, u128) = if n < 0x400 {
        ("B", 1)
    } else if n < 0x10_0000 {
        ("KB", 0x400)
    } else if n < 0x4000_0000 {
        ("MB", 0x10_0000)
    } else {
        ("GB", 0x4000_0000)
    };
    let mut out = tenths_text(n, scale);
    out.append(" ");
    out.append(unit);
    out
}

/// A number of bytes in mebibytes, with one decimal digit.
pub open spec fn mebibytes(bytes: nat) -> Seq<char> {
    tenths_shown(half_even(10 * significant(bytes), 0x10_0000)) + " MiB"@
}

/// Shows a number of bytes in mebibytes.
pub fn format_mebibytes(bytes: u64) -> (r: String)
    ensures
        r@ == mebibytes(bytes as nat),
{
    let mut out = tenths_text(significant_of(bytes), 0x10_0000);
    out.append(" MiB");
    out
}

/// The list with the newest fragment first, numbered from the oldest.
pub open spec fn reversed_rows(rows: Seq<ui::FileInfoModel>) -> Seq<ui::FileInfoModel> {
    Seq::new(
        rows.len(),
        |i: int|
            ui::FileInfoModel {
                index: (rows.len() - i) as i32 as int,
                ..rows[rows.len() - 1 - i]
            },
    )
}

/// Turns the list round and numbers its rows anew.
pub fn reverse_and_reindex_file_list(file_list: Vec<FileInfo>) -> (r: Vec<FileInfo>)
    ensures
        ui::row_models(r@) == reversed_rows(ui::row_models(file_list@)),
{
    let total: usize = file_list.len();
    let ghost before = file_list@;
    let mut rest = file_list;
    let mut out: Vec<FileInfo> = Vec::new();
    while out.len() < total
        invariant
            out@.len() + rest@.len() == total == before.len(),
            rest@ == before.take(rest@.len() as int),
            forall|i: int|
                0 <= i < out@.len() ==> (#[trigger] out@[i])@ == (ui::FileInfoModel {
                    index: (total - i) as i32 as int,
                    ..before[total - 1 - i]@
                }),
        decreases total - out.len(),
    {
        let n: usize = out.len();
        if let Some(row) = rest.pop() {
            let mut row = row;
            row.index = (total - n) as i32;
            out.push(row);
        }
        assert(rest@ =~= before.take(rest@.len() as int));
    }
    assert(ui::row_models(out@) =~= reversed_rows(ui::row_models(before)));
    out
}

/// What is shown of a long text: its start and its end.
pub open spec fn start_and_end(s: Seq<char>, max: nat) -> (Seq<char>, Seq<char>) {
    if s.len() <= max {
        (s, Seq::empty())
    } else if max < 10 {
        (
            s.take(
                if max >= 3 {
                    max - 3
                } else {
                    0
                },
            ) + "..."@,
            Seq::empty(),
        )
    } else {
        let start = (max - 5) / 2;
        let end = max - 5 - start;
        (s.take(start), s.skip(s.len() - end))
    }
}

/// Cuts the middle out of a long text; a mark of five characters stands for it.
pub fn truncate_text_to_start_end(text: &str, max_length: usize) -> (r: (String, String))
    ensures
        (r.0@, r.1@) == start_and_end(text@, max_length as nat),
{
    let v = text::to_chars(text);
    let total: usize = v.len();
    if total <= max_length {
        return (text.to_owned(), String::new());
    }
    if max_length < 10 {
        let take: usize = max_length.saturating_sub(3);
        let mut start = text::from_chars(vstd::slice::slice_subrange(v.as_slice(), 0, take));
        start.append("...");
        assert(v@.subrange(0, take as int) =~= v@.take(take as int));
        return (start, String::new());
    }
    let available: usize = max_length - 5;
    let start_len: usize = available / 2;
    let end_len: usize = available - start_len;
    let start = text::from_chars(vstd::slice::slice_subrange(v.as_slice(), 0, start_len));
    let end = text::from_chars(
        vstd::slice::slice_subrange(v.as_slice(), total - end_len, total),
    );
    proof {
        assert(v@.subrange(0, start_len as int) =~= v@.take(start_len as int));
        assert(v@.subrange(total - end_len, total as int) =~= v@.skip(total - end_len));
    }
    (start, end)
}

/// What is shown of a text is its beginning and its end, and with the mark
/// between them it is exactly as long as allowed.
pub proof fn truncation_keeps_both_ends(s: Seq<char>, max: nat)
    requires
        max >= 10,
    ensures
        s.len() <= max ==> start_and_end(s, max) == (s, Seq::<char>::empty()),
        s.len() > max ==> {
            let (start, end) = start_and_end(s, max);
            &&& start.len() + 5 + end.len() == max
            &&& start == s.take(start.len() as int)
            &&& end == s.skip(s.len() - end.len())
        },
{
}

/// The hints that are shown for the fragment in a place, if there is one.
pub open spec fn hint_at(
    files: Seq<project::ProjectFileModel>,
    i: Option<usize>,
    max: nat,
) -> (Seq<char>, Seq<char>) {
    match i {
        Some(i) => if i < files.len() {
            start_and_end(files[i as int].hint, max)
        } else {
            (Seq::empty(), Seq::empty())
        },
        None => (Seq::empty(), Seq::empty()),
    }
}

/// The place before a place.
pub open spec fn place_before(i: Option<usize>) -> Option<usize> {
    match i {
        Some(i) => if i > 0 {
            Some((i - 1) as usize)
        } else {
            None
        },
        None => None,
    }
}

fn hint_text(files: &[ProjectFile], i: Option<usize>, max_len: usize) -> (r: (String, String))
    ensures
        (r.0@, r.1@) == hint_at(project::file_models(files@), i, max_len as nat),
{
    if let Some(i) = i {
        if i < files.len() {
            return truncate_text_to_start_end(files[i].hint.as_str(), max_len);
        }
    }
    (String::new(), String::new())
}

/// The hints of the current and of the previous fragment: start and end of each.
pub fn current_and_prev_file_hints(
    files: &[ProjectFile],
    current_index: Option<usize>,
    max_len: usize,
) -> (r: (String, String, String, String))
    ensures
        (r.0@, r.1@) == hint_at(project::file_models(files@), current_index, max_len as nat),
        (r.2@, r.3@) == hint_at(
            project::file_models(files@),
            place_before(current_index),
            max_len as nat,
        ),
{
    let before: Option<usize> = match current_index {
        Some(i) => if i > 0 {
            Some(i - 1)
        } else {
            None
        },
        None => None,
    };
    let current = hint_text(files, current_index, max_len);
    let prev = hint_text(files, before, max_len);
    (current.0, current.1, prev.0, prev.1)
}

/// How often a name occurs in a list.
pub open spec fn occurrences(names: Seq<Seq<char>>, name: Seq<char>) -> nat
    decreases names.len(),
{
    if names.len() == 0 {
        0
    } else {
        occurrences(names.drop_last(), name) + if names.last() == name {
            1nat
        } else {
            0nat
        }
    }
}

/// How often a marker occurs in the first `n` fragments.
pub open spec fn marker_count(
    files: Seq<project::ProjectFileModel>,
    n: int,
    name: Seq<char>,
) -> nat
    decreases n,
{
    if n <= 0 {
        0
    } else {
        marker_count(files, n - 1, name) + occurrences(files[n - 1].markers, name)
    }
}

/// The markers of a fragment, each with its number in the book.
pub open spec fn numbered_markers(files: Seq<project::ProjectFileModel>, i: int) -> Seq<char> {
    text::join(
        files[i].markers.map_values(
            |m: Seq<char>| m + text::decimal(marker_count(files, i, m) + 1),
        ),
        " "@,
    )
}

/// Markers seen so far, with how often each was seen.
pub struct MarkerCounts {
    counts: StringHashMap<u128>,
}

impl MarkerCounts {
    /// How often a marker was seen.
    pub closed spec fn count(&self, name: Seq<char>) -> nat {
        if self.counts@.contains_key(name) {
            self.counts@[name] as nat
        } else {
            0
        }
    }

    pub fn new() -> (r: Self)
        ensures
            forall|name: Seq<char>| #[trigger] r.count(name) == 0,
    {
        MarkerCounts { counts: StringHashMap::new() }
    }

    pub fn get(&self, name: &str) -> (n: u128)
        ensures
            n == self.count(name@),
    {
        match self.counts.get(name) {
            Some(n) => *n,
            None => 0,
        }
    }

    /// Counts the markers of one more fragment.
    pub fn add(&mut self, markers: &Vec<String>)
        requires
            forall|name: Seq<char>| #[trigger]
                old(self).count(name) + markers@.len() <= u128::MAX,
        ensures
            forall|name: Seq<char>| #[trigger]
                final(self).count(name) == old(self).count(name) + occurrences(
                    text::texts(markers@),
                    name,
                ),
    {
        let ghost all = text::texts(markers@);
        let mut k: usize = 0;
        assert(all.take(0) =~= Seq::empty());
        while k < markers.len()
            invariant
                k <= markers.len(),
                all == text::texts(markers@),
                forall|name: Seq<char>| #[trigger]
                    old(self).count(name) + markers@.len() <= u128::MAX,
                forall|name: Seq<char>| #[trigger]
                    self.count(name) == old(self).count(name) + occurrences(
                        all.take(k as int),
                        name,
                    ),
            decreases markers.len() - k,
        {
            let ghost before = *self;
            let name = markers[k].as_str();
            proof {
                assert(all.take(k + 1).drop_last() =~= all.take(k as int));
                assert(all.take(k + 1).last() == name@);
                occurrences_bound(all.take(k as int), name@);
                assert(before.count(name@) == old(self).count(name@) + occurrences(
                    all.take(k as int),
                    name@,
                ));
                assert(old(self).count(name@) + markers@.len() <= u128::MAX);
            }
            let n: u128 = self.get(name);
            self.counts.insert(name.to_owned(), n + 1);
            proof {
                assert forall|other: Seq<char>| #[trigger]
                    self.count(other) == old(self).count(other) + occurrences(
                        all.take(k + 1),
                        other,
                    ) by {
                    assert(before.count(other) == old(self).count(other) + occurrences(
                        all.take(k as int),
                        other,
                    ));
                }
            }
            k = k + 1;
        }
        assert(all.take(k as int) =~= all);
    }
}

proof fn occurrences_bound(names: Seq<Seq<char>>, name: Seq<char>)
    ensures
        occurrences(names, name) <= names.len(),
    decreases names.len(),
{
    if names.len() > 0 {
        occurrences_bound(names.drop_last(), name);
    }
}

proof fn marker_count_bound(
    files: Seq<project::ProjectFileModel>,
    n: int,
    name: Seq<char>,
    most: nat,
)
    requires
        0 <= n <= files.len(),
        forall|i: int| 0 <= i < files.len() ==> (#[trigger] files[i]).markers.len() <= most,
    ensures
        marker_count(files, n, name) <= n * most,
    decreases n,
{
    if n > 0 {
        marker_count_bound(files, n - 1, name, most);
        occurrences_bound(files[n - 1].markers, name);
        assert((n - 1) * most + most == n * most) by (nonlinear_arith);
    } else {
        assert(0 * most == 0) by (nonlinear_arith);
    }
}

/// Markers can always be counted, with one fragment more.
pub proof fn marker_count_fits(files: Seq<ProjectFile>, i: int, name: Seq<char>)
    requires
        0 <= i < files.len() <= usize::MAX,
    ensures
        marker_count(project::file_models(files), i, name) + files[i].markers@.len() + 1
            <= u128::MAX,
{
    let all = project::file_models(files);
    assert forall|k: int| 0 <= k < all.len() implies (#[trigger] all[k]).markers.len()
        <= usize::MAX as nat by {
        assert(files[k].markers.len() == files[k].markers@.len());
    }
    assert(files[i].markers.len() == files[i].markers@.len());
    marker_count_bound(all, i, name, usize::MAX as nat);
    assert(i * (usize::MAX as nat) + usize::MAX + 1 <= u128::MAX) by (nonlinear_arith)
        requires
            0 <= i < usize::MAX,
            usize::MAX <= 0xffff_ffff_ffff_ffff,
    ;
}

/// The marker column of every fragment, in one pass.
pub fn format_markers_with_ordinals_batch(files: &[ProjectFile]) -> (r: Vec<String>)
    ensures
        r@.len() == files@.len(),
        forall|i: int|
            0 <= i < r@.len() ==> (#[trigger] r@[i])@ == numbered_markers(
                project::file_models(files@),
                i,
            ),
{
    let ghost all = project::file_models(files@);
    let total: usize = files.len();
    let mut counts = MarkerCounts::new();
    let mut out: Vec<String> = Vec::new();
    let mut i: usize = 0;
    while i < total
        invariant
            i <= total == files@.len(),
            all == project::file_models(files@),
            out@.len() == i,
            forall|name: Seq<char>| #[trigger]
                counts.count(name) == marker_count(all, i as int, name),
            forall|k: int| 0 <= k < i ==> (#[trigger] out@[k])@ == numbered_markers(all, k),
        decreases total - i,
    {
        let markers = &files[i].markers;
        assert(all[i as int].markers == text::texts(markers@));
        let ghost shown = all[i as int].markers.map_values(
            |m: Seq<char>| m + text::decimal(marker_count(all, i as int, m) + 1),
        );
        proof {
            assert forall|name: Seq<char>| #[trigger]
                counts.count(name) + markers@.len() + 1 <= u128::MAX by {
                marker_count_fits(files@, i as int, name);
            }
        }
        let mut parts: Vec<String> = Vec::new();
        let mut k: usize = 0;
        while k < markers.len()
            invariant
                k <= markers.len(),
                i < total == files@.len(),
                all == project::file_models(files@),
                *markers == files@[i as int].markers,
                all[i as int].markers == text::texts(markers@),
                shown == all[i as int].markers.map_values(
                    |m: Seq<char>| m + text::decimal(marker_count(all, i as int, m) + 1),
                ),
                forall|name: Seq<char>| #[trigger]
                    counts.count(name) == marker_count(all, i as int, name),
                forall|name: Seq<char>| #[trigger]
                    counts.count(name) + markers@.len() + 1 <= u128::MAX,
                parts@.len() == k,
                forall|j: int| 0 <= j < k ==> (#[trigger] parts@[j])@ == shown[j],
            decreases markers.len() - k,
        {
            let name = markers[k].as_str();
            assert(counts.count(name@) + markers@.len() + 1 <= u128::MAX);
            let mut part = name.to_owned();
            part.append(text::decimal_text(counts.get(name) + 1).as_str());
            parts.push(part);
            k = k + 1;
        }
        assert(text::texts(parts@) =~= shown);
        out.push(text::join_texts(&parts, " "));
        counts.add(markers);
        i = i + 1;
    }
    out
}

} // verus!
