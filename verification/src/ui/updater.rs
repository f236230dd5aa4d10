//! When the window's copy of the project is rebuilt, and when a touch is enough.
use crate::app::app::RecordingMode;
use crate::ui::ui;
use crate::ui::ui::FileInfo;
use crate::utils::indexes;
use crate::utils::text;
use vstd::prelude::*;

verus! {

/// What a copy of the project was made for. A change of the project that keeps
/// its length has to be announced beside it.
#[derive(Clone, Copy, Debug, PartialEq, Eq, Structural)]
pub struct UiUpdateKey {
    pub current_index: Option<usize>,
    pub total_files: usize,
    pub recording_mode: RecordingMode,
    /// When the running recording started, in milliseconds of the clock.
    pub recording_started: Option<u64>,
    pub playing_index: Option<usize>,
    pub record_length_ms: u64,
}

/// Whether a copy that was made for one key does not serve another.
pub open spec fn structure_differs(previous: UiUpdateKey, key: UiUpdateKey) -> bool {
    ||| previous.total_files != key.total_files
    ||| previous.recording_mode != key.recording_mode
    ||| previous.recording_started != key.recording_started
    ||| previous.record_length_ms != key.record_length_ms
    ||| key.recording_started is Some && previous.current_index != key.current_index
}

/// Whether only the selection or the playing row moved.
pub open spec fn navigation_differs(previous: UiUpdateKey, key: UiUpdateKey) -> bool {
    previous.current_index != key.current_index || previous.playing_index != key.playing_index
}

/// Keeps the periodic update independent of the number of fragments.
pub struct UiUpdateCache {
    key: Option<UiUpdateKey>,
    section_indices: Vec<usize>,
    total_duration_ms: u128,
    total_size: u64,
    last_free_space_update: Option<u64>,
    last_recording_second: Option<u64>,
}

pub(crate) fn same_place(a: Option<usize>, b: Option<usize>) -> (r: bool)
    ensures
        r == (a == b),
{
    match (a, b) {
        (Some(x), Some(y)) => x == y,
        (None, None) => true,
        _ => false,
    }
}

fn same_time(a: Option<u64>, b: Option<u64>) -> (r: bool)
    ensures
        r == (a == b),
{
    match (a, b) {
        (Some(x), Some(y)) => x == y,
        (None, None) => true,
        _ => false,
    }
}

impl UiUpdateCache {
    #[verifier::type_invariant]
    spec fn sections_in_places(&self) -> bool {
        in_places(self.section_indices@)
    }

    /// What the copy was made for, if there is one.
    pub closed spec fn built_for(&self) -> Option<UiUpdateKey> {
        self.key
    }

    /// The places of sections in the copy.
    pub closed spec fn sections(&self) -> Seq<usize> {
        self.section_indices@
    }

    /// The length and size of the project in the copy.
    pub closed spec fn totals(&self) -> (u128, u64) {
        (self.total_duration_ms, self.total_size)
    }

    /// When the free space was last asked for.
    pub closed spec fn asked_free_space(&self) -> Option<u64> {
        self.last_free_space_update
    }

    /// The second of the recording that is shown.
    pub closed spec fn shown_second(&self) -> Option<u64> {
        self.last_recording_second
    }

    pub fn needs_rebuild(&self, key: UiUpdateKey, data_changed: bool) -> (r: bool)
        ensures
            r == (match self.built_for() {
                None => true,
                Some(previous) => data_changed || structure_differs(previous, key),
            }),
    {
        match self.key {
            None => true,
            Some(previous) => data_changed || previous.total_files != key.total_files
                || previous.recording_mode != key.recording_mode || !same_time(
                previous.recording_started,
                key.recording_started,
            ) || previous.record_length_ms != key.record_length_ms || (
            key.recording_started.is_some() && !same_place(
                previous.current_index,
                key.current_index,
            )),
        }
    }

    pub fn needs_navigation_update(&self, key: UiUpdateKey) -> (r: bool)
        ensures
            r == (match self.built_for() {
                None => false,
                Some(previous) => navigation_differs(previous, key),
            }),
    {
        match self.key {
            None => false,
            Some(previous) => !same_place(previous.current_index, key.current_index)
                || !same_place(previous.playing_index, key.playing_index),
        }
    }

    /// The places of sections, oldest first; unavailable before the first copy.
    /// Not to be used while a change of the project waits to be shown.
    pub fn section_indices(&self) -> (r: Option<&[usize]>)
        ensures
            match r {
                Some(indices) => self.built_for() is Some && indices@ == self.sections()
                    && in_places(indices@),
                None => self.built_for() is None,
            },
    {
        proof {
            use_type_invariant(self);
        }
        match self.key {
            Some(_) => Some(self.section_indices.as_slice()),
            None => None,
        }
    }

    /// The key that the copy was made for.
    pub fn key(&self) -> (r: Option<UiUpdateKey>)
        ensures
            r == self.built_for(),
    {
        self.key
    }

    pub fn record_rebuild(
        &mut self,
        key: UiUpdateKey,
        duration_ms: u128,
        size: u64,
        section_indices: Vec<usize>,
        now_ms: u64,
    )
        requires
            in_places(section_indices@),
        ensures
            final(self).built_for() == Some(key),
            final(self).sections() == section_indices@,
            final(self).totals() == (duration_ms, size),
            final(self).asked_free_space() == Some(now_ms),
            final(self).shown_second() is None,
    {
        proof {
            use_type_invariant(&*self);
        }
        self.key = Some(key);
        self.section_indices = section_indices;
        self.total_duration_ms = duration_ms;
        self.total_size = size;
        self.last_free_space_update = Some(now_ms);
        self.last_recording_second = None;
    }

    /// Takes in a light update, after [`UiUpdateCache::needs_rebuild`] denied.
    pub fn record_navigation(&mut self, key: UiUpdateKey)
        ensures
            final(self).built_for() == Some(key),
            final(self).sections() == old(self).sections(),
            final(self).totals() == old(self).totals(),
            final(self).asked_free_space() == old(self).asked_free_space(),
            final(self).shown_second() == old(self).shown_second(),
    {
        proof {
            use_type_invariant(&*self);
        }
        self.key = Some(key);
    }

    /// Whether the free space is to be asked for again: once a second.
    pub fn free_space_due(&self, now_ms: u64) -> (r: bool)
        ensures
            r == space_due(self.asked_free_space(), now_ms),
    {
        match self.last_free_space_update {
            Some(asked) => now_ms.saturating_sub(asked) >= 1000,
            None => true,
        }
    }

    /// What changes between rebuilds: the time of a running recording, and the
    /// free space when it was asked for. Nothing while the recorder is idle.
    pub fn live_update(&mut self, key: UiUpdateKey, now_ms: u64, free_space: Option<u64>) -> (r:
        LiveUpdate)
        ensures
            r@ == live(*old(self), key, now_ms, free_space),
            final(self).built_for() == old(self).built_for(),
            final(self).sections() == old(self).sections(),
            final(self).totals() == old(self).totals(),
            final(self).asked_free_space() == (if free_space is Some {
                Some(now_ms)
            } else {
                old(self).asked_free_space()
            }),
            final(self).shown_second() == (if r@.idle {
                old(self).shown_second()
            } else {
                recorded_second(key, now_ms)
            }),
    {
        proof {
            use_type_invariant(&*self);
        }
        let elapsed: Option<u64> = match key.recording_started {
            Some(started) => Some(now_ms.saturating_sub(started)),
            None => None,
        };
        let total_size: Option<String> = match free_space {
            Some(free) => {
                self.last_free_space_update = Some(now_ms);
                Some(size_pair(self.total_size, self.total_size.saturating_add(free)))
            },
            None => None,
        };
        if elapsed.is_none() && key.playing_index.is_none() && total_size.is_none() {
            return LiveUpdate {
                idle: true,
                row_elapsed_ms: None,
                total_duration: None,
                total_size: None,
            };
        }
        let mut row_elapsed_ms: Option<u64> = None;
        let mut total_duration: Option<String> = None;
        if let Some(ms) = elapsed {
            if !same_time(Some(ms / 1000), self.last_recording_second) {
                row_elapsed_ms = Some(ms);
                total_duration =
                Some(
                    duration_pair(
                        self.total_duration_ms,
                        key.record_length_ms as u128 + ms as u128,
                    ),
                );
            }
        }
        self.last_recording_second =
        match elapsed {
            Some(ms) => Some(ms / 1000),
            None => None,
        };
        LiveUpdate { idle: false, row_elapsed_ms, total_duration, total_size }
    }
}

impl Default for UiUpdateCache {
    fn default() -> (r: Self)
        ensures
            r.built_for() is None,
            r.sections() == Seq::<usize>::empty(),
            r.totals() == (0u128, 0u64),
            r.asked_free_space() is None,
            r.shown_second() is None,
    {
        UiUpdateCache {
            key: None,
            section_indices: Vec::new(),
            total_duration_ms: 0,
            total_size: 0,
            last_free_space_update: None,
            last_recording_second: None,
        }
    }
}

pub open spec fn space_due(asked: Option<u64>, now_ms: u64) -> bool {
    match asked {
        Some(asked) => now_ms - asked >= 1000,
        None => true,
    }
}

/// Milliseconds of the running recording.
pub open spec fn recorded_ms(key: UiUpdateKey, now_ms: u64) -> Option<u64> {
    match key.recording_started {
        Some(started) => if now_ms >= started {
            Some((now_ms - started) as u64)
        } else {
            Some(0u64)
        },
        None => None,
    }
}

/// Whole seconds of the running recording.
pub open spec fn recorded_second(key: UiUpdateKey, now_ms: u64) -> Option<u64> {
    match recorded_ms(key, now_ms) {
        Some(ms) => Some(ms / 1000),
        None => None,
    }
}

/// Two sizes, one of them with the free space.
pub open spec fn sizes_shown(size: nat, disk: nat) -> Seq<char> {
    crate::utils::format::size_text(size) + " / "@ + crate::utils::format::size_text(disk)
}

/// The length of the project and the time at the microphone.
pub open spec fn durations_shown(total_ms: nat, recorded_ms: nat) -> Seq<char> {
    crate::utils::format::clock(total_ms / 1000, false) + " / "@ + crate::utils::format::clock(recorded_ms / 1000, false)
}

/// Shows two sizes.
pub fn size_pair(size: u64, disk: u64) -> (r: String)
    ensures
        r@ == sizes_shown(size as nat, disk as nat),
{
    crate::utils::format::format_size(size).concat(" / ").concat(crate::utils::format::format_size(disk).as_str())
}

/// Shows two durations.
pub fn duration_pair(total_ms: u128, recorded_ms: u128) -> (r: String)
    ensures
        r@ == durations_shown(total_ms as nat, recorded_ms as nat),
{
    crate::utils::format::format_duration(total_ms, false).concat(" / ").concat(
        crate::utils::format::format_duration(recorded_ms, false).as_str(),
    )
}

/// What changes between rebuilds.
#[derive(Debug)]
pub struct LiveUpdate {
    /// Nothing is to be shown.
    pub idle: bool,
    /// The time for the row of the running recording, when its second changed.
    pub row_elapsed_ms: Option<u64>,
    pub total_duration: Option<String>,
    pub total_size: Option<String>,
}

/// What the contracts know of [`LiveUpdate`].
pub ghost struct LiveUpdateModel {
    pub idle: bool,
    pub row_elapsed_ms: Option<u64>,
    pub total_duration: Option<Seq<char>>,
    pub total_size: Option<Seq<char>>,
}

impl View for LiveUpdate {
    type V = LiveUpdateModel;

    open spec fn view(&self) -> LiveUpdateModel {
        LiveUpdateModel {
            idle: self.idle,
            row_elapsed_ms: self.row_elapsed_ms,
            total_duration: text::option_text(self.total_duration),
            total_size: text::option_text(self.total_size),
        }
    }
}

/// What is to be shown at a moment between rebuilds.
pub open spec fn live(
    cache: UiUpdateCache,
    key: UiUpdateKey,
    now_ms: u64,
    free_space: Option<u64>,
) -> LiveUpdateModel {
    let elapsed = recorded_ms(key, now_ms);
    let ticks = elapsed is Some && recorded_second(key, now_ms) != cache.shown_second();
    if elapsed is None && key.playing_index is None && free_space is None {
        LiveUpdateModel {
            idle: true,
            row_elapsed_ms: None,
            total_duration: None,
            total_size: None,
        }
    } else {
        LiveUpdateModel {
            idle: false,
            row_elapsed_ms: if ticks {
                elapsed
            } else {
                None
            },
            total_duration: if ticks {
                Some(
                    durations_shown(
                        cache.totals().0 as nat,
                        key.record_length_ms as nat + elapsed->0 as nat,
                    ),
                )
            } else {
                None
            },
            total_size: match free_space {
                Some(free) => Some(
                    sizes_shown(
                        cache.totals().1 as nat,
                        vstd::math::min(
                            cache.totals().1 + free,
                            u64::MAX as int,
                        ) as nat,
                    ),
                ),
                None => None,
            },
        }
    }
}

/// A copy that was just made is kept until something changes.
pub proof fn fresh_copy_is_kept(cache: UiUpdateCache, key: UiUpdateKey)
    requires
        cache.built_for() == Some(key),
    ensures
        !structure_differs(cache.built_for()->0, key),
        !navigation_differs(cache.built_for()->0, key),
{
}

/// Whether the places rise; one may stand there more than once.
pub open spec fn in_places(indices: Seq<usize>) -> bool {
    forall|i: int, j: int|
        #![trigger indices[i], indices[j]]
        0 <= i < j < indices.len() ==> indices[i] <= indices[j]
}

/// The section next to a place: the nearest newer one when `next`, else the
/// nearest older one.
pub open spec fn is_adjacent(indices: Seq<usize>, current: usize, next: bool, r: Option<usize>) -> bool {
    match r {
        Some(found) => {
            &&& indices.contains(found)
            &&& if next {
                found > current
            } else {
                found < current
            }
            &&& forall|i: int|
                0 <= i < indices.len() ==> if next {
                    #[trigger] indices[i] <= current || indices[i] >= found
                } else {
                    indices[i] >= current || indices[i] <= found
                }
        },
        None => forall|i: int|
            0 <= i < indices.len() ==> if next {
                #[trigger] indices[i] <= current
            } else {
                indices[i] >= current
            },
    }
}

/// Finds the section next to a place by halving.
pub fn adjacent_section_index(
    section_indices: &[usize],
    current_index: usize,
    next: bool,
) -> (r: Option<usize>)
    requires
        in_places(section_indices@),
    ensures
        is_adjacent(section_indices@, current_index, next, r),
{
    let total: usize = section_indices.len();
    let mut low: usize = 0;
    let mut high: usize = total;
    while low < high
        invariant
            low <= high <= total == section_indices@.len(),
            in_places(section_indices@),
            forall|i: int|
                0 <= i < low ==> if next {
                    #[trigger] section_indices@[i] <= current_index
                } else {
                    section_indices@[i] < current_index
                },
            forall|i: int|
                high <= i < total ==> if next {
                    #[trigger] section_indices@[i] > current_index
                } else {
                    section_indices@[i] >= current_index
                },
        decreases high - low,
    {
        let middle: usize = low + (high - low) / 2;
        let below = if next {
            section_indices[middle] <= current_index
        } else {
            section_indices[middle] < current_index
        };
        if below {
            low = middle + 1;
        } else {
            high = middle;
        }
    }
    if next {
        if low < total {
            assert(section_indices@.contains(section_indices@[low as int]));
            Some(section_indices[low])
        } else {
            None
        }
    } else if low > 0 {
        assert(section_indices@.contains(section_indices@[low - 1]));
        Some(section_indices[low - 1])
    } else {
        None
    }
}

/// A row with its playing mark set.
pub open spec fn with_playing(rows: Seq<ui::FileInfoModel>, i: int, playing: bool) -> Seq<
    ui::FileInfoModel,
> {
    if 0 <= i < rows.len() {
        rows.update(i, ui::FileInfoModel { is_playing: playing, ..rows[i] })
    } else {
        rows
    }
}

/// Where a fragment's row stands in the list, if it has one.
pub open spec fn row_of(place: Option<usize>, total: nat) -> Option<int> {
    match place {
        Some(orig) => if orig < total && 0 <= ((total - 1 - orig) as i32) < total {
            Some((total - 1 - orig) as i32 as int)
        } else {
            None
        },
        None => None,
    }
}

/// The row that changes when the playing mark of a fragment is set.
pub open spec fn changed_row(
    rows: Seq<ui::FileInfoModel>,
    place: Option<usize>,
    playing: bool,
) -> Option<int> {
    match row_of(place, rows.len()) {
        Some(i) => if rows[i].is_playing != playing {
            Some(i)
        } else {
            None
        },
        None => None,
    }
}

/// Rows after the playing mark of a fragment was set.
pub open spec fn mark_row(
    rows: Seq<ui::FileInfoModel>,
    place: Option<usize>,
    playing: bool,
) -> Seq<ui::FileInfoModel> {
    match row_of(place, rows.len()) {
        Some(i) => with_playing(rows, i, playing),
        None => rows,
    }
}

fn set_playing(rows: &mut Vec<FileInfo>, place: Option<usize>, playing: bool) -> (r: Option<usize>)
    ensures
        ui::row_models(final(rows)@) == mark_row(ui::row_models(old(rows)@), place, playing),
        match r {
            Some(i) => changed_row(ui::row_models(old(rows)@), place, playing) == Some(i as int),
            None => changed_row(ui::row_models(old(rows)@), place, playing) is None,
        },
{
    let orig: usize = match place {
        Some(orig) => orig,
        None => return None,
    };
    let place_ui: i32 = indexes::orig_to_ui_index(orig, rows.len());
    if place_ui < 0 || place_ui as usize >= rows.len() {
        return None;
    }
    let i: usize = place_ui as usize;
    let ghost before = ui::row_models(rows@);
    assert(before[i as int] == rows@[i as int]@);
    if rows[i].is_playing != playing {
        rows[i].is_playing = playing;
        assert(ui::row_models(rows@) =~= with_playing(before, i as int, playing));
        Some(i)
    } else {
        assert(with_playing(before, i as int, playing) =~= before);
        None
    }
}

/// Moves the playing mark: only the previous and the new row of a list without
/// a recording are touched. Gives the rows that changed.
pub fn update_playing_rows(
    rows: &mut Vec<FileInfo>,
    previous_index: Option<usize>,
    playing_index: Option<usize>,
) -> (r: [Option<usize>; 2])
    ensures
        previous_index == playing_index ==> {
            &&& final(rows)@ == old(rows)@
            &&& r@ == seq![None::<usize>, None::<usize>]
        },
        previous_index != playing_index ==> {
            let before = ui::row_models(old(rows)@);
            let middle = mark_row(before, previous_index, false);
            &&& ui::row_models(final(rows)@) == mark_row(middle, playing_index, true)
            &&& changed_row(before, previous_index, false) == place_of(r@[0])
            &&& changed_row(middle, playing_index, true) == place_of(r@[1])
        },
{
    if same_place(previous_index, playing_index) {
        let r = [None, None];
        assert(r@ =~= seq![None::<usize>, None::<usize>]);
        return r;
    }
    let first = set_playing(rows, previous_index, false);
    let second = set_playing(rows, playing_index, true);
    [first, second]
}

/// A place as a number.
pub open spec fn place_of(i: Option<usize>) -> Option<int> {
    match i {
        Some(i) => Some(i as int),
        None => None,
    }
}

/// Sets the time of the recording row, and of no other row. Gives whether what
/// is shown changed.
pub fn update_recording_row_duration(
    rows: &mut Vec<FileInfo>,
    current_index: i32,
    elapsed_ms: u64,
) -> (changed: bool)
    ensures
        ({
            let before = ui::row_models(old(rows)@);
            let shown = crate::utils::format::clock(elapsed_ms as nat / 1000, false);
            let i = current_index as int;
            &&& changed == (0 <= i < before.len() && before[i].is_recording && before[i].duration
                != shown)
            &&& ui::row_models(final(rows)@) == (if changed {
                before.update(i, ui::FileInfoModel { duration: shown, ..before[i] })
            } else {
                before
            })
        }),
{
    if current_index < 0 || current_index as usize >= rows.len() {
        return false;
    }
    let i: usize = current_index as usize;
    let ghost before = ui::row_models(rows@);
    assert(before[i as int] == rows@[i as int]@);
    if !rows[i].is_recording {
        return false;
    }
    let duration = crate::utils::format::format_duration(elapsed_ms as u128, false);
    if text::same_text(rows[i].duration.as_str(), duration.as_str()) {
        return false;
    }
    let ghost shown = duration@;
    rows[i].duration = duration;
    assert(ui::row_models(rows@) =~= before.update(
        i as int,
        ui::FileInfoModel { duration: shown, ..before[i as int] },
    ));
    true
}

/// The row of the selection, a row of a running recording counted in.
pub open spec fn selected_row(
    total: nat,
    current: Option<usize>,
    mode: RecordingMode,
    is_recording: bool,
) -> i32 {
    if is_recording && mode != RecordingMode::Update {
        match current {
            Some(i) => if mode == RecordingMode::Insert && i < total {
                (total - i - 1) as i32
            } else {
                0i32
            },
            None => 0i32,
        }
    } else {
        match current {
            Some(i) => if i < total {
                (total - 1 - i) as i32
            } else if total > 0 {
                0i32
            } else {
                -1i32
            },
            None => if total > 0 {
                0i32
            } else {
                -1i32
            },
        }
    }
}

/// Finds the row of the selection.
pub fn file_list_current_index(
    total_files: usize,
    current_index: Option<usize>,
    recording_mode: RecordingMode,
    is_recording: bool,
) -> (r: i32)
    ensures
        r == selected_row(total_files as nat, current_index, recording_mode, is_recording),
{
    let known: Option<usize> = match current_index {
        Some(i) => if i < total_files {
            Some(i)
        } else {
            None
        },
        None => None,
    };
    if is_recording && recording_mode != RecordingMode::Update {
        if recording_mode == RecordingMode::Insert {
            if let Some(i) = known {
                return (total_files - i - 1) as i32;
            }
        }
        return 0;
    }
    match known {
        Some(i) => indexes::orig_to_ui_index(i, total_files),
        None => if total_files > 0 {
            0
        } else {
            -1
        },
    }
}

} // verus!
