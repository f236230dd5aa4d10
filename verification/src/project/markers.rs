//! The markers of a fragment and the sounds that they stand for.
use crate::project::marker_map::MarkerMap;
use crate::project::project;
use crate::project::project::{MarkerAsset, ProjectFile};
use crate::utils::text;
use vstd::hash_map::StringHashMap;
use vstd::prelude::*;

verus! {

/// Whether two lists hold the same names, the second one in order.
pub open spec fn sorted_from(before: Seq<Seq<char>>, after: Seq<Seq<char>>) -> bool {
    text::in_order(after) && after.to_multiset() == before.to_multiset()
}

/// Sorts the markers of a fragment.
pub fn normalize_markers(file: &mut ProjectFile)
    ensures
        sorted_from(old(file)@.markers, final(file)@.markers),
        final(file)@ == (project::ProjectFileModel {
            markers: final(file)@.markers,
            ..old(file)@
        }),
{
    let mut markers: Vec<String> = Vec::new();
    std::mem::swap(&mut markers, &mut file.markers);
    file.markers = text::sort_texts(markers);
}

/// Whether a marker starts a section.
pub open spec fn is_section(
    markers: Map<Seq<char>, project::MarkerSettingsModel>,
    name: Seq<char>,
) -> bool {
    markers.dom().contains(name) && markers[name].section
}

/// Whether a fragment starts a section.
pub open spec fn starts_section(
    file: project::ProjectFileModel,
    markers: Map<Seq<char>, project::MarkerSettingsModel>,
) -> bool {
    exists|k: int| 0 <= k < file.markers.len() && is_section(markers, #[trigger] file.markers[k])
}

/// Tells whether a marker starts a section.
pub fn marker_is_section(markers: &MarkerMap, name: &str) -> (r: bool)
    ensures
        r == is_section(markers@, name@),
{
    match markers.get(name) {
        Some(settings) => settings.section,
        None => false,
    }
}

/// Tells whether a fragment starts a section.
pub fn file_starts_section(file: &ProjectFile, markers: &MarkerMap) -> (r: bool)
    ensures
        r == starts_section(file@, markers@),
{
    let mut k: usize = 0;
    while k < file.markers.len()
        invariant
            k <= file.markers.len(),
            forall|j: int| 0 <= j < k ==> !is_section(markers@, #[trigger] file@.markers[j]),
        decreases file.markers.len() - k,
    {
        assert(file@.markers[k as int] == file.markers@[k as int]@);
        if marker_is_section(markers, file.markers[k].as_str()) {
            return true;
        }
        k = k + 1;
    }
    false
}

/// The title of a section that has none of its own.
pub open spec fn section_title(number: nat) -> Seq<char> {
    "Title for "@ + text::decimal(number)
}

fn section_title_text(index: usize) -> (r: String)
    ensures
        r@ == section_title((index + 1) as nat),
{
    "Title for ".to_owned().concat(text::decimal_text(index as u128 + 1).as_str())
}

/// The names of a list that are not in another, in their order.
pub open spec fn without(names: Seq<Seq<char>>, gone: Seq<Seq<char>>) -> Seq<Seq<char>>
    decreases names.len(),
{
    if names.len() == 0 {
        Seq::empty()
    } else {
        let rest = without(names.drop_last(), gone);
        if gone.contains(names.last()) {
            rest
        } else {
            rest.push(names.last())
        }
    }
}

/// Whether a name is in a list.
pub fn contains_text(v: &Vec<String>, name: &str) -> (r: bool)
    ensures
        r == text::texts(v@).contains(name@),
{
    let mut i: usize = 0;
    while i < v.len()
        invariant
            i <= v.len(),
            forall|k: int| 0 <= k < i ==> #[trigger] text::texts(v@)[k] != name@,
        decreases v.len() - i,
    {
        assert(text::texts(v@)[i as int] == v@[i as int]@);
        if text::same_text(v[i].as_str(), name) {
            return true;
        }
        i = i + 1;
    }
    false
}

fn without_texts(names: &Vec<String>, gone: &Vec<String>) -> (r: Vec<String>)
    ensures
        text::texts(r@) == without(text::texts(names@), text::texts(gone@)),
{
    let ghost all = text::texts(names@);
    let mut out: Vec<String> = Vec::new();
    let mut i: usize = 0;
    assert(text::texts(out@) =~= without(all.take(0), text::texts(gone@)));
    while i < names.len()
        invariant
            i <= names.len(),
            all == text::texts(names@),
            text::texts(out@) == without(all.take(i as int), text::texts(gone@)),
        decreases names.len() - i,
    {
        let ghost before = text::texts(out@);
        proof {
            assert(all.take(i + 1).drop_last() =~= all.take(i as int));
            assert(all.take(i + 1).last() == names@[i as int]@);
        }
        if !contains_text(gone, names[i].as_str()) {
            out.push(names[i].clone());
            assert(text::texts(out@) =~= before.push(names@[i as int]@));
        }
        i = i + 1;
    }
    assert(all.take(i as int) =~= all);
    out
}

/// A fragment after a marker was switched: taken away if it was there, else
/// added. A new section gets a title if it has none.
pub open spec fn switched(
    before: project::ProjectFileModel,
    after: project::ProjectFileModel,
    name: Seq<char>,
    section: bool,
    number: nat,
) -> bool {
    if before.markers.contains(name) {
        &&& sorted_from(without(before.markers, seq![name]), after.markers)
        &&& after == (project::ProjectFileModel { markers: after.markers, ..before })
    } else {
        &&& sorted_from(before.markers.push(name), after.markers)
        &&& after == (project::ProjectFileModel {
            markers: after.markers,
            title: if section && before.title.len() == 0 {
                section_title(number)
            } else {
                before.title
            },
            ..before
        })
    }
}

/// Switches a marker of the fragment in place `index`.
pub fn toggle_marker(file: &mut ProjectFile, name: &str, section: bool, index: usize)
    ensures
        switched(old(file)@, final(file)@, name@, section, (index + 1) as nat),
{
    if contains_text(&file.markers, name) {
        let mut gone: Vec<String> = Vec::new();
        gone.push(name.to_owned());
        assert(text::texts(gone@) =~= seq![name@]);
        file.markers = without_texts(&file.markers, &gone);
        normalize_markers(file);
    } else {
        file.markers.push(name.to_owned());
        assert(file@.markers =~= old(file)@.markers.push(name@));
        normalize_markers(file);
        if section && file.title.as_str().is_empty() {
            file.title = section_title_text(index);
        }
    }
}

/// A list with the names that are not in it yet put behind it.
pub open spec fn with_new(names: Seq<Seq<char>>, added: Seq<Seq<char>>) -> Seq<Seq<char>>
    decreases added.len(),
{
    if added.len() == 0 {
        names
    } else {
        let before = with_new(names, added.drop_last());
        if before.contains(added.last()) {
            before
        } else {
            before.push(added.last())
        }
    }
}

/// Whether putting names behind a list brings in a section.
pub open spec fn brings_section(
    names: Seq<Seq<char>>,
    added: Seq<Seq<char>>,
    markers: Map<Seq<char>, project::MarkerSettingsModel>,
) -> bool
    decreases added.len(),
{
    if added.len() == 0 {
        false
    } else {
        brings_section(names, added.drop_last(), markers) || (!with_new(
            names,
            added.drop_last(),
        ).contains(added.last()) && is_section(markers, added.last()))
    }
}

/// Adds markers to the fragment in place `index`. A new section gets a title if
/// it has none.
pub fn add_markers(
    file: &mut ProjectFile,
    added: &Vec<String>,
    markers: &MarkerMap,
    index: usize,
)
    ensures
        sorted_from(
            with_new(old(file)@.markers, text::texts(added@)),
            final(file)@.markers,
        ),
        final(file)@ == (project::ProjectFileModel {
            markers: final(file)@.markers,
            title: if brings_section(old(file)@.markers, text::texts(added@), markers@)
                && old(file)@.title.len() == 0 {
                section_title((index + 1) as nat)
            } else {
                old(file)@.title
            },
            ..old(file)@
        }),
{
    let ghost all = text::texts(added@);
    let ghost names = file@.markers;
    let mut has_section = false;
    let mut i: usize = 0;
    assert(all.take(0) =~= Seq::empty());
    while i < added.len()
        invariant
            i <= added.len(),
            all == text::texts(added@),
            names == old(file)@.markers,
            file@.markers == with_new(names, all.take(i as int)),
            has_section == brings_section(names, all.take(i as int), markers@),
            file@ == (project::ProjectFileModel { markers: file@.markers, ..old(file)@ }),
        decreases added.len() - i,
    {
        let ghost before = file@.markers;
        proof {
            assert(all.take(i + 1).drop_last() =~= all.take(i as int));
            assert(all.take(i + 1).last() == added@[i as int]@);
        }
        if !contains_text(&file.markers, added[i].as_str()) {
            file.markers.push(added[i].clone());
            assert(file@.markers =~= before.push(added@[i as int]@));
            if marker_is_section(markers, added[i].as_str()) {
                has_section = true;
            }
        }
        i = i + 1;
    }
    assert(all.take(i as int) =~= all);
    if has_section && file.title.as_str().is_empty() {
        file.title = section_title_text(index);
    }
    normalize_markers(file);
}

/// Takes markers away from a fragment.
pub fn remove_markers(file: &mut ProjectFile, gone: &Vec<String>)
    ensures
        sorted_from(without(old(file)@.markers, text::texts(gone@)), final(file)@.markers),
        final(file)@ == (project::ProjectFileModel {
            markers: final(file)@.markers,
            ..old(file)@
        }),
{
    file.markers = without_texts(&file.markers, gone);
    normalize_markers(file);
}

/// Replaces the markers of a fragment by a list of names, each taken once.
pub fn set_markers(file: &mut ProjectFile, names: &Vec<String>)
    ensures
        sorted_from(with_new(Seq::empty(), text::texts(names@)), final(file)@.markers),
        final(file)@ == (project::ProjectFileModel {
            markers: final(file)@.markers,
            ..old(file)@
        }),
{
    let ghost all = text::texts(names@);
    let mut once: Vec<String> = Vec::new();
    let mut i: usize = 0;
    assert(all.take(0) =~= Seq::empty());
    assert(text::texts(once@) =~= Seq::empty());
    while i < names.len()
        invariant
            i <= names.len(),
            all == text::texts(names@),
            text::texts(once@) == with_new(Seq::empty(), all.take(i as int)),
        decreases names.len() - i,
    {
        let ghost before = text::texts(once@);
        proof {
            assert(all.take(i + 1).drop_last() =~= all.take(i as int));
            assert(all.take(i + 1).last() == names@[i as int]@);
        }
        if !contains_text(&once, names[i].as_str()) {
            once.push(names[i].clone());
            assert(text::texts(once@) =~= before.push(names@[i as int]@));
        }
        i = i + 1;
    }
    assert(all.take(i as int) =~= all);
    file.markers = text::sort_texts(once);
}

proof fn with_new_facts(names: Seq<Seq<char>>, added: Seq<Seq<char>>, name: Seq<char>)
    requires
        names.no_duplicates(),
    ensures
        with_new(names, added).no_duplicates(),
        with_new(names, added).contains(name) <==> names.contains(name) || added.contains(name),
    decreases added.len(),
{
    if added.len() > 0 {
        let rest = added.drop_last();
        let before = with_new(names, rest);
        with_new_facts(names, rest, name);
        with_new_facts(names, rest, added.last());
        assert(added =~= rest.push(added.last()));
        if added.contains(name) && !rest.contains(name) {
            let k = choose|k: int| 0 <= k < added.len() && added[k] == name;
            if k < rest.len() {
                assert(rest[k] == name);
            }
        }
        if rest.contains(name) {
            let k = choose|k: int| 0 <= k < rest.len() && rest[k] == name;
            assert(added[k] == name);
        }
        assert(added[added.len() - 1] == added.last());
        if !before.contains(added.last()) {
            let after = before.push(added.last());
            assert(after[after.len() - 1] == added.last());
            if before.contains(name) {
                let k = choose|k: int| 0 <= k < before.len() && before[k] == name;
                assert(after[k] == name);
            }
            if after.contains(name) && !before.contains(name) {
                let k = choose|k: int| 0 <= k < after.len() && after[k] == name;
                if k < before.len() {
                    assert(before[k] == name);
                }
            }
        }
    }
}

/// Setting markers leaves exactly the given names, each once and in order.
pub proof fn set_markers_hold_each_name_once(
    names: Seq<Seq<char>>,
    after: Seq<Seq<char>>,
    name: Seq<char>,
)
    requires
        sorted_from(with_new(Seq::empty(), names), after),
    ensures
        after.contains(name) <==> names.contains(name),
        after.no_duplicates(),
        text::in_order(after),
{
    let once = with_new(Seq::empty(), names);
    with_new_facts(Seq::empty(), names, name);
    once.to_multiset_ensures();
    after.to_multiset_ensures();
    once.lemma_multiset_has_no_duplicates();
    after.lemma_multiset_has_no_duplicates_conv();
    assert(after.contains(name) <==> after.to_multiset().count(name) > 0);
    assert(once.contains(name) <==> once.to_multiset().count(name) > 0);
}

/// A marker that is switched on and then off again leaves the other markers as
/// they were.
pub proof fn switching_twice_restores(
    names: Seq<Seq<char>>,
    name: Seq<char>,
)
    requires
        !names.contains(name),
    ensures
        without(names.push(name), seq![name]) == names,
{
    assert(seq![name].contains(name)) by {
        assert(seq![name][0] == name);
    }
    assert(names.push(name).drop_last() =~= names);
    without_absent(names, name);
}

proof fn without_absent(names: Seq<Seq<char>>, name: Seq<char>)
    requires
        !names.contains(name),
    ensures
        without(names, seq![name]) == names,
    decreases names.len(),
{
    if names.len() > 0 {
        let rest = names.drop_last();
        if rest.contains(name) {
            let k = choose|k: int| 0 <= k < rest.len() && rest[k] == name;
            assert(names[k] == name);
        }
        without_absent(rest, name);
        assert(names[names.len() - 1] == names.last());
        assert(!seq![name].contains(names.last())) by {
            if seq![name].contains(names.last()) {
                let k = choose|k: int| 0 <= k < seq![name].len() && seq![name][k] == names.last();
                assert(seq![name][k] == name);
            }
        }
        assert(names =~= rest.push(names.last()));
    } else {
        assert(without(names, seq![name]) =~= names);
    }
}

/// A sound under a recording.
#[derive(Debug)]
pub struct Underlay<T> {
    pub samples: Vec<T>,
    /// By how many percent the sound is softened.
    pub reduction: u8,
    pub repeat: Option<i32>,
}

/// Copies samples.
pub fn copy_samples<T: Copy>(v: &Vec<T>) -> (r: Vec<T>)
    ensures
        r@ == v@,
{
    let mut out: Vec<T> = Vec::new();
    let mut i: usize = 0;
    while i < v.len()
        invariant
            i <= v.len(),
            out@ == v@.take(i as int),
        decreases v.len() - i,
    {
        proof {
            assert(v@.take(i + 1) =~= v@.take(i as int).push(v@[i as int]));
        }
        out.push(v[i]);
        i = i + 1;
    }
    assert(v@.take(i as int) =~= v@);
    out
}

/// How often a sound of kind `add` is played. A negative count is not
/// meaningful there: the sound is played once.
pub open spec fn add_count(repeat: Option<i32>) -> nat {
    match repeat {
        None => 1,
        Some(n) => if n < 0 {
            1
        } else {
            n as nat
        },
    }
}

fn times_added(repeat: Option<i32>) -> (r: u32)
    ensures
        r == add_count(repeat),
        r <= i32::MAX,
{
    match repeat {
        Some(n) => if n < 0 {
            1
        } else {
            n as u32
        },
        None => 1,
    }
}

/// The samples of a list of sounds.
pub open spec fn sound_views<T>(sounds: Seq<Vec<T>>) -> Seq<Seq<T>> {
    sounds.map_values(|v: Vec<T>| v@)
}

pub open spec fn is_underlay(kind: Seq<char>) -> bool {
    kind == "underlay"@ || kind == "undelay"@
}

/// Puts the sound of a marker where its kind says: among the sounds that are
/// played one after another, or under the recording. A marker whose sound is
/// not named or not found does nothing.
pub fn process_marker_asset<T: Copy>(
    asset: &MarkerAsset,
    sound: Option<&Vec<T>>,
    sounds: &mut Vec<Vec<T>>,
    underlays: &mut Vec<Underlay<T>>,
)
    ensures
        ({
            let adds = asset@.audio.len() > 0 && sound is Some && asset@.kind == "add"@;
            let lies_under = asset@.audio.len() > 0 && sound is Some && asset@.kind != "add"@
                && is_underlay(asset@.kind);
            &&& sound_views(final(sounds)@) == (if adds {
                sound_views(old(sounds)@) + Seq::new(
                    add_count(asset@.repeat),
                    |i: int| sound->0@,
                )
            } else {
                sound_views(old(sounds)@)
            })
            &&& if lies_under {
                &&& final(underlays)@.len() == old(underlays)@.len() + 1
                &&& final(underlays)@.drop_last() == old(underlays)@
                &&& final(underlays)@.last().samples@ == sound->0@
                &&& final(underlays)@.last().reduction == (match asset@.reduction {
                    Some(percent) => percent,
                    None => 75u8,
                })
                &&& final(underlays)@.last().repeat == asset@.repeat
            } else {
                final(underlays)@ == old(underlays)@
            }
        }),
{
    if asset.audio.as_str().is_empty() {
        return;
    }
    let samples = match sound {
        Some(samples) => samples,
        None => return,
    };
    if text::same_text(asset.kind.as_str(), "add") {
        let count: u32 = times_added(asset.repeat);
        let mut i: u32 = 0;
        let ghost before = sound_views(sounds@);
        assert(before + Seq::new(0, |i: int| samples@) =~= before);
        while i < count
            invariant
                0 <= i <= count,
                sound_views(sounds@) == before + Seq::new(i as nat, |i: int| samples@),
            decreases count - i,
        {
            let ghost now = sound_views(sounds@);
            sounds.push(copy_samples(samples));
            proof {
                assert(sound_views(sounds@) =~= now.push(samples@));
                assert(now.push(samples@) =~= before + Seq::new(
                    (i + 1) as nat,
                    |i: int| samples@,
                ));
            }
            i = i + 1;
        }
    } else if text::same_text(asset.kind.as_str(), "underlay") || text::same_text(
        asset.kind.as_str(),
        "undelay",
    ) {
        let reduction: u8 = match asset.reduction {
            Some(percent) => percent,
            None => 75,
        };
        underlays.push(
            Underlay { samples: copy_samples(samples), reduction, repeat: asset.repeat },
        );
        assert(underlays@.drop_last() =~= old(underlays)@);
    }
}

/// How many samples each known sound has at the rate of an export.
pub struct SoundLengths {
    lengths: StringHashMap<u64>,
}

impl View for SoundLengths {
    type V = Map<Seq<char>, u64>;

    closed spec fn view(&self) -> Map<Seq<char>, u64> {
        self.lengths@
    }
}

impl SoundLengths {
    pub fn new() -> (r: Self)
        ensures
            r@ == Map::<Seq<char>, u64>::empty(),
    {
        SoundLengths { lengths: StringHashMap::new() }
    }

    pub fn insert(&mut self, audio: String, samples: u64)
        ensures
            final(self)@ == old(self)@.insert(audio@, samples),
    {
        self.lengths.insert(audio, samples);
    }

    fn get(&self, audio: &str) -> (r: Option<u64>)
        ensures
            r == (if self@.contains_key(audio@) {
                Some(self@[audio@])
            } else {
                None
            }),
    {
        match self.lengths.get(audio) {
            Some(n) => Some(*n),
            None => None,
        }
    }
}

/// The samples that a sound adds before or after a recording: those of the sound, as
/// often as it is played.
pub open spec fn added_samples(
    asset: project::MarkerAssetModel,
    lengths: Map<Seq<char>, u64>,
) -> nat {
    if asset.audio.len() > 0 && lengths.contains_key(asset.audio) && asset.kind == "add"@ {
        lengths[asset.audio] as nat * add_count(asset.repeat)
    } else {
        0
    }
}

/// The samples that the first `n` markers of a fragment add before it.
pub open spec fn begin_samples(
    file: project::ProjectFileModel,
    markers: Map<Seq<char>, project::MarkerSettingsModel>,
    lengths: Map<Seq<char>, u64>,
    n: int,
) -> nat
    decreases n,
{
    if n <= 0 {
        0
    } else {
        let name = file.markers[n - 1];
        begin_samples(file, markers, lengths, n - 1) + if markers.dom().contains(name) {
            added_samples(markers[name].assets.begin, lengths)
        } else {
            0
        }
    }
}

/// The samples that the first `n` markers of a fragment add after it.
pub open spec fn end_samples(
    file: project::ProjectFileModel,
    markers: Map<Seq<char>, project::MarkerSettingsModel>,
    lengths: Map<Seq<char>, u64>,
    n: int,
) -> nat
    decreases n,
{
    if n <= 0 {
        0
    } else {
        let name = file.markers[n - 1];
        end_samples(file, markers, lengths, n - 1) + if markers.dom().contains(name) {
            added_samples(markers[name].assets.end, lengths)
        } else {
            0
        }
    }
}

/// All samples that markers add before and after a fragment.
pub open spec fn all_added(
    file: project::ProjectFileModel,
    markers: Map<Seq<char>, project::MarkerSettingsModel>,
    lengths: Map<Seq<char>, u64>,
) -> (nat, nat) {
    let n = file.markers.len() as int;
    (begin_samples(file, markers, lengths, n), end_samples(file, markers, lengths, n))
}

proof fn added_grows(
    file: project::ProjectFileModel,
    markers: Map<Seq<char>, project::MarkerSettingsModel>,
    lengths: Map<Seq<char>, u64>,
    m: int,
    n: int,
)
    requires
        0 <= m <= n,
    ensures
        begin_samples(file, markers, lengths, m) <= begin_samples(file, markers, lengths, n),
        end_samples(file, markers, lengths, m) <= end_samples(file, markers, lengths, n),
    decreases n,
{
    if m < n {
        added_grows(file, markers, lengths, m, n - 1);
    }
}

fn asset_samples(asset: &MarkerAsset, lengths: &SoundLengths) -> (r: u64)
    requires
        added_samples(asset@, lengths@) <= u64::MAX,
    ensures
        r == added_samples(asset@, lengths@),
{
    if asset.audio.as_str().is_empty() || !text::same_text(asset.kind.as_str(), "add") {
        return 0;
    }
    match lengths.get(asset.audio.as_str()) {
        None => 0,
        Some(samples) => {
            assert(samples * 1 == samples && samples * 0 == 0);
            samples * times_added(asset.repeat) as u64
        },
    }
}

/// Milliseconds that markers add before and after a fragment.
pub fn compute_file_add_durations_ms(
    file: &ProjectFile,
    markers: &MarkerMap,
    lengths: &SoundLengths,
    sample_rate: u32,
    channels: u16,
) -> (r: (u64, u64))
    requires
        sample_rate > 0,
        channels > 0,
        all_added(file@, markers@, lengths@).0 * 1000 <= u64::MAX,
        all_added(file@, markers@, lengths@).1 * 1000 <= u64::MAX,
    ensures
        r.0 == all_added(file@, markers@, lengths@).0 * 1000 / (sample_rate * channels) as nat,
        r.1 == all_added(file@, markers@, lengths@).1 * 1000 / (sample_rate * channels) as nat,
{
    let mut begin: u64 = 0;
    let mut end: u64 = 0;
    let mut k: usize = 0;
    while k < file.markers.len()
        invariant
            k <= file.markers.len(),
            all_added(file@, markers@, lengths@).0 * 1000 <= u64::MAX,
            all_added(file@, markers@, lengths@).1 * 1000 <= u64::MAX,
            begin == begin_samples(file@, markers@, lengths@, k as int),
            end == end_samples(file@, markers@, lengths@, k as int),
        decreases file.markers.len() - k,
    {
        proof {
            assert(file@.markers[k as int] == file.markers@[k as int]@);
            added_grows(file@, markers@, lengths@, k + 1, file@.markers.len() as int);
        }
        if let Some(settings) = markers.get(file.markers[k].as_str()) {
            begin = begin + asset_samples(&settings.assets.begin, lengths);
            end = end + asset_samples(&settings.assets.end, lengths);
        }
        k = k + 1;
    }
    let per_second: u64 = sample_rate as u64;
    assert(per_second * channels <= 0xffff_ffff * 0xffff) by (nonlinear_arith)
        requires
            per_second <= 0xffff_ffff,
            channels <= 0xffff,
    ;
    assert(per_second * channels > 0) by (nonlinear_arith)
        requires
            per_second > 0,
            channels > 0,
    ;
    let divisor: u64 = per_second * channels as u64;
    (begin * 1000 / divisor, end * 1000 / divisor)
}

/// The length of a fragment with the sounds of its markers.
pub open spec fn effective_ms(
    file: project::ProjectFileModel,
    markers: Map<Seq<char>, project::MarkerSettingsModel>,
    lengths: Map<Seq<char>, u64>,
    divisor: nat,
) -> nat {
    let added = all_added(file, markers, lengths);
    file.duration_ms + added.0 * 1000 / divisor + added.1 * 1000 / divisor
}

/// Whether the lengths around a fragment can be counted in milliseconds.
pub open spec fn lengths_fit(
    file: project::ProjectFileModel,
    markers: Map<Seq<char>, project::MarkerSettingsModel>,
    lengths: Map<Seq<char>, u64>,
    divisor: nat,
) -> bool {
    &&& all_added(file, markers, lengths).0 * 1000 <= u64::MAX
    &&& all_added(file, markers, lengths).1 * 1000 <= u64::MAX
    &&& effective_ms(file, markers, lengths, divisor) <= u64::MAX
}

fn wide_asset_samples(asset: &MarkerAsset, lengths: &SoundLengths) -> (r: u128)
    ensures
        r == added_samples(asset@, lengths@),
        r <= u64::MAX * i32::MAX,
{
    if asset.audio.as_str().is_empty() || !text::same_text(asset.kind.as_str(), "add") {
        return 0;
    }
    match lengths.get(asset.audio.as_str()) {
        None => 0,
        Some(samples) => {
            let count: u32 = times_added(asset.repeat);
            assert(samples * count <= u64::MAX * i32::MAX) by (nonlinear_arith)
                requires
                    samples <= u64::MAX,
                    0 <= count <= i32::MAX,
            ;
            samples as u128 * count as u128
        },
    }
}

/// Tells whether the lengths around a fragment can be counted in milliseconds.
pub fn lengths_countable(
    file: &ProjectFile,
    markers: &MarkerMap,
    lengths: &SoundLengths,
    sample_rate: u32,
    channels: u16,
) -> (r: bool)
    requires
        sample_rate > 0,
        channels > 0,
    ensures
        r == lengths_fit(file@, markers@, lengths@, (sample_rate * channels) as nat),
{
    let limit: u128 = u64::MAX as u128 / 1000;
    let total: usize = file.markers.len();
    let mut begin: u128 = 0;
    let mut end: u128 = 0;
    let mut k: usize = 0;
    while k < total
        invariant
            k <= total == file.markers@.len(),
            limit == u64::MAX as u128 / 1000,
            begin <= limit,
            end <= limit,
            begin == begin_samples(file@, markers@, lengths@, k as int),
            end == end_samples(file@, markers@, lengths@, k as int),
        decreases total - k,
    {
        proof {
            assert(file@.markers[k as int] == file.markers@[k as int]@);
            added_grows(file@, markers@, lengths@, k + 1, file@.markers.len() as int);
        }
        if let Some(settings) = markers.get(file.markers[k].as_str()) {
            begin = begin + wide_asset_samples(&settings.assets.begin, lengths);
            end = end + wide_asset_samples(&settings.assets.end, lengths);
        }
        if begin > limit || end > limit {
            return false;
        }
        k = k + 1;
    }
    assert(0 < sample_rate * channels <= 0xffff_ffff * 0xffff) by (nonlinear_arith)
        requires
            0 < sample_rate <= 0xffff_ffff,
            0 < channels <= 0xffff,
    ;
    let divisor: u128 = sample_rate as u128 * channels as u128;
    proof {
        vstd::arithmetic::div_mod::lemma_div_is_ordered_by_denominator(
            begin as int * 1000,
            1,
            divisor as int,
        );
        vstd::arithmetic::div_mod::lemma_div_is_ordered_by_denominator(
            end as int * 1000,
            1,
            divisor as int,
        );
    }
    file.duration_ms as u128 + begin * 1000 / divisor + end * 1000 / divisor <= u64::MAX as u128
}

/// The length of a fragment in milliseconds, with the sounds of its markers.
pub fn effective_duration_ms(
    file: &ProjectFile,
    markers: &MarkerMap,
    lengths: &SoundLengths,
    sample_rate: u32,
    channels: u16,
) -> (r: u64)
    requires
        sample_rate > 0,
        channels > 0,
        lengths_fit(file@, markers@, lengths@, (sample_rate * channels) as nat),
    ensures
        r == effective_ms(file@, markers@, lengths@, (sample_rate * channels) as nat),
{
    let (begin_ms, end_ms) = compute_file_add_durations_ms(
        file,
        markers,
        lengths,
        sample_rate,
        channels,
    );
    file.duration_ms + begin_ms + end_ms
}

/// The lengths of all fragments, with the sounds of their markers.
pub fn compute_effective_durations_ms(
    files: &[ProjectFile],
    markers: &MarkerMap,
    lengths: &SoundLengths,
    sample_rate: u32,
    channels: u16,
) -> (r: Vec<u64>)
    requires
        sample_rate > 0,
        channels > 0,
        forall|i: int|
            0 <= i < files@.len() ==> lengths_fit(
                #[trigger] files@[i]@,
                markers@,
                lengths@,
                (sample_rate * channels) as nat,
            ),
    ensures
        r@.len() == files@.len(),
        forall|i: int|
            0 <= i < r@.len() ==> #[trigger] r@[i] == effective_ms(
                files@[i]@,
                markers@,
                lengths@,
                (sample_rate * channels) as nat,
            ),
{
    let total: usize = files.len();
    let mut out: Vec<u64> = Vec::new();
    let mut i: usize = 0;
    while i < total
        invariant
            i <= total == files@.len(),
            sample_rate > 0,
            channels > 0,
            out@.len() == i,
            forall|k: int|
                0 <= k < files@.len() ==> lengths_fit(
                    #[trigger] files@[k]@,
                    markers@,
                    lengths@,
                    (sample_rate * channels) as nat,
                ),
            forall|k: int|
                0 <= k < i ==> #[trigger] out@[k] == effective_ms(
                    files@[k]@,
                    markers@,
                    lengths@,
                    (sample_rate * channels) as nat,
                ),
        decreases total - i,
    {
        assert(lengths_fit(files@[i as int]@, markers@, lengths@, (sample_rate * channels) as nat));
        out.push(effective_duration_ms(&files[i], markers, lengths, sample_rate, channels));
        i = i + 1;
    }
    out
}

proof fn last_counts(names: Seq<Seq<char>>, x: Seq<char>)
    requires
        names.len() > 0,
    ensures
        names.to_multiset().count(x) == names.drop_last().to_multiset().count(x) + if names.last()
            == x {
            1nat
        } else {
            0
        },
{
    let front = names.drop_last();
    front.to_multiset_ensures();
    assert(names =~= front.push(names.last()));
    assert(front.push(names.last()).to_multiset() =~= front.to_multiset().insert(names.last()));
}

proof fn named_counts(names: Seq<Seq<char>>, x: Seq<char>)
    ensures
        names.contains(x) <==> names.to_multiset().count(x) > 0,
{
    names.to_multiset_ensures();
}

proof fn without_counts(names: Seq<Seq<char>>, gone: Seq<Seq<char>>, x: Seq<char>)
    ensures
        without(names, gone).to_multiset().count(x) == if gone.contains(x) {
            0
        } else {
            names.to_multiset().count(x)
        },
    decreases names.len(),
{
    if names.len() == 0 {
        names.to_multiset_ensures();
        without(names, gone).to_multiset_ensures();
        named_counts(names, x);
        named_counts(without(names, gone), x);
        assert(without(names, gone) =~= names);
    } else {
        without_counts(names.drop_last(), gone, x);
        last_counts(names, x);
        let rest = without(names.drop_last(), gone);
        if !gone.contains(names.last()) {
            last_counts(rest.push(names.last()), x);
            assert(rest.push(names.last()).drop_last() =~= rest);
        }
    }
}

proof fn with_new_counts(names: Seq<Seq<char>>, added: Seq<Seq<char>>, x: Seq<char>)
    ensures
        with_new(names, added).to_multiset().count(x) == if !names.contains(x) && added.contains(
            x,
        ) {
            1
        } else {
            names.to_multiset().count(x)
        },
    decreases added.len(),
{
    named_counts(names, x);
    if added.len() > 0 {
        let rest = added.drop_last();
        let before = with_new(names, rest);
        with_new_counts(names, rest, x);
        assert(added[added.len() - 1] == added.last());
        assert(added.contains(x) == (rest.contains(x) || added.last() == x)) by {
            if rest.contains(x) {
                let k = choose|k: int| 0 <= k < rest.len() && rest[k] == x;
                assert(added[k] == x);
            }
            if added.contains(x) {
                let k = choose|k: int| 0 <= k < added.len() && added[k] == x;
                if k < rest.len() {
                    assert(rest[k] == x);
                }
            }
        }
        named_counts(before, x);
        if !before.contains(added.last()) {
            last_counts(before.push(added.last()), x);
            assert(before.push(added.last()).drop_last() =~= before);
        }
    }
}

/// Switching a marker changes that marker and no other one: it is there afterwards exactly
/// if it was not there before, and the others are there as often as before, in the order of
/// their names. Nothing else of the fragment changes, but that a new section without a title
/// gets one.
pub proof fn switching_changes_one_marker(
    before: project::ProjectFileModel,
    after: project::ProjectFileModel,
    name: Seq<char>,
    section: bool,
    number: nat,
    other: Seq<char>,
)
    requires
        switched(before, after, name, section, number),
    ensures
        after.markers.contains(name) == !before.markers.contains(name),
        other != name ==> after.markers.to_multiset().count(other)
            == before.markers.to_multiset().count(other),
        text::in_order(after.markers),
        after.path == before.path,
        after.author == before.author,
        after.year == before.year,
        after.hint == before.hint,
        after.size == before.size,
        after.duration_ms == before.duration_ms,
        after.title == if !before.markers.contains(name) && section && before.title.len() == 0 {
            "Title for "@ + text::decimal(number)
        } else {
            before.title
        },
{
    named_counts(before.markers, name);
    named_counts(after.markers, name);
    assert(seq![name].contains(name)) by {
        assert(seq![name][0] == name);
    }
    assert(seq![name].contains(other) ==> other == name);
    without_counts(before.markers, seq![name], name);
    without_counts(before.markers, seq![name], other);
    let longer = before.markers.push(name);
    assert(longer.drop_last() =~= before.markers);
    last_counts(longer, name);
    last_counts(longer, other);
}

/// Removing markers takes away the given names and leaves the others, each as often as
/// before, in the order of their names.
pub proof fn removing_takes_the_given_markers(
    before: Seq<Seq<char>>,
    gone: Seq<Seq<char>>,
    after: Seq<Seq<char>>,
    name: Seq<char>,
)
    requires
        sorted_from(without(before, gone), after),
    ensures
        text::in_order(after),
        gone.contains(name) ==> !after.contains(name),
        !gone.contains(name) ==> after.to_multiset().count(name) == before.to_multiset().count(
            name,
        ),
{
    without_counts(before, gone, name);
    named_counts(after, name);
}

/// Adding markers puts in each given name that was missing, once, and leaves the others as
/// often as before, in the order of their names.
pub proof fn adding_puts_in_the_missing_markers(
    before: Seq<Seq<char>>,
    added: Seq<Seq<char>>,
    after: Seq<Seq<char>>,
    name: Seq<char>,
)
    requires
        sorted_from(with_new(before, added), after),
    ensures
        text::in_order(after),
        added.contains(name) ==> after.contains(name),
        before.contains(name) ==> after.to_multiset().count(name) == before.to_multiset().count(
            name,
        ),
        !before.contains(name) ==> after.to_multiset().count(name) == if added.contains(name) {
            1nat
        } else {
            0
        },
{
    with_new_counts(before, added, name);
    named_counts(after, name);
    named_counts(before, name);
}

/// Adding markers brings in a section exactly if one of the names is that of a known marker
/// that starts a section and was not there before.
pub proof fn new_sections_are_missing_markers(
    names: Seq<Seq<char>>,
    added: Seq<Seq<char>>,
    markers: Map<Seq<char>, project::MarkerSettingsModel>,
)
    ensures
        brings_section(names, added, markers) == exists|k: int|
            0 <= k < added.len() && markers.dom().contains(#[trigger] added[k])
                && markers[added[k]].section == true && !names.contains(added[k]),
    decreases added.len(),
{
    if added.len() > 0 {
        let rest = added.drop_last();
        let last = added.last();
        new_sections_are_missing_markers(names, rest, markers);
        with_new_counts(names, rest, last);
        named_counts(with_new(names, rest), last);
        named_counts(names, last);
        assert(added[added.len() - 1] == last);
        if brings_section(names, rest, markers) {
            let k = choose|k: int|
                0 <= k < rest.len() && markers.dom().contains(#[trigger] rest[k])
                    && markers[rest[k]].section == true && !names.contains(rest[k]);
            assert(added[k] == rest[k]);
        }
        if exists|k: int|
            0 <= k < added.len() && markers.dom().contains(#[trigger] added[k])
                && markers[added[k]].section == true && !names.contains(added[k]) {
            let k = choose|k: int|
                0 <= k < added.len() && markers.dom().contains(#[trigger] added[k])
                    && markers[added[k]].section == true && !names.contains(added[k]);
            if k < rest.len() {
                assert(rest[k] == added[k]);
            } else if rest.contains(last) {
                let j = choose|j: int| 0 <= j < rest.len() && rest[j] == last;
                assert(rest[j] == last);
            }
        }
    }
}

/// A sound adds its own length as often as it is played, and only where it is added: once
/// without a number or with one below zero.
pub proof fn sounds_add_their_length(
    asset: project::MarkerAssetModel,
    lengths: Map<Seq<char>, u64>,
    length: u64,
)
    requires
        asset.audio.len() > 0,
        lengths.contains_key(asset.audio),
        lengths[asset.audio] == length,
    ensures
        asset.kind != "add"@ ==> added_samples(asset, lengths) == 0,
        asset.kind == "add"@ && asset.repeat is None ==> added_samples(asset, lengths) == length,
        asset.kind == "add"@ && (asset.repeat matches Some(n) && n < 0) ==> added_samples(
            asset,
            lengths,
        ) == length,
        asset.kind == "add"@ && (asset.repeat matches Some(n) && n >= 0) ==> added_samples(
            asset,
            lengths,
        ) == length * asset.repeat->0,
{
    if asset.kind == "add"@ {
        let n = add_count(asset.repeat);
        assert(length as nat * n == n * length as nat) by (nonlinear_arith);
        if n == 1 {
            assert(length as nat * n == length) by (nonlinear_arith)
                requires
                    n == 1,
            ;
        }
    }
}

/// A fragment lasts as long as its recording and the sounds of its known markers: each begin
/// before it, each end after it, in whole milliseconds on either side.
pub proof fn fragments_last_with_their_sounds(
    file: project::ProjectFileModel,
    markers: Map<Seq<char>, project::MarkerSettingsModel>,
    lengths: Map<Seq<char>, u64>,
    divisor: nat,
    name: Seq<char>,
)
    requires
        divisor > 0,
    ensures
        file.markers.len() == 0 ==> effective_ms(file, markers, lengths, divisor)
            == file.duration_ms,
        file.markers == seq![name] && !markers.dom().contains(name) ==> effective_ms(
            file,
            markers,
            lengths,
            divisor,
        ) == file.duration_ms,
        file.markers == seq![name] && markers.dom().contains(name) ==> effective_ms(
            file,
            markers,
            lengths,
            divisor,
        ) == file.duration_ms + added_samples(markers[name].assets.begin, lengths) * 1000 / divisor
            + added_samples(markers[name].assets.end, lengths) * 1000 / divisor,
{
    reveal_with_fuel(begin_samples, 2);
    reveal_with_fuel(end_samples, 2);
    assert(0nat * 1000 / divisor == 0) by (nonlinear_arith)
        requires
            divisor > 0,
    ;
}

} // verus!
