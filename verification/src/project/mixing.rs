//! One recording with the sounds of its markers. How two samples are mixed is left to
//! the caller.
use crate::project::marker_map::MarkerMap;
use crate::project::markers;
use crate::project::markers::{copy_samples, process_marker_asset, Underlay};
use crate::project::project;
use crate::project::project::ProjectFile;
use crate::utils::text;
use vstd::prelude::*;

verus! {

/// A sound under a recording, in the contracts: its samples, by how much it is
/// softened and how often it is repeated.
#[verifier::ext_equal]
pub ghost struct UnderlayModel<T> {
    pub samples: Seq<T>,
    pub reduction: u8,
    pub repeat: Option<i32>,
}

/// The models of a list of sounds under a recording.
pub open spec fn underlay_models<T>(v: Seq<Underlay<T>>) -> Seq<UnderlayModel<T>> {
    v.map_values(
        |u: Underlay<T>|
            UnderlayModel { samples: u.samples@, reduction: u.reduction, repeat: u.repeat },
    )
}

/// The sounds of the markers of a recording.
#[derive(Debug)]
pub struct MarkerSounds<T> {
    pub before: Vec<Vec<T>>,
    pub after: Vec<Vec<T>>,
    pub under_start: Vec<Underlay<T>>,
    pub under_end: Vec<Underlay<T>>,
}

/// The sounds that were found for a marker: that of its begin and that of its end.
#[derive(Debug)]
pub struct LoadedSounds<T> {
    pub begin: Option<Vec<T>>,
    pub end: Option<Vec<T>>,
}

/// What one sound adds: samples one after another, or samples under the recording.
pub open spec fn asset_adds<T>(asset: project::MarkerAssetModel, sound: Option<Vec<T>>) -> Seq<
    Seq<T>,
> {
    if asset.audio.len() > 0 && sound is Some && asset.kind == "add"@ {
        Seq::new(markers::add_count(asset.repeat), |i: int| sound->0@)
    } else {
        Seq::empty()
    }
}

pub open spec fn asset_underlays<T>(
    asset: project::MarkerAssetModel,
    sound: Option<Vec<T>>,
) -> Seq<UnderlayModel<T>> {
    if asset.audio.len() > 0 && sound is Some && asset.kind != "add"@ && markers::is_underlay(
        asset.kind,
    ) {
        seq![
            UnderlayModel {
                samples: sound->0@,
                reduction: match asset.reduction {
                    Some(percent) => percent,
                    None => 75u8,
                },
                repeat: asset.repeat,
            },
        ]
    } else {
        Seq::empty()
    }
}

/// The sounds of the first markers of a recording.
#[verifier::ext_equal]
pub ghost struct SoundsModel<T> {
    pub before: Seq<Seq<T>>,
    pub after: Seq<Seq<T>>,
    pub under_start: Seq<UnderlayModel<T>>,
    pub under_end: Seq<UnderlayModel<T>>,
}

pub open spec fn collected<T>(
    names: Seq<Seq<char>>,
    known: Map<Seq<char>, project::MarkerSettingsModel>,
    loaded: Seq<LoadedSounds<T>>,
    n: int,
) -> SoundsModel<T>
    decreases n,
{
    if n <= 0 {
        SoundsModel {
            before: Seq::empty(),
            after: Seq::empty(),
            under_start: Seq::empty(),
            under_end: Seq::empty(),
        }
    } else {
        let m = collected(names, known, loaded, n - 1);
        let name = names[n - 1];
        if known.dom().contains(name) {
            let assets = known[name].assets;
            let found = loaded[n - 1];
            SoundsModel {
                before: m.before + asset_adds(assets.begin, found.begin),
                after: m.after + asset_adds(assets.end, found.end),
                under_start: m.under_start + asset_underlays(assets.begin, found.begin),
                under_end: m.under_end + asset_underlays(assets.end, found.end),
            }
        } else {
            m
        }
    }
}

impl<T> View for MarkerSounds<T> {
    type V = SoundsModel<T>;

    open spec fn view(&self) -> SoundsModel<T> {
        SoundsModel {
            before: markers::sound_views(self.before@),
            after: markers::sound_views(self.after@),
            under_start: underlay_models(self.under_start@),
            under_end: underlay_models(self.under_end@),
        }
    }
}

fn take_asset<T: Copy>(
    asset: &project::MarkerAsset,
    sound: &Option<Vec<T>>,
    sounds: &mut Vec<Vec<T>>,
    underlays: &mut Vec<Underlay<T>>,
)
    ensures
        markers::sound_views(final(sounds)@) == markers::sound_views(old(sounds)@) + asset_adds(
            asset@,
            *sound,
        ),
        underlay_models(final(underlays)@) == underlay_models(old(underlays)@) + asset_underlays(
            asset@,
            *sound,
        ),
{
    let given: Option<&Vec<T>> = match sound {
        Some(v) => Some(v),
        None => None,
    };
    process_marker_asset(asset, given, sounds, underlays);
    proof {
        let before = old(underlays)@;
        let after = underlays@;
        assert(markers::sound_views(sounds@) =~= markers::sound_views(old(sounds)@) + asset_adds(
            asset@,
            *sound,
        ));
        if after.len() == before.len() + 1 {
            assert(after =~= before.push(after.last()));
        }
        assert(underlay_models(after) =~= underlay_models(before) + asset_underlays(
            asset@,
            *sound,
        ));
    }
}

/// Collects the sounds of the markers of a recording, in the order of the markers.
pub fn collect_sounds<T: Copy>(
    file: &ProjectFile,
    known: &MarkerMap,
    loaded: &Vec<LoadedSounds<T>>,
) -> (r: MarkerSounds<T>)
    requires
        loaded@.len() == file@.markers.len(),
    ensures
        r@ == collected(file@.markers, known@, loaded@, file@.markers.len() as int),
{
    let ghost names = file@.markers;
    let mut before: Vec<Vec<T>> = Vec::new();
    let mut after: Vec<Vec<T>> = Vec::new();
    let mut under_start: Vec<Underlay<T>> = Vec::new();
    let mut under_end: Vec<Underlay<T>> = Vec::new();
    let total: usize = file.markers.len();
    let mut i: usize = 0;
    proof {
        let none = collected(names, known@, loaded@, 0);
        assert(markers::sound_views(before@) =~= none.before);
        assert(markers::sound_views(after@) =~= none.after);
        assert(underlay_models(under_start@) =~= none.under_start);
        assert(underlay_models(under_end@) =~= none.under_end);
    }
    while i < total
        invariant
            i <= total == loaded@.len(),
            total == file.markers@.len(),
            names == file@.markers,
            ({
                let m = collected(names, known@, loaded@, i as int);
                &&& markers::sound_views(before@) == m.before
                &&& markers::sound_views(after@) == m.after
                &&& underlay_models(under_start@) == m.under_start
                &&& underlay_models(under_end@) == m.under_end
            }),
        decreases total - i,
    {
        assert(names[i as int] == file.markers@[i as int]@);
        if let Some(settings) = known.get(file.markers[i].as_str()) {
            take_asset(&settings.assets.begin, &loaded[i].begin, &mut before, &mut under_start);
            take_asset(&settings.assets.end, &loaded[i].end, &mut after, &mut under_end);
        }
        i = i + 1;
    }
    MarkerSounds { before, after, under_start, under_end }
}

/// Whether mixing could have given a sample.
pub open spec fn blends<T, F: Fn(T, T, u8) -> T>(blend: &F, main: T, sound: T, reduction: u8, out: T) -> bool {
    call_ensures(blend, (main, sound, reduction), out)
}

/// Whether a sound was mixed into a recording once, from a place on. What goes over
/// the end of the recording is left out.
pub open spec fn mixed<T, F: Fn(T, T, u8) -> T>(
    blend: &F,
    before: Seq<T>,
    sound: Seq<T>,
    reduction: u8,
    offset: int,
    after: Seq<T>,
) -> bool {
    &&& after.len() == before.len()
    &&& forall|k: int|
        0 <= k < before.len() ==> if offset <= k < offset + sound.len() {
            blends(blend, before[k], sound[k - offset], reduction, #[trigger] after[k])
        } else {
            after[k] == before[k]
        }
}

/// Whether recordings follow one another by mixing a sound in, once each.
pub open spec fn mix_chain<T, F: Fn(T, T, u8) -> T>(
    blend: &F,
    sound: Seq<T>,
    reduction: u8,
    offset: int,
    chain: Seq<Seq<T>>,
) -> bool {
    forall|j: int, k: int|
        #![trigger chain[j], chain[k]]
        0 <= j < k < chain.len() && k == j + 1 ==> mixed(
            blend,
            chain[j],
            sound,
            reduction,
            offset,
            chain[k],
        )
}

/// Whether a sound was mixed into a recording a number of times.
pub open spec fn mixed_times<T, F: Fn(T, T, u8) -> T>(
    blend: &F,
    before: Seq<T>,
    sound: Seq<T>,
    reduction: u8,
    offset: int,
    times: int,
    after: Seq<T>,
) -> bool {
    exists|chain: Seq<Seq<T>>|
        {
            &&& #[trigger] mix_chain(blend, sound, reduction, offset, chain)
            &&& chain.len() == (if times > 0 {
                times + 1
            } else {
                1
            })
            &&& chain[0] == before
            &&& chain.last() == after
        }
}

/// Whether a sound was mixed into a recording from its start to its end, over and
/// over.
pub open spec fn mixed_around<T, F: Fn(T, T, u8) -> T>(
    blend: &F,
    before: Seq<T>,
    sound: Seq<T>,
    reduction: u8,
    after: Seq<T>,
) -> bool {
    if sound.len() == 0 {
        after == before
    } else {
        &&& after.len() == before.len()
        &&& forall|k: int|
            0 <= k < before.len() ==> blends(
                blend,
                before[k],
                sound[k % sound.len() as int],
                reduction,
                #[trigger] after[k],
            )
    }
}

/// Where a sound under a recording begins.
pub open spec fn underlay_offset(main: int, sound: int, at_end: bool) -> int {
    if at_end && sound <= main {
        main - sound
    } else {
        0
    }
}

/// Whether a sound was laid under a recording.
pub open spec fn laid_under<T, F: Fn(T, T, u8) -> T>(
    blend: &F,
    before: Seq<T>,
    under: UnderlayModel<T>,
    at_end: bool,
    after: Seq<T>,
) -> bool {
    let times = match under.repeat {
        Some(n) => n as int,
        None => 1,
    };
    if times == -1 {
        mixed_around(blend, before, under.samples, under.reduction, after)
    } else {
        mixed_times(
            blend,
            before,
            under.samples,
            under.reduction,
            underlay_offset(before.len() as int, under.samples.len() as int, at_end),
            times,
            after,
        )
    }
}

/// Whether recordings follow one another by laying the sounds of a list under them.
pub open spec fn underlay_chain<T, F: Fn(T, T, u8) -> T>(
    blend: &F,
    unders: Seq<UnderlayModel<T>>,
    at_end: bool,
    chain: Seq<Seq<T>>,
) -> bool {
    forall|j: int, k: int|
        #![trigger chain[j], chain[k]]
        0 <= j < k < chain.len() && k == j + 1 ==> laid_under(
            blend,
            chain[j],
            unders[j],
            at_end,
            chain[k],
        )
}

/// Whether the first sounds of a list were laid under a recording one after another.
pub open spec fn all_laid_under<T, F: Fn(T, T, u8) -> T>(
    blend: &F,
    before: Seq<T>,
    unders: Seq<UnderlayModel<T>>,
    n: int,
    at_end: bool,
    after: Seq<T>,
) -> bool {
    exists|chain: Seq<Seq<T>>|
        {
            &&& #[trigger] underlay_chain(blend, unders, at_end, chain)
            &&& chain.len() == n + 1
            &&& chain[0] == before
            &&& chain.last() == after
        }
}

/// Mixes a sound into a recording, from a place on.
pub fn mix_audio<T: Copy, F: Fn(T, T, u8) -> T>(
    main: &Vec<T>,
    sound: &Vec<T>,
    reduction: u8,
    offset: usize,
    blend: &F,
) -> (r: Vec<T>)
    requires
        forall|a: T, b: T, p: u8| call_requires(blend, (a, b, p)),
    ensures
        mixed(blend, main@, sound@, reduction, offset as int, r@),
{
    let total: usize = main.len();
    let width: usize = sound.len();
    let mut out: Vec<T> = Vec::new();
    let mut k: usize = 0;
    while k < total
        invariant
            k <= total == main@.len(),
            width == sound@.len(),
            out@.len() == k,
            forall|a: T, b: T, p: u8| call_requires(blend, (a, b, p)),
            forall|j: int|
                0 <= j < k ==> if offset <= j < offset + width {
                    blends(blend, main@[j], sound@[j - offset], reduction, #[trigger] out@[j])
                } else {
                    out@[j] == main@[j]
                },
        decreases total - k,
    {
        if k >= offset && k - offset < width {
            out.push(blend(main[k], sound[k - offset], reduction));
        } else {
            out.push(main[k]);
        }
        k = k + 1;
    }
    out
}

fn mix_around<T: Copy, F: Fn(T, T, u8) -> T>(
    main: &Vec<T>,
    sound: &Vec<T>,
    reduction: u8,
    blend: &F,
) -> (r: Vec<T>)
    requires
        forall|a: T, b: T, p: u8| call_requires(blend, (a, b, p)),
    ensures
        mixed_around(blend, main@, sound@, reduction, r@),
{
    let total: usize = main.len();
    let width: usize = sound.len();
    if width == 0 {
        return copy_samples(main);
    }
    let mut out: Vec<T> = Vec::new();
    let mut k: usize = 0;
    while k < total
        invariant
            k <= total == main@.len(),
            0 < width == sound@.len(),
            out@.len() == k,
            forall|a: T, b: T, p: u8| call_requires(blend, (a, b, p)),
            forall|j: int|
                0 <= j < k ==> blends(
                    blend,
                    main@[j],
                    sound@[j % width as int],
                    reduction,
                    #[trigger] out@[j],
                ),
        decreases total - k,
    {
        out.push(blend(main[k], sound[k % width], reduction));
        k = k + 1;
    }
    out
}

fn lay_under<T: Copy, F: Fn(T, T, u8) -> T>(
    main: Vec<T>,
    under: &Underlay<T>,
    at_end: bool,
    blend: &F,
) -> (r: Vec<T>)
    requires
        forall|a: T, b: T, p: u8| call_requires(blend, (a, b, p)),
    ensures
        laid_under(
            blend,
            main@,
            (UnderlayModel {
                samples: under.samples@,
                reduction: under.reduction,
                repeat: under.repeat,
            }),
            at_end,
            r@,
        ),
        r@.len() == main@.len(),
{
    let times: i32 = match under.repeat {
        Some(n) => n,
        None => 1,
    };
    if times == -1 {
        return mix_around(&main, &under.samples, under.reduction, blend);
    }
    let total: usize = main.len();
    let width: usize = under.samples.len();
    let offset: usize = if at_end && width <= total {
        total - width
    } else {
        0
    };
    let ghost start = main@;
    let mut out = main;
    let mut i: i32 = 0;
    assert(mix_chain(blend, under.samples@, under.reduction, offset as int, seq![start]));
    while i < times
        invariant
            0 <= i,
            times > 0 ==> i <= times,
            times <= 0 ==> i == 0,
            out@.len() == start.len(),
            forall|a: T, b: T, p: u8| call_requires(blend, (a, b, p)),
            mixed_times(
                blend,
                start,
                under.samples@,
                under.reduction,
                offset as int,
                i as int,
                out@,
            ),
        decreases times - i,
    {
        let ghost middle = out@;
        out = mix_audio(&out, &under.samples, under.reduction, offset, blend);
        proof {
            mixed_once_more(
                blend,
                start,
                under.samples@,
                under.reduction,
                offset as int,
                i as int,
                middle,
                out@,
            );
        }
        i = i + 1;
    }
    out
}

proof fn mixed_once_more<T, F: Fn(T, T, u8) -> T>(
    blend: &F,
    before: Seq<T>,
    sound: Seq<T>,
    reduction: u8,
    offset: int,
    times: int,
    middle: Seq<T>,
    after: Seq<T>,
)
    requires
        0 <= times,
        mixed_times(blend, before, sound, reduction, offset, times, middle),
        mixed(blend, middle, sound, reduction, offset, after),
    ensures
        mixed_times(blend, before, sound, reduction, offset, times + 1, after),
{
    let chain = choose|chain: Seq<Seq<T>>|
        {
            &&& #[trigger] mix_chain(blend, sound, reduction, offset, chain)
            &&& chain.len() == times + 1
            &&& chain[0] == before
            &&& chain.last() == middle
        };
    let longer = chain.push(after);
    assert forall|j: int, k: int|
        #![trigger longer[j], longer[k]]
        0 <= j < k < longer.len() && k == j + 1 implies mixed(
        blend,
        longer[j],
        sound,
        reduction,
        offset,
        longer[k],
    ) by {
        if k < chain.len() {
            assert(longer[j] == chain[j] && longer[k] == chain[k]);
        }
    }
    assert(mix_chain(blend, sound, reduction, offset, longer));
}

proof fn laid_once_more<T, F: Fn(T, T, u8) -> T>(
    blend: &F,
    before: Seq<T>,
    unders: Seq<UnderlayModel<T>>,
    n: int,
    at_end: bool,
    middle: Seq<T>,
    after: Seq<T>,
)
    requires
        0 <= n,
        all_laid_under(blend, before, unders, n, at_end, middle),
        laid_under(blend, middle, unders[n], at_end, after),
    ensures
        all_laid_under(blend, before, unders, n + 1, at_end, after),
{
    let chain = choose|chain: Seq<Seq<T>>|
        {
            &&& #[trigger] underlay_chain(blend, unders, at_end, chain)
            &&& chain.len() == n + 1
            &&& chain[0] == before
            &&& chain.last() == middle
        };
    let longer = chain.push(after);
    assert forall|j: int, k: int|
        #![trigger longer[j], longer[k]]
        0 <= j < k < longer.len() && k == j + 1 implies laid_under(
        blend,
        longer[j],
        unders[j],
        at_end,
        longer[k],
    ) by {
        if k < chain.len() {
            assert(longer[j] == chain[j] && longer[k] == chain[k]);
        }
    }
    assert(underlay_chain(blend, unders, at_end, longer));
}

fn lay_all_under<T: Copy, F: Fn(T, T, u8) -> T>(
    main: Vec<T>,
    unders: &Vec<Underlay<T>>,
    at_end: bool,
    blend: &F,
) -> (r: Vec<T>)
    requires
        forall|a: T, b: T, p: u8| call_requires(blend, (a, b, p)),
    ensures
        all_laid_under(
            blend,
            main@,
            underlay_models(unders@),
            unders@.len() as int,
            at_end,
            r@,
        ),
        r@.len() == main@.len(),
{
    let ghost start = main@;
    let ghost models = underlay_models(unders@);
    let mut out = main;
    let mut n: usize = 0;
    assert(underlay_chain(blend, models, at_end, seq![start]));
    while n < unders.len()
        invariant
            n <= unders.len(),
            models == underlay_models(unders@),
            out@.len() == start.len(),
            forall|a: T, b: T, p: u8| call_requires(blend, (a, b, p)),
            all_laid_under(blend, start, models, n as int, at_end, out@),
        decreases unders.len() - n,
    {
        let ghost middle = out@;
        out = lay_under(out, &unders[n], at_end, blend);
        proof {
            assert(laid_under(blend, middle, models[n as int], at_end, out@));
            laid_once_more(blend, start, models, n as int, at_end, middle, out@);
        }
        n = n + 1;
    }
    out
}

/// Sounds one after another.
pub open spec fn joined<T>(sounds: Seq<Seq<T>>) -> Seq<T>
    decreases sounds.len(),
{
    if sounds.len() == 0 {
        Seq::empty()
    } else {
        joined(sounds.drop_last()) + sounds.last()
    }
}

/// The length that is counted for the sound of a marker is the length of what it adds
/// to a recording.
pub proof fn added_sounds_have_the_counted_length<T>(
    asset: project::MarkerAssetModel,
    sound: Option<Vec<T>>,
    lengths: Map<Seq<char>, u64>,
)
    requires
        sound is Some <==> lengths.contains_key(asset.audio),
        sound matches Some(samples) ==> lengths[asset.audio] == samples@.len(),
    ensures
        joined(asset_adds(asset, sound)).len() == markers::added_samples(asset, lengths),
{
    if asset.audio.len() > 0 && sound is Some && asset.kind == "add"@ {
        repeated_len(sound->0@, markers::add_count(asset.repeat));
    }
}

proof fn repeated_len<T>(samples: Seq<T>, n: nat)
    ensures
        joined(Seq::new(n, |i: int| samples)).len() == samples.len() * n,
    decreases n,
{
    if n > 0 {
        let all = Seq::new(n, |i: int| samples);
        repeated_len(samples, (n - 1) as nat);
        assert(all.drop_last() =~= Seq::new((n - 1) as nat, |i: int| samples));
        assert(all.last() == samples);
        assert(samples.len() * n == samples.len() * ((n - 1) as nat) + samples.len())
            by (nonlinear_arith)
            requires
                n > 0,
        ;
    } else {
        assert(samples.len() * n == 0) by (nonlinear_arith)
            requires
                n == 0,
        ;
    }
}

/// Why a recording cannot be mixed.
#[derive(Clone, Copy, Debug, PartialEq, Eq, Structural)]
pub enum MixError {
    Format,
    IncompleteFrames,
    TooLong,
}

impl MixError {
    /// The sentence that belongs to an error.
    pub open spec fn spec_text(&self) -> Seq<char> {
        match self {
            MixError::Format => "Recording sample rate and channels must be positive"@,
            MixError::IncompleteFrames => "Recording samples must contain complete frames"@,
            MixError::TooLong => "Recording length overflow"@,
        }
    }

    pub fn message(&self) -> (r: &'static str)
        ensures
            r@ == self.spec_text(),
    {
        match self {
            MixError::Format => "Recording sample rate and channels must be positive",
            MixError::IncompleteFrames => "Recording samples must contain complete frames",
            MixError::TooLong => "Recording length overflow",
        }
    }
}

fn append_all<T: Copy>(out: &mut Vec<T>, sounds: &Vec<Vec<T>>) -> (fits: bool)
    ensures
        fits ==> final(out)@ == old(out)@ + joined(markers::sound_views(sounds@)),
        !fits ==> old(out)@.len() + joined(markers::sound_views(sounds@)).len() > usize::MAX,
{
    let ghost all = markers::sound_views(sounds@);
    let ghost start = out@;
    let mut n: usize = 0;
    assert(all.take(0) =~= Seq::empty());
    while n < sounds.len()
        invariant
            n <= sounds.len(),
            all == markers::sound_views(sounds@),
            start == old(out)@,
            out@ == start + joined(all.take(n as int)),
        decreases sounds.len() - n,
    {
        let sound = &sounds[n];
        let ghost before = out@;
        proof {
            assert(all.take(n + 1).drop_last() =~= all.take(n as int));
            assert(all.take(n + 1).last() == sound@);
            joined_grows(all, n + 1);
        }
        let length: usize = sound.len();
        let had: usize = out.len();
        if length > usize::MAX - had {
            return false;
        }
        let mut k: usize = 0;
        assert(before + sound@.take(0) =~= before);
        while k < length
            invariant
                k <= length == sound@.len(),
                out@ == before + sound@.take(k as int),
            decreases length - k,
        {
            out.push(sound[k]);
            assert(out@ =~= before + sound@.take(k + 1));
            k = k + 1;
        }
        assert(sound@.take(k as int) =~= sound@);
        assert(out@ =~= start + joined(all.take(n + 1)));
        n = n + 1;
    }
    assert(all.take(n as int) =~= all);
    true
}

proof fn joined_grows<T>(sounds: Seq<Seq<T>>, n: int)
    requires
        0 <= n <= sounds.len(),
    ensures
        joined(sounds.take(n)).len() <= joined(sounds).len(),
    decreases sounds.len(),
{
    if n < sounds.len() {
        joined_grows(sounds.drop_last(), n);
        assert(sounds.drop_last().take(n) =~= sounds.take(n));
    } else {
        assert(sounds.take(n) =~= sounds);
    }
}

/// Whether samples are a recording with the sounds of its markers: sounds before, the
/// recording with the sounds under it, sounds after, cut to whole frames.
pub open spec fn is_mix<T, F: Fn(T, T, u8) -> T>(
    blend: &F,
    voice: Seq<T>,
    sounds: SoundsModel<T>,
    channels: int,
    out: Seq<T>,
) -> bool {
    exists|first: Seq<T>, second: Seq<T>|
        {
            let whole = joined(sounds.before) + second + joined(sounds.after);
            &&& #[trigger] all_laid_under(
                blend,
                voice,
                sounds.under_start,
                sounds.under_start.len() as int,
                false,
                first,
            )
            &&& #[trigger] all_laid_under(
                blend,
                first,
                sounds.under_end,
                sounds.under_end.len() as int,
                true,
                second,
            )
            &&& second.len() == voice.len()
            &&& out == whole.take(whole.len() - whole.len() as int % channels)
        }
}

/// Adds the sounds of its markers to a recording.
pub fn process_samples_for_compilation<T: Copy, F: Fn(T, T, u8) -> T>(
    voice: Vec<T>,
    sounds: &MarkerSounds<T>,
    sample_rate: u32,
    channels: u16,
    blend: &F,
) -> (r: Result<Vec<T>, MixError>)
    requires
        forall|a: T, b: T, p: u8| call_requires(blend, (a, b, p)),
    ensures
        match r {
            Ok(out) => {
                &&& sample_rate > 0 && channels > 0
                &&& voice@.len() as int % channels as int == 0
                &&& is_mix(blend, voice@, sounds@, channels as int, out@)
            },
            Err(MixError::Format) => sample_rate == 0 || channels == 0,
            Err(MixError::IncompleteFrames) => sample_rate > 0 && channels > 0
                && voice@.len() as int % channels as int != 0,
            Err(MixError::TooLong) => {
                &&& sample_rate > 0 && channels > 0
                &&& voice@.len() as int % channels as int == 0
                &&& joined(sounds@.before).len() + voice@.len() + joined(sounds@.after).len()
                    > usize::MAX
            },
        },
{
    if sample_rate == 0 || channels == 0 {
        return Err(MixError::Format);
    }
    let width: usize = channels as usize;
    if voice.len() % width != 0 {
        return Err(MixError::IncompleteFrames);
    }
    let ghost spoken = voice@;
    let first = lay_all_under(voice, &sounds.under_start, false, blend);
    let ghost one = first@;
    let second = lay_all_under(first, &sounds.under_end, true, blend);
    let ghost two = second@;
    let mut out: Vec<T> = Vec::new();
    if !append_all(&mut out, &sounds.before) {
        return Err(MixError::TooLong);
    }
    let mut middle: Vec<Vec<T>> = Vec::new();
    middle.push(second);
    proof {
        let views = markers::sound_views(middle@);
        assert(views =~= seq![two]);
        assert(views.drop_last() =~= Seq::empty());
        assert(joined(views.drop_last()) =~= Seq::empty());
        assert(views.last() == two);
        assert(joined(views) =~= two);
        assert(out@ =~= joined(sounds@.before));
    }
    if !append_all(&mut out, &middle) {
        return Err(MixError::TooLong);
    }
    if !append_all(&mut out, &sounds.after) {
        return Err(MixError::TooLong);
    }
    let ghost whole = joined(sounds@.before) + two + joined(sounds@.after);
    assert(out@ =~= whole);
    let total: usize = out.len();
    let rest: usize = total % width;
    assert(rest <= total) by (nonlinear_arith)
        requires
            rest == total % width,
            width > 0,
    ;
    out.truncate(total - rest);
    proof {
        assert(out@ =~= whole.take(whole.len() - whole.len() as int % channels as int));
        assert(all_laid_under(
            blend,
            spoken,
            sounds@.under_start,
            sounds@.under_start.len() as int,
            false,
            one,
        ));
        assert(all_laid_under(
            blend,
            one,
            sounds@.under_end,
            sounds@.under_end.len() as int,
            true,
            two,
        ));
    }
    Ok(out)
}

/// Whether a sound is put before or after a recording.
pub open spec fn is_added<T>(asset: project::MarkerAssetModel, sound: Option<Vec<T>>) -> bool {
    asset.audio.len() > 0 && sound is Some && asset.kind == "add"@
}

/// Whether a sound is laid under a recording.
pub open spec fn is_laid_under<T>(asset: project::MarkerAssetModel, sound: Option<Vec<T>>) -> bool {
    asset.audio.len() > 0 && sound is Some && (asset.kind == "underlay"@ || asset.kind
        == "undelay"@)
}

/// The sounds of one marker. The sound of its begin goes before the recording or under its
/// start, the sound of its end goes after the recording or under its end, each as often
/// and as softly as the marker says, and nothing else is there.
pub proof fn sounds_of_a_marker<T>(
    name: Seq<char>,
    known: Map<Seq<char>, project::MarkerSettingsModel>,
    found: LoadedSounds<T>,
)
    requires
        known.dom().contains(name),
    ensures
        ({
            let begin = known[name].assets.begin;
            let end = known[name].assets.end;
            let m = collected(seq![name], known, seq![found], 1);
            &&& m.before.len() == if !is_added(begin, found.begin) {
                0
            } else {
                match begin.repeat {
                    Some(n) => if n >= 0 {
                        n as nat
                    } else {
                        1
                    },
                    None => 1,
                }
            }
            &&& m.after.len() == if !is_added(end, found.end) {
                0
            } else {
                match end.repeat {
                    Some(n) => if n >= 0 {
                        n as nat
                    } else {
                        1
                    },
                    None => 1,
                }
            }
            &&& forall|i: int| 0 <= i < m.before.len() ==> #[trigger] m.before[i] == found.begin->0@
            &&& forall|i: int| 0 <= i < m.after.len() ==> #[trigger] m.after[i] == found.end->0@
            &&& m.under_start.len() == if is_laid_under(begin, found.begin) {
                1nat
            } else {
                0
            }
            &&& m.under_end.len() == if is_laid_under(end, found.end) {
                1nat
            } else {
                0
            }
            &&& is_laid_under(begin, found.begin) ==> {
                &&& m.under_start[0].samples == found.begin->0@
                &&& m.under_start[0].repeat == begin.repeat
                &&& begin.reduction matches Some(percent) ==> m.under_start[0].reduction == percent
                &&& begin.reduction is None ==> m.under_start[0].reduction == 75
            }
            &&& is_laid_under(end, found.end) ==> {
                &&& m.under_end[0].samples == found.end->0@
                &&& m.under_end[0].repeat == end.repeat
                &&& end.reduction matches Some(percent) ==> m.under_end[0].reduction == percent
                &&& end.reduction is None ==> m.under_end[0].reduction == 75
            }
        }),
{
    reveal_with_fuel(collected, 2);
    kinds_differ();
}

proof fn kinds_differ()
    ensures
        "add"@ != "underlay"@,
        "add"@ != "undelay"@,
{
    reveal_strlit("add");
    reveal_strlit("underlay");
    reveal_strlit("undelay");
    assert("add"@.len() != "underlay"@.len());
    assert("add"@.len() != "undelay"@.len());
}

/// The sounds of markers are those of each marker, in the order of the markers. A marker
/// that is not known has none.
pub proof fn sounds_follow_the_markers<T>(
    names: Seq<Seq<char>>,
    known: Map<Seq<char>, project::MarkerSettingsModel>,
    loaded: Seq<LoadedSounds<T>>,
    n: int,
)
    requires
        0 <= n < names.len(),
        loaded.len() == names.len(),
    ensures
        ({
            let before = collected(names, known, loaded, n);
            let after = collected(names, known, loaded, n + 1);
            let own = collected(seq![names[n]], known, seq![loaded[n]], 1);
            if known.dom().contains(names[n]) {
                &&& after.before == before.before + own.before
                &&& after.after == before.after + own.after
                &&& after.under_start == before.under_start + own.under_start
                &&& after.under_end == before.under_end + own.under_end
            } else {
                after == before
            }
        }),
        collected(names, known, loaded, 0).before.len() == 0,
        collected(names, known, loaded, 0).after.len() == 0,
        collected(names, known, loaded, 0).under_start.len() == 0,
        collected(names, known, loaded, 0).under_end.len() == 0,
{
    reveal_with_fuel(collected, 2);
    let after = collected(names, known, loaded, n + 1);
    let before = collected(names, known, loaded, n);
    let own = collected(seq![names[n]], known, seq![loaded[n]], 1);
    if known.dom().contains(names[n]) {
        assert(after.before =~= before.before + own.before);
        assert(after.after =~= before.after + own.after);
        assert(after.under_start =~= before.under_start + own.under_start);
        assert(after.under_end =~= before.under_end + own.under_end);
    }
}

proof fn nothing_laid_under<T, F: Fn(T, T, u8) -> T>(
    blend: &F,
    before: Seq<T>,
    unders: Seq<UnderlayModel<T>>,
    at_end: bool,
    after: Seq<T>,
)
    requires
        all_laid_under(blend, before, unders, 0, at_end, after),
    ensures
        after == before,
{
}

proof fn one_laid_under<T, F: Fn(T, T, u8) -> T>(
    blend: &F,
    before: Seq<T>,
    unders: Seq<UnderlayModel<T>>,
    at_end: bool,
    after: Seq<T>,
)
    requires
        all_laid_under(blend, before, unders, 1, at_end, after),
    ensures
        laid_under(blend, before, unders[0], at_end, after),
{
    let chain = choose|chain: Seq<Seq<T>>|
        {
            &&& #[trigger] underlay_chain(blend, unders, at_end, chain)
            &&& chain.len() == 2
            &&& chain[0] == before
            &&& chain.last() == after
        };
    assert(laid_under(blend, chain[0], unders[0], at_end, chain[1]));
}

proof fn laid_once<T, F: Fn(T, T, u8) -> T>(
    blend: &F,
    before: Seq<T>,
    sound: Seq<T>,
    reduction: u8,
    offset: int,
    after: Seq<T>,
)
    requires
        mixed_times(blend, before, sound, reduction, offset, 1, after),
    ensures
        mixed(blend, before, sound, reduction, offset, after),
{
    let chain = choose|chain: Seq<Seq<T>>|
        {
            &&& #[trigger] mix_chain(blend, sound, reduction, offset, chain)
            &&& chain.len() == 2
            &&& chain[0] == before
            &&& chain.last() == after
        };
    assert(mixed(blend, chain[0], sound, reduction, offset, chain[1]));
}

/// A recording whose only sound lies under its start, once, is mixed sample by sample from
/// the first one on, as far as both go; everything else stays as it is, and nothing is
/// added.
pub proof fn begin_sounds_lie_under_the_begin<T, F: Fn(T, T, u8) -> T>(
    blend: &F,
    voice: Seq<T>,
    name: Seq<char>,
    known: Map<Seq<char>, project::MarkerSettingsModel>,
    found: LoadedSounds<T>,
    channels: int,
    out: Seq<T>,
    k: int,
)
    requires
        known.dom().contains(name),
        is_laid_under(known[name].assets.begin, found.begin),
        known[name].assets.begin.repeat is None || known[name].assets.begin.repeat == Some(1i32),
        found.end is None,
        0 < channels,
        voice.len() as int % channels == 0,
        is_mix(blend, voice, collected(seq![name], known, seq![found], 1), channels, out),
        0 <= k < voice.len(),
    ensures
        out.len() == voice.len(),
        ({
            let sound = found.begin->0@;
            let reduction = match known[name].assets.begin.reduction {
                Some(percent) => percent,
                None => 75u8,
            };
            if k < sound.len() {
                call_ensures(blend, (voice[k], sound[k], reduction), out[k])
            } else {
                out[k] == voice[k]
            }
        }),
{
    let sounds = collected(seq![name], known, seq![found], 1);
    sounds_of_a_marker(name, known, found);
    kinds_differ();
    let (first, second) = choose|first: Seq<T>, second: Seq<T>|
        {
            let whole = joined(sounds.before) + second + joined(sounds.after);
            &&& #[trigger] all_laid_under(
                blend,
                voice,
                sounds.under_start,
                sounds.under_start.len() as int,
                false,
                first,
            )
            &&& #[trigger] all_laid_under(
                blend,
                first,
                sounds.under_end,
                sounds.under_end.len() as int,
                true,
                second,
            )
            &&& second.len() == voice.len()
            &&& out == whole.take(whole.len() - whole.len() as int % channels)
        };
    one_laid_under(blend, voice, sounds.under_start, false, first);
    nothing_laid_under(blend, first, sounds.under_end, true, second);
    let under = sounds.under_start[0];
    laid_once(blend, voice, under.samples, under.reduction, 0, first);
    let whole = joined(sounds.before) + second + joined(sounds.after);
    assert(whole =~= second);
    assert(out =~= second);
    assert(blends(blend, voice[k], under.samples[k], under.reduction, first[k]) || k
        >= under.samples.len());
}

/// A recording whose only sound lies under its end, once, is mixed so that both end
/// together; a sound that is longer than the recording begins with it. Everything else
/// stays as it is, and nothing is added.
pub proof fn end_sounds_lie_under_the_end<T, F: Fn(T, T, u8) -> T>(
    blend: &F,
    voice: Seq<T>,
    name: Seq<char>,
    known: Map<Seq<char>, project::MarkerSettingsModel>,
    found: LoadedSounds<T>,
    channels: int,
    out: Seq<T>,
    k: int,
)
    requires
        known.dom().contains(name),
        is_laid_under(known[name].assets.end, found.end),
        known[name].assets.end.repeat is None || known[name].assets.end.repeat == Some(1i32),
        found.begin is None,
        0 < channels,
        voice.len() as int % channels == 0,
        is_mix(blend, voice, collected(seq![name], known, seq![found], 1), channels, out),
        0 <= k < voice.len(),
    ensures
        out.len() == voice.len(),
        ({
            let sound = found.end->0@;
            let reduction = match known[name].assets.end.reduction {
                Some(percent) => percent,
                None => 75u8,
            };
            let from_end = voice.len() - k;
            if sound.len() > voice.len() {
                call_ensures(blend, (voice[k], sound[k], reduction), out[k])
            } else if from_end <= sound.len() {
                call_ensures(blend, (voice[k], sound[sound.len() - from_end], reduction), out[k])
            } else {
                out[k] == voice[k]
            }
        }),
{
    let sounds = collected(seq![name], known, seq![found], 1);
    sounds_of_a_marker(name, known, found);
    kinds_differ();
    let (first, second) = choose|first: Seq<T>, second: Seq<T>|
        {
            let whole = joined(sounds.before) + second + joined(sounds.after);
            &&& #[trigger] all_laid_under(
                blend,
                voice,
                sounds.under_start,
                sounds.under_start.len() as int,
                false,
                first,
            )
            &&& #[trigger] all_laid_under(
                blend,
                first,
                sounds.under_end,
                sounds.under_end.len() as int,
                true,
                second,
            )
            &&& second.len() == voice.len()
            &&& out == whole.take(whole.len() - whole.len() as int % channels)
        };
    nothing_laid_under(blend, voice, sounds.under_start, false, first);
    one_laid_under(blend, first, sounds.under_end, true, second);
    let under = sounds.under_end[0];
    let offset = underlay_offset(voice.len() as int, under.samples.len() as int, true);
    laid_once(blend, voice, under.samples, under.reduction, offset, second);
    let whole = joined(sounds.before) + second + joined(sounds.after);
    assert(whole =~= second);
    assert(out =~= second);
    assert(blends(blend, voice[k], under.samples[k - offset], under.reduction, second[k]) || !(
    offset <= k < offset + under.samples.len()));
}

/// A recording whose only sounds are added once each comes out unchanged between them: the
/// sound of the begin, the recording, the sound of the end.
pub proof fn added_sounds_enclose_the_recording<T, F: Fn(T, T, u8) -> T>(
    blend: &F,
    voice: Seq<T>,
    name: Seq<char>,
    known: Map<Seq<char>, project::MarkerSettingsModel>,
    found: LoadedSounds<T>,
    channels: int,
    out: Seq<T>,
)
    requires
        known.dom().contains(name),
        is_added(known[name].assets.begin, found.begin),
        is_added(known[name].assets.end, found.end),
        known[name].assets.begin.repeat is None,
        known[name].assets.end.repeat is None,
        0 < channels,
        (found.begin->0@ + voice + found.end->0@).len() as int % channels == 0,
        is_mix(blend, voice, collected(seq![name], known, seq![found], 1), channels, out),
    ensures
        out == found.begin->0@ + voice + found.end->0@,
{
    let sounds = collected(seq![name], known, seq![found], 1);
    sounds_of_a_marker(name, known, found);
    kinds_differ();
    let (first, second) = choose|first: Seq<T>, second: Seq<T>|
        {
            let whole = joined(sounds.before) + second + joined(sounds.after);
            &&& #[trigger] all_laid_under(
                blend,
                voice,
                sounds.under_start,
                sounds.under_start.len() as int,
                false,
                first,
            )
            &&& #[trigger] all_laid_under(
                blend,
                first,
                sounds.under_end,
                sounds.under_end.len() as int,
                true,
                second,
            )
            &&& second.len() == voice.len()
            &&& out == whole.take(whole.len() - whole.len() as int % channels)
        };
    nothing_laid_under(blend, voice, sounds.under_start, false, first);
    nothing_laid_under(blend, first, sounds.under_end, true, second);
    one_joined(sounds.before);
    one_joined(sounds.after);
    let whole = joined(sounds.before) + second + joined(sounds.after);
    assert(whole =~= found.begin->0@ + voice + found.end->0@);
    assert(out =~= whole);
}

proof fn one_joined<T>(sounds: Seq<Seq<T>>)
    requires
        sounds.len() == 1,
    ensures
        joined(sounds) == sounds[0],
{
    assert(sounds.drop_last() =~= Seq::empty());
    assert(joined(sounds.drop_last()) =~= Seq::empty());
    assert(joined(sounds) =~= sounds[0]);
}

/// A sound without an end goes round under the whole recording: each of its samples in
/// turn, again and again.
pub proof fn endless_sounds_go_round<T, F: Fn(T, T, u8) -> T>(
    blend: &F,
    voice: Seq<T>,
    under: UnderlayModel<T>,
    at_end: bool,
    out: Seq<T>,
    k: int,
)
    requires
        laid_under(blend, voice, under, at_end, out),
        under.repeat == Some(-1i32),
        under.samples.len() > 0,
        0 <= k < voice.len(),
    ensures
        out.len() == voice.len(),
        call_ensures(
            blend,
            (voice[k], under.samples[k % under.samples.len() as int], under.reduction),
            out[k],
        ),
{
    assert(blends(
        blend,
        voice[k],
        under.samples[k % under.samples.len() as int],
        under.reduction,
        out[k],
    ));
}

/// A recording without known markers comes out as it is.
pub proof fn unmarked_recordings_stay<T, F: Fn(T, T, u8) -> T>(
    blend: &F,
    voice: Seq<T>,
    names: Seq<Seq<char>>,
    known: Map<Seq<char>, project::MarkerSettingsModel>,
    loaded: Seq<LoadedSounds<T>>,
    channels: int,
    out: Seq<T>,
)
    requires
        forall|i: int| 0 <= i < names.len() ==> !known.dom().contains(#[trigger] names[i]),
        0 < channels,
        voice.len() as int % channels == 0,
        is_mix(
            blend,
            voice,
            collected(names, known, loaded, names.len() as int),
            channels,
            out,
        ),
    ensures
        out == voice,
{
    let sounds = collected(names, known, loaded, names.len() as int);
    unknown_markers_sound(names, known, loaded, names.len() as int);
    let (first, second) = choose|first: Seq<T>, second: Seq<T>|
        {
            let whole = joined(sounds.before) + second + joined(sounds.after);
            &&& #[trigger] all_laid_under(
                blend,
                voice,
                sounds.under_start,
                sounds.under_start.len() as int,
                false,
                first,
            )
            &&& #[trigger] all_laid_under(
                blend,
                first,
                sounds.under_end,
                sounds.under_end.len() as int,
                true,
                second,
            )
            &&& second.len() == voice.len()
            &&& out == whole.take(whole.len() - whole.len() as int % channels)
        };
    nothing_laid_under(blend, voice, sounds.under_start, false, first);
    nothing_laid_under(blend, first, sounds.under_end, true, second);
    let whole = joined(sounds.before) + second + joined(sounds.after);
    assert(whole =~= voice);
    assert(out =~= voice);
}

proof fn unknown_markers_sound<T>(
    names: Seq<Seq<char>>,
    known: Map<Seq<char>, project::MarkerSettingsModel>,
    loaded: Seq<LoadedSounds<T>>,
    n: int,
)
    requires
        0 <= n <= names.len(),
        forall|i: int| 0 <= i < names.len() ==> !known.dom().contains(#[trigger] names[i]),
    ensures
        collected(names, known, loaded, n) == (SoundsModel::<T> {
            before: Seq::empty(),
            after: Seq::empty(),
            under_start: Seq::empty(),
            under_end: Seq::empty(),
        }),
    decreases n,
{
    if n > 0 {
        unknown_markers_sound(names, known, loaded, n - 1);
        assert(!known.dom().contains(names[n - 1]));
    }
}

/// A sound that is played again is mixed in once more at the same place; one that is played
/// no time leaves the recording as it is.
pub proof fn repeated_sounds_are_mixed_again<T, F: Fn(T, T, u8) -> T>(
    blend: &F,
    before: Seq<T>,
    under: UnderlayModel<T>,
    at_end: bool,
    after: Seq<T>,
    n: i32,
) -> (middle: Seq<T>)
    requires
        under.repeat == Some(n),
        n >= 0,
        laid_under(blend, before, under, at_end, after),
    ensures
        n == 0 ==> after == before,
        n > 0 ==> laid_under(
            blend,
            before,
            UnderlayModel { repeat: Some((n - 1) as i32), ..under },
            at_end,
            middle,
        ),
        n > 0 ==> mixed(
            blend,
            middle,
            under.samples,
            under.reduction,
            if at_end && under.samples.len() <= before.len() {
                before.len() - under.samples.len()
            } else {
                0
            },
            after,
        ),
{
    let offset = underlay_offset(before.len() as int, under.samples.len() as int, at_end);
    let chain = choose|chain: Seq<Seq<T>>|
        {
            &&& #[trigger] mix_chain(blend, under.samples, under.reduction, offset, chain)
            &&& chain.len() == (if n > 0 {
                n as int + 1
            } else {
                1
            })
            &&& chain[0] == before
            &&& chain.last() == after
        };
    if n == 0 {
        before
    } else {
        let shorter = chain.drop_last();
        assert forall|j: int, k: int|
            #![trigger shorter[j], shorter[k]]
            0 <= j < k < shorter.len() && k == j + 1 implies mixed(
            blend,
            shorter[j],
            under.samples,
            under.reduction,
            offset,
            shorter[k],
        ) by {
            assert(chain[j] == shorter[j] && chain[k] == shorter[k]);
        }
        assert(mix_chain(blend, under.samples, under.reduction, offset, shorter));
        assert(shorter.last() == chain[n - 1]);
        assert(mixed(
            blend,
            chain[n - 1],
            under.samples,
            under.reduction,
            offset,
            chain[n as int],
        ));
        chain[n - 1]
    }
}

/// Several sounds are laid under a recording one after another, each under what the ones
/// before it have made.
pub proof fn sounds_are_laid_one_after_another<T, F: Fn(T, T, u8) -> T>(
    blend: &F,
    before: Seq<T>,
    unders: Seq<UnderlayModel<T>>,
    n: int,
    at_end: bool,
    after: Seq<T>,
) -> (middle: Seq<T>)
    requires
        0 <= n,
        all_laid_under(blend, before, unders, n, at_end, after),
    ensures
        n == 0 ==> after == before,
        n > 0 ==> all_laid_under(blend, before, unders, n - 1, at_end, middle) && laid_under(
            blend,
            middle,
            unders[n - 1],
            at_end,
            after,
        ),
{
    let chain = choose|chain: Seq<Seq<T>>|
        {
            &&& #[trigger] underlay_chain(blend, unders, at_end, chain)
            &&& chain.len() == n + 1
            &&& chain[0] == before
            &&& chain.last() == after
        };
    if n == 0 {
        before
    } else {
        let shorter = chain.drop_last();
        assert forall|j: int, k: int|
            #![trigger shorter[j], shorter[k]]
            0 <= j < k < shorter.len() && k == j + 1 implies laid_under(
            blend,
            shorter[j],
            unders[j],
            at_end,
            shorter[k],
        ) by {
            assert(chain[j] == shorter[j] && chain[k] == shorter[k]);
        }
        assert(underlay_chain(blend, unders, at_end, shorter));
        assert(shorter.last() == chain[n - 1]);
        assert(laid_under(blend, chain[n - 1], unders[n - 1], at_end, chain[n]));
        chain[n - 1]
    }
}

/// A mix is the sounds before the recording, the recording with the sounds under its start
/// and then those under its end, and the sounds after it, cut to whole frames.
pub proof fn mixes_have_their_order<T, F: Fn(T, T, u8) -> T>(
    blend: &F,
    voice: Seq<T>,
    sounds: SoundsModel<T>,
    channels: int,
    out: Seq<T>,
) -> (parts: (Seq<T>, Seq<T>))
    requires
        0 < channels,
        is_mix(blend, voice, sounds, channels, out),
    ensures
        all_laid_under(
            blend,
            voice,
            sounds.under_start,
            sounds.under_start.len() as int,
            false,
            parts.0,
        ),
        all_laid_under(
            blend,
            parts.0,
            sounds.under_end,
            sounds.under_end.len() as int,
            true,
            parts.1,
        ),
        ({
            let whole = joined(sounds.before) + parts.1 + joined(sounds.after);
            &&& out == whole.take(out.len() as int)
            &&& out.len() as int % channels == 0
            &&& whole.len() - out.len() < channels
        }),
{
    let (first, second) = choose|first: Seq<T>, second: Seq<T>|
        {
            let whole = joined(sounds.before) + second + joined(sounds.after);
            &&& #[trigger] all_laid_under(
                blend,
                voice,
                sounds.under_start,
                sounds.under_start.len() as int,
                false,
                first,
            )
            &&& #[trigger] all_laid_under(
                blend,
                first,
                sounds.under_end,
                sounds.under_end.len() as int,
                true,
                second,
            )
            &&& second.len() == voice.len()
            &&& out == whole.take(whole.len() - whole.len() as int % channels)
        };
    let whole = joined(sounds.before) + second + joined(sounds.after);
    let n = whole.len() as int;
    vstd::arithmetic::div_mod::lemma_fundamental_div_mod(n, channels);
    let q = n / channels;
    assert(n - n % channels == channels * q);
    vstd::arithmetic::div_mod::lemma_mod_multiples_basic(q, channels);
    assert(channels * q == q * channels) by (nonlinear_arith);
    assert(0 <= n % channels <= n) by {
        vstd::arithmetic::div_mod::lemma_mod_decreases(n as nat, channels as nat);
    }
    (first, second)
}

} // verus!
