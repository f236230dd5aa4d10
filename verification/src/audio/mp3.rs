//! PCM16 handed to the MP3 encoder in blocks of one size.
use crate::utils::text;
use mp3lame_encoder::{Bitrate, Quality};
use vstd::prelude::*;

verus! {

/// How many interleaved stereo samples an encoder is handed at a time.
pub const ENCODE_FRAME_SAMPLES: usize = 2304;

/// A bitrate that LAME can be told.
#[derive(Clone, Copy, Debug, PartialEq, Eq, Structural)]
pub enum Mp3Bitrate {
    Kbps8,
    Kbps16,
    Kbps24,
    Kbps32,
    Kbps40,
    Kbps48,
    Kbps64,
    Kbps80,
    Kbps96,
    Kbps112,
    Kbps128,
    Kbps160,
    Kbps192,
    Kbps224,
    Kbps256,
    Kbps320,
}

impl Mp3Bitrate {
    /// The kilobits of a second.
    pub open spec fn kbps(self) -> i32 {
        match self {
            Mp3Bitrate::Kbps8 => 8,
            Mp3Bitrate::Kbps16 => 16,
            Mp3Bitrate::Kbps24 => 24,
            Mp3Bitrate::Kbps32 => 32,
            Mp3Bitrate::Kbps40 => 40,
            Mp3Bitrate::Kbps48 => 48,
            Mp3Bitrate::Kbps64 => 64,
            Mp3Bitrate::Kbps80 => 80,
            Mp3Bitrate::Kbps96 => 96,
            Mp3Bitrate::Kbps112 => 112,
            Mp3Bitrate::Kbps128 => 128,
            Mp3Bitrate::Kbps160 => 160,
            Mp3Bitrate::Kbps192 => 192,
            Mp3Bitrate::Kbps224 => 224,
            Mp3Bitrate::Kbps256 => 256,
            Mp3Bitrate::Kbps320 => 320,
        }
    }
}

/// How much work LAME puts into a sound.
#[derive(Clone, Copy, Debug, PartialEq, Eq, Structural)]
pub enum Mp3Quality {
    Best,
    SecondBest,
    NearBest,
    VeryNice,
    Nice,
    Good,
    Decent,
    Passable,
    SecondWorst,
    Worst,
}

impl Mp3Quality {
    /// LAME's number for a quality: 0 is the best.
    pub open spec fn level(self) -> i32 {
        match self {
            Mp3Quality::Best => 0,
            Mp3Quality::SecondBest => 1,
            Mp3Quality::NearBest => 2,
            Mp3Quality::VeryNice => 3,
            Mp3Quality::Nice => 4,
            Mp3Quality::Good => 5,
            Mp3Quality::Decent => 6,
            Mp3Quality::Passable => 7,
            Mp3Quality::SecondWorst => 8,
            Mp3Quality::Worst => 9,
        }
    }
}

/// What an encoder is told before it starts.
#[verifier::ext_equal]
pub ghost struct LameSettings {
    pub channels: u8,
    pub sample_rate: u32,
    /// 0 where none was told.
    pub kbps: i32,
    /// -1 where none was told.
    pub quality: i32,
}

/// What a new builder has been told: two channels at 44100 Hz.
pub open spec fn default_settings() -> LameSettings {
    LameSettings { channels: 2, sample_rate: 44100, kbps: 0, quality: -1i32 }
}

#[verifier::external_type_specification]
#[verifier::external_body]
pub struct ExBuilder(mp3lame_encoder::Builder);

#[verifier::external_type_specification]
#[verifier::external_body]
pub struct ExEncoder(mp3lame_encoder::Encoder);

/// What a builder was told.
pub uninterp spec fn builder_settings(builder: &mp3lame_encoder::Builder) -> LameSettings;

/// What the builder was told that an encoder was built from, whatever LAME made of it.
pub uninterp spec fn asked(encoder: &mp3lame_encoder::Encoder) -> LameSettings;

/// The interleaved samples that an encoder has taken, in order.
pub uninterp spec fn taken(encoder: &mp3lame_encoder::Encoder) -> Seq<i16>;

/// The bytes that an encoder has given, in order.
pub uninterp spec fn given(encoder: &mp3lame_encoder::Encoder) -> Seq<u8>;

/// Calls `mp3lame_encoder::Builder::new`, which fails where memory is short. A new
/// builder holds LAME's defaults.
#[verifier::external_body]
fn new_builder() -> (r: Option<mp3lame_encoder::Builder>)
    ensures
        r matches Some(builder) ==> builder_settings(&builder) == default_settings(),
{
    mp3lame_encoder::Builder::new()
}

/// Calls `Builder::set_num_channels`. LAME takes one or two channels; the error is the
/// `Debug` form of what it reports.
#[verifier::external_body]
fn set_channels(builder: &mut mp3lame_encoder::Builder, channels: u8) -> (r: Result<(), String>)
    ensures
        r is Ok ==> builder_settings(final(builder)) == (LameSettings {
            channels,
            ..builder_settings(old(builder))
        }),
{
    builder.set_num_channels(channels).map_err(|e| format!("{:?}", e))
}

/// The rate that LAME holds for one that it is told: at most what its integers hold.
pub open spec fn held_rate(sample_rate: u32) -> u32 {
    if sample_rate <= i32::MAX {
        sample_rate
    } else {
        i32::MAX as u32
    }
}

/// Calls `Builder::set_sample_rate`. A rate beyond LAME's integers becomes the highest
/// of them. When LAME refuses is not stated; the error is the `Debug` form of what it
/// reports.
#[verifier::external_body]
fn set_sample_rate(builder: &mut mp3lame_encoder::Builder, sample_rate: u32) -> (r: Result<
    (),
    String,
>)
    ensures
        r is Ok ==> builder_settings(final(builder)) == (LameSettings {
            sample_rate: held_rate(sample_rate),
            ..builder_settings(old(builder))
        }),
{
    builder.set_sample_rate(sample_rate).map_err(|e| format!("{:?}", e))
}

/// Calls `Builder::set_brate`. The error is the `Debug` form of what LAME reports.
#[verifier::external_body]
fn set_bitrate(builder: &mut mp3lame_encoder::Builder, bitrate: Mp3Bitrate) -> (r: Result<
    (),
    String,
>)
    ensures
        r is Ok ==> builder_settings(final(builder)) == (LameSettings {
            kbps: bitrate.kbps(),
            ..builder_settings(old(builder))
        }),
{
    let rate = match bitrate {
        Mp3Bitrate::Kbps8 => Bitrate::Kbps8, Mp3Bitrate::Kbps16 => Bitrate::Kbps16,
        Mp3Bitrate::Kbps24 => Bitrate::Kbps24, Mp3Bitrate::Kbps32 => Bitrate::Kbps32,
        Mp3Bitrate::Kbps40 => Bitrate::Kbps40, Mp3Bitrate::Kbps48 => Bitrate::Kbps48,
        Mp3Bitrate::Kbps64 => Bitrate::Kbps64, Mp3Bitrate::Kbps80 => Bitrate::Kbps80,
        Mp3Bitrate::Kbps96 => Bitrate::Kbps96, Mp3Bitrate::Kbps112 => Bitrate::Kbps112,
        Mp3Bitrate::Kbps128 => Bitrate::Kbps128, Mp3Bitrate::Kbps160 => Bitrate::Kbps160,
        Mp3Bitrate::Kbps192 => Bitrate::Kbps192, Mp3Bitrate::Kbps224 => Bitrate::Kbps224,
        Mp3Bitrate::Kbps256 => Bitrate::Kbps256, Mp3Bitrate::Kbps320 => Bitrate::Kbps320,
    };
    builder.set_brate(rate).map_err(|e| format!("{:?}", e))
}

/// Calls `Builder::set_quality`. The error is the `Debug` form of what LAME reports.
#[verifier::external_body]
fn set_quality(builder: &mut mp3lame_encoder::Builder, quality: Mp3Quality) -> (r: Result<
    (),
    String,
>)
    ensures
        r is Ok ==> builder_settings(final(builder)) == (LameSettings {
            quality: quality.level(),
            ..builder_settings(old(builder))
        }),
{
    let level = match quality {
        Mp3Quality::Best => Quality::Best,
        Mp3Quality::SecondBest => Quality::SecondBest,
        Mp3Quality::NearBest => Quality::NearBest,
        Mp3Quality::VeryNice => Quality::VeryNice,
        Mp3Quality::Nice => Quality::Nice,
        Mp3Quality::Good => Quality::Good,
        Mp3Quality::Decent => Quality::Decent,
        Mp3Quality::Passable => Quality::Ok,
        Mp3Quality::SecondWorst => Quality::SecondWorst,
        Mp3Quality::Worst => Quality::Worst,
    };
    builder.set_quality(level).map_err(|e| format!("{:?}", e))
}

/// Calls `Builder::build`. The encoder is the one of that builder, and has taken and
/// given nothing yet. LAME settles for the nearest bitrate that its output rate allows:
/// which one is not stated, nor when it refuses the settings. The error is the `Debug`
/// form of what it reports.
#[verifier::external_body]
fn build(builder: mp3lame_encoder::Builder) -> (r: Result<mp3lame_encoder::Encoder, String>)
    ensures
        r matches Ok(encoder) ==> asked(&encoder) == builder_settings(&builder) && taken(&encoder)
            == Seq::<i16>::empty() && given(&encoder) == Seq::<u8>::empty(),
{
    builder.build().map_err(|e| format!("{:?}", e))
}

/// Calls `Encoder::encode_to_vec` on interleaved stereo samples, with room for as much
/// as the block can make. On success the encoder has taken them and given the bytes.
/// Which bytes come out is not stated: they come from floating-point code that need not
/// agree on every machine.
#[verifier::external_body]
fn encode(encoder: &mut mp3lame_encoder::Encoder, pcm: &[i16]) -> (r: Result<Vec<u8>, String>)
    requires
        asked(old(encoder)).channels == 2,
        pcm@.len() % 2 == 0,
        pcm@.len() <= ENCODE_FRAME_SAMPLES,
    ensures
        asked(final(encoder)) == asked(old(encoder)),
        r matches Ok(bytes) ==> taken(final(encoder)) == taken(old(encoder)) + pcm@ && given(
            final(encoder),
        ) == given(old(encoder)) + bytes@,
{
    let mut out = Vec::with_capacity(mp3lame_encoder::max_required_buffer_size(pcm.len()));
    let done = encoder.encode_to_vec(mp3lame_encoder::InterleavedPcm(pcm), &mut out);
    done.map(|_| out).map_err(|e| format!("{:?}", e))
}

/// Calls `Encoder::flush_to_vec` without a gap, with room for what is left. It takes
/// no samples, and on success has given the bytes. Which bytes come out is not stated,
/// as for those of a block.
#[verifier::external_body]
fn flush(encoder: &mut mp3lame_encoder::Encoder) -> (r: Result<Vec<u8>, String>)
    ensures
        asked(final(encoder)) == asked(old(encoder)),
        taken(final(encoder)) == taken(old(encoder)),
        r matches Ok(bytes) ==> given(final(encoder)) == given(old(encoder)) + bytes@,
{
    let mut out = Vec::with_capacity(mp3lame_encoder::max_required_buffer_size(0));
    let done = encoder.flush_to_vec::<mp3lame_encoder::FlushNoGap>(&mut out);
    done.map(|_| out).map_err(|e| format!("{:?}", e))
}

/// A PCM16 sample that was scaled by 1/32768, then by 32767 in single precision, and
/// rounded half away from zero. From 16417 on the scale takes one off.
pub open spec fn requantized_spec(sample: i16) -> i16 {
    if sample > 16416 {
        (sample - 1) as i16
    } else if sample < -16416 {
        (sample + 1) as i16
    } else {
        sample
    }
}

pub fn requantized(sample: i16) -> (r: i16)
    ensures
        r == requantized_spec(sample),
{
    if sample > 16416 {
        sample - 1
    } else if sample < -16416 {
        sample + 1
    } else {
        sample
    }
}

/// What an encoder is handed for samples of one or two channels: always two.
pub open spec fn as_stereo(samples: Seq<i16>, mono: bool) -> Seq<i16>
    decreases samples.len(),
{
    if samples.len() == 0 {
        Seq::empty()
    } else {
        let last = requantized_spec(samples.last());
        let rest = as_stereo(samples.drop_last(), mono);
        if mono {
            rest.push(last).push(last)
        } else {
            rest.push(last)
        }
    }
}

/// The state of an encoding: what the encoder was told, has taken and has given, and
/// what waits for a block to fill.
#[verifier::ext_equal]
pub ghost struct Mp3Model {
    pub settings: LameSettings,
    pub mono: bool,
    pub taken: Seq<i16>,
    pub waiting: Seq<i16>,
    pub given: Seq<u8>,
}

/// Encodes the samples of a WAV with one or two channels.
pub struct Mp3Stream {
    encoder: mp3lame_encoder::Encoder,
    mono: bool,
    waiting: Vec<i16>,
}

impl View for Mp3Stream {
    type V = Mp3Model;

    closed spec fn view(&self) -> Mp3Model {
        Mp3Model {
            settings: asked(&self.encoder),
            mono: self.mono,
            taken: taken(&self.encoder),
            waiting: self.waiting@,
            given: given(&self.encoder),
        }
    }
}

/// The words for a step that LAME refused.
pub open spec fn refused_step(e: Seq<char>) -> bool {
    ||| e == "Failed to create LAME builder"@
    ||| text::has_prefix(e, "Failed to set channels: "@)
    ||| text::has_prefix(e, "Failed to set sample rate: "@)
    ||| text::has_prefix(e, "Failed to set bitrate: "@)
    ||| text::has_prefix(e, "Failed to set quality: "@)
    ||| text::has_prefix(e, "Failed to build encoder: "@)
}

/// Whether a WAV of some rate and channels can be encoded as wanted.
pub open spec fn can_encode(
    found_rate: u32,
    found_channels: u16,
    sample_rate: u32,
    channels: u16,
) -> bool {
    found_channels == channels && found_rate == sample_rate && (channels == 1 || channels == 2)
}

/// Checks the input of an encoding.
pub fn check_input(found_rate: u32, found_channels: u16, sample_rate: u32, channels: u16) -> (r:
    Result<(), &'static str>)
    ensures
        match r {
            Ok(_) => can_encode(found_rate, found_channels, sample_rate, channels),
            Err(e) => !can_encode(found_rate, found_channels, sample_rate, channels) && e@
                == "MP3 input must have the requested sample rate and one or two channels"@,
        },
{
    if found_channels == channels && found_rate == sample_rate && (channels == 1 || channels == 2) {
        Ok(())
    } else {
        Err("MP3 input must have the requested sample rate and one or two channels")
    }
}

fn labelled(label: &str, reason: String) -> (r: String)
    ensures
        r@ == label@ + reason@,
        text::has_prefix(r@, label@),
{
    let r = label.to_owned().concat(reason.as_str());
    assert(r@.take(label@.len() as int) =~= label@);
    r
}

impl Mp3Stream {
    /// The encoder has two channels, less waits than a block, and the encoder has taken
    /// whole blocks alone.
    pub open spec fn wf(&self) -> bool {
        &&& self@.settings.channels == 2
        &&& self@.waiting.len() < ENCODE_FRAME_SAMPLES
        &&& self@.taken.len() % ENCODE_FRAME_SAMPLES as nat == 0
    }

    /// Sets up an encoder for two channels at 192 kilobits of a second and good quality.
    pub fn create(sample_rate: u32, channels: u16) -> (r: Result<Self, String>)
        requires
            channels == 1 || channels == 2,
        ensures
            match r {
                Ok(s) => s.wf() && s@ == (Mp3Model {
                    settings: LameSettings {
                        channels: 2,
                        sample_rate: held_rate(sample_rate),
                        kbps: 192,
                        quality: 5,
                    },
                    mono: channels == 1,
                    taken: Seq::empty(),
                    waiting: Seq::empty(),
                    given: Seq::empty(),
                }),
                Err(e) => refused_step(e@),
            },
    {
        let mut builder = match new_builder() {
            Some(b) => b,
            None => return Err("Failed to create LAME builder".to_owned()),
        };
        if let Err(e) = set_channels(&mut builder, 2) {
            return Err(labelled("Failed to set channels: ", e));
        }
        if let Err(e) = set_sample_rate(&mut builder, sample_rate) {
            return Err(labelled("Failed to set sample rate: ", e));
        }
        if let Err(e) = set_bitrate(&mut builder, Mp3Bitrate::Kbps192) {
            return Err(labelled("Failed to set bitrate: ", e));
        }
        if let Err(e) = set_quality(&mut builder, Mp3Quality::Good) {
            return Err(labelled("Failed to set quality: ", e));
        }
        match build(builder) {
            Ok(encoder) => Ok(Mp3Stream { encoder, mono: channels == 1, waiting: Vec::new() }),
            Err(e) => Err(labelled("Failed to build encoder: ", e)),
        }
    }

    fn wait(&mut self, samples: &[i16])
        ensures
            final(self)@ == (Mp3Model {
                waiting: old(self)@.waiting + as_stereo(samples@, old(self)@.mono),
                ..old(self)@
            }),
    {
        let ghost before = self@;
        let mut i: usize = 0;
        assert(samples@.take(0) =~= Seq::empty());
        assert(self.waiting@ =~= before.waiting + as_stereo(samples@.take(0), before.mono));
        while i < samples.len()
            invariant
                i <= samples@.len(),
                self@ == (Mp3Model {
                    waiting: before.waiting + as_stereo(samples@.take(i as int), before.mono),
                    ..before
                }),
            decreases samples@.len() - i,
        {
            let ghost waiting = self.waiting@;
            let sample: i16 = requantized(samples[i]);
            self.waiting.push(sample);
            if self.mono {
                self.waiting.push(sample);
            }
            i = i + 1;
            proof {
                assert(samples@.take(i as int).drop_last() =~= samples@.take(i - 1));
                assert(self.waiting@ =~= before.waiting + as_stereo(
                    samples@.take(i as int),
                    before.mono,
                ));
            }
        }
        assert(samples@.take(i as int) =~= samples@);
    }

    /// Takes samples and encodes the blocks that fill. Nothing is lost or repeated on
    /// the way to the encoder, and all bytes that it gave are handed on. Samples that fill
    /// no block only wait.
    pub fn push(&mut self, samples: &[i16]) -> (r: Result<Vec<u8>, String>)
        requires
            old(self).wf(),
        ensures
            final(self)@.settings == old(self)@.settings,
            final(self)@.mono == old(self)@.mono,
            r is Ok ==> final(self).wf() && final(self)@.taken + final(self)@.waiting == old(
                self,
            )@.taken + old(self)@.waiting + as_stereo(samples@, old(self)@.mono),
            r matches Ok(bytes) ==> final(self)@.given == old(self)@.given + bytes@,
            old(self)@.waiting.len() + as_stereo(samples@, old(self)@.mono).len()
                < ENCODE_FRAME_SAMPLES ==> (r matches Ok(bytes) && bytes@.len() == 0),
            r matches Err(e) ==> text::has_prefix(e@, "Failed to encode MP3: "@),
    {
        let ghost start = self@;
        let ghost all = start.taken + start.waiting + as_stereo(samples@, start.mono);
        self.wait(samples);
        assert(self@.taken + self@.waiting =~= all);
        let mut out: Vec<u8> = Vec::new();
        assert(start.given + out@ =~= start.given);
        while self.waiting.len() >= ENCODE_FRAME_SAMPLES
            invariant
                start == old(self)@,
                self@.settings == start.settings,
                self@.mono == start.mono,
                self@.taken.len() % ENCODE_FRAME_SAMPLES as nat == 0,
                self@.taken + self@.waiting == all,
                self@.settings.channels == 2,
                self@.given == start.given + out@,
                start.waiting.len() + as_stereo(samples@, start.mono).len() < ENCODE_FRAME_SAMPLES
                    ==> self@.waiting.len() < ENCODE_FRAME_SAMPLES && out@.len() == 0,
            decreases self.waiting.len(),
        {
            let ghost before = self@;
            let rest = self.waiting.split_off(ENCODE_FRAME_SAMPLES);
            match encode(&mut self.encoder, self.waiting.as_slice()) {
                Ok(mut bytes) => out.append(&mut bytes),
                Err(e) => return Err(labelled("Failed to encode MP3: ", e)),
            }
            self.waiting = rest;
            assert(self@.given =~= start.given + out@);
            assert(self@.taken + self@.waiting =~= before.taken + before.waiting);
        }
        Ok(out)
    }

    /// Ends an encoding: what still waits goes to the encoder with silence up to a
    /// whole block, and the encoder is emptied. All bytes that it gave are handed on.
    pub fn finish(&mut self) -> (r: Result<Vec<u8>, String>)
        requires
            old(self).wf(),
        ensures
            final(self)@.settings == old(self)@.settings,
            final(self)@.mono == old(self)@.mono,
            r is Ok ==> final(self)@.waiting == Seq::<i16>::empty() && final(self)@.taken == if old(
                self,
            )@.waiting.len() == 0 {
                old(self)@.taken
            } else {
                old(self)@.taken + padded(old(self)@.waiting)
            },
            r matches Ok(bytes) ==> final(self)@.given == old(self)@.given + bytes@,
            r matches Err(e) ==> text::has_prefix(e@, "Failed to encode MP3: "@)
                || text::has_prefix(e@, "Failed to flush MP3: "@),
    {
        let ghost start = self@;
        let mut out: Vec<u8> = Vec::new();
        if self.waiting.len() > 0 {
            while self.waiting.len() < ENCODE_FRAME_SAMPLES
                invariant
                    start.waiting.len() <= self@.waiting.len() <= ENCODE_FRAME_SAMPLES,
                    self@ == (Mp3Model {
                        waiting: start.waiting + Seq::new(
                            (self@.waiting.len() - start.waiting.len()) as nat,
                            |i: int| 0i16,
                        ),
                        ..start
                    }),
                decreases ENCODE_FRAME_SAMPLES - self.waiting.len(),
            {
                self.waiting.push(0);
                assert(self@.waiting =~= start.waiting + Seq::new(
                    (self@.waiting.len() - start.waiting.len()) as nat,
                    |i: int| 0i16,
                ));
            }
            assert(self@.waiting =~= padded(start.waiting));
            match encode(&mut self.encoder, self.waiting.as_slice()) {
                Ok(mut bytes) => out.append(&mut bytes),
                Err(e) => return Err(labelled("Failed to encode MP3: ", e)),
            }
            self.waiting = Vec::new();
        }
        assert(self@.given =~= start.given + out@);
        match flush(&mut self.encoder) {
            Ok(mut bytes) => out.append(&mut bytes),
            Err(e) => return Err(labelled("Failed to flush MP3: ", e)),
        }
        assert(self@.given =~= start.given + out@);
        Ok(out)
    }
}

/// Samples with silence up to a whole block.
pub open spec fn padded(waiting: Seq<i16>) -> Seq<i16> {
    Seq::new(
        ENCODE_FRAME_SAMPLES as nat,
        |i: int|
            if i < waiting.len() {
                waiting[i]
            } else {
                0
            },
    )
}

/// A sample is handed on as it is, or nearer to silence by one where it is loud; louder
/// samples stay louder, and the two signs are treated alike.
pub proof fn samples_are_handed_on(a: i16, b: i16)
    ensures
        -16416 <= a <= 16416 ==> requantized_spec(a) == a,
        a > 16416 ==> requantized_spec(a) == a - 1,
        a < -16416 ==> requantized_spec(a) == a + 1,
        a <= b ==> requantized_spec(a) <= requantized_spec(b),
        a > -32768 ==> requantized_spec((-a) as i16) == -requantized_spec(a),
{
}

/// An encoder is handed each sample of one channel twice, for both sides.
pub proof fn one_channel_goes_to_both_sides(samples: Seq<i16>, k: int)
    requires
        0 <= k < samples.len(),
    ensures
        as_stereo(samples, true).len() == 2 * samples.len(),
        as_stereo(samples, true)[2 * k] == requantized_spec(samples[k]),
        as_stereo(samples, true)[2 * k + 1] == requantized_spec(samples[k]),
    decreases samples.len(),
{
    let rest = samples.drop_last();
    if rest.len() > 0 {
        if k < rest.len() {
            one_channel_goes_to_both_sides(rest, k);
        } else {
            one_channel_goes_to_both_sides(rest, 0);
        }
    } else {
        assert(as_stereo(rest, true).len() == 0);
    }
}

/// An encoder is handed the samples of two channels one by one.
pub proof fn two_channels_stay_in_order(samples: Seq<i16>, k: int)
    requires
        0 <= k < samples.len(),
    ensures
        as_stereo(samples, false).len() == samples.len(),
        as_stereo(samples, false)[k] == requantized_spec(samples[k]),
    decreases samples.len(),
{
    let rest = samples.drop_last();
    if rest.len() > 0 {
        if k < rest.len() {
            two_channels_stay_in_order(rest, k);
        } else {
            two_channels_stay_in_order(rest, 0);
        }
    } else {
        assert(as_stereo(rest, false).len() == 0);
    }
}

/// The last block is filled up with silence behind what waits.
pub proof fn last_blocks_end_in_silence(waiting: Seq<i16>, i: int)
    requires
        waiting.len() <= ENCODE_FRAME_SAMPLES,
        0 <= i < ENCODE_FRAME_SAMPLES,
    ensures
        padded(waiting).len() == ENCODE_FRAME_SAMPLES,
        i < waiting.len() ==> padded(waiting)[i] == waiting[i],
        i >= waiting.len() ==> padded(waiting)[i] == 0,
{
}

/// Samples that are handed on in parts are handed on as they would be at once.
pub proof fn parts_are_handed_on_alike(a: Seq<i16>, b: Seq<i16>, mono: bool)
    ensures
        as_stereo(a + b, mono) == as_stereo(a, mono) + as_stereo(b, mono),
    decreases b.len(),
{
    if b.len() == 0 {
        assert(a + b =~= a);
        assert(as_stereo(a, mono) + as_stereo(b, mono) =~= as_stereo(a, mono));
    } else {
        parts_are_handed_on_alike(a, b.drop_last(), mono);
        assert((a + b).drop_last() =~= a + b.drop_last());
        assert((a + b).last() == b.last());
        assert(as_stereo(a + b, mono) =~= as_stereo(a, mono) + as_stereo(b, mono));
    }
}

/// Sound is encoded if it has the wanted rate and channels, which are one or two.
pub proof fn one_or_two_channels_are_encoded(found_rate: u32, found_channels: u16, sample_rate: u32, channels: u16)
    ensures
        can_encode(found_rate, found_channels, sample_rate, channels) <==> found_rate
            == sample_rate && found_channels == channels && 1 <= channels <= 2,
{
}

} // verus!
