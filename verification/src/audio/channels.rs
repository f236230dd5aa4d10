//! Interleaved samples with another number of channels.
use vstd::prelude::*;

verus! {

/// Where a frame of interleaved samples ends. The last one may be short.
pub open spec fn frame_end(len: int, from: int, k: int) -> int {
    if (k + 1) * from <= len {
        (k + 1) * from
    } else {
        len
    }
}

/// The samples of one frame.
pub open spec fn frame<T>(s: Seq<T>, from: int, k: int) -> Seq<T> {
    s.subrange(k * from, frame_end(s.len() as int, from, k))
}

/// How many frames the samples make, a short one at the end counted.
pub open spec fn frame_count(len: int, from: int) -> int {
    (len + from - 1) / from
}

/// Whether a value is an average of a frame.
pub open spec fn averages<T, F: Fn(&[T]) -> T>(average: &F, of: Seq<T>, value: T) -> bool {
    exists|part: &[T]| part@ == of && #[trigger] call_ensures(average, (part,), value)
}

/// A channel of a frame, or its last one where it has fewer.
pub open spec fn channel_or_last<T>(f: Seq<T>, channel: int) -> T {
    if channel < f.len() {
        f[channel]
    } else {
        f.last()
    }
}

/// Samples with another number of channels: one channel is the average of all, and
/// more channels than there are repeat the last one.
pub open spec fn is_converted<T, F: Fn(&[T]) -> T>(
    average: &F,
    s: Seq<T>,
    from: int,
    to: int,
    r: Seq<T>,
) -> bool {
    if from == to {
        r == s
    } else if to == 1 {
        &&& r.len() == frame_count(s.len() as int, from)
        &&& forall|k: int|
            #![trigger r[k]]
            0 <= k < r.len() ==> averages(average, frame(s, from, k), r[k])
    } else {
        &&& r.len() == frame_count(s.len() as int, from) * to
        &&& forall|i: int|
            #![trigger r[i]]
            0 <= i < r.len() ==> r[i] == channel_or_last(frame(s, from, i / to), i % to)
    }
}

proof fn frames_so_far(len: int, from: int, k: int)
    requires
        from > 0,
        k >= 0,
        k * from >= len,
        k > 0 ==> (k - 1) * from < len,
        k == 0 ==> len == 0,
        len >= 0,
    ensures
        frame_count(len, from) == k,
{
    let rest = len + from - 1 - k * from;
    assert(0 <= rest < from) by {
        if k > 0 {
            assert((k - 1) * from == k * from - from) by (nonlinear_arith);
        } else {
            assert(k * from == 0) by (nonlinear_arith)
                requires
                    k == 0,
            ;
        }
    }
    vstd::arithmetic::div_mod::lemma_fundamental_div_mod_converse(
        len + from - 1,
        from,
        k,
        rest,
    );
}

fn push_frame<T: Copy>(part: &[T], to: u16, out: &mut Vec<T>)
    requires
        part@.len() > 0,
    ensures
        final(out)@ == old(out)@ + Seq::new(to as nat, |j: int| channel_or_last(part@, j)),
{
    let ghost before = out@;
    let mut j: u16 = 0;
    assert(out@ =~= before + Seq::new(0, |j: int| channel_or_last(part@, j)));
    while j < to
        invariant
            j <= to,
            part@.len() > 0,
            out@ == before + Seq::new(j as nat, |j: int| channel_or_last(part@, j)),
        decreases to - j,
    {
        let channel: usize = j as usize;
        let sample = if channel < part.len() {
            part[channel]
        } else {
            part[part.len() - 1]
        };
        out.push(sample);
        assert(out@ =~= before + Seq::new((j + 1) as nat, |j: int| channel_or_last(part@, j)));
        j = j + 1;
    }
}

/// Changes the number of channels of interleaved samples.
pub fn convert_channels<T: Copy, F: Fn(&[T]) -> T>(
    samples: &[T],
    from_channels: u16,
    to_channels: u16,
    average: &F,
) -> (r: Vec<T>)
    requires
        from_channels > 0 || from_channels == to_channels,
        forall|part: &[T]| #[trigger] call_requires(average, (part,)),
    ensures
        is_converted(average, samples@, from_channels as int, to_channels as int, r@),
{
    let mut out: Vec<T> = Vec::new();
    let len: usize = samples.len();
    let mut at: usize = 0;
    if from_channels == to_channels {
        while at < len
            invariant
                at <= len == samples@.len(),
                out@ == samples@.take(at as int),
            decreases len - at,
        {
            out.push(samples[at]);
            at = at + 1;
            assert(out@ =~= samples@.take(at as int));
        }
        assert(samples@.take(len as int) =~= samples@);
        return out;
    }
    let from: usize = from_channels as usize;
    let ghost mut k: int = 0;
    proof {
        assert(0 * from == 0) by (nonlinear_arith);
        assert(0 * to_channels == 0) by (nonlinear_arith);
    }
    while at < len
        invariant
            at <= len == samples@.len(),
            from == from_channels > 0,
            from_channels != to_channels,
            k >= 0,
            at < len ==> at == k * from,
            k * from >= at,
            k > 0 ==> (k - 1) * from < len,
            k == 0 ==> at == 0,
            forall|part: &[T]| #[trigger] call_requires(average, (part,)),
            to_channels == 1 ==> out@.len() == k && forall|i: int|
                #![trigger out@[i]]
                0 <= i < k ==> averages(average, frame(samples@, from as int, i), out@[i]),
            to_channels != 1 ==> out@.len() == k * to_channels && forall|i: int|
                #![trigger out@[i]]
                0 <= i < out@.len() ==> out@[i] == channel_or_last(
                    frame(samples@, from as int, i / to_channels as int),
                    i % to_channels as int,
                ),
        decreases len - at,
    {
        let end: usize = if from <= len - at {
            at + from
        } else {
            len
        };
        let part = vstd::slice::slice_subrange(samples, at, end);
        proof {
            assert((k + 1) * from == k * from + from) by (nonlinear_arith);
            assert(part@ == frame(samples@, from as int, k));
        }
        if to_channels == 1 {
            let value = average(part);
            assert(averages(average, frame(samples@, from as int, k), value));
            out.push(value);
        } else {
            let ghost before = out@;
            push_frame(part, to_channels, &mut out);
            proof {
                let to = to_channels as int;
                assert((k + 1) * to == k * to + to) by (nonlinear_arith);
                assert forall|i: int|
                    #![trigger out@[i]]
                    0 <= i < out@.len() implies out@[i] == channel_or_last(
                    frame(samples@, from as int, i / to),
                    i % to,
                ) by {
                    if i < before.len() {
                        assert(out@[i] == before[i]);
                    } else {
                        let j = i - before.len();
                        vstd::arithmetic::div_mod::lemma_fundamental_div_mod_converse(i, to, k, j);
                    }
                }
            }
        }
        proof {
            k = k + 1;
        }
        at = end;
    }
    proof {
        frames_so_far(len as int, from as int, k);
    }
    out
}

/// Why samples cannot be converted.
#[derive(Clone, Copy, Debug, PartialEq, Eq, Structural)]
pub enum ConversionError {
    Rates,
    Channels,
    Frames,
}

impl ConversionError {
    pub open spec fn spec_text(self) -> Seq<char> {
        match self {
            ConversionError::Rates => "Sample rates must be positive"@,
            ConversionError::Channels => "Channel counts must be positive"@,
            ConversionError::Frames => "Audio samples must contain complete frames"@,
        }
    }

    pub fn message(self) -> (r: &'static str)
        ensures
            r@ == self.spec_text(),
    {
        match self {
            ConversionError::Rates => "Sample rates must be positive",
            ConversionError::Channels => "Channel counts must be positive",
            ConversionError::Frames => "Audio samples must contain complete frames",
        }
    }
}

/// What has to be done to decoded samples.
#[derive(Clone, Copy, Debug, PartialEq, Eq, Structural)]
pub struct Conversion {
    pub resample: bool,
    pub channels: bool,
}

/// The first thing that is wrong with a conversion, if anything is.
pub open spec fn conversion_error(
    len: int,
    input_rate: u32,
    input_channels: u16,
    output_rate: u32,
    output_channels: u16,
) -> Option<ConversionError> {
    if input_rate == output_rate && input_channels == output_channels {
        None
    } else if input_rate == 0 || output_rate == 0 {
        Some(ConversionError::Rates)
    } else if input_channels == 0 || output_channels == 0 {
        Some(ConversionError::Channels)
    } else if len % input_channels as int != 0 {
        Some(ConversionError::Frames)
    } else {
        None
    }
}

/// Decides how decoded samples become samples of the wanted rate and channels.
/// Samples that have both already are taken as they are.
pub fn conversion(
    len: usize,
    input_rate: u32,
    input_channels: u16,
    output_rate: u32,
    output_channels: u16,
) -> (r: Result<Conversion, ConversionError>)
    ensures
        match r {
            Ok(c) => conversion_error(
                len as int,
                input_rate,
                input_channels,
                output_rate,
                output_channels,
            ) is None && c == (Conversion {
                resample: input_rate != output_rate,
                channels: input_channels != output_channels,
            }),
            Err(e) => conversion_error(
                len as int,
                input_rate,
                input_channels,
                output_rate,
                output_channels,
            ) == Some(e),
        },
{
    if input_rate == output_rate && input_channels == output_channels {
        return Ok(Conversion { resample: false, channels: false });
    }
    if input_rate == 0 || output_rate == 0 {
        return Err(ConversionError::Rates);
    }
    if input_channels == 0 || output_channels == 0 {
        return Err(ConversionError::Channels);
    }
    if len % input_channels as usize != 0 {
        return Err(ConversionError::Frames);
    }
    Ok(
        Conversion {
            resample: input_rate != output_rate,
            channels: input_channels != output_channels,
        },
    )
}

proof fn whole_frames_are_counted(frames: int, from: int)
    requires
        0 <= frames,
        0 < from,
    ensures
        frame_count(frames * from, from) == frames,
{
    vstd::arithmetic::div_mod::lemma_fundamental_div_mod_converse(
        frames * from + from - 1,
        from,
        frames,
        from - 1,
    );
}

proof fn place_in_frame(k: int, c: int, to: int)
    requires
        0 <= c < to,
        0 <= k,
    ensures
        (k * to + c) / to == k,
        (k * to + c) % to == c,
{
    vstd::arithmetic::div_mod::lemma_fundamental_div_mod_converse(k * to + c, to, k, c);
}

proof fn frame_is_whole<T>(s: Seq<T>, frames: int, from: int, k: int)
    requires
        0 <= k < frames,
        0 < from,
        s.len() == frames * from,
    ensures
        0 <= k * from,
        k * from + from <= s.len(),
        frame(s, from, k).len() == from,
        forall|c: int| 0 <= c < from ==> #[trigger] frame(s, from, k)[c] == s[k * from + c],
{
    assert((k + 1) * from <= frames * from && (k + 1) * from == k * from + from && 0 <= k * from)
        by (nonlinear_arith)
        requires
            0 <= k < frames,
            0 < from,
    ;
}

/// Samples of whole frames that get more channels, or other than one, keep their frames in
/// order: each channel that a frame had stays in its place, and further ones repeat the
/// last one that it had.
pub proof fn frames_keep_their_channels<T, F: Fn(&[T]) -> T>(
    average: &F,
    s: Seq<T>,
    frames: int,
    from: int,
    to: int,
    r: Seq<T>,
    k: int,
    c: int,
)
    requires
        0 < from,
        1 < to,
        from != to,
        s.len() == frames * from,
        is_converted(average, s, from, to, r),
        0 <= k < frames,
        0 <= c < to,
    ensures
        r.len() == frames * to,
        0 <= k * to + c < r.len(),
        c < from ==> r[k * to + c] == s[k * from + c],
        c >= from ==> r[k * to + c] == s[k * from + from - 1],
{
    whole_frames_are_counted(frames, from);
    place_in_frame(k, c, to);
    frame_is_whole(s, frames, from, k);
    assert(0 <= k * to + c < frames * to) by (nonlinear_arith)
        requires
            0 <= k < frames,
            0 <= c < to,
    ;
    let f = frame(s, from, k);
    assert(r[k * to + c] == channel_or_last(f, c));
    assert(f.last() == f[from - 1]);
}

/// One channel is the average of all channels of each frame, in order.
pub proof fn one_channel_is_the_average<T, F: Fn(&[T]) -> T>(
    average: &F,
    s: Seq<T>,
    frames: int,
    from: int,
    r: Seq<T>,
    k: int,
)
    requires
        1 < from,
        s.len() == frames * from,
        is_converted(average, s, from, 1, r),
        0 <= k < frames,
    ensures
        r.len() == frames,
        exists|part: &[T]|
            part@ == Seq::new(from as nat, |c: int| s[k * from + c]) && #[trigger] call_ensures(
                average,
                (part,),
                r[k],
            ),
{
    whole_frames_are_counted(frames, from);
    frame_is_whole(s, frames, from, k);
    assert(frame(s, from, k) =~= Seq::new(from as nat, |c: int| s[k * from + c]));
    assert(averages(average, frame(s, from, k), r[k]));
}

/// Sound that has the wanted rate and channels is taken as it is. Other sound is refused
/// exactly if a rate or a number of channels is zero, or if its last frame is not whole.
pub proof fn sound_is_refused_for_a_reason(
    len: int,
    input_rate: u32,
    input_channels: u16,
    output_rate: u32,
    output_channels: u16,
)
    ensures
        ({
            let e = conversion_error(
                len,
                input_rate,
                input_channels,
                output_rate,
                output_channels,
            );
            let same = input_rate == output_rate && input_channels == output_channels;
            &&& same ==> e is None
            &&& e is None <==> same || (input_rate > 0 && output_rate > 0 && input_channels > 0
                && output_channels > 0 && len % input_channels as int == 0)
        }),
{
}

} // verus!
