//! Segments written one after another, each faded into the one before it.
use crate::audio::export_wav;
use crate::project::compiler;
use vstd::prelude::*;

verus! {

/// How many samples are handled between two looks at the clock and the cancel button.
pub const MERGE_BLOCK_SAMPLES: usize = 8192;

/// Why a merge does not go on.
#[derive(Clone, Copy, Debug, PartialEq, Eq, Structural)]
pub enum MergeError {
    SampleRate,
    Channels,
    FailedAppend,
    Frames,
    FailedFinish,
}

impl MergeError {
    pub open spec fn spec_text(self) -> Seq<char> {
        match self {
            MergeError::SampleRate => "Sample rate must be greater than zero"@,
            MergeError::Channels => "Channel count must be greater than zero"@,
            MergeError::FailedAppend => "Cannot append after a failed merge operation"@,
            MergeError::Frames => "Merge samples must contain complete audio frames"@,
            MergeError::FailedFinish => "Cannot finish after a failed merge operation"@,
        }
    }

    pub fn message(self) -> (r: &'static str)
        ensures
            r@ == self.spec_text(),
    {
        match self {
            MergeError::SampleRate => "Sample rate must be greater than zero",
            MergeError::Channels => "Channel count must be greater than zero",
            MergeError::FailedAppend => "Cannot append after a failed merge operation",
            MergeError::Frames => "Merge samples must contain complete audio frames",
            MergeError::FailedFinish => "Cannot finish after a failed merge operation",
        }
    }
}

/// How a segment meets what is held of the one before it: so much of the held end is
/// written as it is, so much is faded, and so much of the segment is held in turn.
pub ghost struct Junction {
    pub held: int,
    pub len: int,
    pub crossfade: int,
}

impl Junction {
    pub open spec fn overlap(self) -> int {
        compiler::overlap_of(self.held, self.len, self.crossfade)
    }

    /// The part of the held end that is written as it is.
    pub open spec fn prefix(self) -> int {
        self.held - self.overlap()
    }

    /// The part of the segment that is held in turn.
    pub open spec fn kept(self) -> int {
        vstd::math::min(self.crossfade, self.len - self.overlap())
    }

    /// How many samples are written.
    pub open spec fn written(self) -> int {
        self.prefix() + self.len - self.kept()
    }

    /// How many samples are handled: those written and those held.
    pub open spec fn total(self) -> int {
        self.prefix() + self.len
    }

    /// Where the stage of a position ends.
    pub open spec fn stage_end(self, pos: int) -> int {
        if pos < self.prefix() {
            self.prefix()
        } else if pos < self.held {
            self.held
        } else if pos < self.written() {
            self.written()
        } else {
            self.total()
        }
    }

    /// Where the block at a position ends.
    pub open spec fn block_end(self, pos: int) -> int {
        vstd::math::min(self.stage_end(pos), pos + MERGE_BLOCK_SAMPLES)
    }
}

/// Whether a value may stand at a position of a merge. The end that is held comes
/// first; where a segment overlaps it, each sample is a fade from one to the other
/// by the place of its frame among those that overlap; then the segment goes on.
pub open spec fn stands_at<T, P: Fn(T) -> T, F: Fn(T, T, usize, usize) -> T>(
    prepare: &P,
    fade: &F,
    held: Seq<T>,
    samples: Seq<T>,
    crossfade: int,
    channels: int,
    pos: int,
    value: T,
) -> bool {
    let j = Junction { held: held.len() as int, len: samples.len() as int, crossfade };
    if pos < j.prefix() {
        value == held[pos]
    } else if pos < j.held {
        faded(
            prepare,
            fade,
            held[pos],
            samples[pos - j.prefix()],
            ((pos - j.prefix()) / channels) as usize,
            (j.overlap() / channels) as usize,
            value,
        )
    } else {
        call_ensures(prepare, (samples[pos - j.prefix()],), value)
    }
}

/// Whether a value is a fade from a held sample to a sample that was prepared.
pub open spec fn faded<T, P: Fn(T) -> T, F: Fn(T, T, usize, usize) -> T>(
    prepare: &P,
    fade: &F,
    before: T,
    sample: T,
    at: usize,
    of: usize,
    value: T,
) -> bool {
    exists|ready: T|
        call_ensures(prepare, (sample,), ready) && #[trigger] call_ensures(
            fade,
            (before, ready, at, of),
            value,
        )
}

/// Whether values may stand at positions of a merge, from one position on.
pub open spec fn stand_from<T, P: Fn(T) -> T, F: Fn(T, T, usize, usize) -> T>(
    prepare: &P,
    fade: &F,
    held: Seq<T>,
    samples: Seq<T>,
    crossfade: int,
    channels: int,
    pos: int,
    values: Seq<T>,
) -> bool {
    forall|i: int|
        #![trigger values[i]]
        0 <= i < values.len() ==> stands_at(
            prepare,
            fade,
            held,
            samples,
            crossfade,
            channels,
            pos + i,
            values[i],
        )
}

/// The state of a merge: the end of the last segment that can still be faded, and,
/// while a segment is being appended, its length, how far it is handled, and what of
/// it is held already.
#[verifier::ext_equal]
pub ghost struct MergeModel<T> {
    pub channels: int,
    pub crossfade: int,
    pub held: Seq<T>,
    pub next: Seq<T>,
    pub len: int,
    pub pos: int,
    pub failed: bool,
}

impl<T> MergeModel<T> {
    pub open spec fn junction(self) -> Junction {
        Junction { held: self.held.len() as int, len: self.len, crossfade: self.crossfade }
    }
}

/// A merge that has taken nothing yet. A fade covers whole frames.
pub open spec fn fresh_merge<T>(crossfade_samples: int, channels: int) -> MergeModel<T> {
    MergeModel {
        channels,
        crossfade: crossfade_samples / channels * channels,
        held: Seq::<T>::empty(),
        next: Seq::<T>::empty(),
        len: 0,
        pos: 0,
        failed: false,
    }
}

/// Whether appending a segment leads from one state and output to others, with some
/// result.
pub open spec fn appended<T, P: Fn(T) -> T, F: Fn(T, T, usize, usize) -> T>(
    prepare: &P,
    fade: &F,
    m: MergeModel<T>,
    out: Seq<T>,
    samples: Seq<T>,
    m2: MergeModel<T>,
    out2: Seq<T>,
    r: Result<usize, MergeError>,
) -> bool {
    let j = Junction { len: samples.len() as int, ..m.junction() };
    match r {
        Ok(len) => {
            &&& !m.failed
            &&& samples.len() as int % m.channels == 0
            &&& len == samples.len()
            &&& exists|values: Seq<T>|
                {
                    &&& values.len() == j.total()
                    &&& #[trigger] stand_from(
                        prepare,
                        fade,
                        m.held,
                        samples,
                        m.crossfade,
                        m.channels,
                        0,
                        values,
                    )
                    &&& out2 == out + values.take(j.written())
                    &&& m2 == (MergeModel { held: values.skip(j.written()), ..m })
                }
        },
        Err(MergeError::FailedAppend) => m.failed && m2 == m && out2 == out,
        Err(MergeError::Frames) => {
            &&& !m.failed
            &&& samples.len() as int % m.channels != 0
            &&& m2 == (MergeModel { failed: true, ..m })
            &&& out2 == out
        },
        Err(_) => false,
    }
}

/// What the end of a merge writes, or why it has none.
pub open spec fn ending<T>(m: MergeModel<T>) -> Result<Seq<T>, MergeError> {
    if m.failed {
        Err(MergeError::FailedFinish)
    } else {
        Ok(m.held)
    }
}

/// The states, outputs and results of a merge over a list of segments.
pub ghost struct MergeRun<T> {
    pub segments: Seq<Seq<T>>,
    pub states: Seq<MergeModel<T>>,
    pub outputs: Seq<Seq<T>>,
    pub results: Seq<Result<usize, MergeError>>,
}

impl<T> MergeRun<T> {
    /// Whether a run goes from a new merge over all segments, one append after another.
    pub open spec fn valid<P: Fn(T) -> T, F: Fn(T, T, usize, usize) -> T>(
        self,
        prepare: &P,
        fade: &F,
        crossfade_samples: int,
        channels: int,
    ) -> bool {
        let n = self.segments.len();
        &&& self.states.len() == n + 1
        &&& self.outputs.len() == n + 1
        &&& self.results.len() == n
        &&& self.states[0] == fresh_merge::<T>(crossfade_samples, channels)
        &&& self.outputs[0] == Seq::<T>::empty()
        &&& forall|i: int|
            0 <= i < n ==> appended(
                prepare,
                fade,
                self.states[i],
                self.outputs[i],
                #[trigger] self.segments[i],
                self.states[i + 1],
                self.outputs[i + 1],
                self.results[i],
            )
    }

    /// The lengths that the appends returned.
    pub open spec fn lens(self) -> Seq<usize> {
        self.results.map_values(|r: Result<usize, MergeError>| r->Ok_0)
    }

    /// Whether no append was refused.
    pub open spec fn succeeded(self) -> bool {
        forall|i: int| 0 <= i < self.results.len() ==> (#[trigger] self.results[i]) is Ok
    }

    /// All that went out and all that the end still writes.
    pub open spec fn whole(self) -> Seq<T> {
        self.outputs.last() + self.states.last().held
    }
}

/// Merges the segments of a section. Memory goes to one block and the held end
/// alone. A segment that was begun and not ended, for whatever reason, leaves a merge
/// that takes no further segment and has no end.
pub struct StreamingWavMerge<T> {
    channels: usize,
    crossfade: usize,
    held: Vec<T>,
    next: Vec<T>,
    len: usize,
    pos: u128,
    failed: bool,
}

impl<T> View for StreamingWavMerge<T> {
    type V = MergeModel<T>;

    closed spec fn view(&self) -> MergeModel<T> {
        MergeModel {
            channels: self.channels as int,
            crossfade: self.crossfade as int,
            held: self.held@,
            next: self.next@,
            len: self.len as int,
            pos: self.pos as int,
            failed: self.failed,
        }
    }
}

impl<T: Copy> StreamingWavMerge<T> {
    /// A fade covers whole frames, no more is held than can be faded, and what is
    /// held of the segment under way is what was handled of its end.
    pub open spec fn wf(&self) -> bool {
        let m = self@;
        &&& 0 < m.channels <= u16::MAX
        &&& m.crossfade % m.channels == 0
        &&& m.held.len() <= m.crossfade
        &&& m.held.len() as int % m.channels == 0
        &&& m.len % m.channels == 0
        &&& !m.failed ==> m.len == 0 && m.pos == 0
        &&& 0 <= m.pos <= m.junction().total()
        &&& m.next.len() == if m.pos > m.junction().written() {
            m.pos - m.junction().written()
        } else {
            0
        }
    }

    /// Begins a merge. A fade covers whole frames.
    pub fn create(crossfade_samples: usize, sample_rate: u32, channels: u16) -> (r: Result<
        Self,
        MergeError,
    >)
        ensures
            match r {
                Ok(m) => sample_rate > 0 && channels > 0 && m.wf() && m@ == fresh_merge::<T>(
                    crossfade_samples as int,
                    channels as int,
                ),
                Err(MergeError::SampleRate) => sample_rate == 0,
                Err(MergeError::Channels) => sample_rate > 0 && channels == 0,
                Err(_) => false,
            },
    {
        if sample_rate == 0 {
            return Err(MergeError::SampleRate);
        }
        if channels == 0 {
            return Err(MergeError::Channels);
        }
        let width: usize = channels as usize;
        proof {
            let q = crossfade_samples as int / width as int;
            vstd::arithmetic::div_mod::lemma_fundamental_div_mod(
                crossfade_samples as int,
                width as int,
            );
            assert(0 <= q * width <= crossfade_samples) by (nonlinear_arith)
                requires
                    crossfade_samples as int == width as int * q + crossfade_samples as int
                        % width as int,
                    crossfade_samples as int % width as int >= 0,
                    width > 0,
                    q >= 0,
            ;
            vstd::arithmetic::div_mod::lemma_mod_multiples_basic(q, width as int);
        }
        Ok(
            StreamingWavMerge {
                channels: width,
                crossfade: crossfade_samples / width * width,
                held: Vec::new(),
                next: Vec::new(),
                len: 0,
                pos: 0,
                failed: false,
            },
        )
    }

    /// Begins a segment. From here on the merge counts as failed until the segment
    /// ends.
    pub fn begin(&mut self, len: usize) -> (r: Result<(), MergeError>)
        requires
            old(self).wf(),
        ensures
            final(self).wf(),
            match r {
                Ok(_) => {
                    &&& !old(self)@.failed
                    &&& len as int % old(self)@.channels == 0
                    &&& final(self)@ == (MergeModel {
                        next: Seq::<T>::empty(),
                        len: len as int,
                        pos: 0,
                        failed: true,
                        ..old(self)@
                    })
                },
                Err(MergeError::FailedAppend) => old(self)@.failed && final(self)@ == old(self)@,
                Err(MergeError::Frames) => !old(self)@.failed && len as int % old(self)@.channels
                    != 0 && final(self)@ == (MergeModel { failed: true, ..old(self)@ }),
                Err(_) => false,
            },
    {
        if self.failed {
            return Err(MergeError::FailedAppend);
        }
        if len % self.channels != 0 {
            self.failed = true;
            return Err(MergeError::Frames);
        }
        self.failed = true;
        self.next = Vec::new();
        self.len = len;
        self.pos = 0;
        Ok(())
    }

    /// Handles the next block of the segment that was begun: what is to be written
    /// is appended to `out`.
    pub fn append_block<P: Fn(T) -> T, F: Fn(T, T, usize, usize) -> T>(
        &mut self,
        samples: &[T],
        prepare: &P,
        fade: &F,
        out: &mut Vec<T>,
    )
        requires
            old(self).wf(),
            old(self)@.failed,
            samples@.len() == old(self)@.len,
            old(self)@.pos < old(self)@.junction().total(),
            forall|sample: T| #[trigger] call_requires(prepare, (sample,)),
            forall|before: T, sample: T, at: usize, of: usize|
                at < of ==> #[trigger] call_requires(fade, (before, sample, at, of)),
        ensures
            final(self).wf(),
            ({
                let m = old(self)@;
                let j = m.junction();
                let end = j.block_end(m.pos);
                exists|values: Seq<T>|
                    {
                        &&& values.len() == end - m.pos
                        &&& #[trigger] stand_from(
                            prepare,
                            fade,
                            m.held,
                            samples@,
                            m.crossfade,
                            m.channels,
                            m.pos,
                            values,
                        )
                        &&& m.pos < j.written() ==> final(out)@ == old(out)@ + values && final(
                        self)@ == (MergeModel { pos: end, ..m })
                        &&& m.pos >= j.written() ==> final(out)@ == old(out)@ && final(self)@ == (
                        MergeModel { pos: end, next: m.next + values, ..m })
                    }
            }),
    {
        let ghost m = self@;
        let ghost j = m.junction();
        let held: usize = self.held.len();
        let mut overlap: usize = if held < self.len {
            held
        } else {
            self.len
        };
        if self.crossfade < overlap {
            overlap = self.crossfade;
        }
        let prefix: usize = held - overlap;
        let rest: usize = self.len - overlap;
        let kept: usize = if self.crossfade < rest {
            self.crossfade
        } else {
            rest
        };
        let written: u128 = prefix as u128 + (self.len - kept) as u128;
        let total: u128 = prefix as u128 + self.len as u128;
        let pos: u128 = self.pos;
        let stage: u128 = if pos < prefix as u128 {
            prefix as u128
        } else if pos < held as u128 {
            held as u128
        } else if pos < written {
            written
        } else {
            total
        };
        let end: u128 = if stage - pos < MERGE_BLOCK_SAMPLES as u128 {
            stage
        } else {
            pos + MERGE_BLOCK_SAMPLES as u128
        };
        assert(overlap == j.overlap() && prefix == j.prefix() && kept == j.kept());
        assert(written == j.written() && total == j.total());
        assert(stage == j.stage_end(pos as int) && end == j.block_end(pos as int));
        let frames: usize = overlap / self.channels;
        let mut values: Vec<T> = Vec::new();
        let mut at: u128 = pos;
        while at < end
            invariant
                pos <= at <= end <= stage,
                stage == j.stage_end(pos as int),
                self@ == m,
                j == m.junction(),
                self.len == samples@.len(),
                held == m.held.len(),
                overlap == j.overlap(),
                prefix == j.prefix(),
                prefix + overlap == held,
                total == j.total(),
                frames == overlap as int / m.channels,
                m.channels > 0,
                overlap as int % m.channels == 0,
                forall|sample: T| #[trigger] call_requires(prepare, (sample,)),
                forall|before: T, sample: T, at: usize, of: usize|
                    at < of ==> #[trigger] call_requires(fade, (before, sample, at, of)),
                values@.len() == at - pos,
                stand_from(
                    prepare,
                    fade,
                    m.held,
                    samples@,
                    m.crossfade,
                    m.channels,
                    pos as int,
                    values@,
                ),
            decreases end - at,
        {
            let ghost before = values@;
            if at < prefix as u128 {
                values.push(self.held[at as usize]);
            } else {
                let index: usize = (at - prefix as u128) as usize;
                let ready = prepare(samples[index]);
                if at < held as u128 {
                    let place: usize = index / self.channels;
                    proof {
                        let c = m.channels;
                        vstd::arithmetic::div_mod::lemma_fundamental_div_mod(overlap as int, c);
                        vstd::arithmetic::div_mod::lemma_fundamental_div_mod(index as int, c);
                        assert(place < frames) by (nonlinear_arith)
                            requires
                                overlap as int == c * frames,
                                index as int >= c * place,
                                index < overlap,
                                c > 0,
                        ;
                    }
                    let value = fade(self.held[at as usize], ready, place, frames);
                    assert(faded(
                        prepare,
                        fade,
                        m.held[at as int],
                        samples@[index as int],
                        place,
                        frames,
                        value,
                    ));
                    values.push(value);
                } else {
                    values.push(ready);
                }
            }
            assert(stands_at(
                prepare,
                fade,
                m.held,
                samples@,
                m.crossfade,
                m.channels,
                at as int,
                values@[at - pos],
            ));
            at = at + 1;
        }
        let ghost made = values@;
        if pos < written {
            out.append(&mut values);
        } else {
            self.next.append(&mut values);
        }
        self.pos = end;
        assert(stand_from(
            prepare,
            fade,
            m.held,
            samples@,
            m.crossfade,
            m.channels,
            m.pos,
            made,
        ));
    }

    /// Ends a segment of which every block was handled.
    pub fn end(&mut self)
        requires
            old(self).wf(),
            old(self)@.failed,
            old(self)@.pos == old(self)@.junction().total(),
        ensures
            final(self).wf(),
            final(self)@ == (MergeModel {
                held: old(self)@.next,
                next: Seq::<T>::empty(),
                len: 0,
                pos: 0,
                failed: false,
                ..old(self)@
            }),
    {
        let ghost m = self@;
        let ghost j = m.junction();
        let mut next: Vec<T> = Vec::new();
        std::mem::swap(&mut next, &mut self.next);
        self.held = next;
        self.len = 0;
        self.pos = 0;
        self.failed = false;
        proof {
            let c = m.channels;
            assert(j.kept() % c == 0) by {
                lemma_whole_frames(j.len, j.overlap(), c);
            }
            vstd::arithmetic::div_mod::lemma_small_mod(0, c as nat);
            assert(self@.held.len() == j.kept());
        }
    }

    /// Appends a segment: what can be written is appended to `out`, and the end that
    /// can still be faded is held. Returns the length of the segment.
    pub fn append_samples<P: Fn(T) -> T, F: Fn(T, T, usize, usize) -> T>(
        &mut self,
        samples: &[T],
        prepare: &P,
        fade: &F,
        out: &mut Vec<T>,
    ) -> (r: Result<usize, MergeError>)
        requires
            old(self).wf(),
            forall|sample: T| #[trigger] call_requires(prepare, (sample,)),
            forall|before: T, sample: T, at: usize, of: usize|
                at < of ==> #[trigger] call_requires(fade, (before, sample, at, of)),
        ensures
            final(self).wf(),
            appended(
                prepare,
                fade,
                old(self)@,
                old(out)@,
                samples@,
                final(self)@,
                final(out)@,
                r,
            ),
    {
        let ghost m = self@;
        let ghost start = out@;
        let len: usize = samples.len();
        match self.begin(len) {
            Ok(_) => {},
            Err(e) => return Err(e),
        }
        let ghost j = self@.junction();
        let ghost mut values: Seq<T> = Seq::empty();
        let total: u128 = self.total();
        while self.pos < total
            invariant
                self.wf(),
                self@.failed,
                self@.held == m.held,
                self@.channels == m.channels,
                self@.crossfade == m.crossfade,
                self@.junction() == j,
                self@.len == samples@.len(),
                total == j.total(),
                self@.pos <= total,
                j.len == samples@.len(),
                values.len() == self@.pos,
                stand_from(
                    prepare,
                    fade,
                    m.held,
                    samples@,
                    m.crossfade,
                    m.channels,
                    0,
                    values,
                ),
                out@ == start + values.take(vstd::math::min(self@.pos, j.written())),
                self@.next == values.skip(vstd::math::min(self@.pos, j.written())),
                forall|sample: T| #[trigger] call_requires(prepare, (sample,)),
                forall|before: T, sample: T, at: usize, of: usize|
                    at < of ==> #[trigger] call_requires(fade, (before, sample, at, of)),
            decreases total - self@.pos,
        {
            let ghost before = self@;
            let ghost out_before = out@;
            self.append_block(samples, prepare, fade, out);
            proof {
                let made = choose|made: Seq<T>|
                    {
                        &&& made.len() == j.block_end(before.pos) - before.pos
                        &&& #[trigger] stand_from(
                            prepare,
                            fade,
                            before.held,
                            samples@,
                            before.crossfade,
                            before.channels,
                            before.pos,
                            made,
                        )
                        &&& before.pos < j.written() ==> out@ == out_before + made && self@ == (
                        MergeModel { pos: j.block_end(before.pos), ..before })
                        &&& before.pos >= j.written() ==> out@ == out_before && self@ == (
                        MergeModel {
                            pos: j.block_end(before.pos),
                            next: before.next + made,
                            ..before
                        })
                    };
                let all = values + made;
                assert forall|i: int| #![trigger all[i]] 0 <= i < all.len() implies stands_at(
                    prepare,
                    fade,
                    m.held,
                    samples@,
                    m.crossfade,
                    m.channels,
                    0 + i,
                    all[i],
                ) by {
                    if i < values.len() {
                        assert(all[i] == values[i]);
                    } else {
                        assert(all[i] == made[i - values.len()]);
                    }
                }
                let cut = vstd::math::min(self@.pos, j.written());
                if before.pos < j.written() {
                    assert(out@ =~= start + all.take(cut));
                    assert(self@.next =~= all.skip(cut));
                } else {
                    assert(out@ =~= start + all.take(cut));
                    assert(self@.next =~= all.skip(cut));
                }
                values = all;
            }
        }
        self.end();
        assert(out@ =~= start + values.take(j.written()));
        assert(self@ =~= (MergeModel { held: values.skip(j.written()), ..m }));
        Ok(len)
    }

    /// How many samples the segment under way makes, those held at its start counted.
    pub fn total(&self) -> (r: u128)
        requires
            self.wf(),
        ensures
            r == self@.junction().total(),
    {
        let held: usize = self.held.len();
        let mut overlap: usize = if held < self.len {
            held
        } else {
            self.len
        };
        if self.crossfade < overlap {
            overlap = self.crossfade;
        }
        (held - overlap) as u128 + self.len as u128
    }

    /// How far the segment under way was handled, those held at its start counted.
    pub fn position(&self) -> (r: u128)
        ensures
            r == self@.pos,
    {
        self.pos
    }

    /// How many samples of the segment under way were handled.
    pub fn done(&self) -> (r: usize)
        requires
            self.wf(),
        ensures
            r == vstd::math::max(0, self@.pos - self@.junction().prefix()),
    {
        let prefix: u128 = self.total() - self.len as u128;
        if self.pos < prefix {
            0
        } else {
            (self.pos - prefix) as usize
        }
    }

    /// Ends a merge: what is still held is written as it is.
    pub fn finish(self) -> (r: Result<Vec<T>, MergeError>)
        ensures
            match r {
                Ok(rest) => ending(self@) == Ok::<Seq<T>, MergeError>(rest@),
                Err(e) => ending(self@) == Err::<Seq<T>, MergeError>(e),
            },
    {
        if self.failed {
            Err(MergeError::FailedFinish)
        } else {
            Ok(self.held)
        }
    }
}

proof fn lemma_whole_frames(a: int, b: int, c: int)
    requires
        c > 0,
        a % c == 0,
        b % c == 0,
    ensures
        (a - b) % c == 0,
{
    vstd::arithmetic::div_mod::lemma_sub_mod_noop(a, b, c);
    vstd::arithmetic::div_mod::lemma_small_mod(0, c as nat);
}

/// Segments come out at the places where their chapters are marked: what a merge has
/// written and holds is as long as its timeline says, and the fade into the next
/// segment starts where that segment begins.
pub proof fn merging_keeps_the_timeline(lens: Seq<usize>, n: int, crossfade: int)
    requires
        0 <= n < lens.len(),
        0 <= crossfade,
    ensures
        ({
            let (pos, held) = compiler::timeline(lens, n, crossfade);
            let j = Junction { held, len: lens[n] as int, crossfade };
            let written = pos - held;
            &&& (written + j.written() + j.kept(), j.kept()) == compiler::timeline(
                lens,
                n + 1,
                crossfade,
            )
            &&& written + j.prefix() == compiler::segment_start(lens, n, crossfade)
        }),
{
    compiler::held_is_part(lens, n, crossfade);
}

proof fn run_up_to<T, P: Fn(T) -> T, F: Fn(T, T, usize, usize) -> T>(
    run: MergeRun<T>,
    prepare: &P,
    fade: &F,
    crossfade_samples: int,
    channels: int,
    n: int,
)
    requires
        0 <= crossfade_samples,
        0 < channels,
        run.valid(prepare, fade, crossfade_samples, channels),
        run.succeeded(),
        0 <= n <= run.segments.len(),
    ensures
        ({
            let crossfade = crossfade_samples / channels * channels;
            let (pos, held) = compiler::timeline(run.lens(), n, crossfade);
            &&& run.states[n] == (MergeModel {
                held: run.states[n].held,
                ..fresh_merge::<T>(crossfade_samples, channels)
            })
            &&& run.states[n].held.len() == held
            &&& run.outputs[n].len() + held == pos
            &&& pos % channels == 0
            &&& held % channels == 0
        }),
    decreases n,
{
    let crossfade = crossfade_samples / channels * channels;
    vstd::arithmetic::div_mod::lemma_small_mod(0, channels as nat);
    assert(0 <= crossfade && crossfade % channels == 0) by {
        let q = crossfade_samples / channels;
        vstd::arithmetic::div_mod::lemma_div_pos_is_pos(crossfade_samples, channels);
        vstd::arithmetic::div_mod::lemma_mod_multiples_basic(q, channels);
        assert(0 <= q * channels) by (nonlinear_arith)
            requires
                0 <= q,
                0 < channels,
        ;
    }
    if n > 0 {
        run_up_to(run, prepare, fade, crossfade_samples, channels, n - 1);
        compiler::held_is_part(run.lens(), n - 1, crossfade);
        merging_keeps_the_timeline(run.lens(), n - 1, crossfade);
        let m = run.states[n - 1];
        let samples = run.segments[n - 1];
        assert(run.results[n - 1] is Ok);
        assert(run.lens()[n - 1] == samples.len());
        let j = Junction { len: samples.len() as int, ..m.junction() };
        let (pos, held) = compiler::timeline(run.lens(), n - 1, crossfade);
        lemma_whole_frames(pos, j.overlap(), channels);
        lemma_whole_frames(j.len, j.overlap(), channels);
        vstd::arithmetic::div_mod::lemma_add_mod_noop(pos - j.overlap(), j.len, channels);
    }
}

/// A merge of which every append succeeded makes exactly as many samples as the timeline
/// of its segments says, in whole frames. Written as 16-bit samples they make an export
/// file that is accepted and holds all of them.
pub proof fn whole_merges_keep_the_timeline<T, P: Fn(T) -> T, F: Fn(T, T, usize, usize) -> T>(
    run: MergeRun<T>,
    prepare: &P,
    fade: &F,
    crossfade_samples: int,
    rate: nat,
    channels: nat,
    pcm: Seq<i16>,
)
    requires
        0 <= crossfade_samples,
        rate <= u32::MAX,
        export_wav::block_align(rate, channels) is Ok,
        run.valid(prepare, fade, crossfade_samples, channels as int),
        run.succeeded(),
        pcm.len() == run.whole().len(),
        export_wav::DATA_OFFSET + 2 * pcm.len() <= u64::MAX,
    ensures
        ending(run.states.last()) == Ok::<Seq<T>, MergeError>(run.states.last().held),
        run.whole().len() == compiler::timeline(
            run.lens(),
            run.segments.len() as int,
            crossfade_samples / channels as int * channels as int,
        ).0,
        run.whole().len() % channels == 0,
        export_wav::inspection(export_wav::finished_export(rate, channels, pcm)) == Ok::<
            export_wav::WavModel,
            export_wav::WavError,
        >(export_wav::finished_model(rate, channels, pcm.len())),
{
    run_up_to(run, prepare, fade, crossfade_samples, channels as int, run.segments.len() as int);
    export_wav::finished_export_inspects(rate, channels, pcm);
}

/// Once an append was refused, every later append and the end are refused.
pub proof fn refused_merges_stay_refused<T, P: Fn(T) -> T, F: Fn(T, T, usize, usize) -> T>(
    run: MergeRun<T>,
    prepare: &P,
    fade: &F,
    crossfade_samples: int,
    channels: int,
    refused: int,
    later: int,
)
    requires
        run.valid(prepare, fade, crossfade_samples, channels),
        0 <= refused < later <= run.results.len(),
        run.results[refused] is Err,
    ensures
        later < run.results.len() ==> run.results[later] == Err::<usize, MergeError>(
            MergeError::FailedAppend,
        ),
        ending(run.states[later]) == Err::<Seq<T>, MergeError>(MergeError::FailedFinish),
    decreases later,
{
    let samples = run.segments[refused];
    if later > refused + 1 {
        refused_merges_stay_refused(
            run,
            prepare,
            fade,
            crossfade_samples,
            channels,
            refused,
            later - 1,
        );
        let before = run.segments[later - 1];
    }
    if later < run.results.len() {
        let next = run.segments[later];
    }
}

impl<T> MergeRun<T> {
    /// All that a merge has written and holds after so many segments.
    pub open spec fn total_after(self, n: int) -> Seq<T> {
        self.outputs[n] + self.states[n].held
    }
}

proof fn append_goes_on<T, P: Fn(T) -> T, F: Fn(T, T, usize, usize) -> T>(
    run: MergeRun<T>,
    prepare: &P,
    fade: &F,
    crossfade_samples: int,
    channels: int,
    i: int,
    k: int,
)
    requires
        0 <= crossfade_samples,
        0 < channels,
        run.valid(prepare, fade, crossfade_samples, channels),
        run.succeeded(),
        0 <= i < run.segments.len(),
    ensures
        ({
            let crossfade = crossfade_samples / channels * channels;
            let start = compiler::segment_start(run.lens(), i, crossfade);
            let held = run.states[i].held.len() as int;
            let overlap = compiler::overlap_of(held, run.segments[i].len() as int, crossfade);
            &&& run.lens().len() == run.segments.len()
            &&& run.lens()[i] == run.segments[i].len()
            &&& 0 <= start
            &&& start + overlap == run.total_after(i).len()
            &&& run.total_after(i + 1).len() == start + run.segments[i].len()
            &&& 0 <= k < start ==> run.total_after(i + 1)[k] == run.total_after(i)[k]
            &&& 0 <= k < overlap ==> faded(
                prepare,
                fade,
                run.total_after(i)[start + k],
                run.segments[i][k],
                (k / channels) as usize,
                (overlap / channels) as usize,
                run.total_after(i + 1)[start + k],
            )
            &&& overlap <= k < run.segments[i].len() ==> call_ensures(
                prepare,
                (run.segments[i][k],),
                run.total_after(i + 1)[start + k],
            )
        }),
{
    let crossfade = crossfade_samples / channels * channels;
    run_up_to(run, prepare, fade, crossfade_samples, channels, i);
    assert(0 <= crossfade) by {
        let q = crossfade_samples / channels;
        vstd::arithmetic::div_mod::lemma_div_pos_is_pos(crossfade_samples, channels);
        assert(0 <= q * channels) by (nonlinear_arith)
            requires
                0 <= q,
                0 < channels,
        ;
    }
    compiler::held_is_part(run.lens(), i, crossfade);
    let m = run.states[i];
    let samples = run.segments[i];
    assert(run.results[i] is Ok);
    assert(run.lens()[i] == samples.len());
    let j = Junction { len: samples.len() as int, ..m.junction() };
    let values = choose|values: Seq<T>|
        {
            &&& values.len() == j.total()
            &&& #[trigger] stand_from(
                prepare,
                fade,
                m.held,
                samples,
                m.crossfade,
                m.channels,
                0,
                values,
            )
            &&& run.outputs[i + 1] == run.outputs[i] + values.take(j.written())
            &&& run.states[i + 1] == (MergeModel { held: values.skip(j.written()), ..m })
        };
    assert(run.total_after(i + 1) =~= run.outputs[i] + values);
    let written = run.outputs[i].len() as int;
    let start = compiler::segment_start(run.lens(), i, crossfade);
    assert(start == written + j.prefix());
    if 0 <= k < start {
        if k >= written {
            let v = values[k - written];
            assert(stands_at(
                prepare,
                fade,
                m.held,
                samples,
                m.crossfade,
                m.channels,
                k - written,
                v,
            ));
        }
    }
    if 0 <= k < samples.len() {
        let v = values[j.prefix() + k];
        assert(stands_at(
            prepare,
            fade,
            m.held,
            samples,
            m.crossfade,
            m.channels,
            j.prefix() + k,
            v,
        ));
        assert(run.total_after(i + 1)[start + k] == v);
    }
}

/// What a merge has written before the place where a segment begins is not changed by that
/// segment or by a later one.
pub proof fn later_segments_leave_earlier_samples<T, P: Fn(T) -> T, F: Fn(T, T, usize, usize) -> T>(
    run: MergeRun<T>,
    prepare: &P,
    fade: &F,
    crossfade_samples: int,
    channels: int,
    i: int,
    n: int,
    k: int,
)
    requires
        0 <= crossfade_samples,
        0 < channels,
        run.valid(prepare, fade, crossfade_samples, channels),
        run.succeeded(),
        0 <= i <= n <= run.segments.len(),
        0 <= k,
        i < n ==> k < compiler::segment_start(
            run.lens(),
            i,
            crossfade_samples / channels * channels,
        ),
    ensures
        run.total_after(n)[k] == run.total_after(i)[k],
    decreases n - i,
{
    let crossfade = crossfade_samples / channels * channels;
    if i < n {
        append_goes_on(run, prepare, fade, crossfade_samples, channels, i, k);
        if i + 1 < n {
            append_goes_on(run, prepare, fade, crossfade_samples, channels, i + 1, k);
            assert(0 <= crossfade) by {
                let q = crossfade_samples / channels;
                vstd::arithmetic::div_mod::lemma_div_pos_is_pos(crossfade_samples, channels);
                assert(0 <= q * channels) by (nonlinear_arith)
                    requires
                        0 <= q,
                        0 < channels,
                ;
            }
            compiler::segments_follow_one_another(run.lens(), i, crossfade);
        }
        later_segments_leave_earlier_samples(
            run,
            prepare,
            fade,
            crossfade_samples,
            channels,
            i + 1,
            n,
            k,
        );
    }
}

/// Every segment comes out of a merge sample by sample, from the place where it begins:
/// where it overlaps the end of the one before it, each sample is faded from that end to
/// it; behind that, and before the next segment begins, each is the prepared sample itself.
pub proof fn segments_come_out_in_their_places<T, P: Fn(T) -> T, F: Fn(T, T, usize, usize) -> T>(
    run: MergeRun<T>,
    prepare: &P,
    fade: &F,
    crossfade_samples: int,
    channels: int,
    i: int,
    k: int,
)
    requires
        0 <= crossfade_samples,
        0 < channels,
        run.valid(prepare, fade, crossfade_samples, channels),
        run.succeeded(),
        0 <= i < run.segments.len(),
        0 <= k < run.segments[i].len(),
        ({
            let crossfade = crossfade_samples / channels * channels;
            i + 1 < run.segments.len() ==> compiler::segment_start(run.lens(), i, crossfade) + k
                < compiler::segment_start(run.lens(), i + 1, crossfade)
        }),
    ensures
        ({
            let crossfade = crossfade_samples / channels * channels;
            let start = compiler::segment_start(run.lens(), i, crossfade);
            let overlap = run.total_after(i).len() - start;
            &&& 0 <= overlap <= crossfade
            &&& i == 0 ==> overlap == 0
            &&& k >= overlap ==> call_ensures(
                prepare,
                (run.segments[i][k],),
                run.whole()[start + k],
            )
            &&& k < overlap ==> exists|ready: T|
                call_ensures(prepare, (run.segments[i][k],), ready) && #[trigger] call_ensures(
                    fade,
                    (
                        run.total_after(i)[start + k],
                        ready,
                        (k / channels) as usize,
                        (overlap / channels) as usize,
                    ),
                    run.whole()[start + k],
                )
        }),
{
    let crossfade = crossfade_samples / channels * channels;
    let n = run.segments.len() as int;
    assert(0 <= crossfade) by {
        let q = crossfade_samples / channels;
        vstd::arithmetic::div_mod::lemma_div_pos_is_pos(crossfade_samples, channels);
        assert(0 <= q * channels) by (nonlinear_arith)
            requires
                0 <= q,
                0 < channels,
        ;
    }
    let start = compiler::segment_start(run.lens(), i, crossfade);
    append_goes_on(run, prepare, fade, crossfade_samples, channels, i, k);
    later_segments_leave_earlier_samples(
        run,
        prepare,
        fade,
        crossfade_samples,
        channels,
        i + 1,
        n,
        start + k,
    );
    assert(run.whole() == run.total_after(n));
}

} // verus!
