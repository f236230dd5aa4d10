//! Normalization of a private export in place: which bytes are read, changed and
//! written back, block by block.
use crate::audio::export_wav;
use crate::audio::export_wav::WavInfo;
use vstd::prelude::*;

verus! {

/// How many bytes are handled at a time, unless one frame is larger.
pub const BLOCK_BYTES: usize = 65536;

/// Why an export is not normalized.
#[derive(Clone, Copy, Debug, PartialEq, Eq, Structural)]
pub enum NormalizeError {
    Gain,
    NotAFile,
    Shared,
    NotRf64,
    Format,
    Changed,
    LengthChanged,
}

impl NormalizeError {
    pub open spec fn spec_text(self) -> Seq<char> {
        match self {
            NormalizeError::Gain => "Normalization gain must be finite"@,
            NormalizeError::NotAFile => "Private export must be a regular file"@,
            NormalizeError::Shared => {
                "In-place normalization requires an unshared private export file"@
            },
            NormalizeError::NotRf64 => "In-place normalization requires RF64 PCM16"@,
            NormalizeError::Format => "Normalization WAV format mismatch"@,
            NormalizeError::Changed => "Private export changed during normalization preflight"@,
            NormalizeError::LengthChanged => "Private export length changed during normalization"@,
        }
    }

    pub fn message(self) -> (r: &'static str)
        ensures
            r@ == self.spec_text(),
    {
        match self {
            NormalizeError::Gain => "Normalization gain must be finite",
            NormalizeError::NotAFile => "Private export must be a regular file",
            NormalizeError::Shared => {
                "In-place normalization requires an unshared private export file"
            },
            NormalizeError::NotRf64 => "In-place normalization requires RF64 PCM16",
            NormalizeError::Format => "Normalization WAV format mismatch",
            NormalizeError::Changed => "Private export changed during normalization preflight",
            NormalizeError::LengthChanged => "Private export length changed during normalization",
        }
    }
}

/// Checks what was opened before its headers are read.
pub fn check_opened(gain_is_finite: bool, is_file: bool, links: u64) -> (r: Result<
    (),
    NormalizeError,
>)
    ensures
        match r {
            Ok(_) => gain_is_finite && is_file && links == 1,
            Err(NormalizeError::Gain) => !gain_is_finite,
            Err(NormalizeError::NotAFile) => gain_is_finite && !is_file,
            Err(NormalizeError::Shared) => gain_is_finite && is_file && links != 1,
            Err(_) => false,
        },
{
    if !gain_is_finite {
        Err(NormalizeError::Gain)
    } else if !is_file {
        Err(NormalizeError::NotAFile)
    } else if links != 1 {
        Err(NormalizeError::Shared)
    } else {
        Ok(())
    }
}

/// The largest number of whole frames within a limit, one at least, in the unit of both.
pub open spec fn whole_frames_spec(limit: int, frame: int) -> int {
    if limit / frame < 1 {
        frame
    } else {
        limit / frame * frame
    }
}

/// The size of a block of whole frames within a limit.
pub fn whole_frames(limit: usize, frame: usize) -> (r: usize)
    requires
        frame > 0,
    ensures
        r == whole_frames_spec(limit as int, frame as int),
        r >= frame,
        r as int % frame as int == 0,
        r <= limit || r == frame,
{
    proof {
        let q = limit as int / frame as int;
        vstd::arithmetic::div_mod::lemma_fundamental_div_mod(limit as int, frame as int);
        assert(0 <= q * frame <= limit) by (nonlinear_arith)
            requires
                limit as int == frame as int * q + limit as int % frame as int,
                limit as int % frame as int >= 0,
                frame > 0,
                q >= 0,
        ;
        assert(q >= 1 ==> q * frame >= frame) by (nonlinear_arith)
            requires
                frame > 0,
        ;
        vstd::arithmetic::div_mod::lemma_mod_multiples_basic(q, frame as int);
        vstd::arithmetic::div_mod::lemma_mod_multiples_basic(1, frame as int);
    }
    let count: usize = limit / frame;
    if count < 1 {
        frame
    } else {
        count * frame
    }
}

/// A block to read, change and write back: where it is and how many bytes it has.
#[derive(Clone, Copy, Debug, PartialEq, Eq, Structural)]
pub struct Block {
    pub offset: u64,
    pub bytes: usize,
}

/// Goes through the samples of an export block by block.
pub struct InPlaceBlocks {
    data_offset: u64,
    total: u64,
    done: u64,
    block: usize,
    file_len: u64,
}

impl InPlaceBlocks {
    pub closed spec fn data_offset(&self) -> nat {
        self.data_offset as nat
    }

    /// How many samples there are, those of all channels counted.
    pub closed spec fn total(&self) -> nat {
        self.total as nat
    }

    /// How many samples were handed out.
    pub closed spec fn done(&self) -> nat {
        self.done as nat
    }

    /// The bytes of a full block.
    pub closed spec fn block(&self) -> nat {
        self.block as nat
    }

    pub closed spec fn file_len(&self) -> nat {
        self.file_len as nat
    }

    #[verifier::type_invariant]
    closed spec fn in_bounds(&self) -> bool {
        &&& self.done <= self.total
        &&& self.data_offset + 2 * self.total <= u64::MAX
        &&& self.block >= 2
        &&& self.block % 2 == 0
    }

    /// Plans the blocks of an export, if the file is what it was when its headers were
    /// read and has the rate and the channels that are wanted.
    pub fn new(
        info: &WavInfo,
        sample_rate: u32,
        channels: u16,
        current_len: u64,
        links: u64,
    ) -> (r: Result<Self, NormalizeError>)
        requires
            export_wav::length_error(info@, info@.file_len) is None,
        ensures
            ({
                let fits = info.sample_rate == sample_rate && info.channels == channels;
                match r {
                    Ok(b) => {
                        &&& info.is_rf64 && fits && current_len == info.file_len && links == 1
                        &&& b.data_offset() == info.data_offset
                        &&& b.total() == info.data_len / 2
                        &&& b.done() == 0
                        &&& b.block() == whole_frames_spec(BLOCK_BYTES as int, channels * 2)
                        &&& b.file_len() == info.file_len
                    },
                    Err(NormalizeError::NotRf64) => !info.is_rf64,
                    Err(NormalizeError::Format) => info.is_rf64 && !fits,
                    Err(NormalizeError::Changed) => info.is_rf64 && fits && (current_len
                        != info.file_len || links != 1),
                    Err(_) => false,
                }
            }),
    {
        if !info.is_rf64 {
            return Err(NormalizeError::NotRf64);
        }
        if info.sample_rate != sample_rate || info.channels != channels {
            return Err(NormalizeError::Format);
        }
        if current_len != info.file_len || links != 1 {
            return Err(NormalizeError::Changed);
        }
        let frame: usize = channels as usize * 2;
        let block: usize = whole_frames(BLOCK_BYTES, frame);
        proof {
            let q = block as int / frame as int;
            vstd::arithmetic::div_mod::lemma_fundamental_div_mod(block as int, frame as int);
            assert(block as int == 2 * (channels as int * q)) by (nonlinear_arith)
                requires
                    block as int == frame as int * q,
                    frame as int == channels as int * 2,
            ;
        }
        Ok(
            InPlaceBlocks {
                data_offset: info.data_offset,
                total: info.data_len / 2,
                done: 0,
                block,
                file_len: info.file_len,
            },
        )
    }

    /// The next block, if any is left. Blocks follow one another from the first sample
    /// to the last and never reach past the samples.
    pub fn next(&mut self) -> (r: Option<Block>)
        ensures
            final(self).data_offset() == old(self).data_offset(),
            final(self).total() == old(self).total(),
            final(self).block() == old(self).block(),
            final(self).file_len() == old(self).file_len(),
            match r {
                Some(b) => {
                    &&& old(self).done() < old(self).total()
                    &&& b.offset == old(self).data_offset() + 2 * old(self).done()
                    &&& b.bytes == vstd::math::min(
                        2 * (old(self).total() - old(self).done()),
                        old(self).block() as int,
                    )
                    &&& 2 * final(self).done() == 2 * old(self).done() + b.bytes
                    &&& b.bytes > 0
                    &&& b.offset + b.bytes <= old(self).data_offset() + 2 * old(self).total()
                },
                None => old(self).done() == old(self).total() && final(self).done() == old(
                    self,
                ).done(),
            },
    {
        proof {
            use_type_invariant(&*self);
        }
        if self.done >= self.total {
            return None;
        }
        let left: u64 = self.total - self.done;
        let most: usize = self.block / 2;
        let count: usize = if left < most as u64 {
            left as usize
        } else {
            most
        };
        let offset: u64 = self.data_offset + self.done * 2;
        self.done = self.done + count as u64;
        Some(Block { offset, bytes: count * 2 })
    }

    /// Checks the length of the file once every block was written back.
    pub fn finish(self, current_len: u64) -> (r: Result<(), NormalizeError>)
        ensures
            match r {
                Ok(_) => current_len == self.file_len(),
                Err(e) => current_len != self.file_len() && e == NormalizeError::LengthChanged,
            },
    {
        if current_len == self.file_len {
            Ok(())
        } else {
            Err(NormalizeError::LengthChanged)
        }
    }
}

/// The size of the blocks in which the samples of a WAV are read: whole frames within
/// the wish.
pub fn stream_block(chunk_samples: usize, channels: u16) -> (r: Result<usize, &'static str>)
    requires
        channels > 0,
    ensures
        match r {
            Ok(n) => chunk_samples > 0 && n == whole_frames_spec(
                chunk_samples as int,
                channels as int,
            ),
            Err(e) => chunk_samples == 0 && e@ == "Streaming chunk size must be positive"@,
        },
{
    if chunk_samples == 0 {
        Err("Streaming chunk size must be positive")
    } else {
        Ok(whole_frames(chunk_samples, channels as usize))
    }
}

} // verus!
