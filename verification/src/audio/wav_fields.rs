//! What stands where in a sound file.
use crate::audio::export_wav;
use crate::utils::bytes;
use vstd::prelude::*;

verus! {

/// Numbers stand in a file with their lowest byte first: the first byte counts ones, the
/// second one counts 256 each, and so on.
pub proof fn lowest_bytes_come_first(s: Seq<u8>, b: u8)
    ensures
        bytes::le_value(Seq::empty()) == 0,
        bytes::le_value(seq![b]) == b,
        bytes::le_value(s.push(b)) == bytes::le_value(s) + b * bytes::radix(s.len()),
    decreases s.len(),
{
    let one = seq![b];
    assert(one.drop_first() =~= Seq::empty());
    assert(bytes::le_value(one.drop_first()) == 0);
    if s.len() == 0 {
        assert(s.push(b) =~= one);
        let r = bytes::radix(0);
        assert(b * r == b) by (nonlinear_arith)
            requires
                r == 1,
        ;
    } else {
        let rest = s.drop_first();
        lowest_bytes_come_first(rest, b);
        assert(s.push(b).drop_first() =~= rest.push(b));
        let r = bytes::radix(rest.len());
        assert(bytes::radix(s.len()) == 256 * r);
        assert(256 * (b * r) == b * (256 * r)) by (nonlinear_arith);
    }
}

/// The number in two bytes of a file.
pub proof fn pairs_of_bytes_are_numbers(file: Seq<u8>, at: int)
    requires
        0 <= at,
        at + 2 <= file.len(),
    ensures
        bytes::le_at(file, at, 2) == file[at] + 256 * file[at + 1],
{
    let part = file.subrange(at, at + 2);
    lowest_bytes_come_first(Seq::empty(), part[0]);
    lowest_bytes_come_first(seq![part[0]], part[1]);
    assert(part =~= seq![part[0]].push(part[1]));
    bytes::radix_values();
    assert(bytes::radix(1) == 256) by {
        reveal_with_fuel(bytes::radix, 2);
    }
    let high = part[1];
    let r = bytes::radix(1);
    assert(high * r == 256 * high) by (nonlinear_arith)
        requires
            r == 256,
    ;
    assert(seq![part[0]].len() == 1);
}

/// Samples stand in a file one after another, two bytes each, as numbers of 16 bits with
/// a sign.
pub proof fn samples_stand_one_after_another(samples: Seq<i16>, i: int)
    requires
        0 <= i < samples.len(),
    ensures
        export_wav::pcm(samples).len() == 2 * samples.len(),
        samples[i] >= 0 ==> bytes::le_at(export_wav::pcm(samples), 2 * i, 2) == samples[i],
        samples[i] < 0 ==> bytes::le_at(export_wav::pcm(samples), 2 * i, 2) == samples[i]
            + 0x1_0000,
    decreases samples.len(),
{
    let all = export_wav::pcm(samples);
    let rest = samples.drop_last();
    let before = export_wav::pcm(rest);
    let bits = export_wav::sample_bits(samples.last());
    bytes::le_bytes_len(bits, 2);
    bytes::radix_values();
    if rest.len() > 0 {
        if i < rest.len() {
            samples_stand_one_after_another(rest, i);
            assert(all.subrange(2 * i, 2 * i + 2) =~= before.subrange(2 * i, 2 * i + 2));
        } else {
            samples_stand_one_after_another(rest, 0);
        }
    } else {
        assert(before.len() == 0);
    }
    if i == rest.len() {
        assert(all.subrange(2 * i, 2 * i + 2) =~= bytes::le_bytes(bits, 2));
        bytes::le_at_of_slice(all, 2 * i, bits, 2);
    }
}

/// An export is an RF64 file: its lengths stand behind the name `ds64`, its format behind
/// `fmt `, and its samples behind `data`, each field in its place.
pub proof fn exports_are_laid_out_as_rf64(rate: nat, channels: nat, samples: Seq<i16>)
    requires
        rate <= u32::MAX,
        export_wav::block_align(rate, channels) is Ok,
        export_wav::DATA_OFFSET + 2 * samples.len() <= u64::MAX,
    ensures
        ({
            let file = export_wav::finished_export(rate, channels, samples);
            let n = samples.len();
            &&& file.len() == 80 + 2 * n
            &&& file.subrange(0, 4) == seq!['R' as u8, 'F' as u8, '6' as u8, '4' as u8]
            &&& bytes::le_at(file, 4, 4) == 0xffff_ffff
            &&& file.subrange(8, 12) == seq!['W' as u8, 'A' as u8, 'V' as u8, 'E' as u8]
            &&& file.subrange(12, 16) == seq!['d' as u8, 's' as u8, '6' as u8, '4' as u8]
            &&& bytes::le_at(file, 16, 4) == 28
            &&& bytes::le_at(file, 20, 8) == file.len() - 8
            &&& bytes::le_at(file, 28, 8) == 2 * n
            &&& bytes::le_at(file, 36, 8) == n / channels
            &&& file.subrange(48, 52) == seq!['f' as u8, 'm' as u8, 't' as u8, ' ' as u8]
            &&& bytes::le_at(file, 52, 4) == 16
            &&& bytes::le_at(file, 56, 2) == 1
            &&& bytes::le_at(file, 58, 2) == channels
            &&& bytes::le_at(file, 60, 4) == rate
            &&& bytes::le_at(file, 64, 4) == rate * (channels * 2)
            &&& bytes::le_at(file, 68, 2) == channels * 2
            &&& bytes::le_at(file, 70, 2) == 16
            &&& file.subrange(72, 76) == seq!['d' as u8, 'a' as u8, 't' as u8, 'a' as u8]
            &&& bytes::le_at(file, 76, 4) == 0xffff_ffff
            &&& file.skip(80) == export_wav::pcm(samples)
        }),
{
    export_fields_stand(rate, channels, samples);
}

proof fn export_fields_stand(rate: nat, channels: nat, samples: Seq<i16>)
    requires
        rate <= u32::MAX,
        export_wav::block_align(rate, channels) is Ok,
        export_wav::DATA_OFFSET + 2 * samples.len() <= u64::MAX,
    ensures
        ({
            let file = export_wav::finished_export(rate, channels, samples);
            let n = samples.len();
            &&& file.len() == 80 + 2 * n
            &&& export_wav::has_export_fields(
                file,
                rate,
                channels,
                72 + 2 * n,
                2 * n,
                n / channels,
            )
            &&& file.skip(80) == export_wav::pcm(samples)
        }),
{
    let n = samples.len();
    let file = export_wav::finished_export(rate, channels, samples);
    let data = export_wav::pcm(samples);
    export_wav::finalizing_states_lengths(rate, channels, samples);
    export_wav::frames_by_bytes(n, channels);
    export_wav::pcm_decodes(samples);
    assert(n / channels <= n) by (nonlinear_arith)
        requires
            channels > 0,
    ;
    assert(file == export_wav::export_header(
        rate,
        channels,
        72 + 2 * n,
        2 * n,
        n / channels,
    ) + data);
    export_wav::export_fields(rate, channels, 72 + 2 * n, 2 * n, n / channels, data, file);
    let head = export_wav::export_header(rate, channels, 72 + 2 * n, 2 * n, n / channels);
    assert(head.len() == 80);
    assert(file.skip(80) =~= data);
}

/// Whether what a scan knows stands in the chunks that it went over.
pub open spec fn scan_is_honest(file: Seq<u8>, scan: export_wav::ScanModel) -> bool {
    &&& scan.format matches Some(f) ==> exists|k: int|
        0 <= k < scan.chunks.len() && states_format(file, #[trigger] scan.chunks[k], f)
    &&& scan.data matches Some((offset, len)) ==> exists|k: int|
        0 <= k < scan.chunks.len() && holds_samples(#[trigger] scan.chunks[k], offset, len)
}

/// Whether a chunk states a sample format of 16 bits.
pub open spec fn states_format(
    file: Seq<u8>,
    chunk: export_wav::ChunkModel,
    f: export_wav::FormatModel,
) -> bool {
    let at = chunk.offset + 8;
    &&& chunk.id == seq!['f' as u8, 'm' as u8, 't' as u8, ' ' as u8]
    &&& f.channels == bytes::le_at(file, at as int + 2, 2)
    &&& f.rate == bytes::le_at(file, at as int + 4, 4)
    &&& f.align == 2 * f.channels
    &&& bytes::le_at(file, at as int + 14, 2) == 16
}

/// Whether a chunk is that of the samples.
pub open spec fn holds_samples(chunk: export_wav::ChunkModel, offset: nat, len: nat) -> bool {
    &&& chunk.id == seq!['d' as u8, 'a' as u8, 't' as u8, 'a' as u8]
    &&& chunk.offset + 8 == offset
    &&& chunk.size == len
}

proof fn step_is_honest(
    file: Seq<u8>,
    root: export_wav::RootModel,
    scan: export_wav::ScanModel,
    next: export_wav::ScanModel,
)
    requires
        scan_is_honest(file, scan),
        export_wav::scan_step(file, root, scan) == Ok::<
            export_wav::ScanModel,
            export_wav::WavError,
        >(next),
    ensures
        scan_is_honest(file, next),
        next.chunks.len() == scan.chunks.len() + 1,
        next.chunks.drop_last() == scan.chunks,
{
    let n = scan.chunks.len() as int;
    let chunk = next.chunks[n];
    assert(next.chunks.drop_last() =~= scan.chunks);
    if let Some(f) = next.format {
        if chunk.id == export_wav::name('f', 'm', 't', ' ') {
            assert(states_format(file, next.chunks[n], f));
        } else {
            let k = choose|k: int|
                0 <= k < scan.chunks.len() && states_format(file, #[trigger] scan.chunks[k], f);
            assert(next.chunks[k] == scan.chunks[k]);
        }
    }
    if let Some((offset, len)) = next.data {
        if chunk.id == export_wav::name('d', 'a', 't', 'a') {
            assert(holds_samples(next.chunks[n], offset, len));
        } else {
            let k = choose|k: int|
                0 <= k < scan.chunks.len() && holds_samples(#[trigger] scan.chunks[k], offset, len);
            assert(next.chunks[k] == scan.chunks[k]);
        }
    }
}

proof fn scan_stays_honest(
    file: Seq<u8>,
    root: export_wav::RootModel,
    scan: export_wav::ScanModel,
    last: export_wav::ScanModel,
)
    requires
        scan_is_honest(file, scan),
        export_wav::scan_rest(file, root, scan) == Ok::<
            export_wav::ScanModel,
            export_wav::WavError,
        >(last),
    ensures
        scan_is_honest(file, last),
    decreases file.len() - scan.position,
{
    if scan.position < file.len() {
        let next = export_wav::scan_step(file, root, scan)->Ok_0;
        step_is_honest(file, root, scan, next);
        scan_stays_honest(file, root, next, last);
    }
}

/// What is read of a sound file stands in it: the rate and the channels in its format
/// chunk, of samples with 16 bits, and the place and the length of the samples in its data
/// chunk, which is whole frames.
pub proof fn inspections_read_the_chunks(file: Seq<u8>, info: export_wav::WavModel)
    requires
        export_wav::inspection(file) == Ok::<export_wav::WavModel, export_wav::WavError>(info),
    ensures
        file.len() >= 12,
        file.subrange(0, 4) == seq!['R' as u8, 'I' as u8, 'F' as u8, 'F' as u8] || file.subrange(
            0,
            4,
        ) == seq!['R' as u8, 'F' as u8, '6' as u8, '4' as u8],
        info.is_rf64 == (file.subrange(0, 4) == seq!['R' as u8, 'F' as u8, '6' as u8, '4' as u8]),
        file.subrange(8, 12) == seq!['W' as u8, 'A' as u8, 'V' as u8, 'E' as u8],
        info.file_len == file.len(),
        exists|k: int|
            0 <= k < info.chunks.len() && states_format(
                file,
                #[trigger] info.chunks[k],
                export_wav::FormatModel {
                    rate: info.sample_rate,
                    channels: info.channels,
                    align: 2 * info.channels,
                },
            ),
        exists|k: int|
            0 <= k < info.chunks.len() && holds_samples(
                #[trigger] info.chunks[k],
                info.data_offset,
                info.data_len,
            ),
        info.channels > 0,
        info.data_len % (2 * info.channels) == 0,
        info.frames == info.data_len / (2 * info.channels),
{
    let root = export_wav::root_of(file)->Ok_0;
    let start = export_wav::scan_start(root);
    assert(scan_is_honest(file, start));
    let last = export_wav::scan_rest(file, root, start)->Ok_0;
    scan_stays_honest(file, root, start, last);
    let f = last.format->0;
    let k = choose|k: int|
        0 <= k < last.chunks.len() && states_format(file, #[trigger] last.chunks[k], f);
    assert(f.align == 2 * f.channels);
    assert(states_format(file, info.chunks[k], f));
    assert(f == (export_wav::FormatModel {
        rate: info.sample_rate,
        channels: info.channels,
        align: 2 * info.channels,
    }));
    assert('R' as u8 != 'F' as u8);
    assert(export_wav::name('R', 'I', 'F', 'F')[1] != export_wav::name('R', 'F', '6', '4')[1]);
    let data = last.data->0;
    let d = choose|d: int|
        0 <= d < last.chunks.len() && holds_samples(#[trigger] last.chunks[d], data.0, data.1);
    assert(holds_samples(info.chunks[d], info.data_offset, info.data_len));
    assert(export_wav::block_align(info.sample_rate, info.channels) is Ok);
}

} // verus!
