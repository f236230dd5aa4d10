//! What the chapters of an exported WAV say.
use crate::audio::export_wav;
use crate::project::wav_metadata;
use crate::utils::bytes;
use vstd::prelude::*;
use vstd::utf8;

verus! {

proof fn cue_point_len(number: nat, frame: nat)
    ensures
        wav_metadata::cue_point(number, frame).len() == 24,
        wav_metadata::cue_point(number, frame).subrange(0, 4) == bytes::le_bytes(number, 4),
        wav_metadata::cue_point(number, frame).subrange(4, 8) == bytes::le_bytes(frame, 4),
        wav_metadata::cue_point(number, frame).subrange(20, 24) == bytes::le_bytes(frame, 4),
{
    bytes::le_bytes_len(number, 4);
    bytes::le_bytes_len(frame, 4);
    bytes::le_bytes_len(0, 4);
    let p = wav_metadata::cue_point(number, frame);
    assert(p.subrange(0, 4) =~= bytes::le_bytes(number, 4));
    assert(p.subrange(4, 8) =~= bytes::le_bytes(frame, 4));
    assert(p.subrange(20, 24) =~= bytes::le_bytes(frame, 4));
}

proof fn cue_point_stands(markers: Seq<(Seq<char>, int)>, channels: int, n: int, k: int)
    requires
        0 <= k < n,
    ensures
        wav_metadata::cue_points(markers, channels, n).len() == 4 + 24 * n,
        wav_metadata::cue_points(markers, channels, n).subrange(4 + 24 * k, 28 + 24 * k) == wav_metadata::cue_point(
            (k + 1) as nat,
            wav_metadata::frame_of(markers[k].1, channels) as nat,
        ),
    decreases n,
{
    cue_points_len(markers, channels, n - 1);
    let before = wav_metadata::cue_points(markers, channels, n - 1);
    let all = wav_metadata::cue_points(markers, channels, n);
    cue_point_len(n as nat, wav_metadata::frame_of(markers[n - 1].1, channels) as nat);
    if k < n - 1 {
        cue_point_stands(markers, channels, n - 1, k);
        assert(all.subrange(4 + 24 * k, 28 + 24 * k) =~= before.subrange(4 + 24 * k, 28 + 24 * k));
    } else {
        assert(all.subrange(4 + 24 * k, 28 + 24 * k) =~= wav_metadata::cue_point(
            n as nat,
            wav_metadata::frame_of(markers[n - 1].1, channels) as nat,
        ));
    }
}

proof fn cue_points_len(markers: Seq<(Seq<char>, int)>, channels: int, n: int)
    requires
        0 <= n,
    ensures
        wav_metadata::cue_points(markers, channels, n).len() == 4 + 24 * n,
    decreases n,
{
    if n == 0 {
        bytes::le_bytes_len(markers.len(), 4);
    } else {
        cue_points_len(markers, channels, n - 1);
        cue_point_len(n as nat, wav_metadata::frame_of(markers[n - 1].1, channels) as nat);
    }
}

/// Each chapter has a cue point of its own, in their order: it states the number of the
/// chapter, from one on, and the frame at which the chapter begins, which is its place
/// divided by the channels.
pub proof fn cue_points_state_the_frames(
    markers: Seq<(Seq<char>, int)>,
    channels: int,
    k: int,
)
    requires
        0 < channels,
        0 <= k < markers.len() <= u32::MAX,
        0 <= markers[k].1,
        markers[k].1 / channels <= u32::MAX,
    ensures
        ({
            let cues = wav_metadata::cue_points(markers, channels, markers.len() as int);
            &&& cues.len() == 4 + 24 * markers.len()
            &&& bytes::le_at(cues, 4 + 24 * k, 4) == k + 1
            &&& bytes::le_at(cues, 8 + 24 * k, 4) == markers[k].1 / channels
            &&& bytes::le_at(cues, 24 + 24 * k, 4) == markers[k].1 / channels
        }),
{
    let n = markers.len() as int;
    let cues = wav_metadata::cue_points(markers, channels, n);
    cue_point_stands(markers, channels, n, k);
    vstd::arithmetic::div_mod::lemma_div_pos_is_pos(markers[k].1, channels);
    let frame = wav_metadata::frame_of(markers[k].1, channels) as nat;
    let point = wav_metadata::cue_point((k + 1) as nat, frame);
    cue_point_len((k + 1) as nat, frame);
    bytes::radix_values();
    assert(cues.subrange(4 + 24 * k, 8 + 24 * k) =~= point.subrange(0, 4));
    assert(cues.subrange(8 + 24 * k, 12 + 24 * k) =~= point.subrange(4, 8));
    assert(cues.subrange(24 + 24 * k, 28 + 24 * k) =~= point.subrange(20, 24));
    bytes::le_at_of_slice(cues, 4 + 24 * k, (k + 1) as nat, 4);
    bytes::le_at_of_slice(cues, 8 + 24 * k, frame, 4);
    bytes::le_at_of_slice(cues, 24 + 24 * k, frame, 4);
}

/// A chunk states its name and the length of its contents, holds the contents, and takes an
/// even number of bytes.
pub proof fn chunks_state_their_length(id: Seq<u8>, contents: Seq<u8>)
    requires
        id.len() == 4,
        contents.len() <= u32::MAX,
    ensures
        ({
            let chunk = wav_metadata::chunk_bytes(id, contents);
            &&& chunk.subrange(0, 4) == id
            &&& bytes::le_at(chunk, 4, 4) == contents.len()
            &&& chunk.subrange(8, 8 + contents.len() as int) == contents
            &&& chunk.len() % 2 == 0
            &&& 8 + contents.len() <= chunk.len() <= 9 + contents.len()
        }),
{
    let chunk = wav_metadata::chunk_bytes(id, contents);
    bytes::radix_values();
    bytes::le_bytes_len(contents.len(), 4);
    assert(chunk.subrange(0, 4) =~= id);
    assert(chunk.subrange(4, 8) =~= bytes::le_bytes(contents.len(), 4));
    bytes::le_at_of_slice(chunk, 4, contents.len(), 4);
    assert(chunk.subrange(8, 8 + contents.len() as int) =~= contents);
}

/// A label states the number of its chapter and has the title up to a zero.
pub proof fn labels_name_their_chapter(number: nat, title: Seq<char>)
    requires
        number <= u32::MAX,
    ensures
        ({
            let l = wav_metadata::label(number, title);
            let text = utf8::encode_utf8(title);
            &&& bytes::le_at(l, 0, 4) == number
            &&& l.subrange(4, 4 + text.len() as int) == text
            &&& l.last() == 0
            &&& l.len() == 5 + text.len()
        }),
{
    let l = wav_metadata::label(number, title);
    let text = utf8::encode_utf8(title);
    bytes::radix_values();
    bytes::le_bytes_len(number, 4);
    assert(l.subrange(0, 4) =~= bytes::le_bytes(number, 4));
    bytes::le_at_of_slice(l, 0, number, 4);
    assert(l.subrange(4, 4 + text.len() as int) =~= text);
}

/// A chapter with a 64-bit place takes 320 bytes, states its frame, and holds its title, or
/// the number of its label where the title has no room.
pub proof fn wide_chapters_state_their_frame(number: nat, title: Seq<char>, frame: nat)
    requires
        number <= u32::MAX,
        frame <= u64::MAX,
    ensures
        ({
            let w = wav_metadata::wide_marker(number, title, frame);
            let text = utf8::encode_utf8(title);
            &&& w.len() == 320
            &&& bytes::le_at(w, 4, 8) == frame
            &&& text.len() <= 255 ==> w.subrange(28, 28 + text.len() as int) == text && bytes::le_at(
                w,
                284,
                4,
            ) == 0
            &&& text.len() > 255 ==> bytes::le_at(w, 284, 4) == number
        }),
{
    let w = wav_metadata::wide_marker(number, title, frame);
    let text = utf8::encode_utf8(title);
    let short = text.len() <= 255;
    let flags: nat = if short {
        0x11
    } else {
        0x19
    };
    let shown: nat = if short {
        0
    } else {
        number
    };
    bytes::radix_values();
    bytes::le_bytes_len(flags, 4);
    bytes::le_bytes_len(frame, 8);
    bytes::le_bytes_len(shown, 4);
    assert(w.len() == 320);
    assert(w.subrange(4, 12) =~= bytes::le_bytes(frame, 8));
    bytes::le_at_of_slice(w, 4, frame, 8);
    assert(w.subrange(284, 288) =~= bytes::le_bytes(shown, 4));
    bytes::le_at_of_slice(w, 284, shown, 4);
    if short {
        assert(w.subrange(28, 28 + text.len() as int) =~= text);
    }
}

/// A file takes the chapters exactly if it has their rate and channels and each of them
/// stands on a whole frame that is not behind its end.
pub proof fn chapters_fit_their_file(
    info: export_wav::WavModel,
    sample_rate: u32,
    channels: u16,
    markers: Seq<(Seq<char>, int)>,
)
    requires
        0 < channels,
    ensures
        (wav_metadata::fit_error(info, sample_rate, channels, markers) is None) == (info.sample_rate
            == sample_rate && info.channels == channels && forall|i: int|
            0 <= i < markers.len() ==> (#[trigger] markers[i]).1 % channels as int == 0
                && markers[i].1 / channels as int <= info.frames),
{
    if info.sample_rate == sample_rate && info.channels == channels {
        places_fit(info, markers, markers.len() as int);
    }
}

proof fn places_fit(info: export_wav::WavModel, markers: Seq<(Seq<char>, int)>, n: int)
    requires
        0 <= n <= markers.len(),
    ensures
        (wav_metadata::places_error(info, markers, n) is None) == forall|i: int|
            0 <= i < n ==> (#[trigger] markers[i]).1 % info.channels as int == 0 && markers[i].1
                / info.channels as int <= info.frames,
    decreases n,
{
    if n > 0 {
        places_fit(info, markers, n - 1);
        if wav_metadata::places_error(info, markers, n) is None {
            assert(wav_metadata::place_error(info, markers[n - 1].1) is None);
            assert forall|i: int| 0 <= i < n implies (#[trigger] markers[i]).1
                % info.channels as int == 0 && markers[i].1 / info.channels as int
                <= info.frames by {
                if i < n - 1 {
                    assert(wav_metadata::places_error(info, markers, n - 1) is None);
                }
            }
        } else if wav_metadata::places_error(info, markers, n - 1) is None {
            assert(wav_metadata::place_error(info, markers[n - 1].1) is Some);
            let m = markers[n - 1];
            assert(!(m.1 % info.channels as int == 0 && m.1 / info.channels as int
                <= info.frames));
        }
    }
}

/// A file gets its tags first; then, if it has chapters, their cue points and labels, or,
/// where a place is past what 32 bits can count, their labels and 64-bit places. Without
/// chapters it gets its tags alone.
pub proof fn tags_come_before_chapters(
    tags: Seq<u8>,
    markers: Seq<(Seq<char>, int)>,
    channels: int,
    written: Seq<u8>,
)
    requires
        0 < channels,
        wav_metadata::prepared(tags, markers, channels) == Ok::<
            Seq<u8>,
            wav_metadata::MetadataError,
        >(written),
    ensures
        ({
            let n = markers.len() as int;
            let wide = exists|i: int|
                0 <= i < n && (#[trigger] markers[i]).1 / channels > 0xffff_ffff;
            let first = wav_metadata::chunk_bytes(
                seq!['i' as u8, 'd' as u8, '3' as u8, ' ' as u8],
                tags,
            );
            let labels = wav_metadata::chunk_bytes(
                seq!['L' as u8, 'I' as u8, 'S' as u8, 'T' as u8],
                wav_metadata::label_list(markers, n),
            );
            &&& n == 0 ==> written == first
            &&& n > 0 && !wide ==> written == first + wav_metadata::chunk_bytes(
                seq!['c' as u8, 'u' as u8, 'e' as u8, ' ' as u8],
                wav_metadata::cue_points(markers, channels, n),
            ) + labels
            &&& wide ==> written == first + labels + wav_metadata::chunk_bytes(
                seq!['r' as u8, '6' as u8, '4' as u8, 'm' as u8],
                wav_metadata::wide_markers(markers, channels, n),
            )
        }),
{
    let n = markers.len() as int;
    let wide = exists|i: int| 0 <= i < n && (#[trigger] markers[i]).1 / channels > 0xffff_ffff;
    assert(wide == wav_metadata::needs_wide(markers, channels)) by {
        if wide {
            let i = choose|i: int|
                0 <= i < n && (#[trigger] markers[i]).1 / channels > 0xffff_ffff;
            assert(wav_metadata::frame_of(markers[i].1, channels) > u32::MAX);
        }
        if wav_metadata::needs_wide(markers, channels) {
            let i = choose|i: int|
                0 <= i < markers.len() && wav_metadata::frame_of((#[trigger] markers[i]).1, channels)
                    > u32::MAX;
            assert(markers[i].1 / channels > 0xffff_ffff);
        }
    }
    let first = wav_metadata::chunk_bytes(
        seq!['i' as u8, 'd' as u8, '3' as u8, ' ' as u8],
        tags,
    );
    if n == 0 {
        assert(written =~= first);
    } else if wide {
        let labels = wav_metadata::chunk_bytes(
            seq!['L' as u8, 'I' as u8, 'S' as u8, 'T' as u8],
            wav_metadata::label_list(markers, n),
        );
        assert(first + Seq::<u8>::empty() =~= first);
        assert(written =~= first + labels + wav_metadata::chunk_bytes(
            seq!['r' as u8, '6' as u8, '4' as u8, 'm' as u8],
            wav_metadata::wide_markers(markers, channels, n),
        ));
    } else {
        let both = first + wav_metadata::chunk_bytes(
            seq!['c' as u8, 'u' as u8, 'e' as u8, ' ' as u8],
            wav_metadata::cue_points(markers, channels, n),
        ) + wav_metadata::chunk_bytes(
            seq!['L' as u8, 'I' as u8, 'S' as u8, 'T' as u8],
            wav_metadata::label_list(markers, n),
        );
        assert(written =~= both);
    }
}

/// The list of labels has a label for each chapter, in their order, with the number and the
/// title of the chapter.
pub proof fn labels_follow_the_chapters(markers: Seq<(Seq<char>, int)>, n: int)
    requires
        0 <= n < markers.len(),
    ensures
        wav_metadata::label_list(markers, 0) == seq!['a' as u8, 'd' as u8, 't' as u8, 'l' as u8],
        wav_metadata::label_list(markers, n + 1) == wav_metadata::label_list(markers, n)
            + wav_metadata::chunk_bytes(
            seq!['l' as u8, 'a' as u8, 'b' as u8, 'l' as u8],
            wav_metadata::label((n + 1) as nat, markers[n].0),
        ),
{
}

} // verus!
