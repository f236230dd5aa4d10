//! How a recording is cut, padded and turned for the noise model.
use crate::utils::{paths, text};
use vstd::prelude::*;

verus! {

/// The rate that the model works at.
pub const DENOISE_SAMPLE_RATE: u32 = 44100;

/// How far the windows of the transform are apart.
pub const STFT_HOP_LENGTH: usize = 420;

/// The samples of one window.
pub const N_FFT: usize = 1680;

/// The frequencies of one window, as the model expects them.
pub const N_BINS: usize = 841;

/// Silence added behind a part.
pub const PAD_TAIL: usize = 441;

/// Samples mirrored at either end of a part.
pub const PAD_CENTER: usize = 840;

/// The samples that go through the model at a time: thirty seconds.
pub const CHUNK_SAMPLES: usize = 1323000;

/// Finds the model in its directory, or says what is missing.
pub fn find_model_path(models_dir: &str, dir_there: bool, model_there: bool) -> (r: Result<
    String,
    String,
>)
    ensures
        ({
            let path = paths::joined(models_dir@, "denoise.onnx"@);
            match r {
                Ok(p) => dir_there && model_there && p@ == path,
                Err(e) => if dir_there {
                    !model_there && e@ == "denoise model not found: "@ + text::quoted(path)
                } else {
                    e@ == "models dir not found: "@ + text::quoted(models_dir@)
                },
            }
        }),
{
    if !dir_there {
        return Err("models dir not found: ".to_owned().concat(text::quote(models_dir).as_str()));
    }
    let path = paths::join(models_dir, "denoise.onnx");
    if model_there {
        Ok(path)
    } else {
        Err("denoise model not found: ".to_owned().concat(text::quote(path.as_str()).as_str()))
    }
}

/// Checks that a model has the inputs and outputs that are needed.
pub fn check_model(inputs: usize, outputs: usize) -> (r: Result<(), String>)
    ensures
        match r {
            Ok(_) => inputs >= 3 && outputs >= 3,
            Err(e) => (inputs < 3 || outputs < 3) && e@
                == "Resemble denoiser expects 3 inputs and 3 outputs, got "@ + text::decimal(
                inputs as nat,
            ) + " and "@ + text::decimal(outputs as nat),
        },
{
    if inputs < 3 || outputs < 3 {
        Err(
            "Resemble denoiser expects 3 inputs and 3 outputs, got ".to_owned().concat(
                text::decimal_text(inputs as u128).as_str(),
            ).concat(" and ").concat(text::decimal_text(outputs as u128).as_str()),
        )
    } else {
        Ok(())
    }
}

/// Where the part that starts at a sample ends.
pub open spec fn part_end(len: int, start: int) -> int {
    if start + CHUNK_SAMPLES < len {
        start + CHUNK_SAMPLES
    } else {
        len
    }
}

/// The parts of a recording that go through the model, one after another. Even an empty
/// recording is one part.
pub fn model_parts(len: usize) -> (r: Vec<(usize, usize)>)
    ensures
        r@.len() == (if len == 0 {
            1
        } else {
            (len - 1) / CHUNK_SAMPLES as int + 1
        }),
        forall|i: int|
            #![trigger r@[i]]
            0 <= i < r@.len() ==> r@[i].0 == i * CHUNK_SAMPLES && r@[i].1 == part_end(
                len as int,
                i * CHUNK_SAMPLES,
            ),
        r@[0].0 == 0,
        r@[r@.len() - 1].1 == len,
        forall|i: int, j: int|
            #![trigger r@[i], r@[j]]
            0 <= i < r@.len() && j == i + 1 && j < r@.len() ==> r@[i].1 == r@[j].0,
{
    let mut out: Vec<(usize, usize)> = Vec::new();
    let mut start: usize = 0;
    let mut end: usize = if len <= CHUNK_SAMPLES {
        len
    } else {
        CHUNK_SAMPLES
    };
    out.push((0, end));
    while end < len
        invariant
            out@.len() > 0,
            start == (out@.len() - 1) * CHUNK_SAMPLES,
            end == part_end(len as int, start as int),
            start == 0 || start < len,
            forall|i: int|
                #![trigger out@[i]]
                0 <= i < out@.len() ==> out@[i].0 == i * CHUNK_SAMPLES && out@[i].1 == part_end(
                    len as int,
                    i * CHUNK_SAMPLES,
                ),
            forall|i: int, j: int|
                #![trigger out@[i], out@[j]]
                0 <= i < out@.len() && j == i + 1 && j < out@.len() ==> out@[i].1 == out@[j].0,
            out@[out@.len() - 1].1 == end,
        decreases len - end,
    {
        start = end;
        end = if len - start <= CHUNK_SAMPLES {
            len
        } else {
            start + CHUNK_SAMPLES
        };
        out.push((start, end));
    }
    out
}

/// How many windows fit into padded samples. One always does.
pub open spec fn window_count_spec(padded: int) -> int {
    1 + (if padded < N_FFT {
        0
    } else {
        (padded - N_FFT) / STFT_HOP_LENGTH as int
    })
}

/// Counts the windows of padded samples.
pub fn window_count(padded: usize) -> (r: usize)
    ensures
        r == window_count_spec(padded as int),
        padded >= N_FFT ==> (r - 1) * STFT_HOP_LENGTH + N_FFT <= padded,
{
    if padded < N_FFT {
        1
    } else {
        1 + (padded - N_FFT) / STFT_HOP_LENGTH
    }
}

/// A signal with samples mirrored at either end. Where there are too few to mirror, the
/// last ones are repeated.
pub open spec fn reflected<T>(signal: Seq<T>, left: nat, right: nat) -> Seq<T> {
    let n = signal.len() as int;
    Seq::new(
        left,
        |k: int|
            signal[if left - 1 - k < n - 1 {
                left - 1 - k
            } else {
                n - 1
            }],
    ) + signal + Seq::new(
        right,
        |i: int|
            signal[if i <= n - 1 {
                n - 1 - i
            } else {
                0
            }],
    )
}

/// Mirrors samples at either end of a signal.
pub fn pad_reflect<T: Copy>(signal: &[T], left: usize, right: usize) -> (r: Vec<T>)
    requires
        signal@.len() > 0,
    ensures
        r@ == reflected(signal@, left as nat, right as nat),
{
    let n: usize = signal.len();
    let ghost all = reflected(signal@, left as nat, right as nat);
    let mut out: Vec<T> = Vec::new();
    let mut i: usize = left;
    while i > 0
        invariant
            i <= left,
            n == signal@.len() > 0,
            all == reflected(signal@, left as nat, right as nat),
            out@.len() == left - i,
            forall|k: int| 0 <= k < out@.len() ==> out@[k] == all[k],
        decreases i,
    {
        i = i - 1;
        let at: usize = if i < n - 1 {
            i
        } else {
            n - 1
        };
        out.push(signal[at]);
    }
    let mut j: usize = 0;
    while j < n
        invariant
            j <= n == signal@.len(),
            all == reflected(signal@, left as nat, right as nat),
            out@.len() == left + j,
            forall|k: int| 0 <= k < out@.len() ==> out@[k] == all[k],
        decreases n - j,
    {
        out.push(signal[j]);
        j = j + 1;
    }
    let mut k: usize = 0;
    while k < right
        invariant
            k <= right,
            n == signal@.len() > 0,
            all == reflected(signal@, left as nat, right as nat),
            out@.len() == left + n + k,
            forall|k: int| 0 <= k < out@.len() ==> out@[k] == all[k],
        decreases right - k,
    {
        let at: usize = if k <= n - 1 {
            n - 1 - k
        } else {
            0
        };
        out.push(signal[at]);
        k = k + 1;
    }
    assert(out@ =~= all);
    out
}

/// Rows and columns of a table exchanged: the table is stored row by row.
pub open spec fn turned<T>(table: Seq<T>, rows: nat, columns: nat) -> Seq<T> {
    Seq::new(rows * columns, |i: int| table[(i % rows as int) * columns + i / rows as int])
}

proof fn cell(rows: int, c: int, t: int)
    requires
        0 <= t < rows,
        0 <= c,
    ensures
        (c * rows + t) % rows == t,
        (c * rows + t) / rows == c,
{
    vstd::arithmetic::div_mod::lemma_fundamental_div_mod_converse(c * rows + t, rows, c, t);
}

fn turn<T: Copy>(table: &[T], rows: usize, columns: usize) -> (r: Vec<T>)
    requires
        rows * columns <= table@.len(),
    ensures
        r@ == turned(table@, rows as nat, columns as nat),
{
    let ghost all = turned(table@, rows as nat, columns as nat);
    let mut out: Vec<T> = Vec::new();
    let mut c: usize = 0;
    assert(0 * rows == 0) by (nonlinear_arith);
    while c < columns
        invariant
            c <= columns,
            rows * columns <= table@.len(),
            all == turned(table@, rows as nat, columns as nat),
            out@.len() == c * rows,
            forall|k: int| 0 <= k < out@.len() ==> out@[k] == all[k],
        decreases columns - c,
    {
        let mut t: usize = 0;
        let mut at: usize = c;
        assert((c + 1) * rows <= rows * columns) by (nonlinear_arith)
            requires
                c < columns,
        ;
        assert((c + 1) * rows == c * rows + rows) by (nonlinear_arith);
        assert(0 * columns == 0) by (nonlinear_arith);
        while t < rows
            invariant
                t <= rows,
                c < columns,
                rows * columns <= table@.len(),
                (c + 1) * rows == c * rows + rows,
                (c + 1) * rows <= rows * columns,
                all == turned(table@, rows as nat, columns as nat),
                t < rows ==> at == t * columns + c,
                out@.len() == c * rows + t,
                forall|k: int| 0 <= k < out@.len() ==> out@[k] == all[k],
            decreases rows - t,
        {
            proof {
                cell(rows as int, c as int, t as int);
                assert(t * columns + c < rows * columns) by (nonlinear_arith)
                    requires
                        t < rows,
                        c < columns,
                ;
                assert((t + 1) * columns == t * columns + columns) by (nonlinear_arith);
            }
            out.push(table[at]);
            t = t + 1;
            if t < rows {
                assert(t * columns + c < rows * columns) by (nonlinear_arith)
                    requires
                        t < rows,
                        c < columns,
                ;
                at = at + columns;
            }
        }
        c = c + 1;
    }
    assert(columns * rows == rows * columns) by (nonlinear_arith);
    assert(out@ =~= all);
    out
}

/// Turns values stored window by window into values stored frequency by frequency.
pub fn transpose_fb_to_bf<T: Copy>(frames_bins: &[T], n_frames: usize) -> (r: Vec<T>)
    requires
        n_frames * N_BINS <= frames_bins@.len(),
    ensures
        r@ == turned(frames_bins@, n_frames as nat, N_BINS as nat),
{
    turn(frames_bins, n_frames, N_BINS)
}

/// Turns values stored frequency by frequency into values stored window by window.
pub fn transpose_bf_to_fb<T: Copy>(bins_frames: &[T], n_frames: usize) -> (r: Vec<T>)
    requires
        N_BINS * n_frames <= bins_frames@.len(),
    ensures
        r@ == turned(bins_frames@, N_BINS as nat, n_frames as nat),
{
    turn(bins_frames, N_BINS, n_frames)
}

/// Turning a table and turning it back gives the table.
pub proof fn turning_back_restores<T>(table: Seq<T>, rows: nat, columns: nat)
    requires
        table.len() == rows * columns,
    ensures
        turned(turned(table, rows, columns), columns, rows) == table,
{
    let once = turned(table, rows, columns);
    let twice = turned(once, columns, rows);
    assert(columns * rows == rows * columns) by (nonlinear_arith);
    assert forall|i: int| 0 <= i < table.len() implies twice[i] == table[i] by {
        let c = i % columns as int;
        let t = i / columns as int;
        assert(columns > 0) by (nonlinear_arith)
            requires
                0 <= i < rows * columns,
        ;
        vstd::arithmetic::div_mod::lemma_fundamental_div_mod(i, columns as int);
        assert(0 <= t < rows) by (nonlinear_arith)
            requires
                i == columns * t + c,
                0 <= i < rows * columns,
                0 <= c < columns,
        ;
        assert(0 <= c * rows + t < rows * columns) by (nonlinear_arith)
            requires
                0 <= t < rows,
                0 <= c < columns,
        ;
        cell(rows as int, c, t);
        assert(t * columns + c == i) by (nonlinear_arith)
            requires
                i == columns * t + c,
        ;
        assert(twice[i] == once[c * rows + t]);
        assert(once[c * rows + t] == table[t * columns + c]);
    }
    assert(twice =~= table);
}

/// A signal stands unchanged between its mirrored ends. Each mirrored sample is as far from
/// the edge as its own, as long as there is one.
pub proof fn mirrored_ends_enclose_the_signal<T>(signal: Seq<T>, left: nat, right: nat, k: int)
    requires
        signal.len() > 0,
        0 <= k < signal.len(),
    ensures
        ({
            let r = reflected(signal, left, right);
            let n = signal.len() as int;
            &&& r.len() == left + n + right
            &&& r[left + k] == signal[k]
            &&& k < left && k < n - 1 ==> r[left - 1 - k] == signal[k]
            &&& k < right ==> r[left + n + k] == signal[n - 1 - k]
        }),
{
}

} // verus!
