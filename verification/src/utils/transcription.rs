//! Which part of a recording is put into words, and how the words are joined.
use crate::utils::text;
use vstd::prelude::*;

verus! {

/// A recording to put into words. The worker never stores the project itself.
#[derive(Debug)]
pub struct TranscriptionTask {
    pub file_path: String,
    pub project_file_path: String,
    /// The hint when the task was given.
    pub previous_hint: String,
}

/// What a worker made of a task.
#[derive(Debug)]
pub struct TranscriptionUpdate {
    pub file_path: String,
    pub previous_hint: String,
    pub text: String,
}

/// Samples per second that the model expects.
pub const SAMPLE_RATE: usize = 16_000;

/// The samples of the first three seconds.
pub const FIRST_SAMPLES: usize = 48_000;

/// The samples of the last two seconds.
pub const LAST_SAMPLES: usize = 32_000;

/// The parts of a recording that are put into words.
pub open spec fn heard_parts(samples: usize) -> Seq<(usize, usize)> {
    if samples <= FIRST_SAMPLES + LAST_SAMPLES {
        seq![(0usize, samples)]
    } else {
        seq![(0usize, FIRST_SAMPLES), ((samples - LAST_SAMPLES) as usize, samples)]
    }
}

/// Up to five seconds a recording is put into words whole; of a longer one it is the first
/// three seconds and the last two.
pub proof fn long_recordings_are_heard_at_both_ends(samples: usize)
    ensures
        ({
            let parts = heard_parts(samples);
            let second: int = 16000;
            &&& samples <= 5 * second ==> parts.len() == 1 && parts[0].0 == 0 && parts[0].1
                == samples
            &&& samples > 5 * second ==> {
                &&& parts.len() == 2
                &&& parts[0].0 == 0
                &&& parts[0].1 == 3 * second
                &&& parts[1].0 == samples - 2 * second
                &&& parts[1].1 == samples
                &&& parts[0].1 < parts[1].0
            }
        }),
{
}

/// The sample ranges that are put into words: everything up to five seconds,
/// else the first three and the last two.
pub fn segments(samples: usize) -> (r: Vec<(usize, usize)>)
    ensures
        r@ == (if samples <= FIRST_SAMPLES + LAST_SAMPLES {
            seq![(0usize, samples)]
        } else {
            seq![(0usize, FIRST_SAMPLES), ((samples - LAST_SAMPLES) as usize, samples)]
        }),
        r@ == heard_parts(samples),
{
    let mut out: Vec<(usize, usize)> = Vec::new();
    if samples <= FIRST_SAMPLES + LAST_SAMPLES {
        out.push((0, samples));
    } else {
        out.push((0, FIRST_SAMPLES));
        out.push((samples - LAST_SAMPLES, samples));
    }
    assert(out@ =~= (if samples <= FIRST_SAMPLES + LAST_SAMPLES {
        seq![(0usize, samples)]
    } else {
        seq![(0usize, FIRST_SAMPLES), ((samples - LAST_SAMPLES) as usize, samples)]
    }));
    out
}

/// The words of a long recording: its start and its end with a mark between.
pub open spec fn both_ends(first: Seq<char>, last: Seq<char>) -> Seq<char> {
    let a = text::trimmed(first);
    let b = text::trimmed(last);
    if a.len() == 0 {
        b
    } else if b.len() == 0 {
        a
    } else {
        a + "[...]"@ + b
    }
}

/// Joins the words of the start and of the end of a recording.
pub fn join_ends(first: &str, last: &str) -> (r: String)
    ensures
        r@ == both_ends(first@, last@),
{
    let a = text::trim(first);
    let b = text::trim(last);
    if a.as_str().is_empty() {
        b
    } else if b.as_str().is_empty() {
        a
    } else {
        a.concat("[...]").concat(b.as_str())
    }
}

/// The words of one segment out of the parts that the model heard.
pub fn join_parts(parts: &Vec<String>) -> (r: String)
    ensures
        r@ == text::trimmed(text::join(text::texts(parts@), " "@)),
{
    let joined = text::join_texts(parts, " ");
    text::trim(joined.as_str())
}

/// The hint for what was heard.
pub open spec fn hint_for(heard: Seq<char>) -> Seq<char> {
    if text::trimmed(heard).len() == 0 {
        "…"@
    } else {
        heard
    }
}

/// A hint is never empty, so that a fragment is put into words once; what was heard is kept
/// as it is.
pub proof fn hints_are_never_empty(heard: Seq<char>)
    ensures
        hint_for(heard).len() > 0,
        text::trimmed(heard).len() > 0 ==> hint_for(heard) == heard,
        text::trimmed(heard).len() == 0 ==> hint_for(heard) == "…"@,
{
    reveal_strlit("…");
    if text::trimmed(heard).len() > 0 {
        let ends = text::trimming_cuts_white_space(heard);
    }
}

/// The hint that is stored for what was heard; silence is an ellipsis.
pub fn hint_of(heard: String) -> (r: String)
    ensures
        r@ == (if text::trimmed(heard@).len() == 0 {
            "…"@
        } else {
            heard@
        }),
        r@ == hint_for(heard@),
{
    let t = text::trim(heard.as_str());
    if t.as_str().is_empty() {
        "…".to_owned()
    } else {
        heard
    }
}

} // verus!
