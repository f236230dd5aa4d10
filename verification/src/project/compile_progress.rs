//! Progress of one operation of an export, shown at a bounded rate.
use crate::ui::ui;
use crate::ui::ui::UIState;
use crate::utils::text;
use vstd::prelude::*;

verus! {

/// How often the progress is shown, in milliseconds.
pub const UPDATE_INTERVAL_MS: u64 = 100;

/// How long an operation runs before its end is estimated, in milliseconds.
pub const ETA_MIN_ELAPSED_MS: u64 = 500;

/// What an operation counts.
#[derive(Clone, Copy, Debug, PartialEq, Eq, Structural)]
pub enum ProgressUnit {
    /// Samples of all channels, not frames or bytes.
    Audio { sample_rate: u32, channels: u16 },
    Bytes,
}

/// A count as it is shown.
pub open spec fn count_shown(unit: ProgressUnit, count: u64) -> Seq<char> {
    match unit {
        ProgressUnit::Audio { sample_rate, channels } => crate::utils::format::clock(
            (count as nat) / ((sample_rate * channels) as nat),
            true,
        ),
        ProgressUnit::Bytes => crate::utils::format::mebibytes(count as nat),
    }
}

/// An operation of an export.
#[derive(Debug)]
pub struct Operation {
    pub label: String,
    /// Whether its share of the whole ends before publication begins.
    pub range_ok: bool,
    pub unit: ProgressUnit,
}

/// Why an operation does not go on.
#[derive(Clone, Copy, Debug, PartialEq, Eq, Structural)]
pub enum ProgressError {
    Cancelled,
    ExceedsTotal,
    Range,
    AudioFormat,
}

impl ProgressError {
    /// The sentence that belongs to an error.
    pub open spec fn spec_text(&self) -> Seq<char> {
        match self {
            ProgressError::Cancelled => "Compilation cancelled"@,
            ProgressError::ExceedsTotal => "Operation progress exceeds its total"@,
            ProgressError::Range => "Operation progress range must be within 0..=0.95"@,
            ProgressError::AudioFormat => {
                "Audio progress requires a nonzero sample rate and channel count"@
            },
        }
    }

    pub fn message(&self) -> (r: &'static str)
        ensures
            r@ == self.spec_text(),
    {
        match self {
            ProgressError::Cancelled => "Compilation cancelled",
            ProgressError::ExceedsTotal => "Operation progress exceeds its total",
            ProgressError::Range => "Operation progress range must be within 0..=0.95",
            ProgressError::AudioFormat => {
                "Audio progress requires a nonzero sample rate and channel count"
            },
        }
    }
}

/// What the bar of the whole export is computed from.
#[derive(Clone, Copy, Debug, PartialEq, Eq, Structural)]
pub struct Shown {
    pub complete: bool,
    pub done: u64,
    pub total: u64,
    /// Whether the remaining time can be estimated.
    pub estimated: bool,
}

/// The progress of one operation.
#[derive(Debug)]
pub struct CompileProgress {
    operation: Operation,
    started: u64,
    last_update: Option<u64>,
    last_displayed_total: Option<u64>,
    displayed_complete: bool,
    last_report: (u64, u64),
}

/// What the contracts know of [`CompileProgress`].
#[verifier::ext_equal]
pub ghost struct ProgressModel {
    pub label: Seq<char>,
    pub range_ok: bool,
    pub unit: ProgressUnit,
    pub started: u64,
    pub last_update: Option<u64>,
    pub last_displayed_total: Option<u64>,
    pub displayed_complete: bool,
    pub last_report: (u64, u64),
}

impl View for CompileProgress {
    type V = ProgressModel;

    closed spec fn view(&self) -> ProgressModel {
        ProgressModel {
            label: self.operation.label@,
            range_ok: self.operation.range_ok,
            unit: self.operation.unit,
            started: self.started,
            last_update: self.last_update,
            last_displayed_total: self.last_displayed_total,
            displayed_complete: self.displayed_complete,
            last_report: self.last_report,
        }
    }
}

/// A report as the operation gives it.
#[derive(Clone, Copy, Debug)]
pub struct Report {
    pub done: u64,
    pub total: u64,
    /// The operation succeeded.
    pub finished: bool,
    /// The export was cancelled when the report came in.
    pub cancelled: bool,
    /// The export was cancelled when the window's state was looked at.
    pub cancelled_since: bool,
    pub now_ms: u64,
}

/// Whether a report says that the operation is complete. No total is no completion.
pub open spec fn is_complete(r: Report) -> bool {
    r.finished || (r.total > 0 && r.done == r.total)
}

/// Whether a report is to be shown: the first one, one that tells the total for the
/// first time, the completion, and otherwise one in an interval.
pub open spec fn is_due(p: ProgressModel, r: Report) -> bool {
    ||| r.finished
    ||| match p.last_update {
        Some(last) => r.now_ms - last >= UPDATE_INTERVAL_MS,
        None => true,
    }
    ||| p.last_displayed_total == Some(0u64) && r.total > 0
    ||| is_complete(r) && !p.displayed_complete
}

/// Why a report is refused, if it is.
pub open spec fn report_error(p: ProgressModel, r: Report) -> Option<ProgressError> {
    if r.cancelled {
        Some(ProgressError::Cancelled)
    } else if r.done > r.total {
        Some(ProgressError::ExceedsTotal)
    } else if !p.range_ok {
        Some(ProgressError::Range)
    } else {
        match p.unit {
            ProgressUnit::Audio { sample_rate, channels } if sample_rate == 0 || channels == 0 => {
                Some(ProgressError::AudioFormat)
            },
            _ => None,
        }
    }
}

/// Whether an export runs that can still be cancelled.
pub open spec fn runs(s: ui::UIStateModel) -> bool {
    s.is_compiling && !s.compile_publishing && s.compile_finished_at is None
}

/// The window's state of an export that is being cancelled.
pub open spec fn cancelling(s: ui::UIStateModel) -> ui::UIStateModel {
    ui::UIStateModel { compile_cancel_requested: true, compile_stage: "Cancelling…"@, ..s }
}

/// The percentage of a report.
pub open spec fn percent(r: Report) -> nat {
    if is_complete(r) {
        100
    } else if r.total > 0 {
        (r.done as nat) * 100 / (r.total as nat)
    } else {
        0
    }
}

/// The words of a report.
pub open spec fn detail(p: ProgressModel, r: Report) -> Seq<char> {
    if r.total == 0 {
        p.label + ": "@ + (if r.finished {
            "completed"@
        } else {
            "working…"@
        })
    } else {
        p.label + ": "@ + text::decimal(percent(r)) + "% · "@ + count_shown(p.unit, r.done)
            + " / "@ + count_shown(p.unit, r.total)
    }
}

/// The window's state with a report shown.
pub open spec fn with_report(s: ui::UIStateModel, p: ProgressModel, r: Report) -> ui::UIStateModel {
    ui::UIStateModel {
        dialog_compile_stages_text:
            "1. prepare ✓\n2. denoise ✓\n3. process markers ✓\n4. normalize; write → "@
            + detail(p, r),
        compile_stage: detail(p, r),
        ..s
    }
}

/// What a report does.
pub open spec fn after_report(p: ProgressModel, s: ui::UIStateModel, r: Report) -> (
    ProgressModel,
    ui::UIStateModel,
    Result<Option<Shown>, ProgressError>,
) {
    let noted = ProgressModel { last_report: (r.done, r.total), ..p };
    let timed = ProgressModel { last_update: Some(r.now_ms), ..noted };
    match report_error(p, r) {
        Some(ProgressError::Cancelled) => (
            p,
            if runs(s) {
                cancelling(s)
            } else {
                s
            },
            Err(ProgressError::Cancelled),
        ),
        Some(e) => (p, s, Err(e)),
        None => if !is_due(p, r) {
            (noted, s, Ok(None))
        } else if !runs(s) {
            (timed, s, Ok(None))
        } else if s.compile_cancel_requested || r.cancelled_since {
            (timed, cancelling(s), Err(ProgressError::Cancelled))
        } else {
            (
                ProgressModel {
                    last_displayed_total: Some(r.total),
                    displayed_complete: is_complete(r),
                    ..timed
                },
                with_report(s, p, r),
                Ok(
                    Some(
                        Shown {
                            complete: is_complete(r),
                            done: r.done,
                            total: r.total,
                            estimated: !is_complete(r) && r.now_ms - p.started
                                >= ETA_MIN_ELAPSED_MS && 0 < r.done < r.total,
                        },
                    ),
                ),
            )
        },
    }
}

fn set_cancelling(state: &mut UIState)
    ensures
        final(state)@ == cancelling(old(state)@),
{
    state.compile_cancel_requested = true;
    state.compile_stage = "Cancelling…".to_owned();
}

fn show_report(state: &mut UIState, words: String)
    ensures
        final(state)@ == (ui::UIStateModel {
            dialog_compile_stages_text:
                "1. prepare ✓\n2. denoise ✓\n3. process markers ✓\n4. normalize; write → "@
                + words@,
            compile_stage: words@,
            ..old(state)@
        }),
{
    state.dialog_compile_stages_text =
    "1. prepare ✓\n2. denoise ✓\n3. process markers ✓\n4. normalize; write → ".to_owned().concat(
        words.as_str(),
    );
    state.compile_stage = words;
}

impl CompileProgress {
    /// The progress of one operation. An operation with a wrong range or unit is
    /// refused by its first report.
    pub fn new(operation: Operation, now_ms: u64) -> (r: Self)
        ensures
            r@ == (ProgressModel {
                label: operation.label@,
                range_ok: operation.range_ok,
                unit: operation.unit,
                started: now_ms,
                last_update: None,
                last_displayed_total: None,
                displayed_complete: false,
                last_report: (0, 0),
            }),
    {
        CompileProgress {
            operation,
            started: now_ms,
            last_update: None,
            last_displayed_total: None,
            displayed_complete: false,
            last_report: (0, 0),
        }
    }

    fn format_count(&self, count: u64) -> (r: String)
        requires
            self@.unit matches ProgressUnit::Audio { sample_rate, channels } ==> sample_rate > 0
                && channels > 0,
        ensures
            r@ == count_shown(self@.unit, count),
    {
        match self.operation.unit {
            ProgressUnit::Audio { sample_rate, channels } => {
                assert(0 < sample_rate * channels <= u64::MAX) by (nonlinear_arith)
                    requires
                        0 < sample_rate <= u32::MAX,
                        0 < channels <= u16::MAX,
                ;
                let per_second: u64 = sample_rate as u64 * channels as u64;
                let secs: u64 = count / per_second;
                crate::utils::format::format_duration(secs as u128 * 1000, true)
            },
            ProgressUnit::Bytes => crate::utils::format::format_mebibytes(count),
        }
    }

    fn words(&self, r: Report) -> (words: String)
        requires
            report_error(self@, r) is None,
        ensures
            words@ == detail(self@, r),
    {
        let head = self.operation.label.clone().concat(": ");
        if r.total == 0 {
            if r.finished {
                head.concat("completed")
            } else {
                head.concat("working…")
            }
        } else {
            let complete = r.finished || r.done == r.total;
            let percent: u128 = if complete {
                100
            } else {
                r.done as u128 * 100 / r.total as u128
            };
            head.concat(text::decimal_text(percent).as_str()).concat("% · ").concat(
                self.format_count(r.done).as_str(),
            ).concat(" / ").concat(self.format_count(r.total).as_str())
        }
    }

    fn refusal(&self, r: Report) -> (e: Option<ProgressError>)
        ensures
            e == report_error(self@, r),
    {
        if r.cancelled {
            return Some(ProgressError::Cancelled);
        }
        if r.done > r.total {
            return Some(ProgressError::ExceedsTotal);
        }
        if !self.operation.range_ok {
            return Some(ProgressError::Range);
        }
        match self.operation.unit {
            ProgressUnit::Audio { sample_rate, channels } => if sample_rate == 0 || channels == 0 {
                Some(ProgressError::AudioFormat)
            } else {
                None
            },
            ProgressUnit::Bytes => None,
        }
    }

    fn due(&self, r: Report) -> (b: bool)
        ensures
            b == is_due(self@, r),
    {
        let complete = r.finished || (r.total > 0 && r.done == r.total);
        let late = match self.last_update {
            Some(last) => r.now_ms.saturating_sub(last) >= UPDATE_INTERVAL_MS,
            None => true,
        };
        let total_known = match self.last_displayed_total {
            Some(total) => total == 0 && r.total > 0,
            None => false,
        };
        r.finished || late || total_known || (complete && !self.displayed_complete)
    }

    /// Takes in a report. Cancellation is checked at every one, the window's state is
    /// touched only when the report is due.
    pub fn update(&mut self, state: &mut UIState, r: Report) -> (shown: Result<
        Option<Shown>,
        ProgressError,
    >)
        ensures
            (final(self)@, final(state)@, shown) == after_report(old(self)@, old(state)@, r),
    {
        match self.refusal(r) {
            Some(ProgressError::Cancelled) => {
                if state.is_compiling && !state.compile_publishing
                    && state.compile_finished_at.is_none() {
                    set_cancelling(state);
                }
                return Err(ProgressError::Cancelled);
            },
            Some(e) => {
                return Err(e);
            },
            None => {},
        }
        let due = self.due(r);
        self.last_report = (r.done, r.total);
        if !due {
            return Ok(None);
        }
        self.last_update = Some(r.now_ms);
        if !state.is_compiling || state.compile_publishing || state.compile_finished_at.is_some() {
            return Ok(None);
        }
        if state.compile_cancel_requested || r.cancelled_since {
            set_cancelling(state);
            return Err(ProgressError::Cancelled);
        }
        let words = self.words(r);
        show_report(state, words);
        let complete = r.finished || (r.total > 0 && r.done == r.total);
        self.last_displayed_total = Some(r.total);
        self.displayed_complete = complete;
        Ok(
            Some(
                Shown {
                    complete,
                    done: r.done,
                    total: r.total,
                    estimated: !complete && r.now_ms.saturating_sub(self.started)
                        >= ETA_MIN_ELAPSED_MS && r.done > 0 && r.total > r.done,
                },
            ),
        )
    }

    /// Takes in how much is done.
    pub fn report(
        &mut self,
        state: &mut UIState,
        done: u64,
        total: u64,
        cancelled: bool,
        cancelled_since: bool,
        now_ms: u64,
    ) -> (shown: Result<Option<Shown>, ProgressError>)
        ensures
            (final(self)@, final(state)@, shown) == after_report(
                old(self)@,
                old(state)@,
                (Report { done, total, finished: false, cancelled, cancelled_since, now_ms }),
            ),
    {
        self.update(
            state,
            Report { done, total, finished: false, cancelled, cancelled_since, now_ms },
        )
    }

    /// Takes in that the operation succeeded. Nothing is said of the whole export.
    pub fn finish(
        &mut self,
        state: &mut UIState,
        cancelled: bool,
        cancelled_since: bool,
        now_ms: u64,
    ) -> (shown: Result<Option<Shown>, ProgressError>)
        ensures
            ({
                let total = old(self)@.last_report.1;
                (final(self)@, final(state)@, shown) == after_report(
                    old(self)@,
                    old(state)@,
                    (Report {
                        done: total,
                        total,
                        finished: true,
                        cancelled,
                        cancelled_since,
                        now_ms,
                    }),
                )
            }),
    {
        let total: u64 = self.last_report.1;
        self.update(
            state,
            Report { done: total, total, finished: true, cancelled, cancelled_since, now_ms },
        )
    }
}

/// An operation is shown as finished only when it is: below its total it never shows
/// the full percentage.
pub proof fn full_percentage_means_complete(r: Report)
    requires
        r.done <= r.total,
    ensures
        percent(r) <= 100,
        percent(r) == 100 <==> is_complete(r),
{
    if !is_complete(r) && r.total > 0 {
        let done = r.done as int;
        let total = r.total as int;
        assert(0 <= done * 100 / total < 100) by (nonlinear_arith)
            requires
                0 <= done < total,
        ;
    }
}

/// The percentage is the whole part of what is done: no more than it, and less than one
/// below it.
pub proof fn percentages_are_whole_parts(r: Report)
    requires
        !is_complete(r),
        r.total > 0,
        r.done <= r.total,
    ensures
        percent(r) * r.total <= 100 * r.done,
        100 * r.done < (percent(r) + 1) * r.total,
{
    let done = r.done as int;
    let total = r.total as int;
    let p = done * 100 / total;
    vstd::arithmetic::div_mod::lemma_fundamental_div_mod(done * 100, total);
    assert(p * total <= done * 100 < (p + 1) * total) by (nonlinear_arith)
        requires
            done * 100 == total * p + (done * 100) % total,
            0 <= (done * 100) % total < total,
    ;
}

/// A report that is refused shows nothing, but that a cancelled export says so. One that is
/// due in an export that runs is shown, and one that is not due is only remembered.
pub proof fn reports_are_shown_when_they_are_due(
    p: ProgressModel,
    s: ui::UIStateModel,
    r: Report,
)
    ensures
        ({
            let (p2, s2, shown) = after_report(p, s, r);
            let fine = !r.cancelled && r.done <= r.total && p.range_ok && (
            p.unit matches ProgressUnit::Audio { sample_rate, channels } ==> sample_rate > 0
                && channels > 0);
            &&& r.cancelled ==> shown == Err::<Option<Shown>, ProgressError>(
                ProgressError::Cancelled,
            )
            &&& r.cancelled && runs(s) ==> s2.compile_cancel_requested
            &&& !r.cancelled && !fine ==> shown is Err && s2 == s && p2 == p
            &&& fine && !is_due(p, r) ==> s2 == s && shown == Ok::<Option<Shown>, ProgressError>(
                None,
            )
            &&& fine && is_due(p, r) && runs(s) && !s.compile_cancel_requested
                && !r.cancelled_since ==> (shown matches Ok(Some(x)) && x.done == r.done && x.total
                == r.total && x.complete == is_complete(r) && s2.compile_stage == detail(p, r)
                && p2.last_update == Some(r.now_ms))
            &&& s2.file_list == s.file_list
            &&& p.last_update is None ==> is_due(p, r)
            &&& r.finished ==> is_due(p, r)
        }),
{
}

} // verus!
