//! The export of a book: what goes into which file, and what is shown meanwhile.
use crate::project::export_workspace::{ExportCancelled, PublishedExport};
use crate::project::marker_map::MarkerMap;
use crate::project::markers;
use crate::project::project;
use crate::project::project::ProjectFile;
use crate::ui::ui;
use crate::ui::ui::UIState;
use crate::utils::paths;
use crate::utils::text;
use vstd::prelude::*;

verus! {

/// Which fragments go into which output file. Without splitting there is one file.
pub open spec fn splits(
    files: Seq<project::ProjectFileModel>,
    known: Map<Seq<char>, project::MarkerSettingsModel>,
    section_split: bool,
    ranges: Seq<(usize, usize)>,
) -> bool {
    let n = files.len() as int;
    if n == 0 {
        ranges.len() == 0
    } else if !section_split {
        ranges == seq![(0usize, n as usize)]
    } else {
        &&& covers(n, ranges)
        &&& forall|i: int|
            0 < i < n ==> (#[trigger] markers::starts_section(files[i], known) <==> begins_at(
                ranges,
                i,
            ))
    }
}

/// Whether a range other than the first begins in a place.
pub open spec fn begins_at(ranges: Seq<(usize, usize)>, i: int) -> bool {
    exists|k: int| 0 < k < ranges.len() && (#[trigger] ranges[k]).0 == i
}

/// Whether ranges follow one another from the start to `n`, and none is empty.
pub open spec fn covers(n: int, ranges: Seq<(usize, usize)>) -> bool {
    &&& ranges.len() > 0
    &&& ranges[0].0 == 0
    &&& ranges.last().1 == n
    &&& forall|k: int| 0 <= k < ranges.len() ==> (#[trigger] ranges[k]).0 < ranges[k].1
    &&& forall|j: int, k: int|
        #![trigger ranges[j], ranges[k]]
        0 <= j < k < ranges.len() && k == j + 1 ==> ranges[j].1 == ranges[k].0
}

/// Divides a project into output files. With splitting, every section is one.
pub fn section_ranges(files: &[ProjectFile], known: &MarkerMap, section_split: bool) -> (r: Vec<
    (usize, usize),
>)
    ensures
        splits(project::file_models(files@), known@, section_split, r@),
{
    let ghost all = project::file_models(files@);
    let total: usize = files.len();
    let mut ranges: Vec<(usize, usize)> = Vec::new();
    if total == 0 {
        return ranges;
    }
    if !section_split {
        ranges.push((0, total));
        assert(ranges@ =~= seq![(0usize, total)]);
        return ranges;
    }
    let mut start: usize = 0;
    let mut i: usize = 0;
    while i < total
        invariant
            i <= total == files@.len(),
            all == project::file_models(files@),
            start <= i,
            start < total,
            (ranges@.len() == 0) == (start == 0),
            ranges@.len() > 0 ==> ranges@[0].0 == 0 && ranges@.last().1 == start,
            forall|k: int| 0 <= k < ranges@.len() ==> (#[trigger] ranges@[k]).0 < ranges@[k].1,
            forall|j: int, k: int|
                #![trigger ranges@[j], ranges@[k]]
                0 <= j < k < ranges@.len() && k == j + 1 ==> ranges@[j].1 == ranges@[k].0,
            forall|j: int|
                0 < j < i ==> (#[trigger] markers::starts_section(all[j], known@) <==> j == start
                    || begins_at(ranges@, j)),
            forall|j: int| i <= j ==> !(#[trigger] begins_at(ranges@, j)),
            start < i || start == 0,
        decreases total - i,
    {
        assert(all[i as int] == files@[i as int]@);
        let ghost before = ranges@;
        let ghost old_start = start as int;
        let starts = markers::file_starts_section(&files[i], known);
        if starts && i > start {
            ranges.push((start, i));
            proof {
                assert forall|j: int| #[trigger] begins_at(ranges@, j) <==> begins_at(before, j) || (j
                    == old_start && before.len() > 0) by {
                    if begins_at(before, j) {
                        let k = choose|k: int| 0 < k < before.len() && (#[trigger] before[k]).0 == j;
                        assert(ranges@[k].0 == j);
                    }
                    if j == old_start && before.len() > 0 {
                        assert(ranges@[before.len() as int].0 == j);
                    }
                    if begins_at(ranges@, j) {
                        let k = choose|k: int|
                            0 < k < ranges@.len() && (#[trigger] ranges@[k]).0 == j;
                        if k < before.len() {
                            assert(before[k].0 == j);
                        }
                    }
                }
                assert forall|j: int, k: int|
                    #![trigger ranges@[j], ranges@[k]]
                    0 <= j < k < ranges@.len() && k == j + 1 implies ranges@[j].1
                    == ranges@[k].0 by {
                    assert(ranges@[j] == before[j]);
                    if k < before.len() {
                        assert(ranges@[k] == before[k]);
                    }
                }
                assert forall|j: int| 0 < j < i + 1 implies (#[trigger] markers::starts_section(
                    all[j],
                    known@,
                ) <==> j == i || begins_at(ranges@, j)) by {
                    if j < i {
                        assert(markers::starts_section(all[j], known@) <==> j == old_start
                            || begins_at(before, j));
                        assert(old_start == 0 || before.len() > 0);
                    } else {
                        assert(!begins_at(before, j));
                    }
                }
            }
            start = i;
        } else {
            proof {
                assert(i == start || !markers::starts_section(all[i as int], known@));
                assert(!begins_at(before, i as int));
            }
        }
        i = i + 1;
    }
    let ghost before = ranges@;
    ranges.push((start, total));
    proof {
        assert forall|j: int| #[trigger] begins_at(ranges@, j) <==> begins_at(before, j) || (j == start
            && before.len() > 0) by {
            if begins_at(before, j) {
                let k = choose|k: int| 0 < k < before.len() && (#[trigger] before[k]).0 == j;
                assert(ranges@[k].0 == j);
            }
            if j == start && before.len() > 0 {
                assert(ranges@[before.len() as int].0 == j);
            }
            if begins_at(ranges@, j) {
                let k = choose|k: int| 0 < k < ranges@.len() && (#[trigger] ranges@[k]).0 == j;
                if k < before.len() {
                    assert(before[k].0 == j);
                }
            }
        }
        assert forall|j: int, k: int|
            #![trigger ranges@[j], ranges@[k]]
            0 <= j < k < ranges@.len() && k == j + 1 implies ranges@[j].1 == ranges@[k].0 by {
            assert(ranges@[j] == before[j]);
            if k < before.len() {
                assert(ranges@[k] == before[k]);
            }
        }
    }
    ranges
}

proof fn ranges_in_order(n: int, ranges: Seq<(usize, usize)>, j: int, k: int)
    requires
        covers(n, ranges),
        0 <= j < k < ranges.len(),
    ensures
        ranges[j].1 <= ranges[k].0,
    decreases k - j,
{
    if j + 1 < k {
        ranges_in_order(n, ranges, j, k - 1);
        assert(ranges[k - 1].0 < ranges[k - 1].1);
    }
    assert(ranges[k - 1].1 == ranges[k].0);
}

/// Every fragment goes into exactly one output file.
pub proof fn every_fragment_is_in_one_file(n: int, ranges: Seq<(usize, usize)>, i: int)
    requires
        covers(n, ranges),
        0 <= i < n,
    ensures
        exists|k: int| 0 <= k < ranges.len() && (#[trigger] ranges[k]).0 <= i < ranges[k].1,
        forall|j: int, k: int|
            #![trigger ranges[j], ranges[k]]
            0 <= j < ranges.len() && 0 <= k < ranges.len() && ranges[j].0 <= i < ranges[j].1
                && ranges[k].0 <= i < ranges[k].1 ==> j == k,
{
    assert forall|j: int, k: int|
        #![trigger ranges[j], ranges[k]]
        0 <= j < ranges.len() && 0 <= k < ranges.len() && ranges[j].0 <= i < ranges[j].1
            && ranges[k].0 <= i < ranges[k].1 implies j == k by {
        if j < k {
            ranges_in_order(n, ranges, j, k);
        } else if k < j {
            ranges_in_order(n, ranges, k, j);
        }
    }
    find_range(n, ranges, i, ranges.len() - 1);
}

proof fn find_range(n: int, ranges: Seq<(usize, usize)>, i: int, last: int)
    requires
        covers(n, ranges),
        0 <= last < ranges.len(),
        0 <= i < ranges[last].1,
    ensures
        exists|k: int| 0 <= k < ranges.len() && (#[trigger] ranges[k]).0 <= i < ranges[k].1,
    decreases last,
{
    if i < ranges[last].0 {
        assert(last > 0);
        assert(ranges[last - 1].1 == ranges[last].0);
        find_range(n, ranges, i, last - 1);
    } else {
        assert(ranges[last].0 <= i < ranges[last].1);
    }
}

/// The operation that currently produces an output file.
#[derive(Clone, Copy, Debug, PartialEq, Eq, Structural)]
pub enum ExportStep {
    Analyze,
    Normalize,
    Encode,
    Metadata,
}

impl ExportStep {
    /// The name of a step.
    pub open spec fn spec_label(self) -> Seq<char> {
        match self {
            ExportStep::Analyze => "Analyze level"@,
            ExportStep::Normalize => "Normalize"@,
            ExportStep::Encode => "Encode MP3"@,
            ExportStep::Metadata => "Write metadata"@,
        }
    }

    pub fn label(self) -> (r: &'static str)
        ensures
            r@ == self.spec_label(),
    {
        match self {
            ExportStep::Analyze => "Analyze level",
            ExportStep::Normalize => "Normalize",
            ExportStep::Encode => "Encode MP3",
            ExportStep::Metadata => "Write metadata",
        }
    }
}

/// The steps of an output file, in their order.
pub open spec fn steps_of(format: Seq<char>, normalize: bool) -> Seq<ExportStep> {
    let first = if normalize {
        seq![ExportStep::Analyze, ExportStep::Normalize]
    } else {
        Seq::empty()
    };
    let second = if format == "mp3"@ {
        seq![ExportStep::Encode]
    } else {
        Seq::empty()
    };
    first + second + seq![ExportStep::Metadata]
}

/// The steps of an output file.
pub fn export_steps(format: &str, normalize: bool) -> (r: Vec<ExportStep>)
    ensures
        r@ == steps_of(format@, normalize),
{
    let mut steps: Vec<ExportStep> = Vec::new();
    if normalize {
        steps.push(ExportStep::Analyze);
        steps.push(ExportStep::Normalize);
    }
    if text::same_text(format, "mp3") {
        steps.push(ExportStep::Encode);
    }
    steps.push(ExportStep::Metadata);
    assert(steps@ =~= steps_of(format@, normalize));
    steps
}

/// The line of a stage: done, current or still to come.
pub open spec fn stage_line(number: nat, name: Seq<char>, current: nat, detail: Seq<char>) -> Seq<
    char,
> {
    let head = text::decimal(number + 1) + ". "@ + name + " "@;
    if number < current {
        head + "✓"@
    } else if number > current {
        head + " "@
    } else if detail.len() == 0 {
        head + "→"@
    } else {
        head + "→"@ + " "@ + detail
    }
}

/// The names of the stages.
pub open spec fn stage_names() -> Seq<Seq<char>> {
    seq!["prepare"@, "denoise"@, "process markers"@, "normalize; write"@]
}

/// The lines of all stages.
pub open spec fn stages_text(current: nat, detail: Seq<char>) -> Seq<char> {
    text::join(
        Seq::new(4, |i: int| stage_line(i as nat, stage_names()[i], current, detail)),
        "\n"@,
    )
}

fn line_of_stage(number: u32, name: &str, current: u32, detail: &str) -> (r: String)
    requires
        number < 4,
    ensures
        r@ == stage_line(number as nat, name@, current as nat, detail@),
{
    let head = text::decimal_text(number as u128 + 1).concat(". ").concat(name).concat(" ");
    if number < current {
        head.concat("✓")
    } else if number > current {
        head.concat(" ")
    } else if detail.is_empty() {
        head.concat("→")
    } else {
        head.concat("→").concat(" ").concat(detail)
    }
}

fn text_of_stages(current: u32, detail: &str) -> (r: String)
    ensures
        r@ == stages_text(current as nat, detail@),
{
    let mut lines: Vec<String> = Vec::new();
    lines.push(line_of_stage(0, "prepare", current, detail));
    lines.push(line_of_stage(1, "denoise", current, detail));
    lines.push(line_of_stage(2, "process markers", current, detail));
    lines.push(line_of_stage(3, "normalize; write", current, detail));
    assert(text::texts(lines@) =~= Seq::new(
        4,
        |i: int| stage_line(i as nat, stage_names()[i], current as nat, detail@),
    ));
    text::join_texts(&lines, "\n")
}

/// Shows a stage of an export. A cancellation that is under way stays shown.
pub fn set_compile_ui(state: &mut UIState, stage: u32, detail: &str)
    ensures
        final(state)@ == (ui::UIStateModel {
            compile_stage: if old(state)@.compile_cancel_requested {
                old(state)@.compile_stage
            } else {
                detail@
            },
            dialog_compile_stages_text: stages_text(stage as nat, detail@),
            ..old(state)@
        }),
{
    if !state.compile_cancel_requested {
        state.compile_stage = detail.to_owned();
    }
    state.dialog_compile_stages_text = text_of_stages(stage, detail);
}

/// The window's state when an export begins. A cancellation that was asked for
/// before stays asked for.
pub open spec fn begun(s: ui::UIStateModel, cancelled: bool) -> ui::UIStateModel {
    let asked = (s.is_compiling && s.compile_finished_at is None && s.compile_cancel_requested)
        || cancelled;
    ui::UIStateModel {
        is_compiling: true,
        compile_finished_at: None,
        compile_publishing: false,
        compile_cancel_requested: asked,
        compile_stage: if asked {
            "Cancelling…"@
        } else {
            "Preparing…"@
        },
        dialog_compile_stages_text:
            "1. prepare →\n2. denoise\n3. process markers\n4. normalize; write"@,
        ..s
    }
}

/// Shows that an export begins.
pub fn begin_compile_ui(state: &mut UIState, cancelled: bool)
    ensures
        final(state)@ == begun(old(state)@, cancelled),
{
    let asked = (state.is_compiling && state.compile_finished_at.is_none()
        && state.compile_cancel_requested) || cancelled;
    state.is_compiling = true;
    state.compile_finished_at = None;
    state.compile_publishing = false;
    state.compile_cancel_requested = asked;
    state.compile_stage = if asked {
        "Cancelling…".to_owned()
    } else {
        "Preparing…".to_owned()
    };
    state.dialog_compile_stages_text =
    "1. prepare →\n2. denoise\n3. process markers\n4. normalize; write".to_owned();
}

/// Fails if an export was cancelled, by its flag or in the window.
pub fn check_compile_cancel(cancel: Option<bool>, state: &UIState) -> (r: Result<
    (),
    ExportCancelled,
>)
    ensures
        r is Err <==> cancel == Some(true) || state@.compile_cancel_requested,
{
    match cancel {
        Some(true) => Err(ExportCancelled),
        _ => if state.compile_cancel_requested {
            Err(ExportCancelled)
        } else {
            Ok(())
        },
    }
}

/// Shows that a finished book is being published, the last moment at which an export
/// can be cancelled.
pub fn begin_publishing(state: &mut UIState, cancelled: bool) -> (r: Result<(), ExportCancelled>)
    ensures
        r is Err <==> cancelled || old(state)@.compile_cancel_requested,
        final(state)@ == (if r is Err {
            old(state)@
        } else {
            ui::UIStateModel {
                compile_publishing: true,
                compile_stage: "Publishing…"@,
                ..old(state)@
            }
        }),
{
    if cancelled || state.compile_cancel_requested {
        return Err(ExportCancelled);
    }
    state.compile_publishing = true;
    state.compile_stage = "Publishing…".to_owned();
    Ok(())
}

/// How an export ended.
#[derive(Debug)]
pub enum ExportEnd {
    Published(PublishedExport),
    Cancelled,
    Failed(String),
}

/// The window's state when an export ended.
pub open spec fn ended(s: ui::UIStateModel, end: ExportEnd, now_ms: u64) -> ui::UIStateModel {
    let over = ui::UIStateModel {
        compile_publishing: false,
        compile_finished_at: Some(now_ms),
        ..s
    };
    match end {
        ExportEnd::Published(report) => {
            let done = "Done: "@ + report.path@;
            let warnings = text::texts(report.warnings@);
            ui::UIStateModel {
                compile_stage: if warnings.len() == 0 {
                    done
                } else {
                    done + " (with warnings)"@
                },
                error_message: if warnings.len() == 0 {
                    s.error_message
                } else {
                    "Export was published, but: "@ + text::join(warnings, "; "@)
                },
                dialog_compile_stages_text:
                    "1. prepare ✓\n2. denoise ✓\n3. process markers ✓\n4. normalize; write ✓"@,
                ..over
            }
        },
        ExportEnd::Cancelled => ui::UIStateModel {
            compile_stage: "Cancelled; previous export unchanged"@,
            ..over
        },
        ExportEnd::Failed(e) => ui::UIStateModel {
            compile_stage: "Error: "@ + e@,
            error_message: "Compilation failed; previous export unchanged: "@ + e@,
            ..over
        },
    }
}

fn set_ended(state: &mut UIState, stage: String, now_ms: u64)
    ensures
        final(state)@ == (ui::UIStateModel {
            compile_publishing: false,
            compile_finished_at: Some(now_ms),
            compile_stage: stage@,
            ..old(state)@
        }),
{
    state.compile_publishing = false;
    state.compile_finished_at = Some(now_ms);
    state.compile_stage = stage;
}

fn set_error(state: &mut UIState, message: String)
    ensures
        final(state)@ == (ui::UIStateModel { error_message: message@, ..old(state)@ }),
{
    state.error_message = message;
}

fn set_stages_done(state: &mut UIState)
    ensures
        final(state)@ == (ui::UIStateModel {
            dialog_compile_stages_text:
                "1. prepare ✓\n2. denoise ✓\n3. process markers ✓\n4. normalize; write ✓"@,
            ..old(state)@
        }),
{
    state.dialog_compile_stages_text =
    "1. prepare ✓\n2. denoise ✓\n3. process markers ✓\n4. normalize; write ✓".to_owned();
}

/// Shows how an export ended. The window stays open until it is closed.
pub fn end_compile_ui(state: &mut UIState, end: &ExportEnd, now_ms: u64)
    ensures
        final(state)@ == ended(old(state)@, *end, now_ms),
{
    match end {
        ExportEnd::Published(report) => {
            let done = "Done: ".to_owned().concat(report.path.as_str());
            assert(text::texts(report.warnings@).len() == report.warnings@.len());
            set_stages_done(state);
            if report.warnings.len() == 0 {
                set_ended(state, done, now_ms);
            } else {
                set_ended(state, done.concat(" (with warnings)"), now_ms);
                set_error(
                    state,
                    "Export was published, but: ".to_owned().concat(
                        text::join_texts(&report.warnings, "; ").as_str(),
                    ),
                );
            }
        },
        ExportEnd::Cancelled => set_ended(
            state,
            "Cancelled; previous export unchanged".to_owned(),
            now_ms,
        ),
        ExportEnd::Failed(e) => {
            set_ended(state, "Error: ".to_owned().concat(e.as_str()), now_ms);
            set_error(
                state,
                "Compilation failed; previous export unchanged: ".to_owned().concat(e.as_str()),
            );
        },
    }
}

/// Why an export does not begin.
#[derive(Debug)]
pub enum PreflightError {
    Format(String),
    NoRecordings,
    Missing(String),
    InsideExport(String),
    AssetInsideExport(String),
    SameFile,
    OutputExists(String),
    NotRf64,
}

/// What the contracts know of [`PreflightError`].
#[verifier::ext_equal]
pub ghost enum PreflightErrorModel {
    Format(Seq<char>),
    NoRecordings,
    Missing(Seq<char>),
    InsideExport(Seq<char>),
    AssetInsideExport(Seq<char>),
    SameFile,
    OutputExists(Seq<char>),
    NotRf64,
}

impl View for PreflightError {
    type V = PreflightErrorModel;

    open spec fn view(&self) -> PreflightErrorModel {
        match self {
            PreflightError::Format(f) => PreflightErrorModel::Format(f@),
            PreflightError::NoRecordings => PreflightErrorModel::NoRecordings,
            PreflightError::Missing(path) => PreflightErrorModel::Missing(path@),
            PreflightError::InsideExport(path) => PreflightErrorModel::InsideExport(path@),
            PreflightError::AssetInsideExport(path) => PreflightErrorModel::AssetInsideExport(path@),
            PreflightError::SameFile => PreflightErrorModel::SameFile,
            PreflightError::OutputExists(path) => PreflightErrorModel::OutputExists(path@),
            PreflightError::NotRf64 => PreflightErrorModel::NotRf64,
        }
    }
}

/// The sentence that belongs to an error.
pub open spec fn preflight_text(e: PreflightErrorModel) -> Seq<char> {
    match e {
        PreflightErrorModel::Format(f) => "Unsupported export format: "@ + f,
        PreflightErrorModel::NoRecordings => "No recordings to compile"@,
        PreflightErrorModel::Missing(path) => "Source recording is missing: "@ + text::quoted(path),
        PreflightErrorModel::InsideExport(path) => {
            "Source recording is inside the managed export directory: "@ + text::quoted(path)
        },
        PreflightErrorModel::AssetInsideExport(path) => {
            "Export input asset is inside the managed export directory: "@ + text::quoted(path)
        },
        PreflightErrorModel::SameFile => "Private input and output must differ"@,
        PreflightErrorModel::OutputExists(path) => "Staged destination already exists: "@ + path,
        PreflightErrorModel::NotRf64 => "Export must use RF64, not ordinary RIFF WAV"@,
    }
}

impl PreflightError {
    pub fn text(&self) -> (r: String)
        ensures
            r@ == preflight_text(self@),
    {
        match self {
            PreflightError::Format(f) => "Unsupported export format: ".to_owned().concat(f.as_str()),
            PreflightError::NoRecordings => "No recordings to compile".to_owned(),
            PreflightError::Missing(path) => "Source recording is missing: ".to_owned().concat(
                text::quote(path.as_str()).as_str(),
            ),
            PreflightError::InsideExport(path) => {
                "Source recording is inside the managed export directory: ".to_owned().concat(
                    text::quote(path.as_str()).as_str(),
                )
            },
            PreflightError::AssetInsideExport(path) => {
                "Export input asset is inside the managed export directory: ".to_owned().concat(
                    text::quote(path.as_str()).as_str(),
                )
            },
            PreflightError::SameFile => "Private input and output must differ".to_owned(),
            PreflightError::OutputExists(path) => {
                "Staged destination already exists: ".to_owned().concat(path.as_str())
            },
            PreflightError::NotRf64 => "Export must use RF64, not ordinary RIFF WAV".to_owned(),
        }
    }
}

/// The rate and the channels of an output, and how its files are named.
#[derive(Clone, Copy, Debug, PartialEq, Eq)]
pub struct OutputFormat {
    pub sample_rate: u32,
    pub channels: u16,
    pub mp3: bool,
}

/// The rate and the channels of an output in a format, if the format is known.
pub open spec fn output_of(format: Seq<char>, sample_rate: u32, channels: u16) -> Option<
    OutputFormat,
> {
    if format == "mp3"@ {
        Some(OutputFormat { sample_rate: 44100, channels: 2, mp3: true })
    } else if format == "wav"@ {
        Some(OutputFormat { sample_rate, channels, mp3: false })
    } else {
        None
    }
}

/// The output of an export. The compressed format has a rate and channels of its own;
/// the other one those of the first recording.
pub fn output_format(format: &str, sample_rate: u32, channels: u16) -> (r: Result<
    OutputFormat,
    PreflightError,
>)
    ensures
        match r {
            Ok(o) => if format@ == "mp3"@ {
                o == (OutputFormat { sample_rate: 44100, channels: 2, mp3: true })
            } else {
                format@ == "wav"@ && o == (OutputFormat { sample_rate, channels, mp3: false })
            },
            Err(e) => format@ != "mp3"@ && format@ != "wav"@ && e@ == PreflightErrorModel::Format(
                format@,
            ),
        },
        match r {
            Ok(o) => output_of(format@, sample_rate, channels) == Some(o),
            Err(_) => output_of(format@, sample_rate, channels) is None,
        },
{
    if text::same_text(format, "mp3") {
        Ok(OutputFormat { sample_rate: 44100, channels: 2, mp3: true })
    } else if text::same_text(format, "wav") {
        Ok(OutputFormat { sample_rate, channels, mp3: false })
    } else {
        Err(PreflightError::Format(format.to_owned()))
    }
}

/// Whether a path is the managed export directory or below it.
pub open spec fn in_export(path: Seq<char>, export_dir: Seq<char>) -> bool {
    paths::below(path, export_dir) is Some
}

fn is_in_export(path: &str, export_dir: &str) -> (r: bool)
    ensures
        r == in_export(path@, export_dir@),
{
    match paths::stored_recording_path(export_dir, path) {
        Ok(_) => true,
        Err(_) => false,
    }
}

/// Checks a recording before an export: it is there, and not in the directory that
/// the export replaces. `resolved` is its path without links, if it is a file.
pub fn check_source(path: &str, resolved: Option<&str>, export_dir: &str) -> (r: Result<
    (),
    PreflightError,
>)
    ensures
        match (r, resolved) {
            (Ok(_), Some(found)) => !in_export(found@, export_dir@),
            (Ok(_), None) => false,
            (Err(e), Some(found)) => in_export(found@, export_dir@) && e@
                == PreflightErrorModel::InsideExport(found@),
            (Err(e), None) => e@ == PreflightErrorModel::Missing(path@),
        },
{
    match resolved {
        None => Err(PreflightError::Missing(path.to_owned())),
        Some(found) => if is_in_export(found, export_dir) {
            Err(PreflightError::InsideExport(found.to_owned()))
        } else {
            Ok(())
        },
    }
}

/// Checks a cover or a sound before an export. One that is not found is no error
/// here.
pub fn check_asset(resolved: Option<&str>, export_dir: &str) -> (r: Result<(), PreflightError>)
    ensures
        match (r, resolved) {
            (Ok(_), Some(found)) => !in_export(found@, export_dir@),
            (Ok(_), None) => true,
            (Err(e), Some(found)) => in_export(found@, export_dir@) && e@
                == PreflightErrorModel::AssetInsideExport(found@),
            (Err(_), None) => false,
        },
{
    match resolved {
        None => Ok(()),
        Some(found) => if is_in_export(found, export_dir) {
            Err(PreflightError::AssetInsideExport(found.to_owned()))
        } else {
            Ok(())
        },
    }
}

/// The name of an output file: its number with at least five digits.
pub open spec fn output_name(section: nat, mp3: bool) -> Seq<char> {
    text::zero_padded(section + 1, 5) + "."@ + (if mp3 {
        "mp3"@
    } else {
        "wav"@
    })
}

/// Names an output file.
pub fn output_file_name(section: usize, mp3: bool) -> (r: String)
    ensures
        r@ == output_name(section as nat, mp3),
{
    text::padded_text(section as u128 + 1, 5).concat(".").concat(
        if mp3 {
            "mp3"
        } else {
            "wav"
        },
    )
}

/// The words for a recording of a section.
pub open spec fn recording_label(section: nat, sections: nat, local: nat, count: nat) -> Seq<char> {
    "Section "@ + text::decimal(section + 1) + "/"@ + text::decimal(sections) + " · Recording "@
        + text::decimal(local + 1) + "/"@ + text::decimal(count)
}

/// Names a recording of a section.
pub fn recording_words(section: usize, sections: usize, local: usize, count: usize) -> (r: String)
    ensures
        r@ == recording_label(section as nat, sections as nat, local as nat, count as nat),
{
    "Section ".to_owned().concat(text::decimal_text(section as u128 + 1).as_str()).concat(
        "/",
    ).concat(text::decimal_text(sections as u128).as_str()).concat(" · Recording ").concat(
        text::decimal_text(local as u128 + 1).as_str(),
    ).concat("/").concat(text::decimal_text(count as u128).as_str())
}

/// Names a step of a section.
pub fn step_words(section: usize, sections: usize, step: ExportStep) -> (r: String)
    ensures
        r@ == "Section "@ + text::decimal(section as nat + 1) + "/"@ + text::decimal(
            sections as nat,
        ) + " · "@ + step.spec_label(),
{
    "Section ".to_owned().concat(text::decimal_text(section as u128 + 1).as_str()).concat(
        "/",
    ).concat(text::decimal_text(sections as u128).as_str()).concat(" · ").concat(step.label())
}

/// Names a section that is done.
pub fn section_done_words(section: usize, sections: usize) -> (r: String)
    ensures
        r@ == "section "@ + text::decimal(section as nat + 1) + "/"@ + text::decimal(
            sections as nat,
        ) + " done"@,
{
    "section ".to_owned().concat(text::decimal_text(section as u128 + 1).as_str()).concat(
        "/",
    ).concat(text::decimal_text(sections as u128).as_str()).concat(" done")
}

/// A share of the whole export, as a fraction.
#[derive(Clone, Copy, Debug, PartialEq, Eq, Structural)]
pub struct Share {
    pub part: u128,
    pub whole: u128,
}

/// How much is done when a third of a recording is: three quarters of a section go
/// to its recordings in equal parts.
pub open spec fn recording_share_of(first: int, local: int, third: int, total: int) -> (int, int) {
    (4 * first + 3 * local + third, 4 * total)
}

/// How much is done when steps of a section are: the last quarter of a section goes
/// to its steps in equal parts.
pub open spec fn step_share_of(first: int, end: int, step: int, steps: int, total: int) -> (
    int,
    int,
) {
    ((4 * first + 3 * (end - first)) * steps + (end - first) * step, 4 * total * steps)
}

/// How much of an export is done within a recording.
pub fn recording_share(first: usize, local: usize, third: usize, total: usize) -> (r: Share)
    requires
        third <= 3,
    ensures
        (r.part as int, r.whole as int) == recording_share_of(
            first as int,
            local as int,
            third as int,
            total as int,
        ),
{
    Share {
        part: 4 * first as u128 + 3 * local as u128 + third as u128,
        whole: 4 * total as u128,
    }
}

/// How much of an export is done after steps of a section.
pub fn step_share(first: usize, end: usize, step: usize, steps: usize, total: usize) -> (r: Share)
    requires
        first <= end,
        step <= steps <= 4,
    ensures
        (r.part as int, r.whole as int) == step_share_of(
            first as int,
            end as int,
            step as int,
            steps as int,
            total as int,
        ),
{
    let count: u128 = (end - first) as u128;
    let f: u128 = first as u128;
    let n: u128 = steps as u128;
    assert((4 * f + 3 * count) * n <= 7 * u64::MAX * 4) by (nonlinear_arith)
        requires
            f <= u64::MAX,
            count <= u64::MAX,
            n <= 4,
    ;
    assert(count * step <= u64::MAX * 4) by (nonlinear_arith)
        requires
            count <= u64::MAX,
            step <= 4,
    ;
    assert(4 * total * n <= 16 * u64::MAX) by (nonlinear_arith)
        requires
            total <= u64::MAX,
            n <= 4,
    ;
    Share { part: (4 * f + 3 * count) * n + count * step as u128, whole: 4 * total as u128 * n }
}

/// The progress of an export never goes back: it grows within a recording, goes on
/// where the recording before ended, then through the steps, and a section ends where
/// the next one begins.
pub proof fn shares_never_go_back(
    first: int,
    end: int,
    local: int,
    third: int,
    step: int,
    steps: int,
    total: int,
)
    requires
        0 <= first < end <= total,
        0 <= local < end - first,
        0 <= third < 3,
        0 <= step < steps,
    ensures
        recording_share_of(first, local, third, total).0 < recording_share_of(
            first,
            local,
            third + 1,
            total,
        ).0,
        recording_share_of(first, local, 3, total) == recording_share_of(
            first,
            local + 1,
            0,
            total,
        ),
        recording_share_of(first, end - first, 0, total).0 * step_share_of(
            first,
            end,
            0,
            steps,
            total,
        ).1 == step_share_of(first, end, 0, steps, total).0 * recording_share_of(
            first,
            end - first,
            0,
            total,
        ).1,
        step_share_of(first, end, step, steps, total).0 < step_share_of(
            first,
            end,
            step + 1,
            steps,
            total,
        ).0,
        step_share_of(first, end, steps, steps, total).0 * total == end * step_share_of(
            first,
            end,
            steps,
            steps,
            total,
        ).1,
        recording_share_of(end, 0, 0, total).0 * total == end * recording_share_of(
            end,
            0,
            0,
            total,
        ).1,
{
    let c = end - first;
    let q = 4 * first + 3 * c;
    assert(q * (4 * total * steps) == (q * steps + c * 0) * (4 * total)) by (nonlinear_arith);
    assert(c * step < c * (step + 1)) by (nonlinear_arith)
        requires
            c > 0,
    ;
    assert((q * steps + c * steps) * total == end * (4 * total * steps)) by (nonlinear_arith)
        requires
            q == 4 * first + 3 * c,
            c == end - first,
    ;
    assert((4 * end + 3 * 0 + 0) * total == end * (4 * total)) by (nonlinear_arith);
}

/// Checks the paths of an output file before it is made.
pub fn check_output(temporary: &str, output: &str, output_exists: bool) -> (r: Result<
    (),
    PreflightError,
>)
    ensures
        match r {
            Ok(_) => !paths::same_path_spec(temporary@, output@) && !output_exists,
            Err(e) => if paths::same_path_spec(temporary@, output@) {
                e@ is SameFile
            } else {
                output_exists && e@ == PreflightErrorModel::OutputExists(output@)
            },
        },
{
    if paths::same_path(temporary, output) {
        Err(PreflightError::SameFile)
    } else if output_exists {
        Err(PreflightError::OutputExists(output.to_owned()))
    } else {
        Ok(())
    }
}

/// The shorter of three lengths.
pub open spec fn overlap_of(held: int, len: int, crossfade: int) -> int {
    vstd::math::min(vstd::math::min(held, len), crossfade)
}

/// How long a merge of segments is, and how much of its end can still be faded.
pub open spec fn timeline(lens: Seq<usize>, n: int, crossfade: int) -> (int, int)
    decreases n,
{
    if n <= 0 {
        (0, 0)
    } else {
        let (pos, held) = timeline(lens, n - 1, crossfade);
        let len = lens[n - 1] as int;
        let overlap = overlap_of(held, len, crossfade);
        (pos - overlap + len, vstd::math::min(crossfade, len - overlap))
    }
}

/// Where a segment begins in a merge: with the first frame that is faded in.
pub open spec fn segment_start(lens: Seq<usize>, i: int, crossfade: int) -> int {
    let (pos, held) = timeline(lens, i, crossfade);
    pos - overlap_of(held, lens[i] as int, crossfade)
}

/// The titles of the sections that a fragment starts.
pub open spec fn chapter_titles(
    names: Seq<Seq<char>>,
    known: Map<Seq<char>, project::MarkerSettingsModel>,
) -> Seq<Seq<char>>
    decreases names.len(),
{
    if names.len() == 0 {
        Seq::empty()
    } else {
        let before = chapter_titles(names.drop_last(), known);
        let name = names.last();
        if markers::is_section(known, name) && known[name].title.len() > 0 {
            before.push(known[name].title)
        } else {
            before
        }
    }
}

/// The chapters of a merge: title and place, in samples.
pub open spec fn chapters(
    files: Seq<project::ProjectFileModel>,
    known: Map<Seq<char>, project::MarkerSettingsModel>,
    lens: Seq<usize>,
    n: int,
    crossfade: int,
) -> Seq<(Seq<char>, int)>
    decreases n,
{
    if n <= 0 {
        Seq::empty()
    } else {
        chapters(files, known, lens, n - 1, crossfade) + chapter_titles(
            files[n - 1].markers,
            known,
        ).map_values(|title: Seq<char>| (title, segment_start(lens, n - 1, crossfade)))
    }
}

/// The texts of a list of chapters.
pub open spec fn chapter_models(v: Seq<(String, u64)>) -> Seq<(Seq<char>, int)> {
    v.map_values(|c: (String, u64)| (c.0@, c.1 as int))
}

/// What is held is part of the merge.
pub proof fn held_is_part(lens: Seq<usize>, n: int, crossfade: int)
    requires
        0 <= n <= lens.len(),
        0 <= crossfade,
    ensures
        0 <= timeline(lens, n, crossfade).1 <= timeline(lens, n, crossfade).0,
        timeline(lens, n, crossfade).1 <= crossfade,
    decreases n,
{
    if n > 0 {
        held_is_part(lens, n - 1, crossfade);
    }
}

fn push_titles(
    file: &ProjectFile,
    known: &MarkerMap,
    position: u64,
    out: &mut Vec<(String, u64)>,
)
    ensures
        chapter_models(final(out)@) == chapter_models(old(out)@) + chapter_titles(
            file@.markers,
            known@,
        ).map_values(|title: Seq<char>| (title, position as int)),
{
    let ghost start = chapter_models(out@);
    let ghost names = file@.markers;
    let ghost placed = |title: Seq<char>| (title, position as int);
    let mut k: usize = 0;
    proof {
        assert(names.take(0) =~= Seq::empty());
        assert(start + Seq::<Seq<char>>::empty().map_values(placed) =~= start);
    }
    while k < file.markers.len()
        invariant
            k <= file.markers.len(),
            names == file@.markers,
            placed == (|title: Seq<char>| (title, position as int)),
            chapter_models(out@) == start + chapter_titles(
                names.take(k as int),
                known@,
            ).map_values(placed),
        decreases file.markers.len() - k,
    {
        let ghost before = chapter_models(out@);
        let ghost titles = chapter_titles(names.take(k as int), known@);
        proof {
            assert(names.take(k + 1).drop_last() =~= names.take(k as int));
            assert(names.take(k + 1).last() == file.markers@[k as int]@);
        }
        if let Some(settings) = known.get(file.markers[k].as_str()) {
            if settings.section && !settings.title.as_str().is_empty() {
                let title = settings.title.clone();
                let ghost t = title@;
                out.push((title, position));
                proof {
                    assert(chapter_models(out@) =~= before.push((t, position as int)));
                    assert(titles.push(t).map_values(placed) =~= titles.map_values(placed).push(
                        (t, position as int),
                    ));
                    assert(start + titles.map_values(placed).push((t, position as int)) =~= (start
                        + titles.map_values(placed)).push((t, position as int)));
                }
            }
        }
        k = k + 1;
    }
    assert(names.take(k as int) =~= names);
}

/// Finds the chapters of a merge of segments. A book whose length cannot be counted
/// has none.
pub fn chapter_marks(
    files: &[ProjectFile],
    known: &MarkerMap,
    lens: &Vec<usize>,
    crossfade_samples: usize,
    channels: u16,
) -> (r: Option<Vec<(String, u64)>>)
    requires
        channels > 0,
        lens@.len() == files@.len(),
    ensures
        ({
            let crossfade = crossfade_samples as int / channels as int * channels as int;
            let n = lens@.len() as int;
            match r {
                Some(marks) => chapter_models(marks@) == chapters(
                    project::file_models(files@),
                    known@,
                    lens@,
                    n,
                    crossfade,
                ),
                None => exists|i: int|
                    0 <= i <= n && (#[trigger] timeline(lens@, i, crossfade)).0 > u64::MAX,
            }
        }),
{
    let ghost all = project::file_models(files@);
    let width: usize = channels as usize;
    proof {
        vstd::arithmetic::div_mod::lemma_fundamental_div_mod(
            crossfade_samples as int,
            width as int,
        );
        assert(crossfade_samples as int / width as int * width as int <= crossfade_samples)
            by (nonlinear_arith)
            requires
                crossfade_samples as int == width as int * (crossfade_samples as int
                    / width as int) + crossfade_samples as int % width as int,
                crossfade_samples as int % width as int >= 0,
        ;
        assert(crossfade_samples as int / width as int * width as int >= 0) by (nonlinear_arith)
            requires
                width > 0,
        ;
    }
    let crossfade: u64 = (crossfade_samples / width * width) as u64;
    let ghost fade = crossfade_samples as int / channels as int * channels as int;
    assert(crossfade == fade);
    let total: usize = files.len();
    let mut out: Vec<(String, u64)> = Vec::new();
    let mut pos: u64 = 0;
    let mut held: u64 = 0;
    let mut i: usize = 0;
    assert(chapter_models(out@) =~= Seq::empty());
    while i < total
        invariant
            i <= total == files@.len(),
            total == lens@.len(),
            all == project::file_models(files@),
            crossfade == fade,
            fade == crossfade_samples as int / channels as int * channels as int,
            (pos as int, held as int) == timeline(lens@, i as int, fade),
            chapter_models(out@) == chapters(all, known@, lens@, i as int, fade),
        decreases total - i,
    {
        proof {
            held_is_part(lens@, i as int, fade);
            assert(all[i as int] == files@[i as int]@);
        }
        let len: u64 = lens[i] as u64;
        let mut overlap: u64 = if held < len {
            held
        } else {
            len
        };
        if crossfade < overlap {
            overlap = crossfade;
        }
        let start: u64 = pos - overlap;
        assert(start == segment_start(lens@, i as int, fade));
        push_titles(&files[i], known, start, &mut out);
        match start.checked_add(len) {
            Some(next) => {
                pos = next;
            },
            None => {
                assert(timeline(lens@, i + 1, fade).0 > u64::MAX);
                return None;
            },
        }
        held = if crossfade < len - overlap {
            crossfade
        } else {
            len - overlap
        };
        i = i + 1;
    }
    Some(out)
}

/// Whether one place in a list of lists comes before another.
pub open spec fn comes_before(a: (int, int), b: (int, int)) -> bool {
    a.0 < b.0 || (a.0 == b.0 && a.1 < b.1)
}

/// Every chapter comes from a marker that starts a section: `from` names the fragment and
/// the marker of each. The marker is known, starts a section and has the title, and the
/// chapter begins where the segment of that fragment begins. The chapters come in the order
/// of these markers, and each marker with a title that starts a section has its chapter.
pub proof fn chapters_come_from_sections(
    files: Seq<project::ProjectFileModel>,
    known: Map<Seq<char>, project::MarkerSettingsModel>,
    lens: Seq<usize>,
    n: int,
    crossfade: int,
) -> (from: Seq<(int, int)>)
    requires
        0 <= n <= files.len(),
    ensures
        from.len() == chapters(files, known, lens, n, crossfade).len(),
        forall|m: int|
            #![trigger from[m]]
            0 <= m < from.len() ==> {
                let (i, j) = from[m];
                let name = files[i].markers[j];
                let (title, place) = chapters(files, known, lens, n, crossfade)[m];
                &&& 0 <= i < n
                &&& 0 <= j < files[i].markers.len()
                &&& known.dom().contains(name)
                &&& known[name].section == true
                &&& known[name].title.len() > 0
                &&& title == known[name].title
                &&& place == segment_start(lens, i, crossfade)
            },
        forall|a: int, b: int|
            #![trigger from[a], from[b]]
            0 <= a < b < from.len() ==> comes_before(from[a], from[b]),
        forall|i: int, j: int|
            #![trigger files[i].markers[j]]
            0 <= i < n && 0 <= j < files[i].markers.len() && known.dom().contains(
                files[i].markers[j],
            ) && known[files[i].markers[j]].section == true
                && known[files[i].markers[j]].title.len() > 0 ==> from.contains((i, j)),
    decreases n,
{
    if n == 0 {
        Seq::empty()
    } else {
        let before = chapters_come_from_sections(files, known, lens, n - 1, crossfade);
        let own = titles_come_from_sections(files[n - 1].markers, known);
        let here = Seq::new(own.len(), |k: int| (n - 1, own[k]));
        let from = before + here;
        let placed = |title: Seq<char>| (title, segment_start(lens, n - 1, crossfade));
        let titles = chapter_titles(files[n - 1].markers, known);
        assert(chapters(files, known, lens, n, crossfade) == chapters(
            files,
            known,
            lens,
            n - 1,
            crossfade,
        ) + titles.map_values(placed));
        assert forall|m: int| #![trigger from[m]] 0 <= m < from.len() implies {
            let (i, j) = from[m];
            let name = files[i].markers[j];
            let (title, place) = chapters(files, known, lens, n, crossfade)[m];
            &&& 0 <= i < n
            &&& 0 <= j < files[i].markers.len()
            &&& known.dom().contains(name)
            &&& known[name].section == true
            &&& known[name].title.len() > 0
            &&& title == known[name].title
            &&& place == segment_start(lens, i, crossfade)
        } by {
            if m < before.len() {
                assert(from[m] == before[m]);
            } else {
                let k = m - before.len();
                assert(from[m] == (n - 1, own[k]));
                assert(titles.map_values(placed)[k] == placed(titles[k]));
            }
        }
        assert forall|i: int, j: int|
            #![trigger files[i].markers[j]]
            0 <= i < n && 0 <= j < files[i].markers.len() && known.dom().contains(
                files[i].markers[j],
            ) && known[files[i].markers[j]].section == true
                && known[files[i].markers[j]].title.len() > 0 implies from.contains((i, j)) by {
            if i < n - 1 {
                let m = before.index_of((i, j));
                assert(before.contains((i, j)));
                assert(from[m] == (i, j));
            } else {
                let k = own.index_of(j);
                assert(own.contains(j));
                assert(from[before.len() + k] == here[k]);
            }
        }
        from
    }
}

proof fn titles_come_from_sections(
    names: Seq<Seq<char>>,
    known: Map<Seq<char>, project::MarkerSettingsModel>,
) -> (from: Seq<int>)
    ensures
        from.len() == chapter_titles(names, known).len(),
        forall|k: int|
            #![trigger from[k]]
            0 <= k < from.len() ==> {
                let name = names[from[k]];
                &&& 0 <= from[k] < names.len()
                &&& known.dom().contains(name)
                &&& known[name].section == true
                &&& known[name].title.len() > 0
                &&& chapter_titles(names, known)[k] == known[name].title
            },
        forall|a: int, b: int|
            #![trigger from[a], from[b]]
            0 <= a < b < from.len() ==> from[a] < from[b],
        forall|j: int|
            #![trigger names[j]]
            0 <= j < names.len() && known.dom().contains(names[j]) && known[names[j]].section
                == true && known[names[j]].title.len() > 0 ==> from.contains(j),
    decreases names.len(),
{
    if names.len() == 0 {
        Seq::empty()
    } else {
        let front = names.drop_last();
        let name = names.last();
        let before = titles_come_from_sections(front, known);
        let last = names.len() - 1;
        assert forall|k: int| #![trigger before[k]] 0 <= k < before.len() implies names[before[k]]
            == front[before[k]] by {}
        if known.dom().contains(name) && known[name].section && known[name].title.len() > 0 {
            let from = before.push(last);
            assert forall|j: int|
                #![trigger names[j]]
                0 <= j < names.len() && known.dom().contains(names[j]) && known[names[j]].section
                    == true && known[names[j]].title.len() > 0 implies from.contains(j) by {
                if j < last {
                    assert(front[j] == names[j]);
                    assert(before.contains(j));
                    assert(from[before.index_of(j)] == j);
                } else {
                    assert(from[before.len() as int] == j);
                }
            }
            from
        } else {
            assert forall|j: int|
                #![trigger names[j]]
                0 <= j < names.len() && known.dom().contains(names[j]) && known[names[j]].section
                    == true && known[names[j]].title.len() > 0 implies before.contains(j) by {
                assert(front[j] == names[j]);
            }
            before
        }
    }
}

/// A fragment that starts no section adds no chapter.
pub proof fn plain_fragments_add_no_chapter(
    files: Seq<project::ProjectFileModel>,
    known: Map<Seq<char>, project::MarkerSettingsModel>,
    lens: Seq<usize>,
    n: int,
    crossfade: int,
)
    requires
        0 <= n < files.len(),
        forall|j: int|
            #![trigger files[n].markers[j]]
            0 <= j < files[n].markers.len() && known.dom().contains(files[n].markers[j])
                ==> known[files[n].markers[j]].section == false,
    ensures
        chapters(files, known, lens, n + 1, crossfade) == chapters(
            files,
            known,
            lens,
            n,
            crossfade,
        ),
{
    let own = titles_come_from_sections(files[n].markers, known);
    if own.len() > 0 {
        assert(known[files[n].markers[own[0]]].section);
    }
    assert(chapter_titles(files[n].markers, known).len() == 0);
    assert(chapters(files, known, lens, n + 1, crossfade) =~= chapters(
        files,
        known,
        lens,
        n,
        crossfade,
    ));
}

/// The first segment begins a merge. Each other one begins where the one before it ends, or
/// earlier by no more than the length of a fade; where both are long enough, by exactly
/// that length.
pub proof fn segments_follow_one_another(lens: Seq<usize>, i: int, crossfade: int)
    requires
        0 <= i,
        i + 1 < lens.len(),
        0 <= crossfade,
    ensures
        segment_start(lens, 0, crossfade) == 0,
        segment_start(lens, i + 1, crossfade) <= segment_start(lens, i, crossfade) + lens[i],
        segment_start(lens, i + 1, crossfade) >= segment_start(lens, i, crossfade) + lens[i]
            - crossfade,
        segment_start(lens, i + 1, crossfade) >= segment_start(lens, i, crossfade),
        lens[i] >= 2 * crossfade && lens[i + 1] >= crossfade ==> segment_start(
            lens,
            i + 1,
            crossfade,
        ) == segment_start(lens, i, crossfade) + lens[i] - crossfade,
{
    held_is_part(lens, i, crossfade);
    held_is_part(lens, i + 1, crossfade);
    reveal_with_fuel(timeline, 2);
}

/// An export as WAV keeps the rate and the channels of the first recording; one as MP3 has
/// two channels and 44100 frames a second, whatever the recordings have. There is no other
/// format.
pub proof fn exports_have_two_formats(format: Seq<char>, sample_rate: u32, channels: u16)
    ensures
        ({
            let o = output_of(format, sample_rate, channels);
            &&& o is Some <==> format == "wav"@ || format == "mp3"@
            &&& format == "wav"@ ==> o->0.sample_rate == sample_rate && o->0.channels == channels
                && !o->0.mp3
            &&& format == "mp3"@ ==> o->0.sample_rate == 44100 && o->0.channels == 2 && o->0.mp3
        }),
{
    reveal_strlit("wav");
    reveal_strlit("mp3");
    assert("wav"@[0] != "mp3"@[0]);
}

} // verus!
