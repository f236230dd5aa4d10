//! The course of an export: what is done for every section, in which order, and how
//! its steps are reported.
use crate::project::compile_progress;
use crate::project::compile_progress::{
    CompileProgress, Operation, ProgressError, ProgressUnit, Report, Shown,
};
use crate::project::compiler;
use crate::project::compiler::{step_words, ExportStep};
use crate::ui::ui;
use crate::ui::ui::UIState;
use crate::utils::text;
use vstd::prelude::*;

verus! {

/// One thing to do in an export.
#[derive(Clone, Copy, Debug, PartialEq, Eq, Structural)]
pub enum ExportTask {
    /// Stops the export if it was cancelled.
    CheckCancel,
    /// Begins the merge of a section.
    Open { section: usize },
    /// Shows a stage of a recording, and how many thirds of it are done.
    Show { section: usize, file: usize, stage: u32, third: usize },
    /// Reads a recording, removes its noise if asked to, and brings it to the format
    /// of the output.
    Prepare { file: usize },
    /// Adds the sounds of the markers of a recording.
    Mix { file: usize },
    /// Puts a recording behind the merge of its section.
    Merge { section: usize, file: usize },
    /// Ends the merge of a section.
    Close { section: usize },
    /// Gives the model that removes noise up; no recording follows.
    ReleaseModel,
    /// Makes sure that the output is a new file.
    CheckOutput { section: usize },
    /// Performs a step of the output.
    Perform { section: usize, step: ExportStep },
    /// Reports that the tags are being written. How long that takes is not known.
    ReportTags { section: usize },
    /// Removes the merge of a section that was encoded.
    RemoveMerge { section: usize },
    /// Turns the merge of a section into its output.
    Stage { section: usize },
    /// Ends the report of the last step.
    Settle { section: usize },
    /// Makes sure that the output can be read.
    Inspect { section: usize },
    /// Shows that a section is done.
    Announce { section: usize },
    /// Puts the new outputs in the place of the old ones.
    Publish,
}

/// What is done for a recording.
pub open spec fn recording_tasks(section: usize, file: usize) -> Seq<ExportTask> {
    seq![
        ExportTask::Show { section, file, stage: 1, third: 0 },
        ExportTask::CheckCancel,
        ExportTask::Prepare { file },
        ExportTask::Show { section, file, stage: 2, third: 1 },
        ExportTask::CheckCancel,
        ExportTask::Mix { file },
        ExportTask::CheckCancel,
        ExportTask::Merge { section, file },
    ]
}

/// What is done for recordings, one after another.
pub open spec fn recordings_tasks(section: usize, first: int, count: int) -> Seq<ExportTask>
    decreases count,
{
    if count <= 0 {
        Seq::empty()
    } else {
        recordings_tasks(section, first, count - 1) + recording_tasks(
            section,
            (first + count - 1) as usize,
        )
    }
}

/// What makes an output out of the merge of a section.
pub open spec fn output_tasks(section: usize, last: bool, mp3: bool, normalize: bool) -> Seq<
    ExportTask,
> {
    let released = if last {
        seq![ExportTask::ReleaseModel]
    } else {
        Seq::empty()
    };
    let levelled = if normalize {
        seq![
            ExportTask::Perform { section, step: ExportStep::Analyze },
            ExportTask::Perform { section, step: ExportStep::Normalize },
        ]
    } else {
        Seq::empty()
    };
    let stored = if mp3 {
        seq![
            ExportTask::Perform { section, step: ExportStep::Encode },
            ExportTask::RemoveMerge { section },
            ExportTask::ReportTags { section },
        ]
    } else {
        seq![ExportTask::ReportTags { section }, ExportTask::Stage { section }]
    };
    let inspected = if mp3 {
        Seq::empty()
    } else {
        seq![ExportTask::Inspect { section }]
    };
    seq![ExportTask::Close { section }] + released + seq![ExportTask::CheckOutput { section }]
        + levelled + stored + seq![
        ExportTask::ReportTags { section },
        ExportTask::Perform { section, step: ExportStep::Metadata },
        ExportTask::ReportTags { section },
        ExportTask::Settle { section },
        ExportTask::CheckCancel,
    ] + inspected + seq![ExportTask::Announce { section }]
}

/// What is done for a section.
pub open spec fn section_tasks(
    section: usize,
    range: (usize, usize),
    last: bool,
    mp3: bool,
    normalize: bool,
) -> Seq<ExportTask> {
    seq![ExportTask::CheckCancel, ExportTask::Open { section }] + recordings_tasks(
        section,
        range.0 as int,
        range.1 - range.0,
    ) + output_tasks(section, last, mp3, normalize)
}

/// What is done for the first sections.
pub open spec fn sections_tasks(
    ranges: Seq<(usize, usize)>,
    k: int,
    mp3: bool,
    normalize: bool,
) -> Seq<ExportTask>
    decreases k,
{
    if k <= 0 {
        Seq::empty()
    } else {
        sections_tasks(ranges, k - 1, mp3, normalize) + section_tasks(
            (k - 1) as usize,
            ranges[k - 1],
            k == ranges.len(),
            mp3,
            normalize,
        )
    }
}

/// The whole course of an export.
pub open spec fn export_course(ranges: Seq<(usize, usize)>, mp3: bool, normalize: bool) -> Seq<
    ExportTask,
> {
    sections_tasks(ranges, ranges.len() as int, mp3, normalize) + seq![
        ExportTask::CheckCancel,
        ExportTask::Publish,
    ]
}

fn push_recording(tasks: &mut Vec<ExportTask>, section: usize, file: usize)
    ensures
        final(tasks)@ == old(tasks)@ + recording_tasks(section, file),
{
    tasks.push(ExportTask::Show { section, file, stage: 1, third: 0 });
    tasks.push(ExportTask::CheckCancel);
    tasks.push(ExportTask::Prepare { file });
    tasks.push(ExportTask::Show { section, file, stage: 2, third: 1 });
    tasks.push(ExportTask::CheckCancel);
    tasks.push(ExportTask::Mix { file });
    tasks.push(ExportTask::CheckCancel);
    tasks.push(ExportTask::Merge { section, file });
    assert(tasks@ =~= old(tasks)@ + recording_tasks(section, file));
}

fn push_output(tasks: &mut Vec<ExportTask>, section: usize, last: bool, mp3: bool, normalize: bool)
    ensures
        final(tasks)@ == old(tasks)@ + output_tasks(section, last, mp3, normalize),
{
    tasks.push(ExportTask::Close { section });
    if last {
        tasks.push(ExportTask::ReleaseModel);
    }
    tasks.push(ExportTask::CheckOutput { section });
    if normalize {
        tasks.push(ExportTask::Perform { section, step: ExportStep::Analyze });
        tasks.push(ExportTask::Perform { section, step: ExportStep::Normalize });
    }
    if mp3 {
        tasks.push(ExportTask::Perform { section, step: ExportStep::Encode });
        tasks.push(ExportTask::RemoveMerge { section });
        tasks.push(ExportTask::ReportTags { section });
    } else {
        tasks.push(ExportTask::ReportTags { section });
        tasks.push(ExportTask::Stage { section });
    }
    tasks.push(ExportTask::ReportTags { section });
    tasks.push(ExportTask::Perform { section, step: ExportStep::Metadata });
    tasks.push(ExportTask::ReportTags { section });
    tasks.push(ExportTask::Settle { section });
    tasks.push(ExportTask::CheckCancel);
    if !mp3 {
        tasks.push(ExportTask::Inspect { section });
    }
    tasks.push(ExportTask::Announce { section });
    assert(tasks@ =~= old(tasks)@ + output_tasks(section, last, mp3, normalize));
}

fn push_section(
    tasks: &mut Vec<ExportTask>,
    section: usize,
    range: (usize, usize),
    last: bool,
    mp3: bool,
    normalize: bool,
)
    ensures
        final(tasks)@ == old(tasks)@ + section_tasks(section, range, last, mp3, normalize),
{
    let (first, end) = range;
    tasks.push(ExportTask::CheckCancel);
    tasks.push(ExportTask::Open { section });
    let ghost opened = tasks@;
    let mut file: usize = first;
    assert(opened + recordings_tasks(section, first as int, 0) =~= opened);
    while file < end
        invariant
            first <= file,
            file <= end || file == first,
            tasks@ == opened + recordings_tasks(section, first as int, file - first),
        decreases end - file,
    {
        let ghost before = recordings_tasks(section, first as int, file - first);
        push_recording(tasks, section, file);
        assert(tasks@ =~= opened + (before + recording_tasks(section, file)));
        file = file + 1;
    }
    let ghost merged = tasks@;
    proof {
        let count = end as int - first as int;
        if count <= 0 {
            assert(recordings_tasks(section, first as int, count) =~= recordings_tasks(
                section,
                first as int,
                0,
            ));
        }
        assert(merged == opened + recordings_tasks(section, first as int, count));
    }
    push_output(tasks, section, last, mp3, normalize);
    assert(tasks@ =~= old(tasks)@ + section_tasks(section, range, last, mp3, normalize));
}

/// Plans an export: every section in turn, then the publication.
pub fn plan_export(ranges: &[(usize, usize)], mp3: bool, normalize: bool) -> (r: Vec<ExportTask>)
    ensures
        r@ == export_course(ranges@, mp3, normalize),
{
    let total: usize = ranges.len();
    let mut tasks: Vec<ExportTask> = Vec::new();
    let mut k: usize = 0;
    assert(tasks@ =~= sections_tasks(ranges@, 0, mp3, normalize));
    while k < total
        invariant
            k <= total == ranges@.len(),
            tasks@ == sections_tasks(ranges@, k as int, mp3, normalize),
        decreases total - k,
    {
        push_section(&mut tasks, k, ranges[k], k + 1 == total, mp3, normalize);
        k = k + 1;
    }
    let ghost done = tasks@;
    tasks.push(ExportTask::CheckCancel);
    tasks.push(ExportTask::Publish);
    assert(tasks@ =~= done + seq![ExportTask::CheckCancel, ExportTask::Publish]);
    tasks
}

/// The recordings that tasks merge, in their order.
pub open spec fn merged_files(tasks: Seq<ExportTask>) -> Seq<usize>
    decreases tasks.len(),
{
    if tasks.len() == 0 {
        Seq::empty()
    } else {
        let before = merged_files(tasks.drop_last());
        match tasks.last() {
            ExportTask::Merge { file, .. } => before.push(file),
            _ => before,
        }
    }
}

proof fn merged_in_both(a: Seq<ExportTask>, b: Seq<ExportTask>)
    ensures
        merged_files(a + b) == merged_files(a) + merged_files(b),
    decreases b.len(),
{
    if b.len() == 0 {
        assert(a + b =~= a);
        assert(merged_files(a) + merged_files(b) =~= merged_files(a));
    } else {
        merged_in_both(a, b.drop_last());
        assert((a + b).drop_last() =~= a + b.drop_last());
        assert((a + b).last() == b.last());
        assert(merged_files(a + b) =~= merged_files(a) + merged_files(b));
    }
}

proof fn merges_nothing(tasks: Seq<ExportTask>)
    requires
        forall|i: int| 0 <= i < tasks.len() ==> !(#[trigger] tasks[i] is Merge),
    ensures
        merged_files(tasks) == Seq::<usize>::empty(),
    decreases tasks.len(),
{
    if tasks.len() > 0 {
        assert(!(tasks[tasks.len() - 1] is Merge));
        assert forall|i: int| 0 <= i < tasks.drop_last().len() implies !(
        #[trigger] tasks.drop_last()[i] is Merge) by {
            assert(!(tasks[i] is Merge));
        }
        merges_nothing(tasks.drop_last());
    }
}

proof fn recordings_are_merged(section: usize, first: int, count: int)
    requires
        0 <= first,
        0 <= count,
        first + count <= usize::MAX,
    ensures
        merged_files(recordings_tasks(section, first, count)) == Seq::new(
            count as nat,
            |i: int| (first + i) as usize,
        ),
    decreases count,
{
    if count > 0 {
        recordings_are_merged(section, first, count - 1);
        let file = (first + count - 1) as usize;
        let tasks = recording_tasks(section, file);
        merged_in_both(recordings_tasks(section, first, count - 1), tasks);
        merges_nothing(tasks.drop_last());
        assert(merged_files(tasks) =~= seq![file]);
    }
    assert(merged_files(recordings_tasks(section, first, count)) =~= Seq::new(
        count as nat,
        |i: int| (first + i) as usize,
    ));
}

proof fn section_is_merged(
    section: usize,
    range: (usize, usize),
    last: bool,
    mp3: bool,
    normalize: bool,
)
    requires
        range.0 <= range.1,
    ensures
        merged_files(section_tasks(section, range, last, mp3, normalize)) == Seq::new(
            (range.1 - range.0) as nat,
            |i: int| (range.0 + i) as usize,
        ),
{
    let opening = seq![ExportTask::CheckCancel, ExportTask::Open { section }];
    let middle = recordings_tasks(section, range.0 as int, range.1 - range.0);
    let ending = output_tasks(section, last, mp3, normalize);
    merges_nothing(opening);
    merges_nothing(ending);
    recordings_are_merged(section, range.0 as int, range.1 - range.0);
    merged_in_both(opening, middle);
    merged_in_both(opening + middle, ending);
    assert(merged_files(section_tasks(section, range, last, mp3, normalize)) =~= Seq::new(
        (range.1 - range.0) as nat,
        |i: int| (range.0 + i) as usize,
    ));
}

proof fn sections_are_merged(
    n: int,
    ranges: Seq<(usize, usize)>,
    k: int,
    mp3: bool,
    normalize: bool,
)
    requires
        compiler::covers(n, ranges),
        0 <= k <= ranges.len(),
    ensures
        ({
            let done = if k == 0 {
                0
            } else {
                ranges[k - 1].1 as int
            };
            merged_files(sections_tasks(ranges, k, mp3, normalize)) == Seq::new(
                done as nat,
                |i: int| i as usize,
            )
        }),
    decreases k,
{
    if k > 0 {
        sections_are_merged(n, ranges, k - 1, mp3, normalize);
        let range = ranges[k - 1];
        assert(range.0 < range.1);
        if k > 1 {
            assert(ranges[k - 2].1 == ranges[k - 1].0);
        }
        section_is_merged((k - 1) as usize, range, k == ranges.len(), mp3, normalize);
        merged_in_both(
            sections_tasks(ranges, k - 1, mp3, normalize),
            section_tasks((k - 1) as usize, range, k == ranges.len(), mp3, normalize),
        );
        assert(merged_files(sections_tasks(ranges, k, mp3, normalize)) =~= Seq::new(
            range.1 as nat,
            |i: int| i as usize,
        ));
    } else {
        assert(Seq::new(0, |i: int| i as usize) =~= Seq::<usize>::empty());
    }
}

/// An export merges every recording of the book exactly once, in the order of the
/// book, whether or not the book is split.
pub proof fn every_recording_is_merged_once(
    n: int,
    ranges: Seq<(usize, usize)>,
    mp3: bool,
    normalize: bool,
)
    requires
        compiler::covers(n, ranges),
    ensures
        merged_files(export_course(ranges, mp3, normalize)) == Seq::new(
            n as nat,
            |i: int| i as usize,
        ),
{
    let tail = seq![ExportTask::CheckCancel, ExportTask::Publish];
    let head = sections_tasks(ranges, ranges.len() as int, mp3, normalize);
    sections_are_merged(n, ranges, ranges.len() as int, mp3, normalize);
    merged_in_both(head, tail);
    merges_nothing(tail);
    assert(merged_files(export_course(ranges, mp3, normalize)) =~= Seq::new(
        n as nat,
        |i: int| i as usize,
    ));
}

proof fn sections_do_not_publish(
    ranges: Seq<(usize, usize)>,
    k: int,
    mp3: bool,
    normalize: bool,
    i: int,
)
    requires
        0 <= k <= ranges.len(),
        0 <= i < sections_tasks(ranges, k, mp3, normalize).len(),
    ensures
        !(sections_tasks(ranges, k, mp3, normalize)[i] is Publish),
    decreases k,
{
    if k > 0 {
        let before = sections_tasks(ranges, k - 1, mp3, normalize);
        let range = ranges[k - 1];
        let count = range.1 - range.0;
        if i < before.len() {
            sections_do_not_publish(ranges, k - 1, mp3, normalize, i);
        } else {
            let at = i - before.len() - 2;
            let middle = recordings_tasks((k - 1) as usize, range.0 as int, count);
            if 0 <= at < middle.len() {
                recordings_do_not_publish((k - 1) as usize, range.0 as int, count, at);
            }
        }
    }
}

proof fn recordings_do_not_publish(section: usize, first: int, count: int, i: int)
    requires
        0 <= i < recordings_tasks(section, first, count).len(),
    ensures
        !(recordings_tasks(section, first, count)[i] is Publish),
    decreases count,
{
    if count > 0 {
        let before = recordings_tasks(section, first, count - 1);
        if i < before.len() {
            recordings_do_not_publish(section, first, count - 1, i);
        }
    }
}

/// Nothing is published before everything else was done: the old export stays as it
/// is until the last task.
pub proof fn publication_comes_last(ranges: Seq<(usize, usize)>, mp3: bool, normalize: bool)
    ensures
        ({
            let course = export_course(ranges, mp3, normalize);
            &&& course.last() is Publish
            &&& forall|i: int|
                0 <= i < course.len() - 1 ==> !(#[trigger] course[i] is Publish)
        }),
{
    let course = export_course(ranges, mp3, normalize);
    let head = sections_tasks(ranges, ranges.len() as int, mp3, normalize);
    assert forall|i: int| 0 <= i < course.len() - 1 implies !(#[trigger] course[i] is Publish) by {
        if i < head.len() {
            sections_do_not_publish(ranges, ranges.len() as int, mp3, normalize, i);
        }
    }
}

/// The place of a step among the steps of an output.
pub open spec fn step_place(mp3: bool, normalize: bool, step: ExportStep) -> Option<int> {
    let levelled = if normalize {
        2int
    } else {
        0
    };
    match step {
        ExportStep::Analyze => if normalize {
            Some(0)
        } else {
            None
        },
        ExportStep::Normalize => if normalize {
            Some(1)
        } else {
            None
        },
        ExportStep::Encode => if mp3 {
            Some(levelled)
        } else {
            None
        },
        ExportStep::Metadata => if mp3 {
            Some(levelled + 1)
        } else {
            Some(levelled)
        },
    }
}

/// The place of a step is where the list of steps has it; a step without a place is
/// not in the list.
pub proof fn step_places_are_in_the_list(format: Seq<char>, normalize: bool, step: ExportStep)
    ensures
        ({
            let steps = compiler::steps_of(format, normalize);
            match step_place(format == "mp3"@, normalize, step) {
                Some(i) => 0 <= i < steps.len() && steps[i] == step,
                None => !steps.contains(step),
            }
        }),
{
}

/// Why a report of a step is refused.
#[derive(Clone, Copy, Debug, PartialEq, Eq, Structural)]
pub enum StepError {
    Progress(ProgressError),
    /// The output has no such step.
    Unexpected,
}

impl StepError {
    /// The sentence that belongs to an error.
    pub open spec fn spec_text(&self) -> Seq<char> {
        match self {
            StepError::Progress(e) => e.spec_text(),
            StepError::Unexpected => "Unexpected export step"@,
        }
    }

    pub fn message(&self) -> (r: &'static str)
        ensures
            r@ == self.spec_text(),
    {
        match self {
            StepError::Progress(e) => e.message(),
            StepError::Unexpected => "Unexpected export step",
        }
    }
}

/// The progress of the steps of a section. Only one step is reported at a time.
#[derive(Debug)]
pub struct SectionProgress {
    section: usize,
    sections: usize,
    mp3: bool,
    normalize: bool,
    sample_rate: u32,
    channels: u16,
    active: Option<(ExportStep, CompileProgress)>,
}

/// What the contracts know of [`SectionProgress`].
#[verifier::ext_equal]
pub ghost struct SectionProgressModel {
    pub section: usize,
    pub sections: usize,
    pub mp3: bool,
    pub normalize: bool,
    pub sample_rate: u32,
    pub channels: u16,
    pub active: Option<(ExportStep, compile_progress::ProgressModel)>,
}

impl View for SectionProgress {
    type V = SectionProgressModel;

    closed spec fn view(&self) -> SectionProgressModel {
        SectionProgressModel {
            section: self.section,
            sections: self.sections,
            mp3: self.mp3,
            normalize: self.normalize,
            sample_rate: self.sample_rate,
            channels: self.channels,
            active: match self.active {
                Some((step, progress)) => Some((step, progress@)),
                None => None,
            },
        }
    }
}

/// A step that was not reported yet. Tags are counted in bytes, sound in samples.
pub open spec fn fresh_step(
    m: SectionProgressModel,
    step: ExportStep,
    now_ms: u64,
) -> compile_progress::ProgressModel {
    compile_progress::ProgressModel {
        label: "Section "@ + text::decimal(m.section as nat + 1) + "/"@ + text::decimal(
            m.sections as nat,
        ) + " · "@ + step.spec_label(),
        range_ok: true,
        unit: if step == ExportStep::Metadata {
            ProgressUnit::Bytes
        } else {
            ProgressUnit::Audio { sample_rate: m.sample_rate, channels: m.channels }
        },
        started: now_ms,
        last_update: None,
        last_displayed_total: None,
        displayed_complete: false,
        last_report: (0, 0),
    }
}

/// What is shown of a step: its place among the steps, and the report.
pub open spec fn shown_at(m: SectionProgressModel, step: ExportStep, shown: Option<Shown>) -> Seq<
    (usize, Shown),
> {
    match (shown, step_place(m.mp3, m.normalize, step)) {
        (Some(shown), Some(i)) => seq![(i as usize, shown)],
        _ => Seq::empty(),
    }
}

/// What the end of the step that is reported does. Without such a step it is nothing.
pub open spec fn after_settle(
    m: SectionProgressModel,
    s: ui::UIStateModel,
    cancelled: bool,
    cancelled_since: bool,
    now_ms: u64,
) -> (SectionProgressModel, ui::UIStateModel, Result<Seq<(usize, Shown)>, StepError>) {
    match m.active {
        None => (m, s, Ok(Seq::empty())),
        Some((step, p)) => {
            let total = p.last_report.1;
            let (p2, s2, shown) = compile_progress::after_report(
                p,
                s,
                Report { done: total, total, finished: true, cancelled, cancelled_since, now_ms },
            );
            let m2 = SectionProgressModel { active: Some((step, p2)), ..m };
            match shown {
                Ok(shown) => (m2, s2, Ok(shown_at(m, step, shown))),
                Err(e) => (m2, s2, Err(StepError::Progress(e))),
            }
        },
    }
}

/// What a report of the step that is reported already does.
pub open spec fn after_same_step(
    m: SectionProgressModel,
    s: ui::UIStateModel,
    step: ExportStep,
    p: compile_progress::ProgressModel,
    r: Report,
) -> (SectionProgressModel, ui::UIStateModel, Result<Seq<(usize, Shown)>, StepError>) {
    let (p2, s2, shown) = compile_progress::after_report(p, s, r);
    let m2 = SectionProgressModel { active: Some((step, p2)), ..m };
    match shown {
        Ok(shown) => (m2, s2, Ok(shown_at(m, step, shown))),
        Err(e) => (m2, s2, Err(StepError::Progress(e))),
    }
}

/// What a report of a step does. A new step ends the one before it.
pub open spec fn after_step_report(
    m: SectionProgressModel,
    s: ui::UIStateModel,
    step: ExportStep,
    r: Report,
) -> (SectionProgressModel, ui::UIStateModel, Result<Seq<(usize, Shown)>, StepError>) {
    match m.active {
        Some((active, p)) if active == step => after_same_step(m, s, step, p, r),
        _ => {
            let (m1, s1, ended) = after_settle(m, s, r.cancelled, r.cancelled_since, r.now_ms);
            match (ended, step_place(m.mp3, m.normalize, step)) {
                (Err(e), _) => (m1, s1, Err(e)),
                (Ok(_), None) => (m1, s1, Err(StepError::Unexpected)),
                (Ok(ended), Some(_)) => {
                    let (m2, s2, shown) = after_same_step(
                        m1,
                        s1,
                        step,
                        fresh_step(m, step, r.now_ms),
                        r,
                    );
                    match shown {
                        Ok(shown) => (m2, s2, Ok(ended + shown)),
                        Err(e) => (m2, s2, Err(e)),
                    }
                },
            }
        },
    }
}

impl SectionProgress {
    /// The progress of a section before its first step.
    pub fn new(
        section: usize,
        sections: usize,
        mp3: bool,
        normalize: bool,
        sample_rate: u32,
        channels: u16,
    ) -> (r: Self)
        ensures
            r@ == (SectionProgressModel {
                section,
                sections,
                mp3,
                normalize,
                sample_rate,
                channels,
                active: None,
            }),
    {
        SectionProgress { section, sections, mp3, normalize, sample_rate, channels, active: None }
    }

    fn place(&self, step: ExportStep) -> (r: Option<usize>)
        ensures
            match (r, step_place(self@.mp3, self@.normalize, step)) {
                (Some(i), Some(wanted)) => i == wanted,
                (None, None) => true,
                _ => false,
            },
    {
        let levelled: usize = if self.normalize {
            2
        } else {
            0
        };
        match step {
            ExportStep::Analyze => if self.normalize {
                Some(0)
            } else {
                None
            },
            ExportStep::Normalize => if self.normalize {
                Some(1)
            } else {
                None
            },
            ExportStep::Encode => if self.mp3 {
                Some(levelled)
            } else {
                None
            },
            ExportStep::Metadata => if self.mp3 {
                Some(levelled + 1)
            } else {
                Some(levelled)
            },
        }
    }

    fn push_shown(&self, out: &mut Vec<(usize, Shown)>, step: ExportStep, shown: Option<Shown>)
        ensures
            final(out)@ == old(out)@ + shown_at(self@, step, shown),
    {
        if let Some(shown) = shown {
            if let Some(i) = self.place(step) {
                out.push((i, shown));
                assert(out@ =~= old(out)@ + seq![(i, shown)]);
            }
        }
        assert(out@ =~= old(out)@ + shown_at(self@, step, shown));
    }

    /// Ends the step that is reported.
    pub fn settle(
        &mut self,
        state: &mut UIState,
        cancelled: bool,
        cancelled_since: bool,
        now_ms: u64,
    ) -> (r: Result<Vec<(usize, Shown)>, StepError>)
        ensures
            ({
                let (m, s, shown) = after_settle(
                    old(self)@,
                    old(state)@,
                    cancelled,
                    cancelled_since,
                    now_ms,
                );
                &&& final(self)@ == m
                &&& final(state)@ == s
                &&& match (r, shown) {
                    (Ok(out), Ok(wanted)) => out@ == wanted,
                    (Err(e), Err(wanted)) => e == wanted,
                    _ => false,
                }
            }),
    {
        let ghost m = self@;
        let mut out: Vec<(usize, Shown)> = Vec::new();
        match self.active.take() {
            None => Ok(out),
            Some((step, mut progress)) => {
                let shown = progress.finish(state, cancelled, cancelled_since, now_ms);
                self.active = Some((step, progress));
                match shown {
                    Ok(shown) => {
                        self.push_shown(&mut out, step, shown);
                        assert(out@ =~= shown_at(m, step, shown));
                        Ok(out)
                    },
                    Err(e) => Err(StepError::Progress(e)),
                }
            },
        }
    }

    /// Takes in how much of a step is done.
    pub fn report(&mut self, state: &mut UIState, step: ExportStep, report: Report) -> (r: Result<
        Vec<(usize, Shown)>,
        StepError,
    >)
        ensures
            ({
                let (m, s, shown) = after_step_report(old(self)@, old(state)@, step, report);
                &&& final(self)@ == m
                &&& final(state)@ == s
                &&& match (r, shown) {
                    (Ok(out), Ok(wanted)) => out@ == wanted,
                    (Err(e), Err(wanted)) => e == wanted,
                    _ => false,
                }
            }),
    {
        let ghost m = self@;
        let same = match &self.active {
            Some((active, _)) => *active == step,
            None => false,
        };
        let mut out: Vec<(usize, Shown)> = Vec::new();
        if !same {
            match self.settle(state, report.cancelled, report.cancelled_since, report.now_ms) {
                Ok(ended) => {
                    out = ended;
                },
                Err(e) => {
                    return Err(e);
                },
            }
            if self.place(step).is_none() {
                return Err(StepError::Unexpected);
            }
            let operation = Operation {
                label: step_words(self.section, self.sections, step),
                range_ok: true,
                unit: if step == ExportStep::Metadata {
                    ProgressUnit::Bytes
                } else {
                    ProgressUnit::Audio { sample_rate: self.sample_rate, channels: self.channels }
                },
            };
            let fresh = CompileProgress::new(operation, report.now_ms);
            assert(fresh@ =~= fresh_step(m, step, report.now_ms));
            self.active = Some((step, fresh));
        }
        let ghost ended = out@;
        match self.active.take() {
            None => Ok(out),
            Some((active, mut progress)) => {
                let shown = progress.update(state, report);
                self.active = Some((active, progress));
                match shown {
                    Ok(shown) => {
                        self.push_shown(&mut out, active, shown);
                        assert(out@ =~= ended + shown_at(self@, active, shown));
                        Ok(out)
                    },
                    Err(e) => Err(StepError::Progress(e)),
                }
            },
        }
    }
}

/// The window's state when the worker of an export broke down.
pub fn worker_stopped(state: &mut UIState, reason: &str, now_ms: u64)
    ensures
        final(state)@ == (ui::UIStateModel {
            compile_stage: "Error: export worker stopped unexpectedly"@,
            error_message: "Export worker stopped unexpectedly: "@ + reason@
                + ". Check the export directory before retrying."@,
            compile_publishing: false,
            compile_finished_at: Some(now_ms),
            ..old(state)@
        }),
{
    state.compile_stage = "Error: export worker stopped unexpectedly".to_owned();
    state.error_message =
    "Export worker stopped unexpectedly: ".to_owned().concat(reason).concat(
        ". Check the export directory before retrying.",
    );
    state.compile_publishing = false;
    state.compile_finished_at = Some(now_ms);
}

/// The window's state when the worker of an export could not be started.
pub fn worker_refused(state: &mut UIState, error: &str, now_ms: u64)
    ensures
        final(state)@ == (ui::UIStateModel {
            compile_stage: "Error: cannot start export worker: "@ + error@,
            compile_finished_at: Some(now_ms),
            ..old(state)@
        }),
{
    state.compile_stage = "Error: cannot start export worker: ".to_owned().concat(error);
    state.compile_finished_at = Some(now_ms);
}

/// A step that an output does not have is refused. A report of a step makes that step the
/// one that is reported, and a new step ends the one before it.
pub proof fn new_steps_end_the_one_before(
    m: SectionProgressModel,
    s: ui::UIStateModel,
    step: ExportStep,
    r: Report,
)
    ensures
        ({
            let (m2, s2, shown) = after_step_report(m, s, step, r);
            &&& shown is Ok ==> (m2.active matches Some((now, p)) && now == step && p.last_report
                == (r.done, r.total))
            &&& m.active is None && (step == ExportStep::Encode && !m.mp3 || (step
                == ExportStep::Analyze || step == ExportStep::Normalize) && !m.normalize)
                ==> shown == Err::<Seq<(usize, Shown)>, StepError>(StepError::Unexpected)
            &&& m2.section == m.section && m2.sections == m.sections
            &&& s2.file_list == s.file_list
        }),
{
}

} // verus!
