//! What the course of an export comes to, when its tasks are done one after another.
use crate::project::compiler;
use crate::project::compiler::ExportStep;
use crate::project::export_run;
use crate::project::export_run::ExportTask;
use crate::project::markers;
use crate::project::metadata;
use crate::project::project;
use crate::ui::ui;
use crate::utils::text;
use vstd::prelude::*;

verus! {

/// An output, by what was done to make it.
#[verifier::ext_equal]
pub ghost struct Output {
    /// The recordings that were merged, in their order.
    pub files: Seq<usize>,
    pub normalized: bool,
    pub encoded: bool,
    pub inspected: bool,
}

/// The merge that is under way.
#[verifier::ext_equal]
pub ghost struct Work {
    pub section: usize,
    pub files: Seq<usize>,
    /// The recording that is shown.
    pub shown: Option<usize>,
    /// The recording that was read and brought to the format of the output.
    pub prepared: Option<usize>,
    /// The recording that has the sounds of its markers.
    pub mixed: Option<usize>,
    pub closed: bool,
    /// Whether nothing stands where the output goes.
    pub checked: bool,
    pub analyzed: bool,
    pub normalized: bool,
    pub encoded: bool,
    /// Whether the merge is still there.
    pub merge_kept: bool,
    /// Whether the output is there.
    pub stored: bool,
    pub tagged: bool,
    pub settled: bool,
    pub inspected: bool,
}

/// All that an export has made.
#[verifier::ext_equal]
pub ghost struct Bench {
    pub work: Option<Work>,
    pub outputs: Seq<Output>,
    /// Whether the model that removes noise was given up.
    pub released: bool,
    /// Whether the cancel button was looked at since the last piece of work.
    pub asked: bool,
    pub published: bool,
}

pub open spec fn empty_bench() -> Bench {
    Bench { work: None, outputs: Seq::empty(), released: false, asked: false, published: false }
}

pub open spec fn opened(section: usize) -> Work {
    Work {
        section,
        files: Seq::empty(),
        shown: None,
        prepared: None,
        mixed: None,
        closed: false,
        checked: false,
        analyzed: false,
        normalized: false,
        encoded: false,
        merge_kept: true,
        stored: false,
        tagged: false,
        settled: false,
        inspected: false,
    }
}

/// What a task makes of the merge that is under way, if it can be done then. A recording
/// is read, mixed and merged in this order; an output is made of a merge that has ended,
/// and only where nothing stands; it is tagged when it is there.
pub open spec fn worked(w: Work, released: bool, asked: bool, task: ExportTask) -> Option<Work> {
    match task {
        ExportTask::Show { section, file, stage, third } => if section == w.section && !w.closed
            && w.mixed is None && ((stage == 1 && third == 0 && w.prepared is None) || (stage == 2
            && third == 1 && w.prepared == Some(file))) {
            Some(Work { shown: Some(file), ..w })
        } else {
            None
        },
        ExportTask::Prepare { file } => if asked && !released && !w.closed && w.prepared is None
            && w.mixed is None && w.shown == Some(file) {
            Some(Work { prepared: Some(file), ..w })
        } else {
            None
        },
        ExportTask::Mix { file } => if asked && w.prepared == Some(file) {
            Some(Work { prepared: None, mixed: Some(file), ..w })
        } else {
            None
        },
        ExportTask::Merge { section, file } => if asked && section == w.section && !w.closed
            && w.mixed == Some(file) {
            Some(Work { shown: None, mixed: None, files: w.files.push(file), ..w })
        } else {
            None
        },
        ExportTask::Close { section } => if section == w.section && !w.closed && w.prepared is None
            && w.mixed is None {
            Some(Work { closed: true, ..w })
        } else {
            None
        },
        ExportTask::ReleaseModel => if !released {
            Some(w)
        } else {
            None
        },
        ExportTask::CheckOutput { section } => if section == w.section && w.closed {
            Some(Work { checked: true, ..w })
        } else {
            None
        },
        ExportTask::Perform { section, step } => if section != w.section || !w.checked {
            None
        } else {
            match step {
                ExportStep::Analyze => if w.merge_kept && !w.stored && !w.analyzed {
                    Some(Work { analyzed: true, ..w })
                } else {
                    None
                },
                ExportStep::Normalize => if w.analyzed && w.merge_kept && !w.stored
                    && !w.normalized {
                    Some(Work { normalized: true, ..w })
                } else {
                    None
                },
                ExportStep::Encode => if w.merge_kept && !w.stored && w.analyzed == w.normalized {
                    Some(Work { encoded: true, stored: true, ..w })
                } else {
                    None
                },
                ExportStep::Metadata => if w.stored && !w.tagged && !w.merge_kept {
                    Some(Work { tagged: true, ..w })
                } else {
                    None
                },
            }
        },
        ExportTask::ReportTags { section } => if section == w.section && w.checked && w.analyzed
            == w.normalized {
            Some(w)
        } else {
            None
        },
        ExportTask::RemoveMerge { section } => if section == w.section && w.encoded && w.merge_kept {
            Some(Work { merge_kept: false, ..w })
        } else {
            None
        },
        ExportTask::Stage { section } => if section == w.section && w.checked && w.merge_kept
            && !w.stored && w.analyzed == w.normalized {
            Some(Work { merge_kept: false, stored: true, ..w })
        } else {
            None
        },
        ExportTask::Settle { section } => if section == w.section && w.tagged {
            Some(Work { settled: true, ..w })
        } else {
            None
        },
        ExportTask::Inspect { section } => if section == w.section && w.settled && asked {
            Some(Work { inspected: true, ..w })
        } else {
            None
        },
        _ => None,
    }
}

/// Whether a task is work that is not begun without a look at the cancel button.
pub open spec fn is_work(task: ExportTask) -> bool {
    match task {
        ExportTask::CheckCancel | ExportTask::Show { .. } | ExportTask::ReleaseModel
        | ExportTask::ReportTags { .. } | ExportTask::Announce { .. } => false,
        _ => true,
    }
}

/// What a task makes of all that is there, if it can be done then.
pub open spec fn done(b: Bench, task: ExportTask) -> Option<Bench> {
    if b.published {
        None
    } else {
        match (task, b.work) {
            (ExportTask::CheckCancel, _) => Some(Bench { asked: true, ..b }),
            (ExportTask::Open { section }, None) => if section == b.outputs.len() && b.asked {
                Some(Bench { work: Some(opened(section)), asked: false, ..b })
            } else {
                None
            },
            (ExportTask::Announce { section }, Some(w)) => if section == w.section && w.settled
                && (w.encoded || w.inspected) {
                Some(
                    Bench {
                        work: None,
                        outputs: b.outputs.push(
                            Output {
                                files: w.files,
                                normalized: w.normalized,
                                encoded: w.encoded,
                                inspected: w.inspected,
                            },
                        ),
                        ..b
                    },
                )
            } else {
                None
            },
            (ExportTask::Publish, None) => if b.asked {
                Some(Bench { published: true, asked: false, ..b })
            } else {
                None
            },
            (_, Some(w)) => match worked(w, b.released, b.asked, task) {
                Some(w2) => Some(
                    Bench {
                        work: Some(w2),
                        released: b.released || task is ReleaseModel,
                        asked: b.asked && !is_work(task),
                        ..b
                    },
                ),
                None => None,
            },
            _ => None,
        }
    }
}

/// What tasks make of all that is there, if each can be done in its turn.
pub open spec fn all_done(b: Bench, tasks: Seq<ExportTask>) -> Option<Bench>
    decreases tasks.len(),
{
    if tasks.len() == 0 {
        Some(b)
    } else {
        match all_done(b, tasks.drop_last()) {
            Some(middle) => done(middle, tasks.last()),
            None => None,
        }
    }
}

proof fn done_in_turn(b: Bench, first: Seq<ExportTask>, second: Seq<ExportTask>)
    ensures
        all_done(b, first + second) == match all_done(b, first) {
            Some(middle) => all_done(middle, second),
            None => None,
        },
    decreases second.len(),
{
    if second.len() == 0 {
        assert(first + second =~= first);
    } else {
        done_in_turn(b, first, second.drop_last());
        assert((first + second).drop_last() =~= first + second.drop_last());
        assert((first + second).last() == second.last());
    }
}

proof fn one_done(b: Bench, task: ExportTask)
    ensures
        all_done(b, seq![task]) == done(b, task),
{
    assert(seq![task].drop_last() =~= Seq::empty());
    reveal_with_fuel(all_done, 2);
}

proof fn recording_is_merged(b: Bench, section: usize, file: usize)
    requires
        b.work matches Some(w) && w == (Work { files: w.files, ..opened(section) }),
        !b.published,
        !b.released,
    ensures
        all_done(b, export_run::recording_tasks(section, file)) == Some(
            Bench {
                work: Some(Work { files: b.work->0.files.push(file), ..b.work->0 }),
                asked: false,
                ..b
            },
        ),
{
    reveal_with_fuel(all_done, 9);
    let tasks = export_run::recording_tasks(section, file);
    assert(tasks.drop_last() =~= tasks.take(7));
    assert(tasks.take(7).drop_last() =~= tasks.take(6));
    assert(tasks.take(6).drop_last() =~= tasks.take(5));
    assert(tasks.take(5).drop_last() =~= tasks.take(4));
    assert(tasks.take(4).drop_last() =~= tasks.take(3));
    assert(tasks.take(3).drop_last() =~= tasks.take(2));
    assert(tasks.take(2).drop_last() =~= tasks.take(1));
    assert(tasks.take(1).drop_last() =~= Seq::empty());
}

/// The recordings from one up to another.
pub open spec fn files_from(first: int, count: int) -> Seq<usize> {
    Seq::new(count as nat, |i: int| (first + i) as usize)
}

proof fn recordings_are_done(b: Bench, section: usize, first: int, count: int)
    requires
        b.work == Some(opened(section)),
        !b.published,
        !b.released,
        0 <= first,
        0 <= count,
        first + count <= usize::MAX,
    ensures
        ({
            let made = all_done(b, export_run::recordings_tasks(section, first, count));
            &&& made matches Some(after)
            &&& after == (Bench {
                work: Some(Work { files: files_from(first, count), ..opened(section) }),
                asked: after.asked,
                ..b
            })
        }),
    decreases count,
{
    if count > 0 {
        recordings_are_done(b, section, first, count - 1);
        let before = export_run::recordings_tasks(section, first, count - 1);
        let file = (first + count - 1) as usize;
        let tasks = export_run::recording_tasks(section, file);
        done_in_turn(b, before, tasks);
        let middle = all_done(b, before)->0;
        recording_is_merged(middle, section, file);
        assert(files_from(first, count - 1).push(file) =~= files_from(first, count));
    } else {
        assert(files_from(first, count) =~= Seq::empty());
    }
}

proof fn two_done(b: Bench, first: ExportTask, second: ExportTask)
    ensures
        all_done(b, seq![first, second]) == match done(b, first) {
            Some(middle) => done(middle, second),
            None => None,
        },
{
    assert(seq![first, second] =~= seq![first] + seq![second]);
    done_in_turn(b, seq![first], seq![second]);
    one_done(b, first);
    if let Some(middle) = done(b, first) {
        one_done(middle, second);
    }
}

proof fn closing_is_done(b: Bench, section: usize, last: bool)
    requires
        b.work matches Some(w) && w == (Work { files: w.files, ..opened(section) }),
        !b.published,
        !b.released,
    ensures
        ({
            let released = if last {
                seq![ExportTask::ReleaseModel]
            } else {
                Seq::empty()
            };
            let tasks = seq![ExportTask::Close { section }] + released + seq![
                ExportTask::CheckOutput { section },
            ];
            all_done(b, tasks) == Some(
                Bench {
                    work: Some(Work { closed: true, checked: true, ..b.work->0 }),
                    released: last,
                    asked: false,
                    ..b
                },
            )
        }),
{
    let close = ExportTask::Close { section };
    let check = ExportTask::CheckOutput { section };
    if last {
        let tasks = seq![close] + seq![ExportTask::ReleaseModel] + seq![check];
        assert(tasks =~= seq![close, ExportTask::ReleaseModel] + seq![check]);
        done_in_turn(b, seq![close, ExportTask::ReleaseModel], seq![check]);
        two_done(b, close, ExportTask::ReleaseModel);
        one_done(all_done(b, seq![close, ExportTask::ReleaseModel])->0, check);
    } else {
        let none = Seq::<ExportTask>::empty();
        assert(seq![close] + none + seq![check] =~= seq![close, check]);
        two_done(b, close, check);
    }
}

proof fn levelling_is_done(b: Bench, section: usize, normalize: bool)
    requires
        b.work matches Some(w) && w == (Work {
            files: w.files,
            closed: true,
            checked: true,
            ..opened(section)
        }),
        !b.published,
        !b.asked,
    ensures
        ({
            let levelled = if normalize {
                seq![
                    ExportTask::Perform { section, step: ExportStep::Analyze },
                    ExportTask::Perform { section, step: ExportStep::Normalize },
                ]
            } else {
                Seq::empty()
            };
            all_done(b, levelled) == Some(
                Bench {
                    work: Some(Work { analyzed: normalize, normalized: normalize, ..b.work->0 }),
                    ..b
                },
            )
        }),
{
    if normalize {
        two_done(
            b,
            ExportTask::Perform { section, step: ExportStep::Analyze },
            ExportTask::Perform { section, step: ExportStep::Normalize },
        );
    }
}

proof fn storing_is_done(b: Bench, section: usize, mp3: bool)
    requires
        b.work matches Some(w) && w == (Work {
            files: w.files,
            closed: true,
            checked: true,
            analyzed: w.analyzed,
            normalized: w.analyzed,
            ..opened(section)
        }),
        !b.published,
        !b.asked,
    ensures
        ({
            let stored = if mp3 {
                seq![
                    ExportTask::Perform { section, step: ExportStep::Encode },
                    ExportTask::RemoveMerge { section },
                    ExportTask::ReportTags { section },
                ]
            } else {
                seq![ExportTask::ReportTags { section }, ExportTask::Stage { section }]
            };
            all_done(b, stored) == Some(
                Bench {
                    work: Some(Work { encoded: mp3, stored: true, merge_kept: false, ..b.work->0 }),
                    ..b
                },
            )
        }),
{
    let encode = ExportTask::Perform { section, step: ExportStep::Encode };
    let remove = ExportTask::RemoveMerge { section };
    let report = ExportTask::ReportTags { section };
    if mp3 {
        assert(seq![encode, remove, report] =~= seq![encode, remove] + seq![report]);
        done_in_turn(b, seq![encode, remove], seq![report]);
        two_done(b, encode, remove);
        one_done(all_done(b, seq![encode, remove])->0, report);
    } else {
        two_done(b, report, ExportTask::Stage { section });
    }
}

proof fn tagging_is_done(b: Bench, section: usize)
    requires
        b.work matches Some(w) && w.section == section && w.checked && w.analyzed == w.normalized
            && w.stored && !w.merge_kept && !w.tagged,
        !b.published,
        !b.asked,
    ensures
        all_done(
            b,
            seq![
                ExportTask::ReportTags { section },
                ExportTask::Perform { section, step: ExportStep::Metadata },
                ExportTask::ReportTags { section },
                ExportTask::Settle { section },
                ExportTask::CheckCancel,
            ],
        ) == Some(
            Bench { work: Some(Work { tagged: true, settled: true, ..b.work->0 }), asked: true, ..b },
        ),
{
    let report = ExportTask::ReportTags { section };
    let tag = ExportTask::Perform { section, step: ExportStep::Metadata };
    let settle = ExportTask::Settle { section };
    let ask = ExportTask::CheckCancel;
    let tagged = seq![report, tag] + seq![report, settle];
    assert(seq![report, tag, report, settle, ask] =~= tagged + seq![ask]);
    done_in_turn(b, tagged, seq![ask]);
    done_in_turn(b, seq![report, tag], seq![report, settle]);
    two_done(b, report, tag);
    let middle = all_done(b, seq![report, tag])->0;
    two_done(middle, report, settle);
    one_done(all_done(b, tagged)->0, ask);
}

proof fn announcing_is_done(b: Bench, section: usize, mp3: bool)
    requires
        b.work matches Some(w) && w.section == section && w.settled && w.encoded == mp3
            && !w.inspected,
        !b.published,
        b.asked,
    ensures
        ({
            let inspected = if mp3 {
                Seq::empty()
            } else {
                seq![ExportTask::Inspect { section }]
            };
            let made = all_done(b, inspected + seq![ExportTask::Announce { section }]);
            &&& made matches Some(after)
            &&& after == (Bench {
                work: None,
                outputs: b.outputs.push(
                    Output {
                        files: b.work->0.files,
                        normalized: b.work->0.normalized,
                        encoded: mp3,
                        inspected: !mp3,
                    },
                ),
                asked: after.asked,
                ..b
            })
        }),
{
    let announce = ExportTask::Announce { section };
    if mp3 {
        assert(Seq::<ExportTask>::empty() + seq![announce] =~= seq![announce]);
        one_done(b, announce);
    } else {
        let inspect = ExportTask::Inspect { section };
        assert(seq![inspect] + seq![announce] =~= seq![inspect, announce]);
        two_done(b, inspect, announce);
    }
}

proof fn output_is_done(b: Bench, section: usize, last: bool, mp3: bool, normalize: bool)
    requires
        b.work matches Some(w) && w == (Work { files: w.files, ..opened(section) }),
        !b.published,
        !b.released,
    ensures
        ({
            let made = all_done(b, export_run::output_tasks(section, last, mp3, normalize));
            &&& made matches Some(after)
            &&& after == (Bench {
                work: None,
                outputs: b.outputs.push(
                    Output {
                        files: b.work->0.files,
                        normalized: normalize,
                        encoded: mp3,
                        inspected: !mp3,
                    },
                ),
                released: last,
                asked: after.asked,
                ..b
            })
        }),
{
    let released = if last {
        seq![ExportTask::ReleaseModel]
    } else {
        Seq::empty()
    };
    let levelled = if normalize {
        seq![
            ExportTask::Perform { section, step: ExportStep::Analyze },
            ExportTask::Perform { section, step: ExportStep::Normalize },
        ]
    } else {
        Seq::empty()
    };
    let stored = if mp3 {
        seq![
            ExportTask::Perform { section, step: ExportStep::Encode },
            ExportTask::RemoveMerge { section },
            ExportTask::ReportTags { section },
        ]
    } else {
        seq![ExportTask::ReportTags { section }, ExportTask::Stage { section }]
    };
    let inspected = if mp3 {
        Seq::empty()
    } else {
        seq![ExportTask::Inspect { section }]
    };
    let first = seq![ExportTask::Close { section }] + released + seq![
        ExportTask::CheckOutput { section },
    ];
    let tagged = seq![
        ExportTask::ReportTags { section },
        ExportTask::Perform { section, step: ExportStep::Metadata },
        ExportTask::ReportTags { section },
        ExportTask::Settle { section },
        ExportTask::CheckCancel,
    ];
    let rest = inspected + seq![ExportTask::Announce { section }];
    assert(export_run::output_tasks(section, last, mp3, normalize) =~= first + levelled + stored
        + tagged + rest);
    closing_is_done(b, section, last);
    let b1 = all_done(b, first)->0;
    done_in_turn(b, first, levelled);
    levelling_is_done(b1, section, normalize);
    let b2 = all_done(b1, levelled)->0;
    done_in_turn(b, first + levelled, stored);
    storing_is_done(b2, section, mp3);
    let b3 = all_done(b2, stored)->0;
    done_in_turn(b, first + levelled + stored, tagged);
    tagging_is_done(b3, section);
    let b4 = all_done(b3, tagged)->0;
    done_in_turn(b, first + levelled + stored + tagged, rest);
    announcing_is_done(b4, section, mp3);
}

proof fn sections_are_done(
    ranges: Seq<(usize, usize)>,
    k: int,
    mp3: bool,
    normalize: bool,
)
    requires
        0 <= k <= ranges.len() <= usize::MAX,
        forall|i: int| 0 <= i < ranges.len() ==> (#[trigger] ranges[i]).0 <= ranges[i].1,
    ensures
        ({
            let made = all_done(
                empty_bench(),
                export_run::sections_tasks(ranges, k, mp3, normalize),
            );
            &&& made matches Some(after)
            &&& after == (Bench {
                outputs: Seq::new(
                    k as nat,
                    |i: int|
                        Output {
                            files: files_from(ranges[i].0 as int, ranges[i].1 - ranges[i].0),
                            normalized: normalize,
                            encoded: mp3,
                            inspected: !mp3,
                        },
                ),
                released: 0 < k && k == ranges.len(),
                asked: after.asked,
                ..empty_bench()
            })
        }),
    decreases k,
{
    let wanted = |i: int|
        Output {
            files: files_from(ranges[i].0 as int, ranges[i].1 - ranges[i].0),
            normalized: normalize,
            encoded: mp3,
            inspected: !mp3,
        };
    if k > 0 {
        sections_are_done(ranges, k - 1, mp3, normalize);
        let section = (k - 1) as usize;
        let range = ranges[k - 1];
        let count = range.1 - range.0;
        let last = k == ranges.len();
        let before = export_run::sections_tasks(ranges, k - 1, mp3, normalize);
        let opening = seq![ExportTask::CheckCancel, ExportTask::Open { section }];
        let middle = export_run::recordings_tasks(section, range.0 as int, count);
        let ending = export_run::output_tasks(section, last, mp3, normalize);
        let b = all_done(empty_bench(), before)->0;
        done_in_turn(empty_bench(), before, opening + middle + ending);
        done_in_turn(b, opening + middle, ending);
        done_in_turn(b, opening, middle);
        assert(opening =~= seq![ExportTask::CheckCancel] + seq![ExportTask::Open { section }]);
        done_in_turn(b, seq![ExportTask::CheckCancel], seq![ExportTask::Open { section }]);
        one_done(b, ExportTask::CheckCancel);
        one_done(Bench { asked: true, ..b }, ExportTask::Open { section });
        let begun = all_done(b, opening)->0;
        recordings_are_done(begun, section, range.0 as int, count);
        let merged = all_done(begun, middle)->0;
        output_is_done(merged, section, last, mp3, normalize);
        assert(Seq::new((k - 1) as nat, wanted).push(wanted(k - 1)) =~= Seq::new(k as nat, wanted));
        assert(export_run::sections_tasks(ranges, k, mp3, normalize) =~= before + (opening + middle
            + ending));
    } else {
        assert(Seq::new(0, wanted) =~= Seq::empty());
    }
}

/// Doing the tasks of an export one after another is possible, and publishes one output
/// for every section. Each output holds exactly the recordings of its section, in their
/// order, every one read and mixed itself; it is normalized and encoded if and only if
/// that was asked for, tagged when it is complete, and inspected unless it is encoded.
/// Nothing is begun without a look at the cancel button.
pub proof fn exports_publish_every_section(
    ranges: Seq<(usize, usize)>,
    mp3: bool,
    normalize: bool,
)
    requires
        ranges.len() <= usize::MAX,
        forall|i: int| 0 <= i < ranges.len() ==> (#[trigger] ranges[i]).0 <= ranges[i].1,
    ensures
        all_done(empty_bench(), export_run::export_course(ranges, mp3, normalize)) == Some(
            Bench {
                work: None,
                outputs: Seq::new(
                    ranges.len(),
                    |i: int|
                        Output {
                            files: files_from(ranges[i].0 as int, ranges[i].1 - ranges[i].0),
                            normalized: normalize,
                            encoded: mp3,
                            inspected: !mp3,
                        },
                ),
                released: ranges.len() > 0,
                asked: false,
                published: true,
            },
        ),
{
    sections_are_done(ranges, ranges.len() as int, mp3, normalize);
    let head = export_run::sections_tasks(ranges, ranges.len() as int, mp3, normalize);
    let tail = seq![ExportTask::CheckCancel] + seq![ExportTask::Publish];
    let b = all_done(empty_bench(), head)->0;
    done_in_turn(empty_bench(), head, tail);
    done_in_turn(b, seq![ExportTask::CheckCancel], seq![ExportTask::Publish]);
    one_done(b, ExportTask::CheckCancel);
    one_done(Bench { asked: true, ..b }, ExportTask::Publish);
    assert(export_run::export_course(ranges, mp3, normalize) =~= head + tail);
}

/// Every recording of a book is prepared exactly once, mixed exactly once and merged
/// exactly once, in the order of the book.
pub proof fn books_are_exported_in_order(
    n: int,
    ranges: Seq<(usize, usize)>,
    mp3: bool,
    normalize: bool,
    k: int,
    i: int,
)
    requires
        compiler::covers(n, ranges),
        ranges.len() <= usize::MAX,
        0 <= k < ranges.len(),
        ranges[k].0 <= i < ranges[k].1,
    ensures
        ({
            let end = all_done(
                empty_bench(),
                export_run::export_course(ranges, mp3, normalize),
            );
            &&& end matches Some(b)
            &&& b.published
            &&& b.outputs.len() == ranges.len()
            &&& b.outputs[k].files[i - ranges[k].0] == i
        }),
{
    assert forall|i: int| 0 <= i < ranges.len() implies (#[trigger] ranges[i]).0 <= ranges[i].1 by {
        assert(ranges[i].0 < ranges[i].1);
    }
    exports_publish_every_section(ranges, mp3, normalize);
}

/// A book that is not divided is one file with all its fragments. A book that is divided
/// begins a new file with every fragment behind the first one that starts a section, and
/// with no other: within a file only the first fragment may start one.
pub proof fn files_begin_with_sections(
    files: Seq<project::ProjectFileModel>,
    known: Map<Seq<char>, project::MarkerSettingsModel>,
    section_split: bool,
    ranges: Seq<(usize, usize)>,
    i: int,
    k: int,
)
    requires
        compiler::splits(files, known, section_split, ranges),
        0 < i < files.len() <= usize::MAX,
        0 <= k < ranges.len(),
    ensures
        !section_split ==> ranges.len() == 1 && ranges[0].0 == 0 && ranges[0].1 == files.len(),
        section_split && metadata::opens_section(files[i], known) ==> exists|r: int|
            0 < r < ranges.len() && (#[trigger] ranges[r]).0 == i,
        section_split && k > 0 && ranges[k].0 == i ==> metadata::opens_section(files[i], known),
        section_split && ranges[k].0 < i < ranges[k].1 ==> !metadata::opens_section(
            files[i],
            known,
        ),
        section_split ==> ranges[0].0 == 0 && ranges.last().1 == files.len(),
{
    if section_split {
        let f = files[i];
        if markers::starts_section(f, known) {
            let j = choose|j: int|
                0 <= j < f.markers.len() && markers::is_section(known, #[trigger] f.markers[j]);
            assert(known.dom().contains(f.markers[j]));
        }
        if metadata::opens_section(f, known) {
            let j = choose|j: int|
                0 <= j < f.markers.len() && known.dom().contains(#[trigger] f.markers[j])
                    && known[f.markers[j]].section == true;
            assert(markers::is_section(known, f.markers[j]));
        }
        if ranges[k].0 < i < ranges[k].1 && metadata::opens_section(f, known) {
            let r = choose|r: int| 0 < r < ranges.len() && (#[trigger] ranges[r]).0 == i;
            if r < k {
                ends_rise(files.len() as int, ranges, r, k);
            } else if r > k {
                ends_rise(files.len() as int, ranges, k, r);
            }
        }
    }
}

proof fn ends_rise(n: int, ranges: Seq<(usize, usize)>, a: int, b: int)
    requires
        compiler::covers(n, ranges),
        0 <= a < b < ranges.len(),
    ensures
        ranges[a].1 <= ranges[b].0,
    decreases b - a,
{
    if a + 1 < b {
        ends_rise(n, ranges, a, b - 1);
        assert(ranges[b - 1].0 < ranges[b - 1].1);
        assert(ranges[b - 1].1 == ranges[b].0);
    } else {
        assert(ranges[a].1 == ranges[b].0);
    }
}

/// The level of a file is looked at before it is changed, and both only where that is
/// wanted; a file is encoded only as MP3; its tags come last.
pub proof fn steps_are_in_order(format: Seq<char>, normalize: bool)
    ensures
        ({
            let steps = compiler::steps_of(format, normalize);
            let mp3 = format == "mp3"@;
            &&& steps.len() == 1 + (if normalize {
                2int
            } else {
                0
            }) + (if mp3 {
                1int
            } else {
                0
            })
            &&& normalize ==> steps[0] == compiler::ExportStep::Analyze && steps[1]
                == compiler::ExportStep::Normalize
            &&& mp3 ==> steps[steps.len() - 2] == compiler::ExportStep::Encode
            &&& steps.last() == compiler::ExportStep::Metadata
            &&& steps.no_duplicates()
        }),
{
}

/// The files of an export are named by their numbers, from one on, and by their format; no
/// two of them have the same name.
pub proof fn files_have_names_of_their_own(a: nat, b: nat, mp3: bool)
    ensures
        ({
            let name = compiler::output_name(a, mp3);
            &&& name == text::zero_padded(a + 1, 5) + (if mp3 {
                ".mp3"@
            } else {
                ".wav"@
            })
            &&& a != b ==> compiler::output_name(b, mp3) != name
        }),
{
    reveal_strlit(".");
    reveal_strlit("mp3");
    reveal_strlit("wav");
    reveal_strlit(".mp3");
    reveal_strlit(".wav");
    let ending = if mp3 {
        ".mp3"@
    } else {
        ".wav"@
    };
    let x = text::zero_padded(a + 1, 5);
    let y = text::zero_padded(b + 1, 5);
    assert(compiler::output_name(a, mp3) =~= x + ending);
    assert(compiler::output_name(b, mp3) =~= y + ending);
    if compiler::output_name(a, mp3) == compiler::output_name(b, mp3) {
        assert((x + ending).len() == (y + ending).len());
        assert((x + ending).take(x.len() as int) =~= x);
        assert((y + ending).take(y.len() as int) =~= y);
        text::padding_keeps_numbers_apart(a + 1, b + 1, 5);
    }
}

/// The shares of an export begin with nothing and end with all; a section ends where the
/// next one begins, and its recordings end where its steps begin.
pub proof fn shares_run_from_nothing_to_all(first: int, end: int, steps: int, total: int)
    requires
        0 <= first <= end <= total,
        0 < steps,
    ensures
        compiler::recording_share_of(0, 0, 0, total).0 == 0,
        compiler::step_share_of(first, end, steps, steps, total).0 == steps
            * compiler::recording_share_of(end, 0, 0, total).0,
        compiler::step_share_of(first, end, 0, steps, total).0 == steps
            * compiler::recording_share_of(first, end - first, 0, total).0,
        compiler::step_share_of(first, end, 0, steps, total).1 == steps
            * compiler::recording_share_of(first, end - first, 0, total).1,
        compiler::step_share_of(first, total, steps, steps, total).0 == compiler::step_share_of(
            first,
            total,
            steps,
            steps,
            total,
        ).1,
        compiler::recording_share_of(first, 0, 3, total) == compiler::recording_share_of(
            first,
            1,
            0,
            total,
        ),
{
    let c = end - first;
    assert((4 * first + 3 * c) * steps + c * steps == steps * (4 * end)) by (nonlinear_arith)
        requires
            c == end - first,
    ;
    assert((4 * first + 3 * c) * steps + c * 0 == steps * (4 * first + 3 * c))
        by (nonlinear_arith);
    assert(4 * total * steps == steps * (4 * total)) by (nonlinear_arith);
    let d = total - first;
    assert((4 * first + 3 * d) * steps + d * steps == 4 * total * steps) by (nonlinear_arith)
        requires
            d == total - first,
    ;
}

/// An export that began runs, and can be cancelled; one that ended does not, whatever came
/// of it. Neither changes the list or the selection.
pub proof fn exports_run_until_they_end(
    s: ui::UIStateModel,
    end: compiler::ExportEnd,
    now_ms: u64,
)
    ensures
        crate::project::compile_progress::runs(compiler::begun(s, false)),
        compiler::begun(s, true).compile_cancel_requested,
        !s.is_compiling ==> !compiler::begun(s, false).compile_cancel_requested,
        s.compile_finished_at is Some ==> !compiler::begun(s, false).compile_cancel_requested,
        compiler::begun(s, false).file_list == s.file_list,
        compiler::begun(s, false).current_file_index == s.current_file_index,
        !crate::project::compile_progress::runs(compiler::ended(s, end, now_ms)),
        compiler::ended(s, end, now_ms).compile_finished_at == Some(now_ms),
        compiler::ended(s, end, now_ms).file_list == s.file_list,
        compiler::ended(s, end, now_ms).current_file_index == s.current_file_index,
        end is Cancelled ==> compiler::ended(s, end, now_ms).error_message == s.error_message,
        end matches compiler::ExportEnd::Failed(e) ==> compiler::ended(
            s,
            end,
            now_ms,
        ).error_message == "Compilation failed; previous export unchanged: "@ + e@,
        end matches compiler::ExportEnd::Published(report) ==> (report.warnings@.len() == 0
            ==> compiler::ended(s, end, now_ms).error_message == s.error_message),
{
}

/// Whether a task reads, mixes or merges a recording, or begins a merge.
pub open spec fn handles_sound(task: ExportTask) -> bool {
    task is Prepare || task is Mix || task is Merge || task is Open
}

/// Whether every recording that is merged was prepared and then mixed right before, once
/// each, and nothing is prepared or mixed that is not merged.
pub open spec fn merges_are_ready(tasks: Seq<ExportTask>) -> bool {
    forall|i: int|
        #![trigger tasks[i]]
        0 <= i < tasks.len() ==> match tasks[i] {
            ExportTask::Prepare { file } => i + 5 < tasks.len() && (
            tasks[i + 5] matches ExportTask::Merge { file: merged, .. } && merged == file),
            ExportTask::Mix { file } => i + 2 < tasks.len() && (
            tasks[i + 2] matches ExportTask::Merge { file: merged, .. } && merged == file),
            ExportTask::Merge { file, .. } => {
                &&& 7 <= i
                &&& tasks[i - 5] == ExportTask::Prepare { file }
                &&& tasks[i - 2] == ExportTask::Mix { file }
                &&& !handles_sound(tasks[i - 1])
                &&& !handles_sound(tasks[i - 3])
                &&& !handles_sound(tasks[i - 4])
                &&& !handles_sound(tasks[i - 6])
                &&& !handles_sound(tasks[i - 7])
            },
            _ => true,
        }
}

proof fn ready_in_both(a: Seq<ExportTask>, b: Seq<ExportTask>)
    requires
        merges_are_ready(a),
        merges_are_ready(b),
    ensures
        merges_are_ready(a + b),
{
    let all = a + b;
    assert forall|i: int| #![trigger all[i]] 0 <= i < all.len() implies match all[i] {
        ExportTask::Prepare { file } => i + 5 < all.len() && (
        all[i + 5] matches ExportTask::Merge { file: merged, .. } && merged == file),
        ExportTask::Mix { file } => i + 2 < all.len() && (
        all[i + 2] matches ExportTask::Merge { file: merged, .. } && merged == file),
        ExportTask::Merge { file, .. } => {
            &&& 7 <= i
            &&& all[i - 5] == ExportTask::Prepare { file }
            &&& all[i - 2] == ExportTask::Mix { file }
            &&& !handles_sound(all[i - 1])
            &&& !handles_sound(all[i - 3])
            &&& !handles_sound(all[i - 4])
            &&& !handles_sound(all[i - 6])
            &&& !handles_sound(all[i - 7])
        },
        _ => true,
    } by {
        if i < a.len() {
            assert(all[i] == a[i]);
        } else {
            assert(all[i] == b[i - a.len()]);
        }
    }
}

proof fn silence_is_ready(tasks: Seq<ExportTask>)
    requires
        forall|i: int|
            #![trigger tasks[i]]
            0 <= i < tasks.len() ==> !(tasks[i] is Prepare || tasks[i] is Mix || tasks[i] is Merge),
    ensures
        merges_are_ready(tasks),
{
}

proof fn recordings_are_ready(section: usize, first: int, count: int)
    ensures
        merges_are_ready(export_run::recordings_tasks(section, first, count)),
    decreases count,
{
    if count > 0 {
        recordings_are_ready(section, first, count - 1);
        let one = export_run::recording_tasks(section, (first + count - 1) as usize);
        assert(merges_are_ready(one));
        ready_in_both(export_run::recordings_tasks(section, first, count - 1), one);
    }
}

proof fn sections_are_ready(
    ranges: Seq<(usize, usize)>,
    k: int,
    mp3: bool,
    normalize: bool,
)
    ensures
        merges_are_ready(export_run::sections_tasks(ranges, k, mp3, normalize)),
    decreases k,
{
    if k > 0 {
        sections_are_ready(ranges, k - 1, mp3, normalize);
        let section = (k - 1) as usize;
        let range = ranges[k - 1];
        let begin = seq![ExportTask::CheckCancel, ExportTask::Open { section }];
        let middle = export_run::recordings_tasks(section, range.0 as int, range.1 - range.0);
        let end = export_run::output_tasks(section, k == ranges.len(), mp3, normalize);
        silence_is_ready(begin);
        silence_is_ready(end);
        recordings_are_ready(section, range.0 as int, range.1 - range.0);
        ready_in_both(begin, middle);
        ready_in_both(begin + middle, end);
        ready_in_both(
            export_run::sections_tasks(ranges, k - 1, mp3, normalize),
            begin + middle + end,
        );
    }
}

/// In the course of an export, every recording that is merged was prepared and then mixed
/// since the merge before it, once each and in this order, and it is the same recording
/// that is prepared, mixed and merged. Every recording that is prepared or mixed is merged.
pub proof fn recordings_are_prepared_mixed_and_merged(
    ranges: Seq<(usize, usize)>,
    mp3: bool,
    normalize: bool,
)
    ensures
        merges_are_ready(export_run::export_course(ranges, mp3, normalize)),
{
    sections_are_ready(ranges, ranges.len() as int, mp3, normalize);
    let end = seq![ExportTask::CheckCancel, ExportTask::Publish];
    silence_is_ready(end);
    ready_in_both(
        export_run::sections_tasks(ranges, ranges.len() as int, mp3, normalize),
        end,
    );
}

/// The recordings that tasks prepare, in their order.
pub open spec fn prepared_files(tasks: Seq<ExportTask>) -> Seq<usize>
    decreases tasks.len(),
{
    if tasks.len() == 0 {
        Seq::empty()
    } else {
        let before = prepared_files(tasks.drop_last());
        match tasks.last() {
            ExportTask::Prepare { file } => before.push(file),
            _ => before,
        }
    }
}

proof fn prepared_in_both(a: Seq<ExportTask>, b: Seq<ExportTask>)
    ensures
        prepared_files(a + b) == prepared_files(a) + prepared_files(b),
    decreases b.len(),
{
    if b.len() == 0 {
        assert(a + b =~= a);
        assert(prepared_files(a) + prepared_files(b) =~= prepared_files(a));
    } else {
        prepared_in_both(a, b.drop_last());
        assert((a + b).drop_last() =~= a + b.drop_last());
        assert((a + b).last() == b.last());
        assert(prepared_files(a + b) =~= prepared_files(a) + prepared_files(b));
    }
}

proof fn prepares_nothing(tasks: Seq<ExportTask>)
    requires
        forall|i: int| #![trigger tasks[i]] 0 <= i < tasks.len() ==> !(tasks[i] is Prepare),
    ensures
        prepared_files(tasks).len() == 0,
    decreases tasks.len(),
{
    if tasks.len() > 0 {
        assert(!(tasks[tasks.len() - 1] is Prepare));
        assert forall|i: int|
            #![trigger tasks.drop_last()[i]]
            0 <= i < tasks.drop_last().len() implies !(tasks.drop_last()[i] is Prepare) by {
            assert(tasks.drop_last()[i] == tasks[i]);
        }
        prepares_nothing(tasks.drop_last());
    }
}

proof fn one_is_prepared(section: usize, file: usize)
    ensures
        prepared_files(export_run::recording_tasks(section, file)) == seq![file],
{
    let all = export_run::recording_tasks(section, file);
    let before = all.take(2);
    let after = all.skip(3);
    prepares_nothing(before);
    prepares_nothing(after);
    let one = seq![all[2]];
    assert(one.drop_last() =~= Seq::empty());
    assert(prepared_files(one.drop_last()) =~= Seq::empty());
    assert(prepared_files(one) =~= seq![file]);
    prepared_in_both(before, one);
    prepared_in_both(before + one, after);
    assert(all =~= before + one + after);
    assert(prepared_files(all) =~= seq![file]);
}

proof fn recordings_are_prepared(section: usize, first: int, count: int)
    requires
        0 <= first,
        0 <= count,
    ensures
        prepared_files(export_run::recordings_tasks(section, first, count)) == Seq::new(
            count as nat,
            |i: int| (first + i) as usize,
        ),
    decreases count,
{
    let wanted = Seq::new(count as nat, |i: int| (first + i) as usize);
    if count > 0 {
        recordings_are_prepared(section, first, count - 1);
        let file = (first + count - 1) as usize;
        one_is_prepared(section, file);
        prepared_in_both(
            export_run::recordings_tasks(section, first, count - 1),
            export_run::recording_tasks(section, file),
        );
    }
    assert(prepared_files(export_run::recordings_tasks(section, first, count)) =~= wanted);
}

proof fn sections_are_prepared(
    n: int,
    ranges: Seq<(usize, usize)>,
    k: int,
    mp3: bool,
    normalize: bool,
)
    requires
        compiler::covers(n, ranges),
        0 < k <= ranges.len(),
    ensures
        prepared_files(export_run::sections_tasks(ranges, k, mp3, normalize)) == Seq::new(
            ranges[k - 1].1 as nat,
            |i: int| i as usize,
        ),
    decreases k,
{
    let section = (k - 1) as usize;
    let range = ranges[k - 1];
    let earlier = export_run::sections_tasks(ranges, k - 1, mp3, normalize);
    let begin = seq![ExportTask::CheckCancel, ExportTask::Open { section }];
    let middle = export_run::recordings_tasks(section, range.0 as int, range.1 - range.0);
    let end = export_run::output_tasks(section, k == ranges.len(), mp3, normalize);
    prepares_nothing(begin);
    prepares_nothing(end);
    recordings_are_prepared(section, range.0 as int, range.1 - range.0);
    prepared_in_both(begin, middle);
    prepared_in_both(begin + middle, end);
    prepared_in_both(earlier, begin + middle + end);
    if k > 1 {
        sections_are_prepared(n, ranges, k - 1, mp3, normalize);
        assert(ranges[k - 2].1 == range.0);
    } else {
        assert(prepared_files(earlier).len() == 0);
    }
    assert(prepared_files(export_run::sections_tasks(ranges, k, mp3, normalize)) =~= Seq::new(
        range.1 as nat,
        |i: int| i as usize,
    ));
}

/// An export prepares every recording of the book exactly once, in the order of the book,
/// whether or not the book is divided.
pub proof fn every_recording_is_prepared_once(
    n: int,
    ranges: Seq<(usize, usize)>,
    mp3: bool,
    normalize: bool,
)
    requires
        compiler::covers(n, ranges),
    ensures
        prepared_files(export_run::export_course(ranges, mp3, normalize)) == Seq::new(
            n as nat,
            |i: int| i as usize,
        ),
{
    let end = seq![ExportTask::CheckCancel, ExportTask::Publish];
    let k = ranges.len() as int;
    sections_are_prepared(n, ranges, k, mp3, normalize);
    prepares_nothing(end);
    prepared_in_both(export_run::sections_tasks(ranges, k, mp3, normalize), end);
    assert(prepared_files(export_run::export_course(ranges, mp3, normalize)) =~= Seq::new(
        n as nat,
        |i: int| i as usize,
    ));
}

} // verus!
