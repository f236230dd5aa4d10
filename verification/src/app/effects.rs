//! What the recorder asks of the world around it.
use crate::utils::keyboard;
use crate::utils::keyboard::DialogEdit;
use vstd::prelude::*;

verus! {

/// One thing to do outside. A list of them is done in its order.
#[derive(Debug)]
pub enum Effect {
    /// Stops every player.
    StopPlayers,
    /// Waits until stopped players have fallen silent.
    Pause,
    /// Stores the project. A failure is reported after the given words.
    SaveOrReport(String),
    /// Closes the writer of a take and removes its file and its graph.
    Discard(String),
    /// Removes a recording and its graph.
    RemoveRecording(String),
    /// Removes a recording that was cut off, and its graph. A failure is reported
    /// with the path that the project had for it.
    RemoveOverwritten { stored: String, path: String },
    /// Forgets the graph of the selected fragment.
    ClearCurrentGraph,
    /// Forgets which graphs were asked for.
    ForgetGraphRequests,
    /// Forgets both graphs and which were asked for.
    ClearGraphs,
    DrawCurrentGraph,
    DrawPreviousGraph,
    /// Puts a fragment into words.
    Transcribe(usize),
    /// Brings the window's copy up to date.
    RefreshCopy,
    /// Moves the window to a place of its list.
    ShowIndex(i32),
    Refresh { status_line: bool, skip_list: bool },
    /// Says that the project changed.
    Changed,
    /// Plays the fragments from one place up to another.
    Play { first: usize, end: usize },
    /// Closes the question whether to delete.
    CloseDeleteDialog,
}

/// What the contracts know of [`Effect`].
#[verifier::ext_equal]
pub ghost enum EffectModel {
    StopPlayers,
    Pause,
    SaveOrReport(Seq<char>),
    Discard(Seq<char>),
    RemoveRecording(Seq<char>),
    RemoveOverwritten { stored: Seq<char>, path: Seq<char> },
    ClearCurrentGraph,
    ForgetGraphRequests,
    ClearGraphs,
    DrawCurrentGraph,
    DrawPreviousGraph,
    Transcribe(usize),
    RefreshCopy,
    ShowIndex(i32),
    Refresh { status_line: bool, skip_list: bool },
    Changed,
    Play { first: usize, end: usize },
    CloseDeleteDialog,
}

impl View for Effect {
    type V = EffectModel;

    open spec fn view(&self) -> EffectModel {
        match self {
            Effect::StopPlayers => EffectModel::StopPlayers,
            Effect::Pause => EffectModel::Pause,
            Effect::SaveOrReport(words) => EffectModel::SaveOrReport(words@),
            Effect::Discard(path) => EffectModel::Discard(path@),
            Effect::RemoveRecording(path) => EffectModel::RemoveRecording(path@),
            Effect::RemoveOverwritten { stored, path } => EffectModel::RemoveOverwritten {
                stored: stored@,
                path: path@,
            },
            Effect::ClearCurrentGraph => EffectModel::ClearCurrentGraph,
            Effect::ForgetGraphRequests => EffectModel::ForgetGraphRequests,
            Effect::ClearGraphs => EffectModel::ClearGraphs,
            Effect::DrawCurrentGraph => EffectModel::DrawCurrentGraph,
            Effect::DrawPreviousGraph => EffectModel::DrawPreviousGraph,
            Effect::Transcribe(index) => EffectModel::Transcribe(*index),
            Effect::RefreshCopy => EffectModel::RefreshCopy,
            Effect::ShowIndex(index) => EffectModel::ShowIndex(*index),
            Effect::Refresh { status_line, skip_list } => EffectModel::Refresh {
                status_line: *status_line,
                skip_list: *skip_list,
            },
            Effect::Changed => EffectModel::Changed,
            Effect::Play { first, end } => EffectModel::Play { first: *first, end: *end },
            Effect::CloseDeleteDialog => EffectModel::CloseDeleteDialog,
        }
    }
}

/// The models of a list of effects.
pub open spec fn effect_models(effects: Seq<Effect>) -> Seq<EffectModel> {
    effects.map_values(|e: Effect| e@)
}

/// Puts an effect behind others.
pub(crate) fn then_do(out: &mut Vec<Effect>, effect: Effect)
    ensures
        effect_models(final(out)@) == effect_models(old(out)@).push(effect@),
{
    let ghost e = effect@;
    out.push(effect);
    assert(effect_models(out@) =~= effect_models(old(out)@).push(e));
}

/// Puts effects behind others.
pub(crate) fn then_do_all(out: &mut Vec<Effect>, more: Vec<Effect>)
    ensures
        effect_models(final(out)@) == effect_models(old(out)@) + effect_models(more@),
{
    let ghost added = effect_models(more@);
    let mut more = more;
    out.append(&mut more);
    assert(effect_models(out@) =~= effect_models(old(out)@) + added);
}

/// An empty list of effects.
pub(crate) fn no_effects() -> (r: Vec<Effect>)
    ensures
        effect_models(r@) == Seq::<EffectModel>::empty(),
{
    let r: Vec<Effect> = Vec::new();
    assert(effect_models(r@) =~= Seq::empty());
    r
}

/// What follows a command.
#[derive(Debug)]
pub enum Step {
    /// The listed effects, and nothing else.
    Apply(Vec<Effect>),
    /// A new take.
    Record { duration_secs: Option<u64>, replace_current: bool },
    /// The end of the running take, and a new one if `go_on`.
    Accept { go_on: bool },
    /// The selected fragment is played.
    Play,
    /// The project is stored; the command fails if that fails. Then it is shown.
    SaveThenShow,
    SaveDialog { request_id: u64, edit: DialogEdit },
    OpenMarkerSettings,
    Compile,
    CancelCompile,
    OpenShortcuts,
    OpenDelete,
    ConfirmDelete { ui_index: i32 },
}

/// What the contracts know of [`Step`].
#[verifier::ext_equal]
pub ghost enum StepModel {
    Apply(Seq<EffectModel>),
    Record { duration_secs: Option<u64>, replace_current: bool },
    Accept { go_on: bool },
    Play,
    SaveThenShow,
    SaveDialog { request_id: u64, edit: keyboard::DialogEditModel },
    OpenMarkerSettings,
    Compile,
    CancelCompile,
    OpenShortcuts,
    OpenDelete,
    ConfirmDelete { ui_index: i32 },
}

impl View for Step {
    type V = StepModel;

    open spec fn view(&self) -> StepModel {
        match self {
            Step::Apply(effects) => StepModel::Apply(effect_models(effects@)),
            Step::Record { duration_secs, replace_current } => StepModel::Record {
                duration_secs: *duration_secs,
                replace_current: *replace_current,
            },
            Step::Accept { go_on } => StepModel::Accept { go_on: *go_on },
            Step::Play => StepModel::Play,
            Step::SaveThenShow => StepModel::SaveThenShow,
            Step::SaveDialog { request_id, edit } => StepModel::SaveDialog {
                request_id: *request_id,
                edit: edit@,
            },
            Step::OpenMarkerSettings => StepModel::OpenMarkerSettings,
            Step::Compile => StepModel::Compile,
            Step::CancelCompile => StepModel::CancelCompile,
            Step::OpenShortcuts => StepModel::OpenShortcuts,
            Step::OpenDelete => StepModel::OpenDelete,
            Step::ConfirmDelete { ui_index } => StepModel::ConfirmDelete { ui_index: *ui_index },
        }
    }
}

} // verus!
