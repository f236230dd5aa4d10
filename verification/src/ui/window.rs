//! The window: what its controls ask for, and what it shows at each tick.
use crate::project::project;
use crate::project::project::{KeyBindings, MetaData};
use crate::ui::dialogs;
use crate::ui::dialogs::{DialogController, DialogWindow};
use crate::ui::ui;
use crate::ui::ui::{FileInfo, UIState};
use crate::utils::keyboard;
use crate::utils::keyboard::Action;
use crate::utils::text;
use vstd::prelude::*;

verus! {

/// Something that was done in the window.
#[derive(Debug)]
pub enum WindowEvent {
    KeyPressed(String),
    FileClicked(i32),
    SearchHintUp(String),
    SearchHintDown(String),
    AddMarker(String),
    /// A marker key as the keyboard layout gives it.
    AddMarkerKey(String),
    OpenMarkers,
    Compile,
    CompileCancel,
    CompileClose,
    OpenShortcuts,
    CloseShortcuts,
    DeleteConfirm(i32),
    DeleteCancel,
    DismissError,
}

/// What the contracts know of [`WindowEvent`].
#[verifier::ext_equal]
pub ghost enum WindowEventModel {
    KeyPressed(Seq<char>),
    FileClicked(i32),
    SearchHintUp(Seq<char>),
    SearchHintDown(Seq<char>),
    AddMarker(Seq<char>),
    AddMarkerKey(Seq<char>),
    OpenMarkers,
    Compile,
    CompileCancel,
    CompileClose,
    OpenShortcuts,
    CloseShortcuts,
    DeleteConfirm(i32),
    DeleteCancel,
    DismissError,
}

impl View for WindowEvent {
    type V = WindowEventModel;

    open spec fn view(&self) -> WindowEventModel {
        match self {
            WindowEvent::KeyPressed(key) => WindowEventModel::KeyPressed(key@),
            WindowEvent::FileClicked(i) => WindowEventModel::FileClicked(*i),
            WindowEvent::SearchHintUp(query) => WindowEventModel::SearchHintUp(query@),
            WindowEvent::SearchHintDown(query) => WindowEventModel::SearchHintDown(query@),
            WindowEvent::AddMarker(marker) => WindowEventModel::AddMarker(marker@),
            WindowEvent::AddMarkerKey(key) => WindowEventModel::AddMarkerKey(key@),
            WindowEvent::OpenMarkers => WindowEventModel::OpenMarkers,
            WindowEvent::Compile => WindowEventModel::Compile,
            WindowEvent::CompileCancel => WindowEventModel::CompileCancel,
            WindowEvent::CompileClose => WindowEventModel::CompileClose,
            WindowEvent::OpenShortcuts => WindowEventModel::OpenShortcuts,
            WindowEvent::CloseShortcuts => WindowEventModel::CloseShortcuts,
            WindowEvent::DeleteConfirm(i) => WindowEventModel::DeleteConfirm(*i),
            WindowEvent::DeleteCancel => WindowEventModel::DeleteCancel,
            WindowEvent::DismissError => WindowEventModel::DismissError,
        }
    }
}

/// Whether an export can still be cancelled.
pub open spec fn can_cancel(s: ui::UIStateModel) -> bool {
    s.is_compiling && s.compile_finished_at is None && !s.compile_cancel_requested
        && !s.compile_publishing
}

/// The command that an event gives, if it gives one. An open dialog swallows what
/// goes to the project.
pub open spec fn command_of(
    event: WindowEventModel,
    keys: project::KeyBindingsModel,
    modal_open: bool,
    s: ui::UIStateModel,
) -> Option<keyboard::ActionModel> {
    match event {
        WindowEventModel::DeleteConfirm(ui_index) => Some(
            keyboard::ActionModel::ConfirmDeleteChunk { ui_index },
        ),
        WindowEventModel::CompileCancel => if can_cancel(s) {
            Some(keyboard::ActionModel::CompileCancel)
        } else {
            None
        },
        _ if modal_open => None,
        WindowEventModel::KeyPressed(key) => {
            let action = keyboard::key_command(keys, key);
            if action is Nothing {
                None
            } else {
                Some(action)
            }
        },
        WindowEventModel::FileClicked(i) => Some(
            keyboard::ActionModel::Goto { index: Some(i), play: false },
        ),
        WindowEventModel::SearchHintUp(query) => Some(keyboard::ActionModel::SearchHintUp(query)),
        WindowEventModel::SearchHintDown(query) => Some(
            keyboard::ActionModel::SearchHintDown(query),
        ),
        WindowEventModel::AddMarker(marker) => Some(keyboard::ActionModel::AddMarker { marker }),
        WindowEventModel::AddMarkerKey(key) => Some(
            keyboard::ActionModel::AddMarker { marker: keyboard::normalized_key(key) },
        ),
        WindowEventModel::OpenMarkers => Some(keyboard::ActionModel::OpenMarkerSettings),
        WindowEventModel::Compile => Some(keyboard::ActionModel::Compile),
        WindowEventModel::OpenShortcuts => Some(keyboard::ActionModel::OpenShortcutsDialog),
        _ => None,
    }
}

/// The view of a command that may be there.
pub open spec fn action_view(action: Option<Action>) -> Option<keyboard::ActionModel> {
    match action {
        Some(a) => Some(a@),
        None => None,
    }
}

/// Gives the command of an event.
pub fn event_command(
    event: &WindowEvent,
    keys: &KeyBindings,
    modal_open: bool,
    state: &UIState,
) -> (r: Option<Action>)
    ensures
        action_view(r) == command_of(event@, keys@, modal_open, state@),
{
    match event {
        WindowEvent::DeleteConfirm(i) => Some(Action::ConfirmDeleteChunk { ui_index: *i }),
        WindowEvent::CompileCancel => if cancel_enabled(state) {
            Some(Action::CompileCancel)
        } else {
            None
        },
        WindowEvent::KeyPressed(key) => {
            match keyboard::key_action(keys, key.as_str(), modal_open) {
                Action::Nothing => None,
                action => if modal_open {
                    None
                } else {
                    Some(action)
                },
            }
        },
        WindowEvent::FileClicked(i) => if modal_open {
            None
        } else {
            Some(Action::Goto { index: Some(*i), play: false })
        },
        WindowEvent::SearchHintUp(query) => if modal_open {
            None
        } else {
            Some(Action::SearchHintUp(query.clone()))
        },
        WindowEvent::SearchHintDown(query) => if modal_open {
            None
        } else {
            Some(Action::SearchHintDown(query.clone()))
        },
        WindowEvent::AddMarker(marker) => if modal_open {
            None
        } else {
            Some(Action::AddMarker { marker: marker.clone() })
        },
        WindowEvent::AddMarkerKey(key) => if modal_open {
            None
        } else {
            Some(Action::AddMarker { marker: keyboard::normalize_key_for_layout(key.as_str()) })
        },
        WindowEvent::OpenMarkers => if modal_open {
            None
        } else {
            Some(Action::OpenMarkerSettings)
        },
        WindowEvent::Compile => if modal_open {
            None
        } else {
            Some(Action::Compile)
        },
        WindowEvent::OpenShortcuts => if modal_open {
            None
        } else {
            Some(Action::OpenShortcutsDialog)
        },
        WindowEvent::CompileClose => None,
        WindowEvent::CloseShortcuts => None,
        WindowEvent::DeleteCancel => None,
        WindowEvent::DismissError => None,
    }
}

/// Whether an export can still be cancelled.
pub fn cancel_enabled(state: &UIState) -> (r: bool)
    ensures
        r == can_cancel(state@),
{
    state.is_compiling && state.compile_finished_at.is_none() && !state.compile_cancel_requested
        && !state.compile_publishing
}

/// The window's state after an event. `sent` tells what came of handing its command
/// on, if it gave one.
pub open spec fn after_event(
    event: WindowEventModel,
    sent: Option<Result<(), Seq<char>>>,
    s: ui::UIStateModel,
) -> ui::UIStateModel {
    match (event, sent) {
        (WindowEventModel::OpenMarkers, Some(Err(e))) => ui::UIStateModel {
            error_message: "Cannot open marker settings: "@ + e,
            ..s
        },
        (WindowEventModel::CompileCancel, Some(Err(e))) => ui::UIStateModel {
            error_message: "Cannot request export cancellation: "@ + e,
            ..s
        },
        (WindowEventModel::CompileCancel, Some(Ok(_))) => ui::UIStateModel {
            compile_cancel_requested: true,
            ..s
        },
        (WindowEventModel::CompileClose, _) => if s.is_compiling && s.compile_finished_at is Some {
            ui::UIStateModel {
                is_compiling: false,
                compile_finished_at: None,
                compile_cancel_requested: false,
                compile_publishing: false,
                compile_stage: Seq::empty(),
                dialog_compile_stages_text: Seq::empty(),
                ..s
            }
        } else {
            s
        },
        (WindowEventModel::CloseShortcuts, _) => ui::UIStateModel {
            dialog_shortcuts_open: false,
            ..s
        },
        (WindowEventModel::DeleteCancel, _) => ui::UIStateModel { dialog_delete_open: false, ..s },
        (WindowEventModel::DismissError, _) => ui::UIStateModel { error_message: Seq::empty(), ..s },
        _ => s,
    }
}

/// The view of what came of handing a command on.
pub open spec fn sent_view(sent: Option<Result<(), String>>) -> Option<Result<(), Seq<char>>> {
    match sent {
        Some(Ok(u)) => Some(Ok(u)),
        Some(Err(e)) => Some(Err(e@)),
        None => None,
    }
}

/// Takes in an event after its command was handed on.
pub fn event_done(event: &WindowEvent, sent: Option<Result<(), String>>, state: &mut UIState)
    ensures
        final(state)@ == after_event(event@, sent_view(sent), old(state)@),
{
    match event {
        WindowEvent::OpenMarkers => {
            if let Some(Err(e)) = sent {
                set_error(state, "Cannot open marker settings: ".to_owned().concat(e.as_str()));
            }
        },
        WindowEvent::CompileCancel => match sent {
            Some(Err(e)) => set_error(
                state,
                "Cannot request export cancellation: ".to_owned().concat(e.as_str()),
            ),
            Some(Ok(_)) => request_cancel(state),
            None => {},
        },
        WindowEvent::CompileClose => close_export(state),
        WindowEvent::CloseShortcuts => close_shortcuts(state),
        WindowEvent::DeleteCancel => close_delete(state),
        WindowEvent::DismissError => set_error(state, String::new()),
        _ => {},
    }
}

fn set_error(state: &mut UIState, message: String)
    ensures
        final(state)@ == (ui::UIStateModel { error_message: message@, ..old(state)@ }),
{
    state.error_message = message;
}

fn request_cancel(state: &mut UIState)
    ensures
        final(state)@ == (ui::UIStateModel { compile_cancel_requested: true, ..old(state)@ }),
{
    state.compile_cancel_requested = true;
}

fn close_shortcuts(state: &mut UIState)
    ensures
        final(state)@ == (ui::UIStateModel { dialog_shortcuts_open: false, ..old(state)@ }),
{
    state.dialog_shortcuts_open = false;
}

/// Closes the question whether to delete.
pub fn close_delete(state: &mut UIState)
    ensures
        final(state)@ == (ui::UIStateModel { dialog_delete_open: false, ..old(state)@ }),
{
    state.dialog_delete_open = false;
}

fn close_export(state: &mut UIState)
    ensures
        final(state)@ == after_event(WindowEventModel::CompileClose, None, old(state)@),
{
    if !state.is_compiling || state.compile_finished_at.is_none() {
        return;
    }
    state.is_compiling = false;
    state.compile_finished_at = None;
    state.compile_cancel_requested = false;
    state.compile_publishing = false;
    state.compile_stage = String::new();
    state.dialog_compile_stages_text = String::new();
}

/// The form of a recording.
#[derive(Debug)]
pub struct ChunkForm {
    pub ui_index: i32,
    pub title: String,
    pub author: String,
    pub year: String,
    pub hint: String,
}

/// Opens the form of the recording in a row, unless a dialog is open.
pub fn file_double_clicked(
    ui_index: i32,
    modal_open: bool,
    state: &UIState,
    controller: &mut DialogController,
    window: &mut DialogWindow,
) -> (r: Option<ChunkForm>)
    ensures
        if !modal_open && 0 <= ui_index < state@.file_list.len() {
            let row = state@.file_list[ui_index as int];
            &&& r is Some
            &&& r->0.ui_index == ui_index
            &&& r->0.title@ == row.title
            &&& r->0.author@ == row.author
            &&& r->0.year@ == row.year
            &&& r->0.hint@ == row.hint
            &&& final(controller)@ == (dialogs::ControllerModel {
                chunk_path: row.path,
                ..old(controller)@
            })
            &&& final(window)@ == (dialogs::DialogWindowModel {
                error_message: Seq::empty(),
                chunk_open: true,
                ..old(window)@
            })
        } else {
            &&& r is None
            &&& final(controller)@ == old(controller)@
            &&& final(window)@ == old(window)@
        },
{
    assert(state.file_list@.len() == state@.file_list.len());
    if modal_open || ui_index < 0 || ui_index as usize >= state.file_list.len() {
        return None;
    }
    assert(state@.file_list[ui_index as int] == state.file_list@[ui_index as int]@);
    let row = &state.file_list[ui_index as usize];
    controller.open_chunk(window, row.path.clone());
    window.chunk_open = true;
    Some(
        ChunkForm {
            ui_index,
            title: row.title.clone(),
            author: row.author.clone(),
            year: row.year.clone(),
            hint: row.hint.clone(),
        },
    )
}

/// What the state holds of the book.
pub open spec fn book_shown(s: ui::UIStateModel) -> project::MetaDataModel {
    project::MetaDataModel {
        title: s.dialog_project_title,
        author: s.dialog_project_author,
        year: s.dialog_project_year,
        hint: s.dialog_project_hint,
        reader: s.dialog_project_reader,
        format_audio: s.dialog_project_format_audio,
        normalize: s.dialog_project_normalize,
        cover: s.dialog_project_cover,
        section_split: s.dialog_project_section_split,
        denoise: s.dialog_project_denoise,
    }
}

fn book_form(state: &UIState) -> (r: MetaData)
    ensures
        r@ == book_shown(state@),
{
    MetaData {
        title: state.dialog_project_title.clone(),
        author: state.dialog_project_author.clone(),
        year: state.dialog_project_year.clone(),
        hint: state.dialog_project_hint.clone(),
        reader: state.dialog_project_reader.clone(),
        format_audio: state.dialog_project_format_audio.clone(),
        normalize: state.dialog_project_normalize,
        cover: state.dialog_project_cover.clone(),
        section_split: state.dialog_project_section_split,
        denoise: state.dialog_project_denoise,
    }
}

/// Opens the book dialog on what the state holds of the book, unless a dialog is open.
/// Gives what the dialog shows.
pub fn project_dialog_requested(modal_open: bool, state: &UIState, window: &mut DialogWindow) -> (r:
    Option<MetaData>)
    ensures
        match r {
            Some(form) => !modal_open && form@ == book_shown(state@) && final(window)@ == (
            dialogs::DialogWindowModel {
                error_message: Seq::empty(),
                project_open: true,
                ..old(window)@
            }),
            None => modal_open && final(window)@ == old(window)@,
        },
{
    if modal_open {
        return None;
    }
    window.error_message = String::new();
    window.project_open = true;
    Some(book_form(state))
}

/// Opens the contents dialog, unless a dialog is open. Gives the list that it shows.
pub fn contents_requested(modal_open: bool, state: &UIState) -> (r: Option<String>)
    ensures
        match r {
            Some(list) => !modal_open && list@ == state@.dialog_toc_list_text,
            None => modal_open,
        },
{
    if modal_open {
        None
    } else {
        Some(state.dialog_toc_list_text.clone())
    }
}

/// What the window remembers from one tick to the next.
#[derive(Debug)]
pub struct Ticker {
    pub last_len: usize,
    pub last_version: u64,
    pub last_waveform_prev_len: usize,
    pub last_waveform_current_len: usize,
    pub last_waveform_version: u64,
    /// The row for which graphs were drawn last.
    pub last_index_for_waveform: i32,
    pub waveform_tick: u32,
    pub last_current_file_index: i32,
}

/// What is drawn at a tick.
#[derive(Debug)]
pub struct TickPlan {
    /// The whole list, when it changed.
    pub list: Option<Vec<FileInfo>>,
    /// Single rows that changed.
    pub rows: Vec<(usize, FileInfo)>,
    pub draw_previous: bool,
    pub draw_current: bool,
    /// The row that is to be selected, when it changed.
    pub select: Option<i32>,
}

/// Whether the list changed since the last tick.
pub open spec fn list_changed(t: Ticker, s: ui::UIStateModel) -> bool {
    s.file_list.len() != t.last_len || s.file_list_version != t.last_version
}

/// Whether both graphs changed since the last tick.
pub open spec fn graphs_changed(t: Ticker, s: ui::UIStateModel) -> bool {
    ||| s.waveform_version != t.last_waveform_version
    ||| list_changed(t, s)
    ||| s.current_file_index != t.last_index_for_waveform
}

/// The models of numbered rows.
pub open spec fn numbered_models(rows: Seq<(usize, FileInfo)>) -> Seq<(usize, ui::FileInfoModel)> {
    rows.map_values(|p: (usize, FileInfo)| (p.0, p.1@))
}

/// The rows that are drawn one by one: the row of a running recording and the
/// rows that are marked as changed.
pub open spec fn single_rows(s: ui::UIStateModel) -> Seq<usize> {
    let marked = s.file_list_dirty_rows.filter(|i: usize| i < s.file_list.len());
    if s.is_recording && 0 <= s.current_file_index < s.file_list.len() {
        seq![s.current_file_index as usize] + marked
    } else {
        marked
    }
}

fn wrapping_next(n: u32) -> (r: u32)
    ensures
        r == (if n == u32::MAX {
            0
        } else {
            n + 1
        }),
{
    if n == u32::MAX {
        0
    } else {
        n + 1
    }
}

fn numbered_rows(list: &Vec<FileInfo>, places: &Vec<usize>, out: &mut Vec<(usize, FileInfo)>)
    ensures
        numbered_models(final(out)@) == numbered_models(old(out)@) + places@.filter(
            |i: usize| i < list@.len(),
        ).map_values(|i: usize| (i, list@[i as int]@)),
{
    let ghost start = numbered_models(out@);
    let ghost fits = |i: usize| i < list@.len();
    let ghost row = |i: usize| (i, list@[i as int]@);
    let mut k: usize = 0;
    proof {
        reveal(Seq::filter);
        assert(places@.take(0).filter(fits) =~= Seq::empty());
        assert(numbered_models(out@) =~= start + places@.take(0).filter(fits).map_values(row));
    }
    while k < places.len()
        invariant
            k <= places.len(),
            fits == (|i: usize| i < list@.len()),
            row == (|i: usize| (i, list@[i as int]@)),
            numbered_models(out@) == start + places@.take(k as int).filter(fits).map_values(row),
        decreases places.len() - k,
    {
        let ghost before = numbered_models(out@);
        let ghost taken = places@.take(k as int);
        proof {
            assert(places@.take(k + 1).drop_last() =~= taken);
            assert(places@.take(k + 1).last() == places@[k as int]);
            reveal(Seq::filter);
        }
        let i: usize = places[k];
        if i < list.len() {
            out.push((i, list[i].clone()));
            proof {
                assert(numbered_models(out@) =~= before.push((i, list@[i as int]@)));
                assert(taken.filter(fits).push(i).map_values(row) =~= taken.filter(fits).map_values(
                    row,
                ).push((i, list@[i as int]@)));
                assert(start + taken.filter(fits).map_values(row).push((i, list@[i as int]@)) =~= (
                start + taken.filter(fits).map_values(row)).push((i, list@[i as int]@)));
            }
        }
        k = k + 1;
    }
    assert(places@.take(k as int) =~= places@);
}

/// The list after single rows were drawn.
pub open spec fn with_rows(
    list: Seq<ui::FileInfoModel>,
    rows: Seq<(usize, ui::FileInfoModel)>,
) -> Seq<ui::FileInfoModel>
    decreases rows.len(),
{
    if rows.len() == 0 {
        list
    } else {
        let before = with_rows(list, rows.drop_last());
        let (i, row) = rows.last();
        if i < before.len() {
            before.update(i as int, row)
        } else {
            before
        }
    }
}

/// The list that the window shows after a tick.
pub open spec fn drawn_list(shown: Seq<ui::FileInfoModel>, plan: TickPlan) -> Seq<ui::FileInfoModel> {
    with_rows(
        match plan.list {
            Some(list) => ui::row_models(list@),
            None => shown,
        },
        numbered_models(plan.rows@),
    )
}

/// The ticker before the first tick.
pub open spec fn first_ticker() -> Ticker {
    Ticker {
        last_len: 0,
        last_version: 0,
        last_waveform_prev_len: 0,
        last_waveform_current_len: 0,
        last_waveform_version: 0,
        last_index_for_waveform: (-2) as i32,
        waveform_tick: 0,
        last_current_file_index: (-2) as i32,
    }
}

/// The ticker after a tick.
pub open spec fn after_tick(
    t: Ticker,
    s: ui::UIStateModel,
    prev_len: usize,
    current_len: usize,
) -> Ticker {
    let tick = if t.waveform_tick == u32::MAX {
        0u32
    } else {
        (t.waveform_tick + 1) as u32
    };
    Ticker {
        last_len: s.file_list.len() as usize,
        last_version: s.file_list_version,
        last_waveform_prev_len: prev_len,
        last_waveform_current_len: current_len,
        last_waveform_version: s.waveform_version,
        last_index_for_waveform: s.current_file_index,
        waveform_tick: tick,
        last_current_file_index: s.current_file_index,
    }
}

/// Whether the graph of the selected fragment is drawn at a tick. While recording
/// it grows and is drawn at every third one.
pub open spec fn draws_current(t: Ticker, s: ui::UIStateModel, current_len: usize) -> bool {
    let tick = if t.waveform_tick == u32::MAX {
        0
    } else {
        t.waveform_tick + 1
    };
    ||| current_len != t.last_waveform_current_len
    ||| graphs_changed(t, s)
    ||| s.is_recording && tick % 3 == 0
}

/// Whether a plan is what a tick has to draw.
pub open spec fn plans(
    t: Ticker,
    s: ui::UIStateModel,
    pending: Option<i32>,
    prev_len: usize,
    current_len: usize,
    plan: TickPlan,
) -> bool {
    let at = match pending {
        Some(i) => i,
        None => t.last_current_file_index,
    };
    &&& plans_list(t, s, plan)
    &&& plan.draw_previous == (prev_len != t.last_waveform_prev_len || graphs_changed(t, s))
    &&& plan.draw_current == draws_current(t, s, current_len)
    &&& plan.select == (if s.current_file_index != at {
        Some(s.current_file_index)
    } else {
        None
    })
}

/// Whether a plan draws the list: all of it when it changed, else the rows that
/// did.
pub open spec fn plans_list(t: Ticker, s: ui::UIStateModel, plan: TickPlan) -> bool {
    &&& match plan.list {
        Some(list) => list_changed(t, s) && ui::row_models(list@) == s.file_list,
        None => !list_changed(t, s),
    }
    &&& numbered_models(plan.rows@) == (if list_changed(t, s) {
        Seq::empty()
    } else {
        single_rows(s).map_values(|i: usize| (i, s.file_list[i as int]))
    })
}

impl Ticker {
    pub fn new() -> (r: Self)
        ensures
            r == first_ticker(),
    {
        Ticker {
            last_len: 0,
            last_version: 0,
            last_waveform_prev_len: 0,
            last_waveform_current_len: 0,
            last_waveform_version: 0,
            last_index_for_waveform: -2,
            waveform_tick: 0,
            last_current_file_index: -2,
        }
    }

    fn plan(
        &self,
        state: &UIState,
        pending: Option<i32>,
        prev_len: usize,
        current_len: usize,
    ) -> (r: TickPlan)
        ensures
            plans(*self, state@, pending, prev_len, current_len, r),
    {
        let total: usize = state.file_list.len();
        assert(total == state@.file_list.len());
        let selected: i32 = state.current_file_index;
        let changed = total != self.last_len || state.file_list_version != self.last_version;
        let (list, rows): (Option<Vec<FileInfo>>, Vec<(usize, FileInfo)>) = if changed {
            (Some(clone_rows(&state.file_list)), Vec::new())
        } else {
            (None, changed_rows(state))
        };
        if changed {
            assert(numbered_models(rows@) =~= Seq::empty());
        }
        let whole = state.waveform_version != self.last_waveform_version || changed || selected
            != self.last_index_for_waveform;
        let tick: u32 = wrapping_next(self.waveform_tick);
        let at: i32 = match pending {
            Some(i) => i,
            None => self.last_current_file_index,
        };
        TickPlan {
            list,
            rows,
            draw_previous: prev_len != self.last_waveform_prev_len || whole,
            draw_current: current_len != self.last_waveform_current_len || whole || (
            state.is_recording && tick % 3 == 0),
            select: if selected != at {
                Some(selected)
            } else {
                None
            },
        }
    }

    fn advance(&mut self, state: &UIState, prev_len: usize, current_len: usize)
        ensures
            *final(self) == after_tick(*old(self), state@, prev_len, current_len),
    {
        let total: usize = state.file_list.len();
        assert(total == state@.file_list.len());
        self.last_len = total;
        self.last_version = state.file_list_version;
        self.last_waveform_prev_len = prev_len;
        self.last_waveform_current_len = current_len;
        self.last_waveform_version = state.waveform_version;
        self.last_index_for_waveform = state.current_file_index;
        self.waveform_tick = wrapping_next(self.waveform_tick);
        self.last_current_file_index = state.current_file_index;
    }

    /// Looks at the state and says what has to be drawn. `pending` is a row that was
    /// selected ahead of the state; the lengths are those of the two graphs.
    pub fn tick(
        &mut self,
        state: &mut UIState,
        pending: Option<i32>,
        prev_len: usize,
        current_len: usize,
    ) -> (r: TickPlan)
        ensures
            *final(self) == after_tick(*old(self), old(state)@, prev_len, current_len),
            final(state)@ == (ui::UIStateModel {
                file_list_dirty_rows: Seq::empty(),
                ..old(state)@
            }),
            plans(*old(self), old(state)@, pending, prev_len, current_len, r),
    {
        let r = self.plan(state, pending, prev_len, current_len);
        self.advance(state, prev_len, current_len);
        forget_changed_rows(state);
        r
    }
}

fn forget_changed_rows(state: &mut UIState)
    ensures
        final(state)@ == (ui::UIStateModel { file_list_dirty_rows: Seq::empty(), ..old(state)@ }),
{
    state.file_list_dirty_rows = Vec::new();
    assert(state.file_list_dirty_rows@ =~= Seq::empty());
}

fn changed_rows(state: &UIState) -> (r: Vec<(usize, FileInfo)>)
    ensures
        numbered_models(r@) == single_rows(state@).map_values(
            |i: usize| (i, state@.file_list[i as int]),
        ),
{
    broadcast use vstd::seq_lib::group_filter_ensures;

    let ghost s = state@;
    let total: usize = state.file_list.len();
    let selected: i32 = state.current_file_index;
    assert(total == s.file_list.len());
    let mut rows: Vec<(usize, FileInfo)> = Vec::new();
    if state.is_recording && selected >= 0 && (selected as usize) < total {
        rows.push((selected as usize, state.file_list[selected as usize].clone()));
    }
    let ghost first = numbered_models(rows@);
    numbered_rows(&state.file_list, &state.file_list_dirty_rows, &mut rows);
    proof {
        let marked = s.file_list_dirty_rows.filter(|i: usize| i < s.file_list.len());
        let fits = |i: usize| i < state.file_list@.len();
        assert(fits =~= (|i: usize| i < s.file_list.len()));
        let row = |i: usize| (i, s.file_list[i as int]);
        assert(marked.map_values(|i: usize| (i, state.file_list@[i as int]@)) =~= marked.map_values(
            row,
        ));
        assert(numbered_models(rows@) =~= single_rows(s).map_values(row));
    }
    rows
}

fn clone_rows(rows: &Vec<FileInfo>) -> (r: Vec<FileInfo>)
    ensures
        ui::row_models(r@) == ui::row_models(rows@),
{
    let mut out: Vec<FileInfo> = Vec::new();
    let mut i: usize = 0;
    while i < rows.len()
        invariant
            i <= rows.len(),
            out@.len() == i,
            forall|k: int| 0 <= k < i ==> (#[trigger] out@[k])@ == rows@[k]@,
        decreases rows.len() - i,
    {
        out.push(rows[i].clone());
        i = i + 1;
    }
    assert(ui::row_models(out@) =~= ui::row_models(rows@));
    out
}

/// Makes the rows of a model those of a list: the common rows are set, the rest is
/// put behind or taken away.
pub fn apply_file_list_to_model(model: &mut Vec<FileInfo>, list: &Vec<FileInfo>)
    ensures
        ui::row_models(final(model)@) == ui::row_models(list@),
{
    let before: usize = model.len();
    let total: usize = list.len();
    let mut i: usize = 0;
    while i < before && i < total
        invariant
            i <= before == model@.len(),
            i <= total == list@.len(),
            forall|k: int| 0 <= k < i ==> (#[trigger] model@[k])@ == list@[k]@,
        decreases total - i,
    {
        model.set(i, list[i].clone());
        i = i + 1;
    }
    while i < total
        invariant
            i <= total == list@.len(),
            i <= model@.len(),
            i < total ==> i == model@.len(),
            forall|k: int| 0 <= k < i ==> (#[trigger] model@[k])@ == list@[k]@,
        decreases total - i,
    {
        model.push(list[i].clone());
        i = i + 1;
    }
    while model.len() > total
        invariant
            total == list@.len() <= model@.len(),
            forall|k: int| 0 <= k < total ==> (#[trigger] model@[k])@ == list@[k]@,
        decreases model@.len(),
    {
        model.pop();
    }
    assert(ui::row_models(model@) =~= ui::row_models(list@));
}

/// Draws what a tick found in the list of the window.
pub fn draw_list(model: &mut Vec<FileInfo>, plan: &TickPlan)
    ensures
        ui::row_models(final(model)@) == drawn_list(ui::row_models(old(model)@), *plan),
{
    if let Some(list) = &plan.list {
        apply_file_list_to_model(model, list);
    }
    let ghost base = ui::row_models(model@);
    let ghost all = numbered_models(plan.rows@);
    let mut k: usize = 0;
    assert(all.take(0) =~= Seq::empty());
    while k < plan.rows.len()
        invariant
            k <= plan.rows.len(),
            all == numbered_models(plan.rows@),
            ui::row_models(model@) == with_rows(base, all.take(k as int)),
        decreases plan.rows.len() - k,
    {
        let ghost before = ui::row_models(model@);
        let i: usize = plan.rows[k].0;
        proof {
            assert(all.take(k + 1).drop_last() =~= all.take(k as int));
            assert(all.take(k + 1).last() == (plan.rows@[k as int].0, plan.rows@[k as int].1@));
            assert(before.len() == model@.len());
        }
        if i < model.len() {
            model.set(i, plan.rows[k].1.clone());
            assert(ui::row_models(model@) =~= before.update(i as int, plan.rows@[k as int].1@));
        }
        k = k + 1;
    }
    assert(all.take(k as int) =~= all);
}

/// Whether the window's list differs from the state's at most in rows that the next
/// tick draws.
pub open spec fn follows(
    shown: Seq<ui::FileInfoModel>,
    t: Ticker,
    s: ui::UIStateModel,
) -> bool {
    list_changed(t, s) || {
        &&& shown.len() == s.file_list.len()
        &&& forall|i: int|
            0 <= i < shown.len() && !single_rows(s).contains(i as usize) ==> #[trigger] shown[i]
                == s.file_list[i]
    }
}

proof fn rows_are_drawn(
    list: Seq<ui::FileInfoModel>,
    target: Seq<ui::FileInfoModel>,
    places: Seq<usize>,
)
    requires
        list.len() == target.len() <= usize::MAX,
        forall|k: int| 0 <= k < places.len() ==> (#[trigger] places[k]) < target.len(),
    ensures
        ({
            let drawn = with_rows(list, places.map_values(|i: usize| (i, target[i as int])));
            &&& drawn.len() == target.len()
            &&& forall|i: int|
                0 <= i < target.len() ==> #[trigger] drawn[i] == (if places.contains(i as usize) {
                    target[i]
                } else {
                    list[i]
                })
        }),
    decreases places.len(),
{
    let row = |i: usize| (i, target[i as int]);
    if places.len() > 0 {
        let rest = places.drop_last();
        let p = places.last();
        rows_are_drawn(list, target, rest);
        assert(places.map_values(row).drop_last() =~= rest.map_values(row));
        let before = with_rows(list, rest.map_values(row));
        let drawn = with_rows(list, places.map_values(row));
        assert(drawn =~= before.update(p as int, target[p as int]));
        assert forall|i: int| 0 <= i < target.len() implies #[trigger] drawn[i] == (
        if places.contains(i as usize) {
            target[i]
        } else {
            list[i]
        }) by {
            assert(before[i] == (if rest.contains(i as usize) {
                target[i]
            } else {
                list[i]
            }));
            if i == p {
                assert(places[places.len() - 1] == i as usize);
            } else {
                if rest.contains(i as usize) {
                    let k = choose|k: int| 0 <= k < rest.len() && rest[k] == i as usize;
                    assert(places[k] == i as usize);
                }
                if places.contains(i as usize) {
                    let k = choose|k: int| 0 <= k < places.len() && places[k] == i as usize;
                    assert(k < rest.len());
                    assert(rest[k] == i as usize);
                }
            }
        }
    } else {
        assert(places.map_values(row) =~= Seq::empty());
        assert(with_rows(list, places.map_values(row)) == list);
    }
}

/// After every tick the window shows exactly the list of the state, whether the
/// whole list was drawn or only the rows that changed.
pub proof fn window_shows_the_list(
    shown: Seq<ui::FileInfoModel>,
    t: Ticker,
    s: ui::UIStateModel,
    plan: TickPlan,
)
    requires
        s.file_list.len() <= usize::MAX,
        follows(shown, t, s),
        plans_list(t, s, plan),
    ensures
        drawn_list(shown, plan) == s.file_list,
{
    if !list_changed(t, s) {
        let places = single_rows(s);
        broadcast use vstd::seq_lib::group_filter_ensures;

        assert forall|k: int| 0 <= k < places.len() implies (#[trigger] places[k])
            < s.file_list.len() by {
            let marked = s.file_list_dirty_rows.filter(|i: usize| i < s.file_list.len());
            if s.is_recording && 0 <= s.current_file_index < s.file_list.len() {
                if k > 0 {
                    assert(places[k] == marked[k - 1]);
                }
            }
        }
        rows_are_drawn(shown, s.file_list, places);
        assert(drawn_list(shown, plan) =~= s.file_list);
    }
}

/// While a dialog is open, nothing goes to the project but the answer to the question whether
/// to delete, and the wish to cancel an export.
pub proof fn open_dialogs_hold_back_commands(
    event: WindowEventModel,
    keys: project::KeyBindingsModel,
    s: ui::UIStateModel,
)
    ensures
        !(event is DeleteConfirm) && !(event is CompileCancel) ==> command_of(
            event,
            keys,
            true,
            s,
        ) is None,
        event matches WindowEventModel::DeleteConfirm(i) ==> command_of(event, keys, true, s)
            == Some(keyboard::ActionModel::ConfirmDeleteChunk { ui_index: i }),
        event is CompileCancel ==> (command_of(event, keys, true, s) is Some) == (s.is_compiling
            && s.compile_finished_at is None && !s.compile_cancel_requested
            && !s.compile_publishing),
        event matches WindowEventModel::FileClicked(i) ==> command_of(event, keys, false, s)
            == Some(keyboard::ActionModel::Goto { index: Some(i), play: false }),
        event matches WindowEventModel::SearchHintUp(q) ==> command_of(event, keys, false, s)
            == Some(keyboard::ActionModel::SearchHintUp(q)),
        event matches WindowEventModel::SearchHintDown(q) ==> command_of(event, keys, false, s)
            == Some(keyboard::ActionModel::SearchHintDown(q)),
        event matches WindowEventModel::KeyPressed(key) ==> (command_of(
            event,
            keys,
            false,
            s,
        ) matches Some(action) ==> action == keyboard::key_command(keys, key)),
{
}

/// An event changes what its dialog shows and nothing of the list. An export that runs stays
/// shown; one that ended is put away when its dialog is closed.
pub proof fn events_leave_the_list(
    event: WindowEventModel,
    sent: Option<Result<(), Seq<char>>>,
    s: ui::UIStateModel,
)
    ensures
        ({
            let t = after_event(event, sent, s);
            &&& t.file_list == s.file_list
            &&& t.current_file_index == s.current_file_index
            &&& t.file_list_version == s.file_list_version
            &&& event is DismissError ==> t.error_message.len() == 0
            &&& !(event is DismissError) && !(sent matches Some(Err(_))) ==> t.error_message
                == s.error_message
            &&& !(event is CompileClose) ==> t.is_compiling == s.is_compiling
            &&& event is CompileClose ==> t.is_compiling == (s.is_compiling
                && s.compile_finished_at is None)
            &&& event is CloseShortcuts ==> !t.dialog_shortcuts_open
            &&& event is DeleteCancel ==> !t.dialog_delete_open
            &&& !(event is DeleteCancel) ==> t.dialog_delete_open == s.dialog_delete_open
            &&& !(event is CloseShortcuts) ==> t.dialog_shortcuts_open == s.dialog_shortcuts_open
        }),
{
}

/// The graph of a running take is drawn at every third tick, and graphs are drawn anew when
/// they, the list or the selection changed.
pub proof fn graphs_are_drawn_when_they_change(
    t: Ticker,
    s: ui::UIStateModel,
    pending: Option<i32>,
    prev_len: usize,
    current_len: usize,
    plan: TickPlan,
)
    requires
        plans(t, s, pending, prev_len, current_len, plan),
        t.waveform_tick < u32::MAX,
    ensures
        s.waveform_version != t.last_waveform_version ==> plan.draw_previous && plan.draw_current,
        s.current_file_index != t.last_index_for_waveform ==> plan.draw_previous
            && plan.draw_current,
        prev_len != t.last_waveform_prev_len ==> plan.draw_previous,
        current_len != t.last_waveform_current_len ==> plan.draw_current,
        s.is_recording && (t.waveform_tick + 1) % 3 == 0 ==> plan.draw_current,
        s.file_list.len() <= usize::MAX ==> !graphs_changed(
            after_tick(t, s, prev_len, current_len),
            s,
        ),
        plan.select matches Some(row) ==> row == s.current_file_index,
{
}

} // verus!
