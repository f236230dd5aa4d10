//! Drafts of the dialogs and saves that wait for an answer. Nothing here reads
//! or writes a file.
use crate::project::dialog_edit;
use crate::project::dialog_edit::{validate_marker_form, validate_marker_forms};
use crate::project::marker_map::MarkerMap;
use crate::project::project;
use crate::project::project::{
    ChunkSettingsData, MarkerSettings, MarkerSettingsData, MetaData,
};
use crate::ui::ui;
use crate::ui::ui::UIState;
use crate::utils::keyboard;
use crate::utils::keyboard::{Action, DialogEdit};
use crate::utils::name_map::NameMap;
use crate::utils::text;
use vstd::prelude::*;

verus! {

/// The answer to a save.
#[derive(Debug)]
pub struct DialogReply {
    pub request_id: u64,
    /// A warning if the save succeeded, else why it failed.
    pub result: Result<Option<String>, String>,
    pub field: Option<String>,
}

/// What the contracts know of [`DialogReply`].
pub ghost struct DialogReplyModel {
    pub request_id: u64,
    pub result: Result<Option<Seq<char>>, Seq<char>>,
    pub field: Option<Seq<char>>,
}

impl View for DialogReply {
    type V = DialogReplyModel;

    open spec fn view(&self) -> DialogReplyModel {
        DialogReplyModel {
            request_id: self.request_id,
            result: match self.result {
                Ok(warning) => Ok(text::option_text(warning)),
                Err(e) => Err(e@),
            },
            field: text::option_text(self.field),
        }
    }
}

/// The view of an answer that may be there.
pub open spec fn reply_view(reply: Option<DialogReply>) -> Option<DialogReplyModel> {
    match reply {
        Some(r) => Some(r@),
        None => None,
    }
}

/// What the dialogs show.
#[derive(Debug)]
pub struct DialogWindow {
    pub project_open: bool,
    pub chunk_open: bool,
    pub markers_open: bool,
    /// A save waits for its answer.
    pub busy: bool,
    pub error_message: String,
    pub alias_error: String,
    pub shortcut_error: String,
    pub begin_reduction_error: String,
    pub begin_repeat_error: String,
    pub end_reduction_error: String,
    pub end_repeat_error: String,
    pub status_message: String,
    pub new_alias: String,
    pub selected_index: i32,
    pub marker_list: Vec<String>,
    /// The fields of the marker form; its alias is the selected one.
    pub shown: MarkerSettingsData,
}

/// What the contracts know of [`DialogWindow`].
#[verifier::ext_equal]
pub ghost struct DialogWindowModel {
    pub project_open: bool,
    pub chunk_open: bool,
    pub markers_open: bool,
    pub busy: bool,
    pub error_message: Seq<char>,
    pub alias_error: Seq<char>,
    pub shortcut_error: Seq<char>,
    pub begin_reduction_error: Seq<char>,
    pub begin_repeat_error: Seq<char>,
    pub end_reduction_error: Seq<char>,
    pub end_repeat_error: Seq<char>,
    pub status_message: Seq<char>,
    pub new_alias: Seq<char>,
    pub selected_index: i32,
    pub marker_list: Seq<Seq<char>>,
    pub shown: project::MarkerSettingsDataModel,
}

impl View for DialogWindow {
    type V = DialogWindowModel;

    open spec fn view(&self) -> DialogWindowModel {
        DialogWindowModel {
            project_open: self.project_open,
            chunk_open: self.chunk_open,
            markers_open: self.markers_open,
            busy: self.busy,
            error_message: self.error_message@,
            alias_error: self.alias_error@,
            shortcut_error: self.shortcut_error@,
            begin_reduction_error: self.begin_reduction_error@,
            begin_repeat_error: self.begin_repeat_error@,
            end_reduction_error: self.end_reduction_error@,
            end_repeat_error: self.end_repeat_error@,
            status_message: self.status_message@,
            new_alias: self.new_alias@,
            selected_index: self.selected_index,
            marker_list: text::texts(self.marker_list@),
            shown: self.shown@,
        }
    }
}

/// The dialogs without their error messages.
pub open spec fn without_errors(w: DialogWindowModel) -> DialogWindowModel {
    DialogWindowModel {
        error_message: Seq::empty(),
        alias_error: Seq::empty(),
        shortcut_error: Seq::empty(),
        begin_reduction_error: Seq::empty(),
        begin_repeat_error: Seq::empty(),
        end_reduction_error: Seq::empty(),
        end_repeat_error: Seq::empty(),
        ..w
    }
}

/// The dialogs with an error, beside its field if it has one.
pub open spec fn with_error(
    w: DialogWindowModel,
    message: Seq<char>,
    field: Option<Seq<char>>,
) -> DialogWindowModel {
    let told = DialogWindowModel { error_message: message, ..w };
    if field == Some("marker"@) {
        DialogWindowModel { alias_error: message, ..told }
    } else if field == Some("shortcut"@) {
        DialogWindowModel { shortcut_error: message, ..told }
    } else if field == Some("begin_reduction"@) {
        DialogWindowModel { begin_reduction_error: message, ..told }
    } else if field == Some("begin_repeat"@) {
        DialogWindowModel { begin_repeat_error: message, ..told }
    } else if field == Some("end_reduction"@) {
        DialogWindowModel { end_reduction_error: message, ..told }
    } else if field == Some("end_repeat"@) {
        DialogWindowModel { end_repeat_error: message, ..told }
    } else {
        told
    }
}

fn clear_marker_errors(window: &mut DialogWindow)
    ensures
        final(window)@ == without_errors(old(window)@),
{
    window.error_message = String::new();
    window.alias_error = String::new();
    window.shortcut_error = String::new();
    window.begin_reduction_error = String::new();
    window.begin_repeat_error = String::new();
    window.end_reduction_error = String::new();
    window.end_repeat_error = String::new();
}

fn show_error(window: &mut DialogWindow, message: &str, field: Option<&str>)
    ensures
        final(window)@ == with_error(
            old(window)@,
            message@,
            match field {
                Some(name) => Some(name@),
                None => None,
            },
        ),
{
    window.error_message = message.to_owned();
    if let Some(name) = field {
        if text::same_text(name, "marker") {
            window.alias_error = message.to_owned();
        } else if text::same_text(name, "shortcut") {
            window.shortcut_error = message.to_owned();
        } else if text::same_text(name, "begin_reduction") {
            window.begin_reduction_error = message.to_owned();
        } else if text::same_text(name, "begin_repeat") {
            window.begin_repeat_error = message.to_owned();
        } else if text::same_text(name, "end_reduction") {
            window.end_reduction_error = message.to_owned();
        } else if text::same_text(name, "end_repeat") {
            window.end_repeat_error = message.to_owned();
        }
    }
    proof {
        reveal_strlit("marker");
        reveal_strlit("shortcut");
        reveal_strlit("begin_reduction");
        reveal_strlit("begin_repeat");
        reveal_strlit("end_reduction");
        reveal_strlit("end_repeat");
    }
}

/// A number that may be there, as it is put into a form.
pub open spec fn field_number(n: Option<int>) -> Seq<char> {
    match n {
        Some(n) => text::number_text(n),
        None => Seq::empty(),
    }
}

pub open spec fn percent_number(n: Option<u8>) -> Option<int> {
    match n {
        Some(n) => Some(n as int),
        None => None,
    }
}

pub open spec fn count_number(n: Option<i32>) -> Option<int> {
    match n {
        Some(n) => Some(n as int),
        None => None,
    }
}

/// The form of a marker.
pub open spec fn form_of(
    alias: Seq<char>,
    marker: project::MarkerSettingsModel,
) -> project::MarkerSettingsDataModel {
    project::MarkerSettingsDataModel {
        marker: alias,
        title: marker.title,
        hint: marker.hint,
        shortcut: match marker.shortcut {
            Some(s) => s,
            None => Seq::empty(),
        },
        begin_audio: marker.assets.begin.audio,
        begin_kind: marker.assets.begin.kind,
        begin_reduction: field_number(percent_number(marker.assets.begin.reduction)),
        begin_repeat: field_number(count_number(marker.assets.begin.repeat)),
        end_audio: marker.assets.end.audio,
        end_kind: marker.assets.end.kind,
        end_reduction: field_number(percent_number(marker.assets.end.reduction)),
        end_repeat: field_number(count_number(marker.assets.end.repeat)),
        section: marker.section,
    }
}

fn percent_text(n: Option<u8>) -> (r: String)
    ensures
        r@ == field_number(percent_number(n)),
{
    match n {
        Some(n) => text::signed_text(n as i64),
        None => String::new(),
    }
}

fn count_text(n: Option<i32>) -> (r: String)
    ensures
        r@ == field_number(count_number(n)),
{
    match n {
        Some(n) => text::signed_text(n as i64),
        None => String::new(),
    }
}

/// Fills the form of a marker.
pub fn marker_form(alias: &str, marker: &MarkerSettings) -> (r: MarkerSettingsData)
    ensures
        r@ == form_of(alias@, marker@),
{
    MarkerSettingsData {
        marker: alias.to_owned(),
        title: marker.title.clone(),
        hint: marker.hint.clone(),
        shortcut: match &marker.shortcut {
            Some(s) => s.clone(),
            None => String::new(),
        },
        begin_audio: marker.assets.begin.audio.clone(),
        begin_kind: marker.assets.begin.kind.clone(),
        begin_reduction: percent_text(marker.assets.begin.reduction),
        begin_repeat: count_text(marker.assets.begin.repeat),
        end_audio: marker.assets.end.audio.clone(),
        end_kind: marker.assets.end.kind.clone(),
        end_reduction: percent_text(marker.assets.end.reduction),
        end_repeat: count_text(marker.assets.end.repeat),
        section: marker.section,
    }
}

/// A sound as a save of the dialog leaves it.
pub open spec fn saved_asset(asset: project::MarkerAssetModel) -> bool {
    &&& asset.repeat is Some
    &&& asset.reduction matches Some(percent) ==> percent <= 100
    &&& (asset.kind == "add"@ && asset.repeat->0 >= 0) || (asset.kind == "underlay"@
        && asset.repeat->0 >= -1)
}

/// A marker as a save of the dialog leaves it.
pub open spec fn saved_marker(marker: project::MarkerSettingsModel) -> bool {
    &&& saved_asset(marker.assets.begin)
    &&& saved_asset(marker.assets.end)
    &&& marker.shortcut matches Some(value) ==> value.len() == 1 && text::is_digit(value[0])
}

proof fn asset_form_reads_back(
    marker: Seq<char>,
    asset: project::MarkerAssetModel,
    fields: dialog_edit::AssetFields,
)
    requires
        saved_asset(asset),
    ensures
        dialog_edit::asset_of(
            marker,
            asset.audio,
            asset.kind,
            field_number(percent_number(asset.reduction)),
            field_number(count_number(asset.repeat)),
            fields,
        ) == Ok::<project::MarkerAssetModel, dialog_edit::FieldErrorModel>(asset),
{
    reveal_strlit("add");
    reveal_strlit("underlay");
    if asset.reduction is Some {
        text::number_reads_back(asset.reduction->0 as int);
        text::decimal_reads_back(asset.reduction->0 as nat);
    } else {
        assert(text::trimmed(Seq::<char>::empty()) =~= Seq::empty());
    }
    text::number_reads_back(asset.repeat->0 as int);
    assert(text::trimmed(asset.kind) == asset.kind);
}

/// A marker that was saved, shown in the form and saved again unchanged is the
/// same marker.
pub proof fn marker_form_reads_back(alias: Seq<char>, marker: project::MarkerSettingsModel)
    requires
        text::trimmed(alias).len() > 0,
        saved_marker(marker),
    ensures
        dialog_edit::form_settings(form_of(alias, marker), Some(marker)) == Ok::<
            project::MarkerSettingsModel,
            dialog_edit::FieldErrorModel,
        >(marker),
{
    asset_form_reads_back(alias, marker.assets.begin, dialog_edit::begin_fields());
    asset_form_reads_back(alias, marker.assets.end, dialog_edit::end_fields());
    match marker.shortcut {
        Some(value) => {
            assert(text::trimmed(value) == value);
        },
        None => {
            assert(text::trimmed(Seq::<char>::empty()) =~= Seq::empty());
        },
    }
}

/// Owns the drafts of the marker dialog and the save that waits for an answer.
pub struct DialogController {
    next_request: u64,
    pending: Option<(u64, DialogEdit)>,
    chunk_path: String,
    markers_open: bool,
    drafts: NameMap<MarkerSettingsData>,
    saved_markers: MarkerMap,
}

/// What the contracts know of [`DialogController`].
#[verifier::ext_equal]
pub ghost struct ControllerModel {
    pub next_request: u64,
    pub pending: Option<(u64, keyboard::DialogEditModel)>,
    pub chunk_path: Seq<char>,
    pub markers_open: bool,
    pub drafts: Map<Seq<char>, project::MarkerSettingsDataModel>,
    pub saved: Map<Seq<char>, project::MarkerSettingsModel>,
}

/// The models of drafts.
pub closed spec fn draft_models(drafts: Map<Seq<char>, MarkerSettingsData>) -> Map<
    Seq<char>,
    project::MarkerSettingsDataModel,
> {
    drafts.map_values(|f: MarkerSettingsData| f@)
}

impl View for DialogController {
    type V = ControllerModel;

    closed spec fn view(&self) -> ControllerModel {
        ControllerModel {
            next_request: self.next_request,
            pending: match self.pending {
                Some((id, edit)) => Some((id, edit@)),
                None => None,
            },
            chunk_path: self.chunk_path@,
            markers_open: self.markers_open,
            drafts: draft_models(self.drafts@),
            saved: self.saved_markers@,
        }
    }
}

/// The dialogs before anything was opened.
pub open spec fn idle_controller() -> ControllerModel {
    ControllerModel {
        next_request: 0,
        pending: None,
        chunk_path: Seq::empty(),
        markers_open: false,
        drafts: Map::empty(),
        saved: Map::empty(),
    }
}

/// What a save that is handed over does to drafts and dialogs.
pub open spec fn after_submit(
    c: ControllerModel,
    w: DialogWindowModel,
    edit: keyboard::DialogEditModel,
    sent: Result<(), Seq<char>>,
) -> (ControllerModel, DialogWindowModel) {
    let id = c.next_request.wrapping_add(1);
    let clean = DialogWindowModel { status_message: Seq::empty(), ..without_errors(w) };
    match sent {
        Ok(()) => (
            ControllerModel { next_request: id, pending: Some((id, edit)), ..c },
            DialogWindowModel { busy: true, ..clean },
        ),
        Err(e) => (
            ControllerModel { next_request: id, ..c },
            with_error(
                clean,
                "Cannot submit changes: "@ + e + ". Your edits are still here."@,
                None,
            ),
        ),
    }
}

/// The view of a sending's result.
pub open spec fn sent_view(r: Result<(), String>) -> Result<(), Seq<char>> {
    match r {
        Ok(()) => Ok(()),
        Err(e) => Err(e@),
    }
}

/// Whether a save was handed over: at most one save waits at a time.
pub open spec fn submitted<F: Fn(Action) -> Result<(), String>>(
    send: &F,
    edit: keyboard::DialogEditModel,
    c: ControllerModel,
    w: DialogWindowModel,
    c2: ControllerModel,
    w2: DialogWindowModel,
) -> bool {
    if c.pending is Some {
        c2 == c && w2 == w
    } else {
        exists|action: Action, sent: Result<(), String>| #[trigger]
            call_ensures(send, (action,), sent) && action@ == (
            keyboard::ActionModel::SaveDialog {
                request_id: c.next_request.wrapping_add(1),
                edit,
            }) && (c2, w2) == after_submit(c, w, edit, sent_view(sent))
    }
}

/// The draft that the fields of the form make of the selected marker.
pub open spec fn captured(c: ControllerModel, w: DialogWindowModel) -> ControllerModel {
    if 0 <= w.selected_index < w.marker_list.len() {
        let alias = w.marker_list[w.selected_index as int];
        ControllerModel {
            drafts: c.drafts.insert(
                alias,
                project::MarkerSettingsDataModel { marker: alias, ..w.shown },
            ),
            ..c
        }
    } else {
        c
    }
}

impl DialogController {
    pub fn new() -> (r: Self)
        ensures
            r@ == idle_controller(),
    {
        let r = DialogController {
            next_request: 0,
            pending: None,
            chunk_path: String::new(),
            markers_open: false,
            drafts: NameMap::new(),
            saved_markers: MarkerMap::new(),
        };
        assert(r@.drafts =~= Map::empty());
        r
    }

    /// Whether the window may close: not while a save waits.
    pub fn may_close(window: &DialogWindow) -> (r: bool)
        ensures
            r == !window@.busy,
    {
        !window.busy
    }

    fn submit<F: Fn(Action) -> Result<(), String>>(
        &mut self,
        window: &mut DialogWindow,
        edit: DialogEdit,
        send: &F,
    )
        requires
            forall|a: Action| call_requires(send, (a,)),
        ensures
            submitted(send, edit@, old(self)@, old(window)@, final(self)@, final(window)@),
    {
        if self.pending.is_some() {
            return;
        }
        clear_marker_errors(window);
        window.status_message = String::new();
        let request_id: u64 = self.next_request.wrapping_add(1);
        self.next_request = request_id;
        let action = Action::SaveDialog { request_id, edit: Box::new(edit.clone()) };
        match send(action) {
            Err(error) => {
                let message = "Cannot submit changes: ".to_owned().concat(error.as_str()).concat(
                    ". Your edits are still here.",
                );
                show_error(window, message.as_str(), None);
            },
            Ok(()) => {
                self.pending = Some((request_id, edit));
                window.busy = true;
            },
        }
    }

    /// Saves the book dialog.
    pub fn save_project<F: Fn(Action) -> Result<(), String>>(
        &mut self,
        window: &mut DialogWindow,
        data: MetaData,
        send: &F,
    )
        requires
            forall|a: Action| call_requires(send, (a,)),
        ensures
            if old(window)@.project_open {
                submitted(
                    send,
                    keyboard::DialogEditModel::Meta(data@),
                    old(self)@,
                    old(window)@,
                    final(self)@,
                    final(window)@,
                )
            } else {
                final(self)@ == old(self)@ && final(window)@ == old(window)@
            },
    {
        if window.project_open {
            self.submit(window, DialogEdit::Meta(data), send);
        }
    }

    /// Closes the book dialog without saving.
    pub fn cancel_project(window: &mut DialogWindow)
        ensures
            final(window)@ == (if old(window)@.busy {
                old(window)@
            } else {
                DialogWindowModel { project_open: false, ..old(window)@ }
            }),
    {
        if !window.busy {
            window.project_open = false;
        }
    }

    /// Remembers which recording a dialog was opened for.
    pub fn open_chunk(&mut self, window: &mut DialogWindow, path: String)
        ensures
            final(self)@ == (ControllerModel { chunk_path: path@, ..old(self)@ }),
            final(window)@ == (DialogWindowModel { error_message: Seq::empty(), ..old(window)@ }),
    {
        self.chunk_path = path;
        window.error_message = String::new();
    }

    /// Saves the recording dialog, for the recording that it was opened for.
    pub fn save_chunk<F: Fn(Action) -> Result<(), String>>(
        &mut self,
        window: &mut DialogWindow,
        data: ChunkSettingsData,
        send: &F,
    )
        requires
            forall|a: Action| call_requires(send, (a,)),
        ensures
            if old(window)@.chunk_open {
                submitted(
                    send,
                    keyboard::DialogEditModel::Chunk {
                        data: data@,
                        expected_path: old(self)@.chunk_path,
                    },
                    old(self)@,
                    old(window)@,
                    final(self)@,
                    final(window)@,
                )
            } else {
                final(self)@ == old(self)@ && final(window)@ == old(window)@
            },
    {
        if window.chunk_open {
            let expected_path = self.chunk_path.clone();
            self.submit(window, DialogEdit::Chunk { data, expected_path }, send);
        }
    }

    /// Closes the recording dialog without saving.
    pub fn cancel_chunk(window: &mut DialogWindow)
        ensures
            final(window)@ == (if old(window)@.busy {
                old(window)@
            } else {
                DialogWindowModel { chunk_open: false, ..old(window)@ }
            }),
    {
        if !window.busy {
            window.chunk_open = false;
        }
    }

    fn put_draft(&mut self, alias: String, form: MarkerSettingsData)
        ensures
            final(self)@ == (ControllerModel {
                drafts: old(self)@.drafts.insert(alias@, form@),
                ..old(self)@
            }),
    {
        let ghost before = self.drafts@;
        let ghost key = alias@;
        self.drafts.insert(alias, form);
        proof {
            assert(self.drafts@ == before.insert(key, form));
            assert(self@.drafts =~= old(self)@.drafts.insert(key, form@));
        }
    }

    fn capture_marker(&mut self, window: &DialogWindow)
        ensures
            final(self)@ == captured(old(self)@, window@),
    {
        if window.selected_index < 0 || window.selected_index as usize >= window.marker_list.len() {
            return;
        }
        let i: usize = window.selected_index as usize;
        assert(window@.marker_list[i as int] == window.marker_list@[i as int]@);
        let alias = window.marker_list[i].clone();
        let mut form = window.shown.clone();
        form.marker = alias.clone();
        self.put_draft(alias, form);
    }

    fn ordered_aliases(&self) -> (r: Vec<String>)
        ensures
            text::texts(r@) == text::ordered(self@.drafts.dom()),
            text::lists(text::texts(r@), self@.drafts.dom()),
    {
        let total: usize = self.drafts.len();
        let mut names: Vec<String> = Vec::new();
        let mut i: usize = 0;
        while i < total
            invariant
                i <= total == self.drafts.names().len(),
                text::texts(names@) == self.drafts.names().take(i as int),
            decreases total - i,
        {
            let ghost before = text::texts(names@);
            names.push(self.drafts.name_at(i).clone());
            proof {
                assert(text::texts(names@) =~= before.push(self.drafts.names()[i as int]));
                assert(before.push(self.drafts.names()[i as int]) =~= self.drafts.names().take(
                    i + 1,
                ));
            }
            i = i + 1;
        }
        proof {
            assert(text::texts(names@) =~= self.drafts.names());
            assert(self@.drafts.dom() =~= self.drafts@.dom());
        }
        text::sort_names(names, Ghost(self@.drafts.dom()))
    }

    fn draft(&self, alias: &str) -> (r: Option<&MarkerSettingsData>)
        ensures
            match r {
                Some(form) => self@.drafts.dom().contains(alias@) && form@ == self@.drafts[alias@],
                None => !self@.drafts.dom().contains(alias@),
            },
    {
        self.drafts.get(alias)
    }
}

/// The dialogs with a form in their fields; the alias stays where it is.
pub open spec fn displaying(
    w: DialogWindowModel,
    form: project::MarkerSettingsDataModel,
) -> DialogWindowModel {
    DialogWindowModel {
        shown: project::MarkerSettingsDataModel { marker: w.shown.marker, ..form },
        ..w
    }
}

fn display_marker(window: &mut DialogWindow, form: &MarkerSettingsData)
    ensures
        final(window)@ == displaying(old(window)@, form@),
{
    window.shown.title = form.title.clone();
    window.shown.hint = form.hint.clone();
    window.shown.shortcut = form.shortcut.clone();
    window.shown.section = form.section;
    window.shown.begin_audio = form.begin_audio.clone();
    window.shown.begin_kind = form.begin_kind.clone();
    window.shown.begin_reduction = form.begin_reduction.clone();
    window.shown.begin_repeat = form.begin_repeat.clone();
    window.shown.end_audio = form.end_audio.clone();
    window.shown.end_kind = form.end_kind.clone();
    window.shown.end_reduction = form.end_reduction.clone();
    window.shown.end_repeat = form.end_repeat.clone();
}

/// What choosing a marker does: the fields go into the draft of the one that was
/// selected, and the chosen draft comes into the fields.
pub open spec fn after_select(c: ControllerModel, w: DialogWindowModel, index: i32) -> (
    ControllerModel,
    DialogWindowModel,
) {
    let names = text::ordered(c.drafts.dom());
    if w.busy || !(0 <= index < names.len()) {
        (c, w)
    } else {
        let c2 = captured(c, w);
        (
            c2,
            DialogWindowModel {
                status_message: "Save applies to the selected marker only."@,
                ..without_errors(
                    displaying(
                        DialogWindowModel { selected_index: index, ..w },
                        c2.drafts[names[index as int]],
                    ),
                )
            },
        )
    }
}

/// What asking for a new marker does.
pub open spec fn after_add(c: ControllerModel, w: DialogWindowModel, typed: Seq<char>) -> (
    ControllerModel,
    DialogWindowModel,
) {
    let alias = text::trimmed(typed);
    let clean = without_errors(w);
    if !w.markers_open || w.busy {
        (c, w)
    } else if alias.len() == 0 {
        (c, DialogWindowModel { alias_error: "Enter a marker alias."@, ..clean })
    } else if c.drafts.dom().contains(alias) {
        (c, DialogWindowModel { alias_error: "This alias already exists."@, ..clean })
    } else {
        let kept = captured(c, clean);
        let form = form_of(alias, project::default_marker_settings());
        let c2 = ControllerModel { drafts: kept.drafts.insert(alias, form), ..kept };
        let names = text::ordered(c2.drafts.dom());
        (
            c2,
            DialogWindowModel {
                new_alias: Seq::empty(),
                status_message: "New marker — not saved yet."@,
                ..displaying(
                    DialogWindowModel {
                        marker_list: names,
                        selected_index: names.index_of(alias) as i32,
                        ..clean
                    },
                    form,
                )
            },
        )
    }
}

/// The dialogs of a marker snapshot that is opened.
pub open spec fn after_open(
    c: ControllerModel,
    w: DialogWindowModel,
    snapshot: Map<Seq<char>, project::MarkerSettingsModel>,
) -> (ControllerModel, DialogWindowModel) {
    let drafts = Map::new(
        |alias: Seq<char>| snapshot.dom().contains(alias),
        |alias: Seq<char>| form_of(alias, snapshot[alias]),
    );
    let names = text::ordered(drafts.dom());
    let listed = DialogWindowModel {
        marker_list: names,
        selected_index: if names.len() == 0 {
            (-1) as i32
        } else {
            0i32
        },
        ..w
    };
    let filled = if names.len() == 0 {
        listed
    } else {
        displaying(listed, drafts[names[0]])
    };
    (
        ControllerModel { saved: snapshot, drafts, markers_open: true, ..c },
        DialogWindowModel {
            new_alias: Seq::empty(),
            status_message: "Save applies to the selected marker only."@,
            markers_open: true,
            ..without_errors(filled)
        },
    )
}

/// Follows the marker dialog as it is opened and closed from outside.
pub open spec fn after_follow(
    c: ControllerModel,
    w: DialogWindowModel,
    open: bool,
    snapshot: Map<Seq<char>, project::MarkerSettingsModel>,
) -> (ControllerModel, DialogWindowModel) {
    if open && !c.markers_open {
        after_open(c, w, snapshot)
    } else if !open && c.markers_open {
        (
            ControllerModel { markers_open: false, drafts: Map::empty(), ..c },
            DialogWindowModel { markers_open: false, ..w },
        )
    } else {
        (c, w)
    }
}

/// The markers that are known to be saved, with one that was just saved.
pub open spec fn with_saved(
    saved: Map<Seq<char>, project::MarkerSettingsModel>,
    form: project::MarkerSettingsDataModel,
) -> Map<Seq<char>, project::MarkerSettingsModel> {
    let known = if saved.dom().contains(form.marker) {
        Some(saved[form.marker])
    } else {
        None
    };
    match dialog_edit::form_settings(form, known) {
        Ok(settings) => saved.insert(form.marker, settings),
        Err(_) => saved,
    }
}

/// What an answer does. One to a save that does not wait is ignored. A warning
/// keeps the dialog open.
pub open spec fn after_reply(
    c: ControllerModel,
    w: DialogWindowModel,
    reply: DialogReplyModel,
) -> (ControllerModel, DialogWindowModel) {
    match c.pending {
        None => (c, w),
        Some((id, edit)) => if id != reply.request_id {
            (c, w)
        } else {
            let c1 = ControllerModel { pending: None, ..c };
            let w1 = DialogWindowModel { busy: false, ..w };
            match reply.result {
                Err(e) => (c1, with_error(w1, e, reply.field)),
                Ok(warning) => {
                    let (c2, w2) = match edit {
                        keyboard::DialogEditModel::Meta(_) => (
                            c1,
                            DialogWindowModel {
                                project_open: w1.project_open && warning is Some,
                                ..w1
                            },
                        ),
                        keyboard::DialogEditModel::Chunk { .. } => (
                            c1,
                            DialogWindowModel {
                                chunk_open: w1.chunk_open && warning is Some,
                                ..w1
                            },
                        ),
                        keyboard::DialogEditModel::Marker(form) => (
                            ControllerModel { saved: with_saved(c1.saved, form), ..c1 },
                            DialogWindowModel { status_message: "Saved: "@ + form.marker, ..w1 },
                        ),
                        keyboard::DialogEditModel::RefreshMetadata => (
                            c1,
                            DialogWindowModel {
                                status_message: "File metadata refreshed."@,
                                ..w1
                            },
                        ),
                    };
                    match warning {
                        Some(text) => (c2, with_error(w2, "Saved, but "@ + text, None)),
                        None => (c2, w2),
                    }
                },
            }
        },
    }
}

/// Whether an answer is to a save of the book dialog that waits and succeeded.
pub open spec fn saves_meta(c: ControllerModel, reply: Option<DialogReplyModel>) -> bool {
    match (c.pending, reply) {
        (Some((id, edit)), Some(answer)) => {
            id == answer.request_id && edit is Meta && answer.result is Ok
        },
        _ => false,
    }
}

impl DialogController {
    /// Chooses a marker of the list.
    pub fn select_marker(&mut self, window: &mut DialogWindow, index: i32)
        ensures
            (final(self)@, final(window)@) == after_select(old(self)@, old(window)@, index),
    {
        if window.busy {
            return;
        }
        let names = self.ordered_aliases();
        if index < 0 || index as usize >= names.len() {
            return;
        }
        let alias = names[index as usize].as_str();
        proof {
            assert(text::ordered(self@.drafts.dom())[index as int] == alias@);
            assert(text::texts(names@).contains(alias@));
        }
        self.capture_marker(window);
        window.selected_index = index;
        if let Some(form) = self.draft(alias) {
            display_marker(window, form);
        }
        clear_marker_errors(window);
        window.status_message = "Save applies to the selected marker only.".to_owned();
    }

    /// Adds a draft for a new marker.
    pub fn add_marker(&mut self, window: &mut DialogWindow, typed: &str)
        ensures
            (final(self)@, final(window)@) == after_add(old(self)@, old(window)@, typed@),
    {
        if !window.markers_open || window.busy {
            return;
        }
        clear_marker_errors(window);
        let alias = text::trim(typed);
        if alias.as_str().is_empty() {
            window.alias_error = "Enter a marker alias.".to_owned();
            return;
        }
        if self.draft(alias.as_str()).is_some() {
            window.alias_error = "This alias already exists.".to_owned();
            return;
        }
        self.capture_marker(window);
        let form = marker_form(alias.as_str(), &MarkerSettings::default());
        self.put_draft(alias.clone(), form.clone());
        let names = self.ordered_aliases();
        let ghost order = text::ordered(self@.drafts.dom());
        proof {
            assert(self@.drafts.dom().contains(alias@));
            assert(order.contains(alias@));
        }
        let mut i: usize = 0;
        while i < names.len() && !text::same_text(names[i].as_str(), alias.as_str())
            invariant
                i <= names.len(),
                order == text::texts(names@),
                order.contains(alias@),
                forall|k: int| 0 <= k < i ==> #[trigger] order[k] != alias@,
            decreases names.len() - i,
        {
            assert(order[i as int] == names@[i as int]@);
            i = i + 1;
        }
        proof {
            let k = order.index_of(alias@);
            assert(0 <= k < order.len() && order[k] == alias@) by {
                let j = choose|j: int| 0 <= j < order.len() && order[j] == alias@;
                assert(order[j] == alias@);
            }
            assert(order[i as int] == names@[i as int]@);
            assert(i == k);
        }
        window.marker_list = names;
        window.selected_index = i as i32;
        display_marker(window, &form);
        window.new_alias = String::new();
        window.status_message = "New marker — not saved yet.".to_owned();
    }

    /// Saves the selected marker only; other drafts stay where they are.
    pub fn save_marker<F: Fn(Action) -> Result<(), String>>(
        &mut self,
        window: &mut DialogWindow,
        form: MarkerSettingsData,
        send: &F,
    )
        requires
            forall|a: Action| call_requires(send, (a,)),
        ensures
            ({
                let clean = DialogWindowModel {
                    status_message: Seq::empty(),
                    ..without_errors(old(window)@)
                };
                if !old(window)@.markers_open || old(window)@.busy {
                    final(self)@ == old(self)@ && final(window)@ == old(window)@
                } else {
                    match dialog_edit::accepted(old(self)@.saved, seq![form@]) {
                        Err(e) => {
                            &&& final(self)@ == old(self)@
                            &&& final(window)@ == with_error(
                                clean,
                                dialog_edit::field_error_text(e),
                                Some(e.field),
                            )
                        },
                        Ok(_) => submitted(
                            send,
                            keyboard::DialogEditModel::Marker(form@),
                            ControllerModel {
                                drafts: old(self)@.drafts.insert(form@.marker, form@),
                                ..old(self)@
                            },
                            clean,
                            final(self)@,
                            final(window)@,
                        ),
                    }
                }
            }),
    {
        if !window.markers_open || window.busy {
            return;
        }
        clear_marker_errors(window);
        window.status_message = String::new();
        let mut forms: Vec<MarkerSettingsData> = Vec::new();
        forms.push(form.clone());
        assert(dialog_edit::form_models(forms@) =~= seq![form@]);
        match validate_marker_forms(&self.saved_markers, forms.as_slice()) {
            Err(e) => {
                let message = e.text();
                show_error(window, message.as_str(), Some(e.field.as_str()));
            },
            Ok(_) => {
                self.put_draft(form.marker.clone(), form.clone());
                self.submit(window, DialogEdit::Marker(form), send);
            },
        }
    }

    /// Asks for sizes and lengths to be measured again.
    pub fn update_meta<F: Fn(Action) -> Result<(), String>>(
        &mut self,
        window: &mut DialogWindow,
        send: &F,
    )
        requires
            forall|a: Action| call_requires(send, (a,)),
        ensures
            if old(window)@.markers_open && !old(window)@.busy {
                submitted(
                    send,
                    keyboard::DialogEditModel::RefreshMetadata,
                    old(self)@,
                    old(window)@,
                    final(self)@,
                    final(window)@,
                )
            } else {
                final(self)@ == old(self)@ && final(window)@ == old(window)@
            },
    {
        if window.markers_open && !window.busy {
            self.submit(window, DialogEdit::RefreshMetadata, send);
        }
    }

    /// Closes the marker dialog and drops its drafts.
    pub fn cancel_markers(&mut self, window: &mut DialogWindow, state: &mut UIState)
        ensures
            old(window)@.busy ==> final(self)@ == old(self)@ && final(window)@ == old(window)@
                && final(state)@ == old(state)@,
            !old(window)@.busy ==> {
                &&& final(self)@ == (ControllerModel {
                    markers_open: false,
                    drafts: Map::empty(),
                    ..old(self)@
                })
                &&& final(window)@ == (DialogWindowModel { markers_open: false, ..old(window)@ })
                &&& final(state)@ == (ui::UIStateModel { dialog_markers_open: false, ..old(state)@ })
            },
    {
        if window.busy {
            return;
        }
        self.markers_open = false;
        self.drop_drafts();
        state.dialog_markers_open = false;
        window.markers_open = false;
    }

    fn drop_drafts(&mut self)
        ensures
            final(self)@ == (ControllerModel { drafts: Map::empty(), ..old(self)@ }),
    {
        self.drafts = NameMap::new();
        assert(self@.drafts =~= Map::empty());
    }

    fn open_markers(&mut self, window: &mut DialogWindow, snapshot: MarkerMap)
        ensures
            (final(self)@, final(window)@) == after_open(old(self)@, old(window)@, snapshot@),
    {
        let ghost target = after_open(old(self)@, old(window)@, snapshot@).0.drafts;
        self.drop_drafts();
        let total: usize = snapshot.len();
        let mut i: usize = 0;
        while i < total
            invariant
                i <= total == snapshot.names().len(),
                snapshot.names().no_duplicates(),
                self@ == (ControllerModel { drafts: self@.drafts, ..old(self)@ }),
                forall|name: Seq<char>| #[trigger]
                    snapshot@.dom().contains(name) <==> snapshot.names().contains(name),
                forall|name: Seq<char>| #[trigger]
                    self@.drafts.dom().contains(name) <==> snapshot.names().take(
                        i as int,
                    ).contains(name),
                forall|name: Seq<char>| #[trigger]
                    self@.drafts.dom().contains(name) ==> self@.drafts[name] == form_of(
                        name,
                        snapshot@[name],
                    ),
            decreases total - i,
        {
            let alias = snapshot.name_at(i);
            let form = marker_form(alias.as_str(), snapshot.settings_at(i));
            let ghost before = self@.drafts;
            let ghost taken = snapshot.names().take(i as int);
            self.put_draft(alias.clone(), form);
            proof {
                let x = snapshot.names()[i as int];
                assert(snapshot.names().take(i + 1) =~= taken.push(x));
                assert forall|name: Seq<char>| #[trigger]
                    self@.drafts.dom().contains(name) <==> snapshot.names().take(i + 1).contains(
                    name,
                ) by {
                    assert(before.dom().contains(name) <==> taken.contains(name));
                    let t = taken.push(x);
                    assert(t[t.len() - 1] == x);
                    if taken.contains(name) {
                        let k = choose|k: int| 0 <= k < taken.len() && taken[k] == name;
                        assert(t[k] == name);
                    }
                    if t.contains(name) {
                        let k = choose|k: int| 0 <= k < t.len() && t[k] == name;
                        if k < taken.len() {
                            assert(taken[k] == name);
                        }
                    }
                }
            }
            i = i + 1;
        }
        proof {
            assert(snapshot.names().take(i as int) =~= snapshot.names());
            assert(self@.drafts.dom() =~= target.dom());
            assert(self@.drafts =~= target);
        }
        self.saved_markers = snapshot;
        self.markers_open = true;
        let names = self.ordered_aliases();
        assert(text::ordered(target.dom()).len() == names@.len());
        if names.len() == 0 {
            window.marker_list = names;
            window.selected_index = -1;
        } else {
            proof {
                assert(text::ordered(target.dom())[0] == names@[0]@);
                assert(text::texts(names@).contains(names@[0]@));
            }
            let first = names[0].clone();
            window.marker_list = names;
            window.selected_index = 0;
            if let Some(form) = self.draft(first.as_str()) {
                display_marker(window, form);
            }
        }
        clear_marker_errors(window);
        window.new_alias = String::new();
        window.status_message = "Save applies to the selected marker only.".to_owned();
        window.markers_open = true;
    }

    fn take_reply(&mut self, window: &mut DialogWindow, reply: DialogReply)
        ensures
            (final(self)@, final(window)@) == after_reply(old(self)@, old(window)@, reply@),
    {
        let waits = match &self.pending {
            Some((id, _)) => *id == reply.request_id,
            None => false,
        };
        if !waits {
            return;
        }
        let edit = match self.pending.take() {
            Some((_, edit)) => edit,
            None => return,
        };
        window.busy = false;
        match reply.result {
            Err(e) => {
                match reply.field {
                    Some(field) => show_error(window, e.as_str(), Some(field.as_str())),
                    None => show_error(window, e.as_str(), None),
                }
            },
            Ok(warning) => {
                match edit {
                    DialogEdit::Meta(_) => {
                        if warning.is_none() {
                            window.project_open = false;
                        }
                    },
                    DialogEdit::Chunk { .. } => {
                        if warning.is_none() {
                            window.chunk_open = false;
                        }
                    },
                    DialogEdit::Marker(form) => {
                        if let Ok(settings) = validate_marker_form(
                            &form,
                            self.saved_markers.get(form.marker.as_str()),
                        ) {
                            self.saved_markers.insert(form.marker.clone(), settings);
                        }
                        window.status_message = "Saved: ".to_owned().concat(form.marker.as_str());
                    },
                    DialogEdit::RefreshMetadata => {
                        window.status_message = "File metadata refreshed.".to_owned();
                    },
                }
                if let Some(text) = warning {
                    let message = "Saved, but ".to_owned().concat(text.as_str());
                    show_error(window, message.as_str(), None);
                }
            },
        }
    }

    fn follow(&mut self, window: &mut DialogWindow, open: bool, snapshot: &MarkerMap)
        ensures
            (final(self)@, final(window)@) == after_follow(
                old(self)@,
                old(window)@,
                open,
                snapshot@,
            ),
    {
        if open && !self.markers_open {
            self.open_markers(window, snapshot.clone());
        } else if !open && self.markers_open {
            self.markers_open = false;
            self.drop_drafts();
            window.markers_open = false;
        }
    }

    fn saves_book(&self, reply: &DialogReply) -> (r: bool)
        ensures
            r == saves_meta(self@, Some(reply@)),
    {
        match (&self.pending, &reply.result) {
            (Some((id, DialogEdit::Meta(_))), Ok(_)) => *id == reply.request_id,
            _ => false,
        }
    }

    /// Follows the shared state: the marker dialog, and the answer to a save. Gives
    /// whether the book data that is shown has to be renewed.
    pub fn sync(&mut self, window: &mut DialogWindow, state: &mut UIState) -> (meta_saved: bool)
        ensures
            final(state)@ == (ui::UIStateModel { dialog_save_result: None, ..old(state)@ }),
            ({
                let (c, w) = after_follow(
                    old(self)@,
                    old(window)@,
                    old(state)@.dialog_markers_open,
                    old(state)@.dialog_marker_snapshot,
                );
                &&& meta_saved == saves_meta(c, old(state)@.dialog_save_result)
                &&& (final(self)@, final(window)@) == (match old(state)@.dialog_save_result {
                    Some(reply) => after_reply(c, w, reply),
                    None => (c, w),
                })
            }),
    {
        self.follow(window, state.dialog_markers_open, &state.dialog_marker_snapshot);
        match take_result(state) {
            None => false,
            Some(reply) => {
                let meta_saved = self.saves_book(&reply);
                self.take_reply(window, reply);
                meta_saved
            },
        }
    }
}

fn take_result(state: &mut UIState) -> (r: Option<DialogReply>)
    ensures
        reply_view(r) == old(state)@.dialog_save_result,
        final(state)@ == (ui::UIStateModel { dialog_save_result: None, ..old(state)@ }),
{
    state.dialog_save_result.take()
}

/// What was typed for a marker is still there after another marker was chosen and then this
/// one again.
pub proof fn choosing_another_marker_keeps_the_draft(
    c: ControllerModel,
    w: DialogWindowModel,
    i: i32,
    j: i32,
)
    requires
        c.drafts.dom().finite(),
        w.marker_list == text::ordered(c.drafts.dom()),
        0 <= i < w.marker_list.len(),
        0 <= j < w.marker_list.len(),
        w.selected_index == i,
        i != j,
        !w.busy,
    ensures
        ({
            let (c2, w2) = after_select(c, w, j);
            let (c3, w3) = after_select(c2, w2, i);
            &&& w2.selected_index == j
            &&& w2.shown == (project::MarkerSettingsDataModel {
                marker: w.shown.marker,
                ..c.drafts[w.marker_list[j as int]]
            })
            &&& w3.selected_index == i
            &&& w3.shown == w.shown
            &&& c3.saved == c.saved
            &&& c3.pending == c.pending
        }),
{
    let names = text::ordered(c.drafts.dom());
    text::finite_sets_are_ordered(c.drafts.dom());
    let a = names[i as int];
    let b = names[j as int];
    assert(names.contains(a));
    assert(names.contains(b));
    assert(a != b);
    let (c2, w2) = after_select(c, w, j);
    assert(c2.drafts.dom() =~= c.drafts.dom());
    let c3 = captured(c2, w2);
    assert(c3.drafts.dom() =~= c.drafts.dom());
    assert(c3.drafts[a] == c2.drafts[a]);
}

/// A save that is handed over waits alone, under a number of its own, and the dialogs wait
/// with it; one that cannot be handed over leaves nothing waiting. Drafts are kept either
/// way.
pub proof fn saves_wait_for_their_answer(
    c: ControllerModel,
    w: DialogWindowModel,
    edit: keyboard::DialogEditModel,
    cause: Seq<char>,
)
    requires
        c.pending is None,
        c.next_request < u64::MAX,
    ensures
        ({
            let (c2, w2) = after_submit(c, w, edit, Ok(()));
            let (c3, w3) = after_submit(c, w, edit, Err(cause));
            &&& c2.pending == Some(((c.next_request + 1) as u64, edit))
            &&& c2.next_request == c.next_request + 1
            &&& w2.busy
            &&& c2.drafts == c.drafts
            &&& w2.shown == w.shown
            &&& c3.pending is None
            &&& c3.drafts == c.drafts
            &&& w3.shown == w.shown
            &&& w3.busy == w.busy
        }),
{
}

/// An answer to another save, or to none, changes nothing. The answer to the save that waits
/// ends the waiting; only one that succeeded without a warning closes the dialog of the book
/// or of a recording, and drafts are kept.
pub proof fn answers_end_the_waiting(
    c: ControllerModel,
    w: DialogWindowModel,
    reply: DialogReplyModel,
    id: u64,
    edit: keyboard::DialogEditModel,
)
    requires
        c.pending == Some((id, edit)),
    ensures
        ({
            let (c2, w2) = after_reply(c, w, reply);
            &&& id != reply.request_id ==> c2 == c && w2 == w
            &&& id == reply.request_id ==> {
                &&& c2.pending is None
                &&& !w2.busy
                &&& c2.drafts == c.drafts
                &&& w2.shown == w.shown
                &&& reply.result is Err ==> w2.project_open == w.project_open && w2.chunk_open
                    == w.chunk_open && c2.saved == c.saved
                &&& edit is Meta && (reply.result matches Ok(warning) && warning is None)
                    ==> !w2.project_open && w2.chunk_open == w.chunk_open
                &&& edit is Chunk && (reply.result matches Ok(warning) && warning is None)
                    ==> !w2.chunk_open && w2.project_open == w.project_open
                &&& (reply.result matches Ok(warning) && warning is Some) ==> w2.project_open
                    == w.project_open && w2.chunk_open == w.chunk_open
            }
            &&& after_reply(ControllerModel { pending: None, ..c }, w, reply) == (
                ControllerModel { pending: None, ..c },
                w,
            )
        }),
{
}

/// A new marker needs a name that no other one has. It gets a draft of its own; what was
/// typed for the selected one is kept, and every other draft too.
pub proof fn new_markers_get_a_draft(
    c: ControllerModel,
    w: DialogWindowModel,
    typed: Seq<char>,
    other: Seq<char>,
)
    requires
        w.markers_open,
        !w.busy,
        0 <= w.selected_index < w.marker_list.len() ==> other
            != w.marker_list[w.selected_index as int],
    ensures
        ({
            let alias = text::trimmed(typed);
            let (c2, w2) = after_add(c, w, typed);
            &&& alias.len() == 0 || c.drafts.dom().contains(alias) ==> c2 == c
                && w2.alias_error.len() > 0 && w2.shown == w.shown
            &&& alias.len() > 0 && !c.drafts.dom().contains(alias) ==> {
                &&& c2.drafts.dom().contains(alias)
                &&& c2.drafts[alias].marker == alias
                &&& c2.saved == c.saved
                &&& other != alias ==> c2.drafts.dom().contains(other) == c.drafts.dom().contains(
                    other,
                )
                &&& other != alias && c.drafts.dom().contains(other) ==> c2.drafts[other]
                    == c.drafts[other]
                &&& w2.new_alias.len() == 0
            }
        }),
{
    reveal_strlit("Enter a marker alias.");
    reveal_strlit("This alias already exists.");
}

/// An error is shown, and beside the field that it is about, and beside no other one.
pub proof fn errors_stand_beside_their_field(w: DialogWindowModel, message: Seq<char>)
    ensures
        with_error(w, message, None) == (DialogWindowModel { error_message: message, ..w }),
        with_error(w, message, Some("marker"@)) == (DialogWindowModel {
            error_message: message,
            alias_error: message,
            ..w
        }),
        with_error(w, message, Some("shortcut"@)) == (DialogWindowModel {
            error_message: message,
            shortcut_error: message,
            ..w
        }),
        with_error(w, message, Some("begin_reduction"@)) == (DialogWindowModel {
            error_message: message,
            begin_reduction_error: message,
            ..w
        }),
        with_error(w, message, Some("begin_repeat"@)) == (DialogWindowModel {
            error_message: message,
            begin_repeat_error: message,
            ..w
        }),
        with_error(w, message, Some("end_reduction"@)) == (DialogWindowModel {
            error_message: message,
            end_reduction_error: message,
            ..w
        }),
        with_error(w, message, Some("end_repeat"@)) == (DialogWindowModel {
            error_message: message,
            end_repeat_error: message,
            ..w
        }),
{
    reveal_strlit("marker");
    reveal_strlit("shortcut");
    reveal_strlit("begin_reduction");
    reveal_strlit("begin_repeat");
    reveal_strlit("end_reduction");
    reveal_strlit("end_repeat");
    assert("marker"@.len() == 6);
    assert("shortcut"@.len() == 8);
    assert("begin_reduction"@.len() == 15);
    assert("begin_repeat"@.len() == 12);
    assert("end_reduction"@.len() == 13);
    assert("end_repeat"@.len() == 10);
}

/// The marker dialog opens with a draft for each marker: what is stored of it, field by
/// field. The first one is shown.
pub proof fn opened_markers_show_what_is_stored(
    c: ControllerModel,
    w: DialogWindowModel,
    snapshot: Map<Seq<char>, project::MarkerSettingsModel>,
    alias: Seq<char>,
)
    requires
        snapshot.dom().finite(),
        snapshot.dom().contains(alias),
    ensures
        ({
            let (c2, w2) = after_open(c, w, snapshot);
            let form = c2.drafts[alias];
            let m = snapshot[alias];
            &&& c2.drafts.dom() =~= snapshot.dom()
            &&& form.marker == alias
            &&& form.title == m.title
            &&& form.hint == m.hint
            &&& form.section == m.section
            &&& form.begin_audio == m.assets.begin.audio
            &&& form.begin_kind == m.assets.begin.kind
            &&& form.end_audio == m.assets.end.audio
            &&& form.end_kind == m.assets.end.kind
            &&& m.shortcut matches Some(key) ==> form.shortcut == key
            &&& m.shortcut is None ==> form.shortcut.len() == 0
            &&& c2.saved == snapshot
            &&& c2.markers_open && w2.markers_open
            &&& w2.selected_index == 0
            &&& w2.marker_list.contains(alias)
            &&& w2.shown.title == snapshot[w2.marker_list[0]].title
            &&& w2.shown.begin_audio == snapshot[w2.marker_list[0]].assets.begin.audio
            &&& w2.shown.end_audio == snapshot[w2.marker_list[0]].assets.end.audio
        }),
{
    let (c2, w2) = after_open(c, w, snapshot);
    assert(c2.drafts.dom() =~= snapshot.dom());
    text::finite_sets_are_ordered(c2.drafts.dom());
    let names = text::ordered(c2.drafts.dom());
    assert(names.contains(alias));
    assert(names.contains(names[0]));
    assert(c2.drafts.dom().contains(names[0]));
}

} // verus!
