//! Commands to the recorder, and the keys that give them.
use crate::project::project;
use crate::project::project::{ChunkSettingsData, KeyBindings, MarkerSettingsData, MetaData};
use crate::utils::text;
use vstd::prelude::*;

verus! {

/// An edit that a dialog asks to save.
#[derive(Debug, PartialEq)]
pub enum DialogEdit {
    Meta(MetaData),
    Chunk { data: ChunkSettingsData, expected_path: String },
    Marker(MarkerSettingsData),
    RefreshMetadata,
}

/// What the contracts know of [`DialogEdit`].
pub ghost enum DialogEditModel {
    Meta(project::MetaDataModel),
    Chunk { data: project::ChunkSettingsDataModel, expected_path: Seq<char> },
    Marker(project::MarkerSettingsDataModel),
    RefreshMetadata,
}

impl View for DialogEdit {
    type V = DialogEditModel;

    open spec fn view(&self) -> DialogEditModel {
        match self {
            DialogEdit::Meta(data) => DialogEditModel::Meta(data@),
            DialogEdit::Chunk { data, expected_path } => DialogEditModel::Chunk {
                data: data@,
                expected_path: expected_path@,
            },
            DialogEdit::Marker(data) => DialogEditModel::Marker(data@),
            DialogEdit::RefreshMetadata => DialogEditModel::RefreshMetadata,
        }
    }
}

impl Clone for DialogEdit {
    fn clone(&self) -> (r: Self)
        ensures
            r@ == self@,
    {
        match self {
            DialogEdit::Meta(data) => DialogEdit::Meta(data.clone()),
            DialogEdit::Chunk { data, expected_path } => DialogEdit::Chunk {
                data: data.clone(),
                expected_path: expected_path.clone(),
            },
            DialogEdit::Marker(data) => DialogEdit::Marker(data.clone()),
            DialogEdit::RefreshMetadata => DialogEdit::RefreshMetadata,
        }
    }
}

/// A command.
#[derive(Debug, PartialEq)]
pub enum Action {
    Record {
        duration_secs: Option<u64>,
    },
    Accept,
    Stop,
    Prev,
    Next,
    PrevSect,
    NextSect,
    Play,
    ModeUpdate,
    ModeInsert,
    Goto {
        index: Option<i32>,
        play: bool,
    },
    SearchHintUp(String),
    SearchHintDown(String),
    Shutdown,
    SaveDialog {
        request_id: u64,
        edit: Box<DialogEdit>,
    },
    AddMarker {
        marker: String,
    },
    AddMarkers {
        file_index: i32,
        markers: Vec<String>,
    },
    RemoveMarkers {
        file_index: i32,
        markers: Vec<String>,
    },
    SetMarkers {
        file_index: i32,
        markers: Vec<String>,
    },
    OpenMarkerSettings,
    Compile,
    CompileCancel,
    Transcribe {
        file_index: i32,
    },
    OpenShortcutsDialog,
    OpenDeleteChunkDialog,
    ConfirmDeleteChunk {
        ui_index: i32,
    },
    Nothing,
}

/// What the contracts know of a command.
pub ghost enum ActionModel {
    Record {
        duration_secs: Option<u64>,
    },
    Accept,
    Stop,
    Prev,
    Next,
    PrevSect,
    NextSect,
    Play,
    ModeUpdate,
    ModeInsert,
    Goto {
        index: Option<i32>,
        play: bool,
    },
    SearchHintUp(Seq<char>),
    SearchHintDown(Seq<char>),
    Shutdown,
    SaveDialog {
        request_id: u64,
        edit: DialogEditModel,
    },
    AddMarker {
        marker: Seq<char>,
    },
    AddMarkers {
        file_index: i32,
        markers: Seq<Seq<char>>,
    },
    RemoveMarkers {
        file_index: i32,
        markers: Seq<Seq<char>>,
    },
    SetMarkers {
        file_index: i32,
        markers: Seq<Seq<char>>,
    },
    OpenMarkerSettings,
    Compile,
    CompileCancel,
    Transcribe {
        file_index: i32,
    },
    OpenShortcutsDialog,
    OpenDeleteChunkDialog,
    ConfirmDeleteChunk {
        ui_index: i32,
    },
    Nothing,
}

impl View for Action {
    type V = ActionModel;

    open spec fn view(&self) -> ActionModel {
        match self {
            Action::Record { duration_secs } => ActionModel::Record { duration_secs: *duration_secs },
            Action::Accept => ActionModel::Accept,
            Action::Stop => ActionModel::Stop,
            Action::Prev => ActionModel::Prev,
            Action::Next => ActionModel::Next,
            Action::PrevSect => ActionModel::PrevSect,
            Action::NextSect => ActionModel::NextSect,
            Action::Play => ActionModel::Play,
            Action::ModeUpdate => ActionModel::ModeUpdate,
            Action::ModeInsert => ActionModel::ModeInsert,
            Action::Goto { index, play } => ActionModel::Goto { index: *index, play: *play },
            Action::SearchHintUp(query) => ActionModel::SearchHintUp(query@),
            Action::SearchHintDown(query) => ActionModel::SearchHintDown(query@),
            Action::Shutdown => ActionModel::Shutdown,
            Action::SaveDialog { request_id, edit } => ActionModel::SaveDialog { request_id: *request_id, edit: edit@ },
            Action::AddMarker { marker } => ActionModel::AddMarker { marker: marker@ },
            Action::AddMarkers { file_index, markers } => ActionModel::AddMarkers { file_index: *file_index, markers: text::texts(markers@) },
            Action::RemoveMarkers { file_index, markers } => ActionModel::RemoveMarkers { file_index: *file_index, markers: text::texts(markers@) },
            Action::SetMarkers { file_index, markers } => ActionModel::SetMarkers { file_index: *file_index, markers: text::texts(markers@) },
            Action::OpenMarkerSettings => ActionModel::OpenMarkerSettings,
            Action::Compile => ActionModel::Compile,
            Action::CompileCancel => ActionModel::CompileCancel,
            Action::Transcribe { file_index } => ActionModel::Transcribe { file_index: *file_index },
            Action::OpenShortcutsDialog => ActionModel::OpenShortcutsDialog,
            Action::OpenDeleteChunkDialog => ActionModel::OpenDeleteChunkDialog,
            Action::ConfirmDeleteChunk { ui_index } => ActionModel::ConfirmDeleteChunk { ui_index: *ui_index },
            Action::Nothing => ActionModel::Nothing,
        }
    }
}

/// The Latin key in the place of a character on the keyboard.
pub open spec fn layout_key(c: char) -> char {
    if c == ',' {
        '<'
    } else if c == '.' {
        '>'
    } else if c == 'й' || c == 'Й' {
        'q'
    } else if c == 'ц' || c == 'Ц' {
        'w'
    } else if c == 'у' || c == 'У' {
        'e'
    } else if c == 'к' || c == 'К' {
        'r'
    } else if c == 'е' || c == 'Е' {
        't'
    } else if c == 'н' || c == 'Н' {
        'y'
    } else if c == 'г' || c == 'Г' {
        'u'
    } else if c == 'ш' || c == 'Ш' {
        'i'
    } else if c == 'щ' || c == 'Щ' {
        'o'
    } else if c == 'з' || c == 'З' {
        'p'
    } else if c == 'ф' || c == 'Ф' {
        'a'
    } else if c == 'ы' || c == 'Ы' {
        's'
    } else if c == 'в' || c == 'В' {
        'd'
    } else if c == 'а' || c == 'А' {
        'f'
    } else if c == 'п' || c == 'П' {
        'g'
    } else if c == 'р' || c == 'Р' {
        'h'
    } else if c == 'о' || c == 'О' {
        'j'
    } else if c == 'л' || c == 'Л' {
        'k'
    } else if c == 'д' || c == 'Д' {
        'l'
    } else if c == 'я' || c == 'Я' {
        'z'
    } else if c == 'ч' || c == 'Ч' {
        'x'
    } else if c == 'с' || c == 'С' {
        'c'
    } else if c == 'м' || c == 'М' {
        'v'
    } else if c == 'и' || c == 'И' {
        'b'
    } else if c == 'т' || c == 'Т' {
        'n'
    } else if c == 'ь' || c == 'Ь' {
        'm'
    } else if c == 'ъ' || c == 'Ъ' {
        'm'
    } else if c == 'б' || c == 'Б' {
        '<'
    } else if c == 'ю' || c == 'Ю' {
        '>'
    } else {
        text::ascii_lower(c)
    }
}

/// A key by its first character, whatever the keyboard layout.
pub open spec fn normalized_key(key: Seq<char>) -> Seq<char> {
    if key.len() == 0 {
        Seq::empty()
    } else {
        seq![layout_key(key[0])]
    }
}

fn layout_char(c: char) -> (r: char)
    ensures
        r == layout_key(c),
{
    if c == ',' {
        '<'
    } else if c == '.' {
        '>'
    } else if c == 'й' || c == 'Й' {
        'q'
    } else if c == 'ц' || c == 'Ц' {
        'w'
    } else if c == 'у' || c == 'У' {
        'e'
    } else if c == 'к' || c == 'К' {
        'r'
    } else if c == 'е' || c == 'Е' {
        't'
    } else if c == 'н' || c == 'Н' {
        'y'
    } else if c == 'г' || c == 'Г' {
        'u'
    } else if c == 'ш' || c == 'Ш' {
        'i'
    } else if c == 'щ' || c == 'Щ' {
        'o'
    } else if c == 'з' || c == 'З' {
        'p'
    } else if c == 'ф' || c == 'Ф' {
        'a'
    } else if c == 'ы' || c == 'Ы' {
        's'
    } else if c == 'в' || c == 'В' {
        'd'
    } else if c == 'а' || c == 'А' {
        'f'
    } else if c == 'п' || c == 'П' {
        'g'
    } else if c == 'р' || c == 'Р' {
        'h'
    } else if c == 'о' || c == 'О' {
        'j'
    } else if c == 'л' || c == 'Л' {
        'k'
    } else if c == 'д' || c == 'Д' {
        'l'
    } else if c == 'я' || c == 'Я' {
        'z'
    } else if c == 'ч' || c == 'Ч' {
        'x'
    } else if c == 'с' || c == 'С' {
        'c'
    } else if c == 'м' || c == 'М' {
        'v'
    } else if c == 'и' || c == 'И' {
        'b'
    } else if c == 'т' || c == 'Т' {
        'n'
    } else if c == 'ь' || c == 'Ь' {
        'm'
    } else if c == 'ъ' || c == 'Ъ' {
        'm'
    } else if c == 'б' || c == 'Б' {
        '<'
    } else if c == 'ю' || c == 'Ю' {
        '>'
    } else if 'A' <= c && c <= 'Z' {
        ((c as u8) + 32) as char
    } else {
        c
    }
}

/// Makes a key independent of the keyboard layout and of its case.
pub fn normalize_key_for_layout(key: &str) -> (r: String)
    ensures
        r@ == normalized_key(key@),
{
    let v = text::to_chars(key);
    let mut out = String::new();
    if v.len() > 0 {
        out.push(layout_char(v[0]));
        assert(out@ =~= normalized_key(key@));
    }
    out
}

/// Whether a key and a binding name the same key.
pub open spec fn same_key(key: Seq<char>, binding: Seq<char>) -> bool {
    normalized_key(key) == normalized_key(binding)
}

/// The command of a pressed key. The deletion key is taken as it is written,
/// so that its name does not pass for the key of its first letter.
pub open spec fn key_command(keys: project::KeyBindingsModel, pressed: Seq<char>) -> ActionModel {
    let code = seq![0x7f as char];
    let key = if pressed == code {
        "Delete"@
    } else {
        pressed
    };
    if pressed == keys.delete || (pressed == code && keys.delete == "Delete"@) {
        ActionModel::OpenDeleteChunkDialog
    } else if same_key(key, keys.record) {
        ActionModel::Record { duration_secs: None }
    } else if same_key(key, keys.ok) {
        ActionModel::Accept
    } else if same_key(key, keys.stop) {
        ActionModel::Stop
    } else if same_key(key, keys.prev) {
        ActionModel::Prev
    } else if same_key(key, keys.next) {
        ActionModel::Next
    } else if same_key(key, keys.chapter_prev) {
        ActionModel::PrevSect
    } else if same_key(key, keys.chapter_next) {
        ActionModel::NextSect
    } else if same_key(key, keys.play) {
        ActionModel::Play
    } else if same_key(key, keys.mode_update) {
        ActionModel::ModeUpdate
    } else if same_key(key, keys.mode_insert) {
        ActionModel::ModeInsert
    } else {
        ActionModel::Nothing
    }
}

fn is_key(key: &str, binding: &str) -> (r: bool)
    ensures
        r == same_key(key@, binding@),
{
    text::same_text(
        normalize_key_for_layout(key).as_str(),
        normalize_key_for_layout(binding).as_str(),
    )
}

/// Decides what a pressed key asks for. While a dialog is open, nothing.
pub fn key_action(keys: &KeyBindings, pressed: &str, modal_open: bool) -> (r: Action)
    ensures
        r@ == (if modal_open {
            ActionModel::Nothing
        } else {
            key_command(keys@, pressed@)
        }),
{
    if modal_open {
        return Action::Nothing;
    }
    let v = text::to_chars(pressed);
    let is_code = v.len() == 1 && v[0] as u32 == 0x7f;
    proof {
        if is_code {
            assert(pressed@ =~= seq![0x7f as char]);
        } else if pressed@ == seq![0x7f as char] {
            assert(pressed@[0] == 0x7f as char);
        }
    }
    let key = if is_code {
        "Delete"
    } else {
        pressed
    };
    if text::same_text(pressed, keys.delete.as_str()) || (is_code && text::same_text(
        keys.delete.as_str(),
        "Delete",
    )) {
        Action::OpenDeleteChunkDialog
    } else if is_key(key, keys.record.as_str()) {
        Action::Record { duration_secs: None }
    } else if is_key(key, keys.ok.as_str()) {
        Action::Accept
    } else if is_key(key, keys.stop.as_str()) {
        Action::Stop
    } else if is_key(key, keys.prev.as_str()) {
        Action::Prev
    } else if is_key(key, keys.next.as_str()) {
        Action::Next
    } else if is_key(key, keys.chapter_prev.as_str()) {
        Action::PrevSect
    } else if is_key(key, keys.chapter_next.as_str()) {
        Action::NextSect
    } else if is_key(key, keys.play.as_str()) {
        Action::Play
    } else if is_key(key, keys.mode_update.as_str()) {
        Action::ModeUpdate
    } else if is_key(key, keys.mode_insert.as_str()) {
        Action::ModeInsert
    } else {
        Action::Nothing
    }
}

/// Holds the keys of a project.
pub struct KeyboardHandler {
    bindings: KeyBindings,
}

impl KeyboardHandler {
    /// The keys that are held.
    pub closed spec fn keys(&self) -> project::KeyBindingsModel {
        self.bindings@
    }

    pub fn new(bindings: KeyBindings) -> (r: Self)
        ensures
            r.keys() == bindings@,
    {
        KeyboardHandler { bindings }
    }

    /// Decides what a pressed key asks for.
    pub fn action(&self, pressed: &str, modal_open: bool) -> (r: Action)
        ensures
            r@ == (if modal_open {
                ActionModel::Nothing
            } else {
                key_command(self.keys(), pressed@)
            }),
    {
        key_action(&self.bindings, pressed, modal_open)
    }
}

/// A key of the Russian layout is the key of the Latin layout in the same place, in either
/// case.
pub proof fn layouts_share_their_places(k: int)
    requires
        0 <= k < 31,
    ensures
        layout_key("йцукенгшщзфывапролдячсмитьбю,.ъ"@[k]) == "qwertyuiopasdfghjklzxcvbnm<><>m"@[k],
        layout_key("ЙЦУКЕНГШЩЗФЫВАПРОЛДЯЧСМИТЬБЮ,.Ъ"@[k]) == "qwertyuiopasdfghjklzxcvbnm<><>m"@[k],
{
    reveal_strlit("йцукенгшщзфывапролдячсмитьбю,.ъ");
    reveal_strlit("ЙЦУКЕНГШЩЗФЫВАПРОЛДЯЧСМИТЬБЮ,.Ъ");
    reveal_strlit("qwertyuiopasdfghjklzxcvbnm<><>m");
}

/// Other keys are taken by their letter in lower case.
pub proof fn latin_keys_are_their_own(c: char)
    requires
        c != ',',
        c != '.',
        (c as u32) < 0x400,
    ensures
        'A' <= c <= 'Z' ==> layout_key(c) as u32 == c as u32 + 32,
        !('A' <= c <= 'Z') ==> layout_key(c) == c,
        layout_key(layout_key(c)) == layout_key(c),
{
}

/// Where the bindings are different keys, each key has the command of its binding, and a key
/// that is none of them has none. The deletion key comes first.
pub proof fn each_binding_has_its_command(keys: project::KeyBindingsModel, pressed: Seq<char>)
    requires
        pressed.len() == 1,
        pressed[0] as u32 != 0x7f,
        pressed != keys.delete,
        ({
            let all = seq![
                normalized_key(keys.record),
                normalized_key(keys.ok),
                normalized_key(keys.stop),
                normalized_key(keys.prev),
                normalized_key(keys.next),
                normalized_key(keys.chapter_prev),
                normalized_key(keys.chapter_next),
                normalized_key(keys.play),
                normalized_key(keys.mode_update),
                normalized_key(keys.mode_insert),
            ];
            forall|i: int, j: int|
                #![trigger all[i], all[j]]
                0 <= i < j < 10 ==> all[i] != all[j]
        }),
    ensures
        same_key(pressed, keys.record) ==> key_command(keys, pressed) == (ActionModel::Record {
            duration_secs: None,
        }),
        same_key(pressed, keys.ok) ==> key_command(keys, pressed) == ActionModel::Accept,
        same_key(pressed, keys.stop) ==> key_command(keys, pressed) == ActionModel::Stop,
        same_key(pressed, keys.prev) ==> key_command(keys, pressed) == ActionModel::Prev,
        same_key(pressed, keys.next) ==> key_command(keys, pressed) == ActionModel::Next,
        same_key(pressed, keys.chapter_prev) ==> key_command(keys, pressed)
            == ActionModel::PrevSect,
        same_key(pressed, keys.chapter_next) ==> key_command(keys, pressed)
            == ActionModel::NextSect,
        same_key(pressed, keys.play) ==> key_command(keys, pressed) == ActionModel::Play,
        same_key(pressed, keys.mode_update) ==> key_command(keys, pressed)
            == ActionModel::ModeUpdate,
        same_key(pressed, keys.mode_insert) ==> key_command(keys, pressed)
            == ActionModel::ModeInsert,
        key_command(keys, keys.delete) == ActionModel::OpenDeleteChunkDialog,
{
    let all = seq![
        normalized_key(keys.record),
        normalized_key(keys.ok),
        normalized_key(keys.stop),
        normalized_key(keys.prev),
        normalized_key(keys.next),
        normalized_key(keys.chapter_prev),
        normalized_key(keys.chapter_next),
        normalized_key(keys.play),
        normalized_key(keys.mode_update),
        normalized_key(keys.mode_insert),
    ];
    assert(pressed != seq![0x7f as char]) by {
        if pressed == seq![0x7f as char] {
            assert(pressed[0] == 0x7f as char);
        }
    }
    assert(all[0] == normalized_key(keys.record));
    assert(all[1] == normalized_key(keys.ok));
    assert(all[2] == normalized_key(keys.stop));
    assert(all[3] == normalized_key(keys.prev));
    assert(all[4] == normalized_key(keys.next));
    assert(all[5] == normalized_key(keys.chapter_prev));
    assert(all[6] == normalized_key(keys.chapter_next));
    assert(all[7] == normalized_key(keys.play));
    assert(all[8] == normalized_key(keys.mode_update));
    assert(all[9] == normalized_key(keys.mode_insert));
}

} // verus!
