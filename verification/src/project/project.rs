//! The project: recorded fragments, markers, settings and book data.
use crate::project::marker_map::MarkerMap;
use crate::utils::paths;
use crate::utils::text;
use vstd::prelude::*;

verus! {

/// The marker form of the marker dialog, as typed.
#[derive(Debug, PartialEq)]
pub struct MarkerSettingsData {
    pub marker: String,
    pub title: String,
    pub hint: String,
    pub shortcut: String,
    pub begin_audio: String,
    pub begin_kind: String,
    pub begin_reduction: String,
    pub begin_repeat: String,
    pub end_audio: String,
    pub end_kind: String,
    pub end_reduction: String,
    pub end_repeat: String,
    pub section: bool,
}

/// What the contracts know of [`MarkerSettingsData`].
#[verifier::ext_equal]
pub ghost struct MarkerSettingsDataModel {
    pub marker: Seq<char>,
    pub title: Seq<char>,
    pub hint: Seq<char>,
    pub shortcut: Seq<char>,
    pub begin_audio: Seq<char>,
    pub begin_kind: Seq<char>,
    pub begin_reduction: Seq<char>,
    pub begin_repeat: Seq<char>,
    pub end_audio: Seq<char>,
    pub end_kind: Seq<char>,
    pub end_reduction: Seq<char>,
    pub end_repeat: Seq<char>,
    pub section: bool,
}

impl View for MarkerSettingsData {
    type V = MarkerSettingsDataModel;

    open spec fn view(&self) -> MarkerSettingsDataModel {
        MarkerSettingsDataModel {
            marker: self.marker@,
            title: self.title@,
            hint: self.hint@,
            shortcut: self.shortcut@,
            begin_audio: self.begin_audio@,
            begin_kind: self.begin_kind@,
            begin_reduction: self.begin_reduction@,
            begin_repeat: self.begin_repeat@,
            end_audio: self.end_audio@,
            end_kind: self.end_kind@,
            end_reduction: self.end_reduction@,
            end_repeat: self.end_repeat@,
            section: self.section,
        }
    }
}

impl Clone for MarkerSettingsData {
    fn clone(&self) -> (r: Self)
        ensures
            r@ == self@,
    {
        MarkerSettingsData {
            marker: self.marker.clone(),
            title: self.title.clone(),
            hint: self.hint.clone(),
            shortcut: self.shortcut.clone(),
            begin_audio: self.begin_audio.clone(),
            begin_kind: self.begin_kind.clone(),
            begin_reduction: self.begin_reduction.clone(),
            begin_repeat: self.begin_repeat.clone(),
            end_audio: self.end_audio.clone(),
            end_kind: self.end_kind.clone(),
            end_reduction: self.end_reduction.clone(),
            end_repeat: self.end_repeat.clone(),
            section: self.section,
        }
    }
}

/// The form of the book dialog.
#[derive(Debug, PartialEq)]
pub struct MetaData {
    pub title: String,
    pub author: String,
    pub year: String,
    pub hint: String,
    pub reader: String,
    pub format_audio: String,
    pub normalize: bool,
    pub cover: String,
    pub section_split: bool,
    pub denoise: bool,
}

/// What the contracts know of [`MetaData`].
#[verifier::ext_equal]
pub ghost struct MetaDataModel {
    pub title: Seq<char>,
    pub author: Seq<char>,
    pub year: Seq<char>,
    pub hint: Seq<char>,
    pub reader: Seq<char>,
    pub format_audio: Seq<char>,
    pub normalize: bool,
    pub cover: Seq<char>,
    pub section_split: bool,
    pub denoise: bool,
}

impl View for MetaData {
    type V = MetaDataModel;

    open spec fn view(&self) -> MetaDataModel {
        MetaDataModel {
            title: self.title@,
            author: self.author@,
            year: self.year@,
            hint: self.hint@,
            reader: self.reader@,
            format_audio: self.format_audio@,
            normalize: self.normalize,
            cover: self.cover@,
            section_split: self.section_split,
            denoise: self.denoise,
        }
    }
}

impl Clone for MetaData {
    fn clone(&self) -> (r: Self)
        ensures
            r@ == self@,
    {
        MetaData {
            title: self.title.clone(),
            author: self.author.clone(),
            year: self.year.clone(),
            hint: self.hint.clone(),
            reader: self.reader.clone(),
            format_audio: self.format_audio.clone(),
            normalize: self.normalize,
            cover: self.cover.clone(),
            section_split: self.section_split,
            denoise: self.denoise,
        }
    }
}

/// The form of the recording dialog.
#[derive(Debug, PartialEq)]
pub struct ChunkSettingsData {
    pub ui_index: i32,
    pub title: String,
    pub author: String,
    pub year: String,
    pub hint: String,
}

/// What the contracts know of [`ChunkSettingsData`].
#[verifier::ext_equal]
pub ghost struct ChunkSettingsDataModel {
    pub ui_index: int,
    pub title: Seq<char>,
    pub author: Seq<char>,
    pub year: Seq<char>,
    pub hint: Seq<char>,
}

impl View for ChunkSettingsData {
    type V = ChunkSettingsDataModel;

    open spec fn view(&self) -> ChunkSettingsDataModel {
        ChunkSettingsDataModel {
            ui_index: self.ui_index as int,
            title: self.title@,
            author: self.author@,
            year: self.year@,
            hint: self.hint@,
        }
    }
}

impl Clone for ChunkSettingsData {
    fn clone(&self) -> (r: Self)
        ensures
            r@ == self@,
    {
        ChunkSettingsData {
            ui_index: self.ui_index,
            title: self.title.clone(),
            author: self.author.clone(),
            year: self.year.clone(),
            hint: self.hint.clone(),
        }
    }
}

/// One recorded fragment.
#[derive(Debug)]
pub struct ProjectFile {
    pub path: String,
    pub title: String,
    pub author: String,
    pub year: String,
    pub hint: String,
    pub markers: Vec<String>,
    pub size: u64,
    pub duration_ms: u64,
}

/// What the contracts know of [`ProjectFile`].
#[verifier::ext_equal]
pub ghost struct ProjectFileModel {
    pub path: Seq<char>,
    pub title: Seq<char>,
    pub author: Seq<char>,
    pub year: Seq<char>,
    pub hint: Seq<char>,
    pub markers: Seq<Seq<char>>,
    pub size: nat,
    pub duration_ms: nat,
}

impl View for ProjectFile {
    type V = ProjectFileModel;

    open spec fn view(&self) -> ProjectFileModel {
        ProjectFileModel {
            path: self.path@,
            title: self.title@,
            author: self.author@,
            year: self.year@,
            hint: self.hint@,
            markers: text::texts(self.markers@),
            size: self.size as nat,
            duration_ms: self.duration_ms as nat,
        }
    }
}

impl Clone for ProjectFile {
    fn clone(&self) -> (r: Self)
        ensures
            r@ == self@,
    {
        ProjectFile {
            path: self.path.clone(),
            title: self.title.clone(),
            author: self.author.clone(),
            year: self.year.clone(),
            hint: self.hint.clone(),
            markers: text::clone_texts(&self.markers),
            size: self.size,
            duration_ms: self.duration_ms,
        }
    }
}

/// The models of a list of fragments.
pub open spec fn file_models(files: Seq<ProjectFile>) -> Seq<ProjectFileModel> {
    files.map_values(|f: ProjectFile| f@)
}

pub fn clone_files(files: &Vec<ProjectFile>) -> (r: Vec<ProjectFile>)
    ensures
        file_models(r@) == file_models(files@),
{
    let mut out: Vec<ProjectFile> = Vec::new();
    let mut i: usize = 0;
    while i < files.len()
        invariant
            i <= files.len(),
            file_models(out@) == file_models(files@).take(i as int),
        decreases files.len() - i,
    {
        let ghost before = file_models(out@);
        out.push(files[i].clone());
        proof {
            assert(file_models(out@) =~= before.push(files@[i as int]@));
            assert(before.push(files@[i as int]@) =~= file_models(files@).take(i + 1));
        }
        i = i + 1;
    }
    assert(file_models(out@) =~= file_models(files@));
    out
}

/// The keys of the recorder.
#[derive(Debug)]
pub struct KeyBindings {
    pub record: String,
    pub ok: String,
    pub stop: String,
    pub prev: String,
    pub next: String,
    pub play: String,
    /// Goes to a fresher recording (higher in the list).
    pub chapter_next: String,
    /// Goes to an older recording (lower in the list).
    pub chapter_prev: String,
    pub mode_update: String,
    pub mode_insert: String,
    pub delete: String,
}

/// What the contracts know of [`KeyBindings`].
#[verifier::ext_equal]
pub ghost struct KeyBindingsModel {
    pub record: Seq<char>,
    pub ok: Seq<char>,
    pub stop: Seq<char>,
    pub prev: Seq<char>,
    pub next: Seq<char>,
    pub play: Seq<char>,
    pub chapter_next: Seq<char>,
    pub chapter_prev: Seq<char>,
    pub mode_update: Seq<char>,
    pub mode_insert: Seq<char>,
    pub delete: Seq<char>,
}

impl View for KeyBindings {
    type V = KeyBindingsModel;

    open spec fn view(&self) -> KeyBindingsModel {
        KeyBindingsModel {
            record: self.record@,
            ok: self.ok@,
            stop: self.stop@,
            prev: self.prev@,
            next: self.next@,
            play: self.play@,
            chapter_next: self.chapter_next@,
            chapter_prev: self.chapter_prev@,
            mode_update: self.mode_update@,
            mode_insert: self.mode_insert@,
            delete: self.delete@,
        }
    }
}

impl Clone for KeyBindings {
    fn clone(&self) -> (r: Self)
        ensures
            r@ == self@,
    {
        KeyBindings {
            record: self.record.clone(),
            ok: self.ok.clone(),
            stop: self.stop.clone(),
            prev: self.prev.clone(),
            next: self.next.clone(),
            play: self.play.clone(),
            chapter_next: self.chapter_next.clone(),
            chapter_prev: self.chapter_prev.clone(),
            mode_update: self.mode_update.clone(),
            mode_insert: self.mode_insert.clone(),
            delete: self.delete.clone(),
        }
    }
}

/// How a project is recorded and exported.
#[derive(Debug)]
pub struct Settings {
    pub log: String,
    pub keys: KeyBindings,
    pub format_audio: String,
    pub normalize: bool,
    pub cover: String,
    pub section_split: bool,
    pub denoise: bool,
}

/// What the contracts know of [`Settings`].
#[verifier::ext_equal]
pub ghost struct SettingsModel {
    pub log: Seq<char>,
    pub keys: KeyBindingsModel,
    pub format_audio: Seq<char>,
    pub normalize: bool,
    pub cover: Seq<char>,
    pub section_split: bool,
    pub denoise: bool,
}

impl View for Settings {
    type V = SettingsModel;

    open spec fn view(&self) -> SettingsModel {
        SettingsModel {
            log: self.log@,
            keys: self.keys@,
            format_audio: self.format_audio@,
            normalize: self.normalize,
            cover: self.cover@,
            section_split: self.section_split,
            denoise: self.denoise,
        }
    }
}

impl Clone for Settings {
    fn clone(&self) -> (r: Self)
        ensures
            r@ == self@,
    {
        Settings {
            log: self.log.clone(),
            keys: self.keys.clone(),
            format_audio: self.format_audio.clone(),
            normalize: self.normalize,
            cover: self.cover.clone(),
            section_split: self.section_split,
            denoise: self.denoise,
        }
    }
}

/// What is known of the book.
#[derive(Debug)]
pub struct Meta {
    pub title: String,
    pub author: String,
    pub year: String,
    pub hint: String,
    pub reader: String,
}

/// What the contracts know of [`Meta`].
#[verifier::ext_equal]
pub ghost struct MetaModel {
    pub title: Seq<char>,
    pub author: Seq<char>,
    pub year: Seq<char>,
    pub hint: Seq<char>,
    pub reader: Seq<char>,
}

impl View for Meta {
    type V = MetaModel;

    open spec fn view(&self) -> MetaModel {
        MetaModel {
            title: self.title@,
            author: self.author@,
            year: self.year@,
            hint: self.hint@,
            reader: self.reader@,
        }
    }
}

impl Clone for Meta {
    fn clone(&self) -> (r: Self)
        ensures
            r@ == self@,
    {
        Meta {
            title: self.title.clone(),
            author: self.author.clone(),
            year: self.year.clone(),
            hint: self.hint.clone(),
            reader: self.reader.clone(),
        }
    }
}

/// A sound that a marker plays.
#[derive(Debug)]
pub struct MarkerAsset {
    pub audio: String,
    pub kind: String,
    pub reduction: Option<u8>,
    pub repeat: Option<i32>,
}

/// What the contracts know of [`MarkerAsset`].
#[verifier::ext_equal]
pub ghost struct MarkerAssetModel {
    pub audio: Seq<char>,
    pub kind: Seq<char>,
    pub reduction: Option<u8>,
    pub repeat: Option<i32>,
}

impl View for MarkerAsset {
    type V = MarkerAssetModel;

    open spec fn view(&self) -> MarkerAssetModel {
        MarkerAssetModel {
            audio: self.audio@,
            kind: self.kind@,
            reduction: self.reduction,
            repeat: self.repeat,
        }
    }
}

impl Clone for MarkerAsset {
    fn clone(&self) -> (r: Self)
        ensures
            r@ == self@,
    {
        MarkerAsset {
            audio: self.audio.clone(),
            kind: self.kind.clone(),
            reduction: self.reduction,
            repeat: self.repeat,
        }
    }
}

/// The sounds of a marker.
#[derive(Debug)]
pub struct MarkerAssets {
    pub begin: MarkerAsset,
    pub end: MarkerAsset,
}

/// What the contracts know of [`MarkerAssets`].
#[verifier::ext_equal]
pub ghost struct MarkerAssetsModel {
    pub begin: MarkerAssetModel,
    pub end: MarkerAssetModel,
}

impl View for MarkerAssets {
    type V = MarkerAssetsModel;

    open spec fn view(&self) -> MarkerAssetsModel {
        MarkerAssetsModel {
            begin: self.begin@,
            end: self.end@,
        }
    }
}

impl Clone for MarkerAssets {
    fn clone(&self) -> (r: Self)
        ensures
            r@ == self@,
    {
        MarkerAssets {
            begin: self.begin.clone(),
            end: self.end.clone(),
        }
    }
}

/// What a marker means.
#[derive(Debug)]
pub struct MarkerSettings {
    pub title: String,
    pub author: String,
    pub year: String,
    pub hint: String,
    pub shortcut: Option<String>,
    pub assets: MarkerAssets,
    pub section: bool,
}

/// What the contracts know of [`MarkerSettings`].
#[verifier::ext_equal]
pub ghost struct MarkerSettingsModel {
    pub title: Seq<char>,
    pub author: Seq<char>,
    pub year: Seq<char>,
    pub hint: Seq<char>,
    pub shortcut: Option<Seq<char>>,
    pub assets: MarkerAssetsModel,
    pub section: bool,
}

impl View for MarkerSettings {
    type V = MarkerSettingsModel;

    open spec fn view(&self) -> MarkerSettingsModel {
        MarkerSettingsModel {
            title: self.title@,
            author: self.author@,
            year: self.year@,
            hint: self.hint@,
            shortcut: text::option_text(self.shortcut),
            assets: self.assets@,
            section: self.section,
        }
    }
}

impl Clone for MarkerSettings {
    fn clone(&self) -> (r: Self)
        ensures
            r@ == self@,
    {
        MarkerSettings {
            title: self.title.clone(),
            author: self.author.clone(),
            year: self.year.clone(),
            hint: self.hint.clone(),
            shortcut: text::clone_option(&self.shortcut),
            assets: self.assets.clone(),
            section: self.section,
        }
    }
}

/// Totals of a project, deleted fragments included.
#[derive(Debug)]
pub struct ProjectStats {
    /// Milliseconds recorded from the microphone.
    pub record_length: u64,
}

/// What the contracts know of [`ProjectStats`].
#[verifier::ext_equal]
pub ghost struct ProjectStatsModel {
    pub record_length: nat,
}

impl View for ProjectStats {
    type V = ProjectStatsModel;

    open spec fn view(&self) -> ProjectStatsModel {
        ProjectStatsModel {
            record_length: self.record_length as nat,
        }
    }
}

impl Clone for ProjectStats {
    fn clone(&self) -> (r: Self)
        ensures
            r@ == self@,
    {
        ProjectStats {
            record_length: self.record_length,
        }
    }
}

/// A project.
#[derive(Debug)]
pub struct Project {
    pub files: Vec<ProjectFile>,
    /// Creation order, independent of a fragment's place in the book.
    pub next_chunk_number: u64,
    pub settings: Settings,
    pub meta: Meta,
    pub stats: ProjectStats,
    pub markers: MarkerMap,
}

/// What the contracts know of [`Project`].
#[verifier::ext_equal]
pub ghost struct ProjectModel {
    pub files: Seq<ProjectFileModel>,
    pub next_chunk_number: nat,
    pub settings: SettingsModel,
    pub meta: MetaModel,
    pub stats: ProjectStatsModel,
    pub markers: Map<Seq<char>, MarkerSettingsModel>,
}

impl View for Project {
    type V = ProjectModel;

    open spec fn view(&self) -> ProjectModel {
        ProjectModel {
            files: file_models(self.files@),
            next_chunk_number: self.next_chunk_number as nat,
            settings: self.settings@,
            meta: self.meta@,
            stats: self.stats@,
            markers: self.markers@,
        }
    }
}

impl Clone for Project {
    fn clone(&self) -> (r: Self)
        ensures
            r@ == self@,
    {
        Project {
            files: clone_files(&self.files),
            next_chunk_number: self.next_chunk_number,
            settings: self.settings.clone(),
            meta: self.meta.clone(),
            stats: self.stats.clone(),
            markers: self.markers.clone(),
        }
    }
}

/// The values that [`KeyBindings`] starts with.
pub open spec fn default_key_bindings() -> KeyBindingsModel {
    KeyBindingsModel {
        record: "r"@,
        ok: "e"@,
        stop: "d"@,
        prev: "a"@,
        next: "f"@,
        play: "s"@,
        chapter_next: ">"@,
        chapter_prev: "<"@,
        mode_update: "u"@,
        mode_insert: "i"@,
        delete: "Delete"@,
    }
}

impl Default for KeyBindings {
    fn default() -> (r: Self)
        ensures
            r@ == default_key_bindings(),
    {
        KeyBindings {
            record: "r".to_owned(),
            ok: "e".to_owned(),
            stop: "d".to_owned(),
            prev: "a".to_owned(),
            next: "f".to_owned(),
            play: "s".to_owned(),
            chapter_next: ">".to_owned(),
            chapter_prev: "<".to_owned(),
            mode_update: "u".to_owned(),
            mode_insert: "i".to_owned(),
            delete: "Delete".to_owned(),
        }
    }
}

/// The values that [`Settings`] starts with.
pub open spec fn default_settings() -> SettingsModel {
    SettingsModel {
        log: "iamreader.log"@,
        keys: default_key_bindings(),
        format_audio: "wav"@,
        normalize: false,
        cover: "cover.png"@,
        section_split: false,
        denoise: false,
    }
}

impl Default for Settings {
    fn default() -> (r: Self)
        ensures
            r@ == default_settings(),
    {
        Settings {
            log: "iamreader.log".to_owned(),
            keys: KeyBindings::default(),
            format_audio: "wav".to_owned(),
            normalize: false,
            cover: "cover.png".to_owned(),
            section_split: false,
            denoise: false,
        }
    }
}

/// The values that [`Meta`] starts with.
pub open spec fn default_meta() -> MetaModel {
    MetaModel {
        title: "Untitled"@,
        author: "Author"@,
        year: Seq::empty(),
        hint: Seq::empty(),
        reader: Seq::empty(),
    }
}

impl Default for Meta {
    fn default() -> (r: Self)
        ensures
            r@ == default_meta(),
    {
        Meta {
            title: "Untitled".to_owned(),
            author: "Author".to_owned(),
            year: String::new(),
            hint: String::new(),
            reader: String::new(),
        }
    }
}

/// The values that [`MarkerAsset`] starts with.
pub open spec fn default_marker_asset() -> MarkerAssetModel {
    MarkerAssetModel {
        audio: Seq::empty(),
        kind: "add"@,
        reduction: Some(0u8),
        repeat: Some(1i32),
    }
}

impl Default for MarkerAsset {
    fn default() -> (r: Self)
        ensures
            r@ == default_marker_asset(),
    {
        MarkerAsset {
            audio: String::new(),
            kind: "add".to_owned(),
            reduction: Some(0),
            repeat: Some(1),
        }
    }
}

/// The values that [`MarkerAssets`] starts with.
pub open spec fn default_marker_assets() -> MarkerAssetsModel {
    MarkerAssetsModel {
        begin: default_marker_asset(),
        end: default_marker_asset(),
    }
}

impl Default for MarkerAssets {
    fn default() -> (r: Self)
        ensures
            r@ == default_marker_assets(),
    {
        MarkerAssets {
            begin: MarkerAsset::default(),
            end: MarkerAsset::default(),
        }
    }
}

/// The values that [`MarkerSettings`] starts with.
pub open spec fn default_marker_settings() -> MarkerSettingsModel {
    MarkerSettingsModel {
        title: Seq::empty(),
        author: Seq::empty(),
        year: Seq::empty(),
        hint: Seq::empty(),
        shortcut: None,
        assets: default_marker_assets(),
        section: false,
    }
}

impl Default for MarkerSettings {
    fn default() -> (r: Self)
        ensures
            r@ == default_marker_settings(),
    {
        MarkerSettings {
            title: String::new(),
            author: String::new(),
            year: String::new(),
            hint: String::new(),
            shortcut: None,
            assets: MarkerAssets::default(),
            section: false,
        }
    }
}

/// The values that [`ProjectStats`] starts with.
pub open spec fn default_project_stats() -> ProjectStatsModel {
    ProjectStatsModel {
        record_length: 0,
    }
}

impl Default for ProjectStats {
    fn default() -> (r: Self)
        ensures
            r@ == default_project_stats(),
    {
        ProjectStats {
            record_length: 0,
        }
    }
}

/// A marker as a new project has it.
pub open spec fn default_marker(
    title: Seq<char>,
    audio: Seq<char>,
    shortcut: Seq<char>,
) -> MarkerSettingsModel {
    MarkerSettingsModel {
        title,
        shortcut: Some(shortcut),
        assets: MarkerAssetsModel {
            begin: MarkerAssetModel { audio, ..default_marker_asset() },
            end: default_marker_asset(),
        },
        ..default_marker_settings()
    }
}

/// The markers of a new project.
pub open spec fn default_markers() -> Map<Seq<char>, MarkerSettingsModel> {
    let chapter = default_marker("Chapter"@, "chapter.mp3"@, "1"@);
    let footnote = default_marker("Footnote"@, "footnote.mp3"@, "2"@);
    let footnote_end = default_marker("Footnote end"@, Seq::empty(), "3"@);
    Map::empty().insert("chapter"@, MarkerSettingsModel { section: true, ..chapter }).insert(
        "footnote"@,
        MarkerSettingsModel {
            assets: MarkerAssetsModel {
                begin: MarkerAssetModel { reduction: Some(50u8), ..footnote.assets.begin },
                ..footnote.assets
            },
            ..footnote
        },
    ).insert(
        "footnote_end"@,
        MarkerSettingsModel {
            assets: MarkerAssetsModel {
                end: MarkerAssetModel {
                    audio: "footnote_end.mp3"@,
                    reduction: Some(50u8),
                    ..footnote_end.assets.end
                },
                ..footnote_end.assets
            },
            ..footnote_end
        },
    )
}

/// A project without recordings.
pub open spec fn empty_project() -> ProjectModel {
    ProjectModel {
        files: Seq::empty(),
        next_chunk_number: 1,
        settings: default_settings(),
        meta: default_meta(),
        stats: default_project_stats(),
        markers: default_markers(),
    }
}

/// Why a project operation is refused.
#[derive(Clone, Copy, Debug, PartialEq, Eq, Structural)]
pub enum ProjectError {
    ChunkNumberNotPositive,
    ChunkNumberExhausted,
}

impl ProjectError {
    /// The sentence that belongs to an error.
    pub open spec fn text(&self) -> Seq<char> {
        match self {
            ProjectError::ChunkNumberNotPositive => "next_chunk_number must be positive"@,
            ProjectError::ChunkNumberExhausted => "Chunk number exhausted"@,
        }
    }

    pub fn message(&self) -> (text: &'static str)
        ensures
            text@ == self.text(),
    {
        match self {
            ProjectError::ChunkNumberNotPositive => "next_chunk_number must be positive",
            ProjectError::ChunkNumberExhausted => "Chunk number exhausted",
        }
    }
}

/// The file name of a chunk: its number with at least five digits.
pub open spec fn chunk_file_name(number: nat) -> Seq<char> {
    text::zero_padded(number, 5) + ".wav"@
}

/// The path of a chunk.
pub open spec fn chunk_path(dir: Seq<char>, number: nat) -> Seq<char> {
    paths::joined(dir, chunk_file_name(number))
}

/// Whether the fragment in place `i` is the first one at a path.
pub open spec fn first_at_path(files: Seq<ProjectFileModel>, path: Seq<char>, i: int) -> bool {
    &&& 0 <= i < files.len()
    &&& paths::same_path_spec(files[i].path, path)
    &&& forall|j: int| 0 <= j < i ==> !paths::same_path_spec(#[trigger] files[j].path, path)
}

/// A project in which a fragment got the words that were heard in it.
pub open spec fn with_words(p: ProjectModel, i: int, heard: Seq<char>) -> ProjectModel {
    ProjectModel {
        files: p.files.update(i, ProjectFileModel { hint: heard, ..p.files[i] }),
        ..p
    }
}

impl Project {
    fn create_default_marker(title: &str, audio: &str, shortcut: &str) -> (r: MarkerSettings)
        ensures
            r@ == default_marker(title@, audio@, shortcut@),
    {
        MarkerSettings {
            title: title.to_owned(),
            author: String::new(),
            year: String::new(),
            hint: String::new(),
            shortcut: Some(shortcut.to_owned()),
            assets: MarkerAssets {
                begin: MarkerAsset {
                    audio: audio.to_owned(),
                    kind: "add".to_owned(),
                    reduction: Some(0),
                    repeat: Some(1),
                },
                end: MarkerAsset::default(),
            },
            section: false,
        }
    }

    fn create_default_markers() -> (r: MarkerMap)
        ensures
            r@ == default_markers(),
    {
        let mut markers = MarkerMap::new();
        let mut chapter = Self::create_default_marker("Chapter", "chapter.mp3", "1");
        chapter.section = true;
        markers.insert("chapter".to_owned(), chapter);
        let mut footnote = Self::create_default_marker("Footnote", "footnote.mp3", "2");
        footnote.assets.begin.reduction = Some(50);
        markers.insert("footnote".to_owned(), footnote);
        let mut footnote_end = Self::create_default_marker("Footnote end", "", "3");
        proof {
            reveal_strlit("");
            assert(""@ =~= Seq::<char>::empty());
        }
        footnote_end.assets.end.audio = "footnote_end.mp3".to_owned();
        footnote_end.assets.end.reduction = Some(50);
        markers.insert("footnote_end".to_owned(), footnote_end);
        markers
    }

    /// Takes in what a project file holds; a missing file is a new project. A
    /// project without markers gets the markers of a new one.
    pub fn load(stored: Option<Project>) -> (r: Result<Self, ProjectError>)
        ensures
            match r {
                Ok(project) => loaded(stored_view(stored)) == Ok::<ProjectModel, ProjectError>(
                    project@,
                ),
                Err(e) => loaded(stored_view(stored)) == Err::<ProjectModel, ProjectError>(e),
            },
    {
        let mut project = match stored {
            Some(project) => project,
            None => {
                let project = Project {
                    files: Vec::new(),
                    next_chunk_number: 1,
                    settings: Settings::default(),
                    meta: Meta::default(),
                    stats: ProjectStats::default(),
                    markers: Self::create_default_markers(),
                };
                assert(project@.files =~= Seq::empty());
                return Ok(project);
            },
        };
        let ghost before = project@;
        if project.markers.len() == 0 {
            assert(project.markers@.dom() =~= Set::empty());
            project.markers = Self::create_default_markers();
        } else {
            assert(project.markers.names().contains(project.markers.names()[0]));
            assert(project.markers@.dom().contains(project.markers.names()[0]));
            assert(!Set::<Seq<char>>::empty().contains(project.markers.names()[0]));
        }
        if project.next_chunk_number == 0 {
            return Err(ProjectError::ChunkNumberNotPositive);
        }
        Ok(project)
    }

    /// Applies a background result to the same fragment, only while its hint is
    /// still the one that the result was computed for.
    pub fn apply_transcription(
        &mut self,
        file_path: &str,
        previous_hint: &str,
        text: &str,
    ) -> (changed: bool)
        ensures
            changed == (exists|i: int|
                first_at_path(old(self)@.files, file_path@, i) && old(self)@.files[i].hint
                    == previous_hint@ && previous_hint@ != text@),
            !changed ==> final(self)@ == old(self)@,
            changed ==> exists|i: int|
                first_at_path(old(self)@.files, file_path@, i) && final(self)@ == (ProjectModel {
                    files: old(self)@.files.update(
                        i,
                        ProjectFileModel { hint: text@, ..old(self)@.files[i] },
                    ),
                    ..old(self)@
                }),
            changed ==> exists|i: int| #[trigger]
                first_at_path(old(self)@.files, file_path@, i) && final(self)@ == with_words(
                    old(self)@,
                    i,
                    text@,
                ),
    {
        let mut i: usize = 0;
        while i < self.files.len()
            invariant
                i <= self.files.len(),
                *self == *old(self),
                forall|j: int|
                    0 <= j < i ==> !paths::same_path_spec(
                        #[trigger] self@.files[j].path,
                        file_path@,
                    ),
            decreases self.files.len() - i,
        {
            if paths::same_path(self.files[i].path.as_str(), file_path) {
                assert(self@.files[i as int].path == self.files@[i as int].path@);
                assert(first_at_path(self@.files, file_path@, i as int));
                let unedited = text::same_text(self.files[i].hint.as_str(), previous_hint);
                let same = text::same_text(self.files[i].hint.as_str(), text);
                if !unedited || same {
                    return false;
                }
                let ghost before = self.files@[i as int]@;
                self.files[i].hint = text.to_owned();
                proof {
                    assert(self@.files =~= old(self)@.files.update(
                        i as int,
                        ProjectFileModel { hint: text@, ..before },
                    ));
                    assert(self@ == with_words(old(self)@, i as int, text@));
                }
                return true;
            }
            assert(self@.files[i as int].path == self.files@[i as int].path@);
            i = i + 1;
        }
        false
    }

    /// Reserves a readable number that this project never reuses after a save.
    /// The stored counter decides; numbers whose path is occupied are skipped.
    pub fn get_next_file_path<E, F: Fn(u64) -> Result<bool, E>>(
        &mut self,
        chunks_dir: &str,
        occupied: &F,
    ) -> (r: Result<String, NextPathError<E>>)
        requires
            forall|n: u64| call_requires(occupied, (n,)),
        ensures
            final(self)@ == (ProjectModel {
                next_chunk_number: final(self)@.next_chunk_number,
                ..old(self)@
            }),
            final(self).next_chunk_number >= old(self).next_chunk_number,
            match r {
                Ok(path) => {
                    let n = (final(self).next_chunk_number - 1) as u64;
                    &&& 0 < old(self).next_chunk_number <= n
                    &&& path@ == chunk_path(chunks_dir@, n as nat)
                    &&& call_ensures(occupied, (n,), Ok(false))
                    &&& forall|k: u64|
                        old(self).next_chunk_number <= k < n ==> #[trigger] call_ensures(
                            occupied,
                            (k,),
                            Ok(true),
                        )
                },
                Err(NextPathError::Project(ProjectError::ChunkNumberNotPositive)) => {
                    old(self).next_chunk_number == 0 == final(self).next_chunk_number
                },
                Err(NextPathError::Project(ProjectError::ChunkNumberExhausted)) => {
                    &&& 0 < old(self).next_chunk_number
                    &&& final(self).next_chunk_number == u64::MAX
                    &&& forall|k: u64|
                        old(self).next_chunk_number <= k < u64::MAX ==> #[trigger] call_ensures(
                            occupied,
                            (k,),
                            Ok(true),
                        )
                },
                Err(NextPathError::Lookup(e)) => {
                    let n = (final(self).next_chunk_number - 1) as u64;
                    &&& 0 < old(self).next_chunk_number <= n
                    &&& call_ensures(occupied, (n,), Err(e))
                    &&& forall|k: u64|
                        old(self).next_chunk_number <= k < n ==> #[trigger] call_ensures(
                            occupied,
                            (k,),
                            Ok(true),
                        )
                },
            },
    {
        if self.next_chunk_number == 0 {
            return Err(NextPathError::Project(ProjectError::ChunkNumberNotPositive));
        }
        let ghost before = self@;
        loop
            invariant
                forall|n: u64| call_requires(occupied, (n,)),
                0 < old(self).next_chunk_number <= self.next_chunk_number,
                self@ == (ProjectModel {
                    next_chunk_number: self.next_chunk_number as nat,
                    ..old(self)@
                }),
                forall|k: u64|
                    old(self).next_chunk_number <= k < self.next_chunk_number
                        ==> #[trigger] call_ensures(occupied, (k,), Ok(true)),
            decreases u64::MAX - self.next_chunk_number,
        {
            let number: u64 = self.next_chunk_number;
            if number == u64::MAX {
                return Err(NextPathError::Project(ProjectError::ChunkNumberExhausted));
            }
            self.next_chunk_number = number + 1;
            match occupied(number) {
                Ok(true) => {},
                Ok(false) => {
                    return Ok(chunk_path_text(chunks_dir, number));
                },
                Err(e) => {
                    return Err(NextPathError::Lookup(e));
                },
            }
        }
    }

    /// The place of the newest fragment.
    pub fn _get_current_index(&self) -> (r: Option<usize>)
        ensures
            r == (if self@.files.len() == 0 {
                None
            } else {
                Some((self@.files.len() - 1) as usize)
            }),
    {
        if self.files.len() == 0 {
            None
        } else {
            Some(self.files.len() - 1)
        }
    }

    /// The place of a fragment that is counted from one.
    pub fn file_index_1based_to_orig(file_index: i32, files_len: usize) -> (r: Option<usize>)
        ensures
            r == (if 1 <= file_index <= files_len {
                Some((file_index - 1) as usize)
            } else {
                None
            }),
    {
        if file_index >= 1 && file_index as usize <= files_len {
            Some(file_index as usize - 1)
        } else {
            None
        }
    }

    /// Cuts off every fragment from a place on and gives their paths.
    pub fn remove_files_from_index(&mut self, from_index: usize) -> (removed: Vec<String>)
        ensures
            ({
                let keep = vstd::math::min(from_index as int, old(self)@.files.len() as int);
                &&& final(self)@ == (ProjectModel {
                    files: old(self)@.files.take(keep),
                    ..old(self)@
                })
                &&& text::texts(removed@) == old(self)@.files.skip(keep).map_values(
                    |f: ProjectFileModel| f.path,
                )
            }),
    {
        let mut removed: Vec<String> = Vec::new();
        if from_index < self.files.len() {
            let tail = self.files.split_off(from_index);
            let mut i: usize = 0;
            while i < tail.len()
                invariant
                    i <= tail.len(),
                    removed@.len() == i,
                    forall|k: int| 0 <= k < i ==> (#[trigger] removed@[k])@ == tail@[k].path@,
                decreases tail.len() - i,
            {
                removed.push(tail[i].path.clone());
                i = i + 1;
            }
            proof {
                assert(self@.files =~= old(self)@.files.take(from_index as int));
                assert(text::texts(removed@) =~= old(self)@.files.skip(from_index as int).map_values(
                    |f: ProjectFileModel| f.path,
                ));
            }
        } else {
            proof {
                let keep = self@.files.len() as int;
                assert(self@.files.take(keep) =~= self@.files);
                assert(text::texts(removed@) =~= self@.files.skip(keep).map_values(
                    |f: ProjectFileModel| f.path,
                ));
            }
        }
        removed
    }

    /// Removes one fragment and gives its path.
    pub fn remove_file_at(&mut self, orig_index: usize) -> (r: Option<String>)
        ensures
            match r {
                Some(path) => {
                    &&& orig_index < old(self)@.files.len()
                    &&& path@ == old(self)@.files[orig_index as int].path
                    &&& final(self)@ == (ProjectModel {
                        files: old(self)@.files.remove(orig_index as int),
                        ..old(self)@
                    })
                },
                None => orig_index >= old(self)@.files.len() && final(self)@ == old(self)@,
            },
    {
        if orig_index < self.files.len() {
            let file = self.files.remove(orig_index);
            assert(self@.files =~= old(self)@.files.remove(orig_index as int));
            Some(file.path)
        } else {
            None
        }
    }

    /// Takes over sizes and lengths that were measured on disk. A fragment
    /// without a measurement keeps what it had.
    pub fn update_files_meta_from_disk(&mut self, measured: &[Option<(u64, u64)>])
        ensures
            final(self)@ == (ProjectModel {
                files: Seq::new(
                    old(self)@.files.len(),
                    |i: int| measured_file(old(self)@.files[i], measured@, i),
                ),
                ..old(self)@
            }),
    {
        let total: usize = measured.len();
        let mut i: usize = 0;
        while i < self.files.len()
            invariant
                i <= self.files.len(),
                total == measured@.len(),
                self@.files.len() == old(self)@.files.len(),
                self@ == (ProjectModel { files: self@.files, ..old(self)@ }),
                forall|k: int|
                    0 <= k < i ==> #[trigger] self@.files[k] == measured_file(
                        old(self)@.files[k],
                        measured@,
                        k,
                    ),
                forall|k: int|
                    i <= k < self@.files.len() ==> #[trigger] self@.files[k]
                        == old(self)@.files[k],
            decreases self.files.len() - i,
        {
            let ghost before = self@.files;
            assert(self@.files[i as int] == self.files@[i as int]@);
            if i < total {
                if let Some((size, duration_ms)) = measured[i] {
                    self.files[i].size = size;
                    self.files[i].duration_ms = duration_ms;
                }
            }
            assert(self@.files =~= before.update(i as int, self.files@[i as int]@));
            i = i + 1;
        }
        assert(self@.files =~= Seq::new(
            old(self)@.files.len(),
            |i: int| measured_file(old(self)@.files[i], measured@, i),
        ));
    }
}

/// A fragment after its size and length were measured, if they were.
pub open spec fn measured_file(
    file: ProjectFileModel,
    measured: Seq<Option<(u64, u64)>>,
    i: int,
) -> ProjectFileModel {
    if i < measured.len() {
        match measured[i] {
            Some((size, duration_ms)) => ProjectFileModel {
                size: size as nat,
                duration_ms: duration_ms as nat,
                ..file
            },
            None => file,
        }
    } else {
        file
    }
}

/// Why no path could be reserved.
#[derive(Debug)]
pub enum NextPathError<E> {
    Project(ProjectError),
    Lookup(E),
}

/// The path of a chunk.
pub fn chunk_path_text(chunks_dir: &str, number: u64) -> (r: String)
    ensures
        r@ == chunk_path(chunks_dir@, number as nat),
{
    let mut name = text::padded_text(number as u128, 5);
    name.append(".wav");
    paths::join(chunks_dir, name.as_str())
}

/// Chunks of different numbers have different paths: a reserved path is never
/// handed out again.
pub proof fn chunk_paths_differ(dir: Seq<char>, a: nat, b: nat)
    requires
        a != b,
    ensures
        chunk_path(dir, a) != chunk_path(dir, b),
{
    if chunk_path(dir, a) == chunk_path(dir, b) {
        padded_starts_with_digit(a);
        padded_starts_with_digit(b);
        let x = chunk_file_name(a);
        let y = chunk_file_name(b);
        let lead = if dir.len() == 0 {
            Seq::empty()
        } else if dir.last() == '/' {
            dir
        } else {
            dir.push('/')
        };
        assert(chunk_path(dir, a) =~= lead + x);
        assert(chunk_path(dir, b) =~= lead + y);
        assert((lead + x).skip(lead.len() as int) =~= x);
        assert((lead + y).skip(lead.len() as int) =~= y);
        let n = text::zero_padded(a, 5);
        let m = text::zero_padded(b, 5);
        assert(x.take(x.len() - ".wav"@.len()) =~= n);
        assert(y.take(y.len() - ".wav"@.len()) =~= m);
        text::padding_keeps_numbers_apart(a, b, 5);
    }
}

proof fn padded_starts_with_digit(n: nat)
    ensures
        chunk_file_name(n).len() > 0,
        chunk_file_name(n)[0] != '/',
{
    text::decimal_reads_back(n);
    let d = text::decimal(n);
    assert(text::is_digit(d[0]));
    if d.len() < 5 {
        assert(text::zero_padded(n, 5)[0] == '0');
    }
    assert(chunk_file_name(n)[0] == text::zero_padded(n, 5)[0]);
}

/// The view of what a project file holds.
pub open spec fn stored_view(stored: Option<Project>) -> Option<ProjectModel> {
    match stored {
        Some(project) => Some(project@),
        None => None,
    }
}

/// What a project file is taken in as. A missing file is a new project, and a project
/// without markers gets the markers of a new one.
pub open spec fn loaded(stored: Option<ProjectModel>) -> Result<ProjectModel, ProjectError> {
    match stored {
        None => Ok(empty_project()),
        Some(p) => if p.next_chunk_number == 0 {
            Err(ProjectError::ChunkNumberNotPositive)
        } else {
            Ok(
                ProjectModel {
                    markers: if p.markers.dom() =~= Set::empty() {
                        default_markers()
                    } else {
                        p.markers
                    },
                    ..p
                },
            )
        },
    }
}

/// A project that was taken in and stored again is taken in as it was.
pub proof fn loaded_projects_load_back(stored: Option<ProjectModel>)
    ensures
        loaded(stored) matches Ok(p) ==> loaded(Some(p)) == Ok::<ProjectModel, ProjectError>(p),
{
    assert(default_markers().dom().contains("chapter"@));
}

/// A project is taken in as it is stored, but that it gets the markers of a new one where it
/// has none. Without a file it is empty, and numbers from one on.
pub proof fn stored_projects_are_taken_in(p: ProjectModel)
    requires
        p.next_chunk_number > 0,
    ensures
        loaded(Some(p)) is Ok,
        ({
            let q = loaded(Some(p))->Ok_0;
            &&& q.files == p.files
            &&& q.next_chunk_number == p.next_chunk_number
            &&& q.settings == p.settings
            &&& q.meta == p.meta
            &&& q.stats == p.stats
            &&& forall|name: Seq<char>| #[trigger]
                p.markers.dom().contains(name) ==> q.markers == p.markers
        }),
        loaded(None) is Ok,
        loaded(None)->Ok_0.files.len() == 0,
        loaded(None)->Ok_0.next_chunk_number == 1,
        loaded(Some(ProjectModel { next_chunk_number: 0, ..p })) is Err,
{
    assert forall|name: Seq<char>| #[trigger] p.markers.dom().contains(name) implies loaded(
        Some(p),
    )->Ok_0.markers == p.markers by {
        if p.markers.dom() =~= Set::empty() {
            assert(!Set::<Seq<char>>::empty().contains(name));
        }
    }
}

/// Words that were heard change the hint of one fragment, and nothing else.
pub proof fn heard_words_change_one_hint(p: ProjectModel, i: int, heard: Seq<char>, j: int)
    requires
        0 <= i < p.files.len(),
        0 <= j < p.files.len(),
    ensures
        ({
            let q = with_words(p, i, heard);
            &&& q.files.len() == p.files.len()
            &&& q.files[i].hint == heard
            &&& q.files[i].path == p.files[i].path
            &&& q.files[i].title == p.files[i].title
            &&& q.files[i].author == p.files[i].author
            &&& q.files[i].year == p.files[i].year
            &&& q.files[i].markers == p.files[i].markers
            &&& q.files[i].size == p.files[i].size
            &&& q.files[i].duration_ms == p.files[i].duration_ms
            &&& j != i ==> q.files[j] == p.files[j]
            &&& q.meta == p.meta
            &&& q.settings == p.settings
            &&& q.markers == p.markers
            &&& q.stats == p.stats
            &&& q.next_chunk_number == p.next_chunk_number
        }),
{
}

} // verus!
