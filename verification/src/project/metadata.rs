//! The tags of an exported file.
use crate::audio::export_wav;
use crate::project::compiler;
use crate::project::marker_map::MarkerMap;
use crate::project::markers;
use crate::project::project;
use crate::project::project::{Meta, ProjectFile};
use crate::utils::{paths, text};
use vstd::prelude::*;
use vstd::utf8;

verus! {

/// How a frame of a tag is told from others of its name.
pub ghost enum FrameKey {
    /// There is one frame of the name.
    Same,
    /// There is one frame for each list of parts.
    Parts(Seq<Seq<u8>>),
    /// No frame is ever the same as this one.
    Incomparable,
}

/// What a frame of a tag holds, as far as it is written here.
pub ghost enum FrameBody {
    Text(Seq<char>),
    Extended { description: Seq<char>, value: Seq<char> },
    Cover { mime: Seq<char>, data: Seq<u8> },
    Other,
}

/// A frame of a tag.
pub ghost struct FrameModel {
    pub id: Seq<char>,
    pub key: FrameKey,
    pub body: FrameBody,
}

#[verifier::external_type_specification]
#[verifier::external_body]
pub struct ExTag(id3::Tag);

/// The frames of a tag, in order.
pub uninterp spec fn frames_of(tag: &id3::Tag) -> Seq<FrameModel>;

/// Whether no frame of a tag holds frames of its own or a table of places.
pub uninterp spec fn plain(tag: &id3::Tag) -> bool;

/// How many bytes the contents of each frame of a tag take in UTF-8.
pub uninterp spec fn sizes_of(tag: &id3::Tag) -> Seq<usize>;

/// Whether each frame of a tag has an encoding of its own.
pub uninterp spec fn encodings_of(tag: &id3::Tag) -> Seq<bool>;

/// The bytes that a tag is written as, or why it is not.
pub uninterp spec fn written(tag: &id3::Tag) -> Result<Seq<u8>, Seq<char>>;

/// The frames of the tag in some bytes.
pub uninterp spec fn tag_in(data: Seq<u8>) -> Option<Seq<FrameModel>>;

/// A tag whose frames take as many bytes or more cannot be written: its size is a
/// number of 28 bits.
pub const TAG_LIMIT: u64 = 0x1000_0000;

/// The bytes that a frame takes: ten before its contents. Another encoding than UTF-8
/// takes at most four times as many and three more.
pub open spec fn frame_room(size: usize, own_encoding: bool) -> nat {
    if own_encoding {
        4 * size as nat + 13
    } else {
        size as nat + 10
    }
}

/// The bytes that the first `n` frames take.
pub open spec fn room_before(sizes: Seq<usize>, own_encodings: Seq<bool>, n: int) -> nat
    decreases n,
{
    if n <= 0 {
        0
    } else {
        room_before(sizes, own_encodings, n - 1) + frame_room(sizes[n - 1], own_encodings[n - 1])
    }
}

/// The bytes that the frames of a tag take.
pub open spec fn room(tag: &id3::Tag) -> nat {
    room_before(sizes_of(tag), encodings_of(tag), sizes_of(tag).len() as int)
}

/// The bytes that the contents of a frame take in UTF-8, if they are known.
pub open spec fn body_size(body: FrameBody) -> Option<nat> {
    match body {
        FrameBody::Text(value) => Some(1 + utf8::encode_utf8(value).len()),
        FrameBody::Extended { description, value } => Some(
            2 + utf8::encode_utf8(description).len() + utf8::encode_utf8(value).len(),
        ),
        FrameBody::Cover { mime, data } => Some(4 + utf8::encode_utf8(mime).len() + data.len()),
        FrameBody::Other => None,
    }
}

/// Whether four bytes stand somewhere in others.
pub open spec fn names_frame(data: Seq<u8>, name: Seq<u8>) -> bool {
    exists|i: int| #[trigger] named_at(data, name, i)
}

pub open spec fn named_at(data: Seq<u8>, name: Seq<u8>, i: int) -> bool {
    0 <= i <= data.len() - 4 && data.subrange(i, i + 4) == name
}

/// Whether bytes hold no name of a frame that could hold frames of its own or a table of
/// places. The name of such a frame is never compressed.
pub open spec fn readable(data: Seq<u8>) -> bool {
    &&& !names_frame(data, export_wav::name('C', 'H', 'A', 'P'))
    &&& !names_frame(data, export_wav::name('C', 'T', 'O', 'C'))
    &&& !names_frame(data, export_wav::name('M', 'L', 'L', 'T'))
}

/// Whether a new frame takes the place of another.
pub open spec fn conflicts(old: FrameModel, new: FrameModel) -> bool {
    &&& old.id == new.id
    &&& match (old.key, new.key) {
        (FrameKey::Same, FrameKey::Same) => true,
        (FrameKey::Parts(a), FrameKey::Parts(b)) => a == b,
        _ => false,
    }
}

/// Frames without the first one whose place a new frame takes.
pub open spec fn without_first(frames: Seq<FrameModel>, new: FrameModel) -> Seq<FrameModel>
    decreases frames.len(),
{
    if frames.len() == 0 {
        frames
    } else if conflicts(frames[0], new) {
        frames.drop_first()
    } else {
        seq![frames[0]] + without_first(frames.drop_first(), new)
    }
}

/// Frames with a new one at the end.
pub open spec fn with_frame(frames: Seq<FrameModel>, new: FrameModel) -> Seq<FrameModel> {
    without_first(frames, new).push(new)
}

pub open spec fn text_frame(id: Seq<char>, value: Seq<char>) -> FrameModel {
    FrameModel { id, key: FrameKey::Same, body: FrameBody::Text(value) }
}

pub open spec fn extended_frame(description: Seq<char>, value: Seq<char>) -> FrameModel {
    FrameModel {
        id: "TXXX"@,
        key: FrameKey::Parts(seq![utf8::encode_utf8(description)]),
        body: FrameBody::Extended { description, value },
    }
}

pub open spec fn cover_frame(mime: Seq<char>, data: Seq<u8>) -> FrameModel {
    FrameModel {
        id: "APIC"@,
        key: FrameKey::Parts(seq![utf8::encode_utf8("Front cover"@)]),
        body: FrameBody::Cover { mime, data },
    }
}

/// A year with at least four characters, the sign counted.
pub open spec fn year_text(year: i32) -> Seq<char> {
    if year < 0 {
        "-"@ + text::zero_padded((-year) as nat, 3)
    } else {
        text::zero_padded(year as nat, 4)
    }
}

/// Calls `id3::Tag::new`: a tag without frames.
#[verifier::external_body]
fn new_tag() -> (tag: id3::Tag)
    ensures
        frames_of(&tag) == Seq::<FrameModel>::empty(),
        plain(&tag),
{
    id3::Tag::new()
}

/// Calls `id3::Tag::read_from2` on bytes in memory that name no chapter, no table of
/// contents and no table of places, so that no such frame comes out. Which frames some
/// bytes hold is named, not stated. A frame of version 2.3 is given the memory that it
/// asks for, up to four gigabytes, before its bytes are looked at.
#[verifier::external_body]
fn parse_tag(data: &[u8]) -> (r: Option<id3::Tag>)
    requires
        readable(data@),
    ensures
        match r {
            Some(tag) => tag_in(data@) == Some(frames_of(&tag)) && plain(&tag),
            None => tag_in(data@) is None,
        },
{
    id3::Tag::read_from2(std::io::Cursor::new(data)).ok()
}

/// Calls `id3::Content::to_unknown` for every frame of a tag, in order. Texts, described
/// texts and front covers without a description take as many bytes as they hold and a
/// few more; what other contents take is not stated. Contents that cannot be written
/// count as none.
#[verifier::external_body]
fn content_sizes(tag: &id3::Tag) -> (r: Vec<usize>)
    requires
        plain(tag),
    ensures
        r@ == sizes_of(tag),
        r@.len() == frames_of(tag).len(),
        forall|i: int|
            0 <= i < r@.len() ==> (body_size((#[trigger] frames_of(tag)[i]).body) matches Some(n)
                ==> r@[i] == n),
{
    tag.frames().map(|f| f.content().to_unknown().map_or(0, |u| u.data.len())).collect()
}

/// Calls `id3::Frame::encoding` for every frame of a tag, in order. Which frames have an
/// encoding of their own is named, not stated.
#[verifier::external_body]
fn own_encodings(tag: &id3::Tag) -> (r: Vec<bool>)
    ensures
        r@ == encodings_of(tag),
        r@.len() == frames_of(tag).len(),
{
    tag.frames().map(|f| f.encoding().is_some()).collect()
}

/// Calls `id3::Tag::write_to` for version 2.4. Which bytes come out is named, not
/// stated; the error is the `Display` form of what is reported.
#[verifier::external_body]
fn write_tag(tag: &id3::Tag) -> (r: Result<Vec<u8>, String>)
    requires
        plain(tag),
        room(tag) < TAG_LIMIT,
    ensures
        match r {
            Ok(bytes) => written(tag) == Ok::<Seq<u8>, Seq<char>>(bytes@),
            Err(e) => written(tag) == Err::<Seq<u8>, Seq<char>>(e@),
        },
{
    let mut out = Vec::new();
    let done = tag.write_to(&mut out, id3::Version::Id3v24);
    done.map(|_| out).map_err(|e| format!("{}", e))
}

/// Calls `id3::TagLike::set_text` for a frame name of four bytes: the frame goes to the
/// end of the tag and takes the place of the first text of that name.
#[verifier::external_body]
fn set_text(tag: &mut id3::Tag, id: &str, value: &str)
    requires
        utf8::encode_utf8(id@).len() == 4,
    ensures
        frames_of(final(tag)) == with_frame(frames_of(old(tag)), text_frame(id@, value@)),
        plain(old(tag)) ==> plain(final(tag)),
{
    id3::TagLike::set_text(tag, id, value)
}

/// Calls `id3::TagLike::set_date_released` with a year alone, which sets a text.
#[verifier::external_body]
fn set_released(tag: &mut id3::Tag, year: i32)
    ensures
        frames_of(final(tag)) == with_frame(
            frames_of(old(tag)),
            text_frame("TDRL"@, year_text(year)),
        ),
        plain(old(tag)) ==> plain(final(tag)),
{
    let date = id3::Timestamp {
        year,
        month: None,
        day: None,
        hour: None,
        minute: None,
        second: None,
    };
    id3::TagLike::set_date_released(tag, date)
}

/// Calls `id3::TagLike::set_date_recorded` with a year alone, which sets a text.
#[verifier::external_body]
fn set_recorded(tag: &mut id3::Tag, year: i32)
    ensures
        frames_of(final(tag)) == with_frame(
            frames_of(old(tag)),
            text_frame("TDRC"@, year_text(year)),
        ),
        plain(old(tag)) ==> plain(final(tag)),
{
    let date = id3::Timestamp {
        year,
        month: None,
        day: None,
        hour: None,
        minute: None,
        second: None,
    };
    id3::TagLike::set_date_recorded(tag, date)
}

/// Calls `id3::TagLike::add_frame` with a described text: the frame goes to the end of
/// the tag and takes the place of the first one with that description.
#[verifier::external_body]
fn add_extended(tag: &mut id3::Tag, description: &str, value: &str)
    ensures
        frames_of(final(tag)) == with_frame(
            frames_of(old(tag)),
            extended_frame(description@, value@),
        ),
        plain(old(tag)) ==> plain(final(tag)),
{
    let frame = id3::frame::ExtendedText {
        description: description.to_owned(),
        value: value.to_owned(),
    };
    id3::TagLike::add_frame(tag, frame);
}

/// Calls `id3::TagLike::add_frame` with a front cover: the frame goes to the end of the
/// tag and takes the place of the first front cover.
#[verifier::external_body]
fn add_cover(tag: &mut id3::Tag, mime: &str, data: Vec<u8>)
    ensures
        frames_of(final(tag)) == with_frame(frames_of(old(tag)), cover_frame(mime@, data@)),
        plain(old(tag)) ==> plain(final(tag)),
{
    let picture = id3::frame::Picture {
        mime_type: mime.to_owned(),
        picture_type: id3::frame::PictureType::CoverFront,
        description: String::new(),
        data,
    };
    id3::TagLike::add_frame(tag, picture);
}

/// The texts that a tag holds.
#[derive(Clone, Copy, Debug, PartialEq, Eq, Structural)]
pub enum TextField {
    Title,
    Artist,
    Composer,
    AlbumArtist,
    Album,
    Genre,
    Software,
}

impl TextField {
    pub open spec fn spec_id(self) -> Seq<char> {
        match self {
            TextField::Title => "TIT2"@,
            TextField::Artist => "TPE1"@,
            TextField::Composer => "TCOM"@,
            TextField::AlbumArtist => "TPE2"@,
            TextField::Album => "TALB"@,
            TextField::Genre => "TCON"@,
            TextField::Software => "TSSE"@,
        }
    }

    /// The name of the frame.
    pub fn id(self) -> (r: &'static str)
        ensures
            r@ == self.spec_id(),
            utf8::encode_utf8(r@).len() == 4,
    {
        proof {
            reveal_strlit("TIT2");
            reveal_strlit("TPE1");
            reveal_strlit("TCOM");
            reveal_strlit("TPE2");
            reveal_strlit("TALB");
            reveal_strlit("TCON");
            reveal_strlit("TSSE");
            utf8::is_ascii_chars_encode_utf8("TIT2"@);
            utf8::is_ascii_chars_encode_utf8("TPE1"@);
            utf8::is_ascii_chars_encode_utf8("TCOM"@);
            utf8::is_ascii_chars_encode_utf8("TPE2"@);
            utf8::is_ascii_chars_encode_utf8("TALB"@);
            utf8::is_ascii_chars_encode_utf8("TCON"@);
            utf8::is_ascii_chars_encode_utf8("TSSE"@);
        }
        match self {
            TextField::Title => "TIT2",
            TextField::Artist => "TPE1",
            TextField::Composer => "TCOM",
            TextField::AlbumArtist => "TPE2",
            TextField::Album => "TALB",
            TextField::Genre => "TCON",
            TextField::Software => "TSSE",
        }
    }
}

/// One thing to write to a tag.
#[derive(Debug)]
pub enum TagField {
    Text(TextField, String),
    Released(i32),
    Recorded(i32),
    Cover { mime: String, data: Vec<u8> },
    Extended { description: String, value: String },
}

/// The frame that a field becomes.
pub open spec fn frame_for(field: TagField) -> FrameModel {
    match field {
        TagField::Text(id, value) => text_frame(id.spec_id(), value@),
        TagField::Released(year) => text_frame("TDRL"@, year_text(year)),
        TagField::Recorded(year) => text_frame("TDRC"@, year_text(year)),
        TagField::Cover { mime, data } => cover_frame(mime@, data@),
        TagField::Extended { description, value } => extended_frame(description@, value@),
    }
}

/// The frames that fields become, in order.
pub open spec fn frames_for(fields: Seq<TagField>) -> Seq<FrameModel> {
    fields.map_values(|f: TagField| frame_for(f))
}

/// Frames with new ones, the first one first.
pub open spec fn with_frames(frames: Seq<FrameModel>, new: Seq<FrameModel>) -> Seq<FrameModel>
    decreases new.len(),
{
    if new.len() == 0 {
        frames
    } else {
        with_frame(with_frames(frames, new.drop_last()), new.last())
    }
}

fn apply_field(tag: &mut id3::Tag, field: TagField)
    ensures
        frames_of(final(tag)) == with_frame(frames_of(old(tag)), frame_for(field)),
        plain(old(tag)) ==> plain(final(tag)),
{
    match field {
        TagField::Text(id, value) => set_text(tag, id.id(), value.as_str()),
        TagField::Released(year) => set_released(tag, year),
        TagField::Recorded(year) => set_recorded(tag, year),
        TagField::Cover { mime, data } => add_cover(tag, mime.as_str(), data),
        TagField::Extended { description, value } => add_extended(
            tag,
            description.as_str(),
            value.as_str(),
        ),
    }
}

/// Writes fields to a tag, in order.
pub fn apply_fields(tag: &mut id3::Tag, fields: Vec<TagField>)
    ensures
        frames_of(final(tag)) == with_frames(frames_of(old(tag)), frames_for(fields@)),
        plain(old(tag)) ==> plain(final(tag)),
{
    let ghost start = frames_of(tag);
    let ghost all = frames_for(fields@);
    let mut left = fields;
    let mut order: Vec<TagField> = Vec::new();
    while left.len() > 0
        invariant
            order@.len() + left@.len() == fields@.len(),
            left@ == fields@.take(left@.len() as int),
            forall|i: int|
                #![trigger order@[i]]
                0 <= i < order@.len() ==> order@[i] == fields@[fields@.len() - 1 - i],
        decreases left.len(),
    {
        let ghost before = left@;
        match left.pop() {
            Some(field) => order.push(field),
            None => {},
        }
        assert(left@ =~= fields@.take(left@.len() as int));
    }
    assert(all.take(0) =~= Seq::empty());
    while order.len() > 0
        invariant
            all == frames_for(fields@),
            order@.len() <= fields@.len(),
            forall|i: int|
                #![trigger order@[i]]
                0 <= i < order@.len() ==> order@[i] == fields@[fields@.len() - 1 - i],
            frames_of(tag) == with_frames(start, all.take(fields@.len() - order@.len())),
            plain(old(tag)) ==> plain(tag),
        decreases order.len(),
    {
        let ghost done = fields@.len() - order@.len();
        match order.pop() {
            Some(field) => {
                assert(field == fields@[done]);
                apply_field(tag, field);
            },
            None => {},
        }
        proof {
            assert(all.take(done + 1).drop_last() =~= all.take(done));
            assert(all.take(done + 1).last() == frame_for(fields@[done]));
        }
    }
    assert(all.take(fields@.len() as int) =~= all);
}

/// The newest of the first `n` fragments that starts a section.
pub open spec fn newest_section(
    files: Seq<project::ProjectFileModel>,
    known: Map<Seq<char>, project::MarkerSettingsModel>,
    n: int,
) -> Option<project::ProjectFileModel>
    decreases n,
{
    if n <= 0 {
        None
    } else if markers::starts_section(files[n - 1], known) {
        Some(files[n - 1])
    } else {
        newest_section(files, known, n - 1)
    }
}

/// A text of a section, or that of the book where the section has none.
pub open spec fn own_or(own: Seq<char>, book: Seq<char>) -> Seq<char> {
    if own.len() > 0 {
        own
    } else {
        book
    }
}

/// The title, the author and the year of an exported file.
pub open spec fn credits(
    meta: project::MetaModel,
    section: Option<project::ProjectFileModel>,
) -> (Seq<char>, Seq<char>, Seq<char>) {
    match section {
        Some(f) => (
            own_or(f.title, meta.title),
            own_or(f.author, meta.author),
            own_or(f.year, meta.year),
        ),
        None => (meta.title, meta.author, meta.year),
    }
}

/// The year of release that a text states, if it states one.
pub open spec fn release_year(s: Seq<char>) -> Option<i32> {
    match text::signed(s) {
        Some(n) => if i32::MIN <= n <= i32::MAX {
            Some(n as i32)
        } else {
            None
        },
        None => None,
    }
}

/// The frames that name an exported file, in the order in which they are written.
pub open spec fn credit_frames(
    meta: project::MetaModel,
    section: Option<project::ProjectFileModel>,
    year: i32,
    version: Seq<char>,
) -> Seq<FrameModel> {
    let (title, author, released) = credits(meta, section);
    seq![text_frame("TIT2"@, title), text_frame("TPE1"@, author)] + (match release_year(released) {
        Some(y) => seq![text_frame("TDRL"@, year_text(y))],
        None => Seq::empty(),
    }) + seq![text_frame("TDRC"@, year_text(year))] + (if meta.reader.len() > 0 {
        seq![text_frame("TCOM"@, meta.reader)]
    } else {
        Seq::empty()
    }) + seq![
        text_frame("TPE2"@, meta.reader),
        text_frame("TALB"@, meta.title),
        text_frame("TCON"@, "Audiobook"@),
        text_frame("TSSE"@, "iamreader "@ + version),
    ]
}

fn section_of<'a>(files: &'a [ProjectFile], known: &MarkerMap) -> (r: Option<&'a ProjectFile>)
    ensures
        match r {
            Some(f) => newest_section(
                project::file_models(files@),
                known@,
                files@.len() as int,
            ) == Some(f@),
            None => newest_section(
                project::file_models(files@),
                known@,
                files@.len() as int,
            ) is None,
        },
{
    let ghost models = project::file_models(files@);
    let mut n: usize = files.len();
    while n > 0
        invariant
            n <= files@.len(),
            models == project::file_models(files@),
            newest_section(models, known@, files@.len() as int) == newest_section(
                models,
                known@,
                n as int,
            ),
        decreases n,
    {
        assert(models[n - 1] == files@[n - 1]@);
        if markers::file_starts_section(&files[n - 1], known) {
            return Some(&files[n - 1]);
        }
        n = n - 1;
    }
    None
}

fn choose_text(own: &String, book: &String) -> (r: String)
    ensures
        r@ == own_or(own@, book@),
{
    if own.as_str().is_empty() {
        book.clone()
    } else {
        own.clone()
    }
}

/// The fields that name an exported file. A section has a title, an author and a year
/// of its own; what it leaves open comes from the book.
pub fn credit_fields(
    meta: &Meta,
    files: &[ProjectFile],
    known: &MarkerMap,
    year: i32,
    version: &str,
) -> (r: Vec<TagField>)
    ensures
        frames_for(r@) == credit_frames(
            meta@,
            newest_section(project::file_models(files@), known@, files@.len() as int),
            year,
            version@,
        ),
{
    let section = section_of(files, known);
    let (title, author, released) = match section {
        Some(f) => (
            choose_text(&f.title, &meta.title),
            choose_text(&f.author, &meta.author),
            choose_text(&f.year, &meta.year),
        ),
        None => (meta.title.clone(), meta.author.clone(), meta.year.clone()),
    };
    let ghost wanted = credit_frames(
        meta@,
        newest_section(project::file_models(files@), known@, files@.len() as int),
        year,
        version@,
    );
    let mut out: Vec<TagField> = Vec::new();
    let release = text::parse_i32(released.as_str());
    out.push(TagField::Text(TextField::Title, title));
    out.push(TagField::Text(TextField::Artist, author));
    if let Some(y) = release {
        out.push(TagField::Released(y));
    }
    out.push(TagField::Recorded(year));
    if !meta.reader.as_str().is_empty() {
        out.push(TagField::Text(TextField::Composer, meta.reader.clone()));
    }
    out.push(TagField::Text(TextField::AlbumArtist, meta.reader.clone()));
    out.push(TagField::Text(TextField::Album, meta.title.clone()));
    out.push(TagField::Text(TextField::Genre, "Audiobook".to_owned()));
    out.push(TagField::Text(TextField::Software, "iamreader ".to_owned().concat(version)));
    assert(frames_for(out@) =~= wanted);
    out
}

/// The kind of a cover, by the extension of its path.
pub open spec fn cover_mime_spec(path: Seq<char>) -> Seq<char> {
    if paths::extension_spec(path) == Some("png"@) {
        "image/png"@
    } else {
        "image/jpeg"@
    }
}

/// Tells the kind of a cover.
pub fn cover_mime(path: &str) -> (r: &'static str)
    ensures
        r@ == cover_mime_spec(path@),
{
    match paths::extension(path) {
        Some(e) => if text::same_text(e.as_str(), "png") {
            "image/png"
        } else {
            "image/jpeg"
        },
        None => "image/jpeg",
    }
}

/// The name of a chapter within a file.
pub open spec fn chapter_id(i: nat) -> Seq<char> {
    "ch"@ + text::zero_padded(i + 1, 2)
}

/// When a chapter starts, in whole milliseconds. Places count the samples of all
/// channels.
pub open spec fn chapter_ms(place: int, sample_rate: u32, channels: u16) -> int {
    place * 1000 / (sample_rate * channels)
}

/// The frame of a chapter.
pub open spec fn chapter_frame(
    i: nat,
    chapter: (Seq<char>, int),
    sample_rate: u32,
    channels: u16,
) -> FrameModel {
    extended_frame(
        "CHAP:"@ + chapter_id(i),
        "CHAP|"@ + chapter_id(i) + "|"@ + text::decimal(
            chapter_ms(chapter.1, sample_rate, channels) as nat,
        ) + "|"@ + chapter.0,
    )
}

/// The frames of the chapters of a file.
pub open spec fn chapter_frames(
    chapters: Seq<(Seq<char>, int)>,
    sample_rate: u32,
    channels: u16,
) -> Seq<FrameModel> {
    Seq::new(
        chapters.len(),
        |i: int| chapter_frame(i as nat, chapters[i], sample_rate, channels),
    )
}

fn chapter_field(i: usize, title: &str, place: u64, sample_rate: u32, channels: u16) -> (r: TagField)
    requires
        sample_rate > 0,
        channels > 0,
    ensures
        frame_for(r) == chapter_frame(i as nat, (title@, place as int), sample_rate, channels),
{
    assert(0 < sample_rate * channels <= u32::MAX * u16::MAX) by (nonlinear_arith)
        requires
            0 < sample_rate <= u32::MAX,
            0 < channels <= u16::MAX,
    ;
    let per_second: u128 = sample_rate as u128 * channels as u128;
    let ms: u128 = place as u128 * 1000 / per_second;
    let id = "ch".to_owned().concat(text::padded_text(i as u128 + 1, 2).as_str());
    TagField::Extended {
        description: "CHAP:".to_owned().concat(id.as_str()),
        value: "CHAP|".to_owned().concat(id.as_str()).concat("|").concat(
            text::decimal_text(ms).as_str(),
        ).concat("|").concat(title),
    }
}

/// The fields for the chapters of a compressed file. Chapters need a rate and channels
/// by which their places can be told.
pub fn chapter_fields(chapters: &[(String, u64)], sample_rate: u32, channels: u16) -> (r: Result<
    Vec<TagField>,
    &'static str,
>)
    ensures
        match r {
            Ok(v) => (chapters@.len() == 0 || (sample_rate > 0 && channels > 0)) && frames_for(
                v@,
            ) == chapter_frames(compiler::chapter_models(chapters@), sample_rate, channels),
            Err(e) => chapters@.len() > 0 && (sample_rate == 0 || channels == 0) && e@
                == "MP3 chapter timestamps require a nonzero sample rate and channel count"@,
        },
{
    let count: usize = chapters.len();
    if count > 0 && (sample_rate == 0 || channels == 0) {
        return Err("MP3 chapter timestamps require a nonzero sample rate and channel count");
    }
    let ghost models = compiler::chapter_models(chapters@);
    let ghost wanted = chapter_frames(models, sample_rate, channels);
    let mut out: Vec<TagField> = Vec::new();
    let mut i: usize = 0;
    assert(frames_for(out@) =~= wanted.take(0));
    while i < count
        invariant
            i <= count == chapters@.len(),
            count > 0 ==> sample_rate > 0 && channels > 0,
            models == compiler::chapter_models(chapters@),
            wanted == chapter_frames(models, sample_rate, channels),
            frames_for(out@) == wanted.take(i as int),
        decreases count - i,
    {
        let ghost before = out@;
        assert(models[i as int] == (chapters@[i as int].0@, chapters@[i as int].1 as int));
        out.push(
            chapter_field(i, chapters[i].0.as_str(), chapters[i].1, sample_rate, channels),
        );
        i = i + 1;
        proof {
            assert(frames_for(out@) =~= frames_for(before).push(frame_for(out@[i - 1])));
            assert(wanted.take(i as int) =~= wanted.take(i - 1).push(wanted[i - 1]));
        }
    }
    assert(wanted.take(count as int) =~= wanted);
    Ok(out)
}

/// The view of a cover with its path.
pub open spec fn cover_view(cover: Option<(String, Vec<u8>)>) -> Option<(Seq<char>, Seq<u8>)> {
    match cover {
        Some((path, data)) => Some((path@, data@)),
        None => None,
    }
}

/// All that is written to the tag of a file.
pub open spec fn tag_frames(
    credit: Seq<FrameModel>,
    cover: Option<(Seq<char>, Seq<u8>)>,
    chapters: Seq<FrameModel>,
) -> Seq<FrameModel> {
    credit + (match cover {
        Some((path, data)) => if data.len() > 0 {
            seq![cover_frame(cover_mime_spec(path), data)]
        } else {
            Seq::empty()
        },
        None => Seq::empty(),
    }) + chapters
}

/// The frames of the tag of an exported file.
pub open spec fn audio_frames(
    meta: project::MetaModel,
    files: Seq<project::ProjectFileModel>,
    known: Map<Seq<char>, project::MarkerSettingsModel>,
    year: i32,
    version: Seq<char>,
    cover: Option<(Seq<char>, Seq<u8>)>,
    chapters: Seq<(Seq<char>, int)>,
    sample_rate: u32,
    channels: u16,
) -> Seq<FrameModel> {
    tag_frames(
        credit_frames(meta, newest_section(files, known, files.len() as int), year, version),
        cover,
        chapter_frames(chapters, sample_rate, channels),
    )
}

fn audio_fields(
    meta: &Meta,
    files: &[ProjectFile],
    known: &MarkerMap,
    year: i32,
    version: &str,
    cover: Option<(String, Vec<u8>)>,
    chapters: &[(String, u64)],
    sample_rate: u32,
    channels: u16,
) -> (r: Result<Vec<TagField>, &'static str>)
    ensures
        match r {
            Ok(fields) => (chapters@.len() == 0 || (sample_rate > 0 && channels > 0))
                && frames_for(fields@) == audio_frames(
                meta@,
                project::file_models(files@),
                known@,
                year,
                version@,
                cover_view(cover),
                compiler::chapter_models(chapters@),
                sample_rate,
                channels,
            ),
            Err(e) => chapters@.len() > 0 && (sample_rate == 0 || channels == 0) && e@
                == "MP3 chapter timestamps require a nonzero sample rate and channel count"@,
        },
{
    let mut marks = match chapter_fields(chapters, sample_rate, channels) {
        Ok(v) => v,
        Err(e) => return Err(e),
    };
    let mut fields = credit_fields(meta, files, known, year, version);
    let ghost credit = frames_for(fields@);
    let ghost art = cover_view(cover);
    let ghost last = frames_for(marks@);
    if let Some((path, data)) = cover {
        if data.len() > 0 {
            fields.push(TagField::Cover { mime: cover_mime(path.as_str()).to_owned(), data });
        }
    }
    fields.append(&mut marks);
    assert(project::file_models(files@).len() == files@.len());
    assert(frames_for(fields@) =~= tag_frames(credit, art, last));
    Ok(fields)
}

/// Writes the tag of an exported file: its credits, its cover unless that is missing or
/// empty, and, in a compressed file, its chapters.
pub fn write_audio_tags(
    tag: &mut id3::Tag,
    meta: &Meta,
    files: &[ProjectFile],
    known: &MarkerMap,
    year: i32,
    version: &str,
    cover: Option<(String, Vec<u8>)>,
    chapters: &[(String, u64)],
    sample_rate: u32,
    channels: u16,
) -> (r: Result<(), &'static str>)
    ensures
        match r {
            Ok(_) => (chapters@.len() == 0 || (sample_rate > 0 && channels > 0)) && frames_of(
                final(tag),
            ) == with_frames(
                frames_of(old(tag)),
                audio_frames(
                    meta@,
                    project::file_models(files@),
                    known@,
                    year,
                    version@,
                    cover_view(cover),
                    compiler::chapter_models(chapters@),
                    sample_rate,
                    channels,
                ),
            ),
            Err(e) => chapters@.len() > 0 && (sample_rate == 0 || channels == 0) && e@
                == "MP3 chapter timestamps require a nonzero sample rate and channel count"@
                && frames_of(final(tag)) == frames_of(old(tag)),
        },
{
    match audio_fields(
        meta,
        files,
        known,
        year,
        version,
        cover,
        chapters,
        sample_rate,
        channels,
    ) {
        Ok(fields) => {
            apply_fields(tag, fields);
            Ok(())
        },
        Err(e) => Err(e),
    }
}

/// The frames of the tag that some bytes hold; none where they hold no tag.
pub open spec fn frames_in(data: Seq<u8>) -> Seq<FrameModel> {
    match tag_in(data) {
        Some(frames) => frames,
        None => Seq::empty(),
    }
}

fn finds_name(data: &[u8], name: &[u8; 4]) -> (r: bool)
    ensures
        r == names_frame(data@, name@),
{
    let count: usize = data.len();
    let mut i: usize = 0;
    while count - i >= 4
        invariant
            i <= count == data@.len(),
            forall|k: int| 0 <= k < i ==> !#[trigger] named_at(data@, name@, k),
        decreases count - i,
    {
        if data[i] == name[0] && data[i + 1] == name[1] && data[i + 2] == name[2] && data[i + 3]
            == name[3] {
            assert(data@.subrange(i as int, i + 4) =~= name@);
            assert(named_at(data@, name@, i as int));
            return true;
        }
        proof {
            let part = data@.subrange(i as int, i + 4);
            assert(part[0] == data@[i as int] && part[1] == data@[i + 1] && part[2] == data@[i + 2]
                && part[3] == data@[i + 3]);
        }
        i = i + 1;
    }
    false
}

fn is_readable(data: &[u8]) -> (r: bool)
    ensures
        r == readable(data@),
{
    let chapter: [u8; 4] = ['C' as u8, 'H' as u8, 'A' as u8, 'P' as u8];
    let contents: [u8; 4] = ['C' as u8, 'T' as u8, 'O' as u8, 'C' as u8];
    let places: [u8; 4] = ['M' as u8, 'L' as u8, 'L' as u8, 'T' as u8];
    proof {
        assert(chapter@ =~= export_wav::name('C', 'H', 'A', 'P'));
        assert(contents@ =~= export_wav::name('C', 'T', 'O', 'C'));
        assert(places@ =~= export_wav::name('M', 'L', 'L', 'T'));
    }
    !finds_name(data, &chapter) && !finds_name(data, &contents) && !finds_name(data, &places)
}

/// The tag that some bytes hold; a new one where they hold none. Bytes that could hold
/// frames within frames or a table of places are not read.
pub fn read_tag(data: &[u8]) -> (r: Option<id3::Tag>)
    ensures
        match r {
            Some(tag) => readable(data@) && frames_of(&tag) == frames_in(data@) && plain(&tag),
            None => !readable(data@),
        },
{
    if !is_readable(data) {
        return None;
    }
    match parse_tag(data) {
        Some(tag) => Some(tag),
        None => Some(new_tag()),
    }
}

/// Why an exported file gets no tag.
#[derive(Debug)]
pub enum TagError {
    /// Its chapters have no place.
    Chapters,
    /// The tag that it holds is not read.
    Unreadable,
    /// Its frames take more bytes than a tag can say.
    TooLarge,
    /// A frame cannot be written, for the given reason.
    Refused(String),
}

impl TagError {
    pub open spec fn spec_text(&self) -> Seq<char> {
        match self {
            TagError::Chapters =>
                "MP3 chapter timestamps require a nonzero sample rate and channel count"@,
            TagError::Unreadable => "The tags of the output hold frames that cannot be rewritten"@,
            TagError::TooLarge => "The tags of the output are too large"@,
            TagError::Refused(reason) => reason@,
        }
    }

    /// The sentence that belongs to an error.
    pub fn text(&self) -> (r: String)
        ensures
            r@ == self.spec_text(),
    {
        match self {
            TagError::Chapters =>
                "MP3 chapter timestamps require a nonzero sample rate and channel count".to_owned(),
            TagError::Unreadable =>
                "The tags of the output hold frames that cannot be rewritten".to_owned(),
            TagError::TooLarge => "The tags of the output are too large".to_owned(),
            TagError::Refused(reason) => reason.clone(),
        }
    }
}

proof fn room_grows(sizes: Seq<usize>, own: Seq<bool>, m: int, n: int)
    requires
        0 <= m <= n,
    ensures
        room_before(sizes, own, m) <= room_before(sizes, own, n),
    decreases n,
{
    if m < n {
        room_grows(sizes, own, m, n - 1);
    }
}

fn has_room(tag: &id3::Tag) -> (r: bool)
    requires
        plain(tag),
    ensures
        r == (room(tag) < TAG_LIMIT),
        known_room(frames_of(tag)) matches Some(n) ==> room(tag) <= n,
{
    let sizes = content_sizes(tag);
    let own = own_encodings(tag);
    proof {
        if known_room(frames_of(tag)) is Some {
            let n = frames_of(tag).len() as int;
            assert(frames_of(tag).take(n) =~= frames_of(tag));
            known_frames_fit(frames_of(tag), sizes@, own@, n);
        }
    }
    let count: usize = sizes.len();
    let mut total: u128 = 0;
    let mut i: usize = 0;
    while i < count
        invariant
            i <= count == sizes@.len(),
            own@.len() == sizes@.len(),
            total == room_before(sizes@, own@, i as int),
            total < TAG_LIMIT,
            room(tag) == room_before(sizes@, own@, count as int),
            known_room(frames_of(tag)) matches Some(n) ==> room(tag) <= n,
        decreases count - i,
    {
        total = total + if own[i] {
            4 * sizes[i] as u128 + 13
        } else {
            sizes[i] as u128 + 10
        };
        i = i + 1;
        proof {
            room_grows(sizes@, own@, i as int, count as int);
        }
        if total >= TAG_LIMIT as u128 {
            return false;
        }
    }
    true
}

/// Whether frames of known contents are small enough to be written, whatever their
/// encoding.
pub open spec fn surely_fit(frames: Seq<FrameModel>) -> bool {
    known_room(frames) matches Some(n) && n < TAG_LIMIT
}

/// The bytes that frames of known contents take at most.
pub open spec fn known_room(frames: Seq<FrameModel>) -> Option<nat>
    decreases frames.len(),
{
    if frames.len() == 0 {
        Some(0nat)
    } else {
        match (known_room(frames.drop_last()), body_size(frames.last().body)) {
            (Some(before), Some(n)) => Some(before + 4 * n + 13),
            _ => None,
        }
    }
}

proof fn known_frames_fit(frames: Seq<FrameModel>, sizes: Seq<usize>, own: Seq<bool>, n: int)
    requires
        0 <= n <= frames.len(),
        sizes.len() == frames.len(),
        forall|i: int|
            0 <= i < frames.len() ==> (body_size((#[trigger] frames[i]).body) matches Some(n)
                ==> sizes[i] == n),
        known_room(frames.take(n)) is Some,
    ensures
        room_before(sizes, own, n) <= known_room(frames.take(n))->0,
    decreases n,
{
    if n > 0 {
        assert(frames.take(n).drop_last() =~= frames.take(n - 1));
        assert(frames.take(n).last() == frames[n - 1]);
        known_frames_fit(frames, sizes, own, n - 1);
    }
}

/// The view of what became of a tag.
pub open spec fn written_view(r: Result<Vec<u8>, TagError>) -> Option<Result<Seq<u8>, Seq<char>>> {
    match r {
        Ok(bytes) => Some(Ok(bytes@)),
        Err(TagError::Refused(reason)) => Some(Err(reason@)),
        Err(_) => None,
    }
}

/// The bytes of the tag of an exported file: those of the tag that the file holds, with
/// the frames of [`write_audio_tags`]. A tag is refused if it is too large, or if the file
/// holds one that is not read.
pub fn tagged(
    data: &[u8],
    meta: &Meta,
    files: &[ProjectFile],
    known: &MarkerMap,
    year: i32,
    version: &str,
    cover: Option<(String, Vec<u8>)>,
    chapters: &[(String, u64)],
    sample_rate: u32,
    channels: u16,
) -> (r: Result<Vec<u8>, TagError>)
    ensures
        ({
            let frames = audio_frames(
                meta@,
                project::file_models(files@),
                known@,
                year,
                version@,
                cover_view(cover),
                compiler::chapter_models(chapters@),
                sample_rate,
                channels,
            );
            let placed = chapters@.len() == 0 || (sample_rate > 0 && channels > 0);
            let all = with_frames(frames_in(data@), frames);
            &&& (r matches Err(TagError::Chapters)) == !placed
            &&& (r matches Err(TagError::Unreadable)) == (placed && !readable(data@))
            &&& placed && readable(data@) ==> exists|tag: id3::Tag|
                {
                    &&& frames_of(&tag) == all
                    &&& if room(&tag) < TAG_LIMIT {
                        written_view(r) == Some(#[trigger] written(&tag))
                    } else {
                        r matches Err(TagError::TooLarge)
                    }
                }
            &&& placed && readable(data@) && surely_fit(all) ==> written_view(r) is Some
        }),
{
    let fields = match audio_fields(
        meta,
        files,
        known,
        year,
        version,
        cover,
        chapters,
        sample_rate,
        channels,
    ) {
        Ok(fields) => fields,
        Err(_) => return Err(TagError::Chapters),
    };
    let mut tag = match read_tag(data) {
        Some(tag) => tag,
        None => return Err(TagError::Unreadable),
    };
    apply_fields(&mut tag, fields);
    if !has_room(&tag) {
        let r: Result<Vec<u8>, TagError> = Err(TagError::TooLarge);
        assert(written_view(r) != Some(written(&tag)));
        return r;
    }
    match write_tag(&tag) {
        Ok(bytes) => {
            let r = Ok(bytes);
            assert(written_view(r) == Some(written(&tag)));
            r
        },
        Err(e) => {
            let r = Err(TagError::Refused(e));
            assert(written_view(r) == Some(written(&tag)));
            r
        },
    }
}

/// The frames of one name, in order.
pub open spec fn named(frames: Seq<FrameModel>, id: Seq<char>) -> Seq<FrameModel>
    decreases frames.len(),
{
    if frames.len() == 0 {
        Seq::empty()
    } else if frames.last().id == id {
        named(frames.drop_last(), id).push(frames.last())
    } else {
        named(frames.drop_last(), id)
    }
}

/// Whether there is no more than one frame, and only one that every other frame of its name
/// replaces.
pub open spec fn alone(frames: Seq<FrameModel>) -> bool {
    frames.len() == 0 || (frames.len() == 1 && frames[0].key == FrameKey::Same)
}

/// Whether a tag says something under a name: its last frame of that name is that text, and
/// its only one, unless there were several before.
pub open spec fn says(
    tag: Seq<FrameModel>,
    before: Seq<FrameModel>,
    id: Seq<char>,
    value: Seq<char>,
) -> bool {
    &&& named(tag, id).len() > 0
    &&& named(tag, id).last() == (FrameModel {
        id,
        key: FrameKey::Same,
        body: FrameBody::Text(value),
    })
    &&& alone(named(before, id)) ==> named(tag, id).len() == 1
}

proof fn named_together(a: Seq<FrameModel>, b: Seq<FrameModel>, id: Seq<char>)
    ensures
        named(a + b, id) == named(a, id) + named(b, id),
    decreases b.len(),
{
    if b.len() == 0 {
        assert(a + b =~= a);
        assert(named(a, id) + named(b, id) =~= named(a, id));
    } else {
        named_together(a, b.drop_last(), id);
        assert((a + b).drop_last() =~= a + b.drop_last());
        assert((a + b).last() == b.last());
        assert(named(a + b, id) =~= named(a, id) + named(b, id));
    }
}

proof fn named_one(f: FrameModel, id: Seq<char>)
    ensures
        named(seq![f], id) == if f.id == id {
            seq![f]
        } else {
            Seq::empty()
        },
{
    assert(seq![f].drop_last() =~= Seq::empty());
    assert(named(seq![f].drop_last(), id) =~= Seq::empty());
    assert(named(seq![f], id) =~= if f.id == id {
        seq![f]
    } else {
        Seq::empty()
    });
}

proof fn named_pushed(frames: Seq<FrameModel>, f: FrameModel, id: Seq<char>)
    ensures
        named(frames.push(f), id) == if f.id == id {
            named(frames, id).push(f)
        } else {
            named(frames, id)
        },
{
    assert(frames.push(f).drop_last() =~= frames);
}

proof fn none_named(frames: Seq<FrameModel>, id: Seq<char>)
    requires
        forall|k: int| 0 <= k < frames.len() ==> (#[trigger] frames[k]).id != id,
    ensures
        named(frames, id).len() == 0,
    decreases frames.len(),
{
    if frames.len() > 0 {
        assert(frames[frames.len() - 1].id != id);
        assert forall|k: int| 0 <= k < frames.drop_last().len() implies (
        #[trigger] frames.drop_last()[k]).id != id by {
            assert(frames[k].id != id);
        }
        none_named(frames.drop_last(), id);
    }
}

proof fn one_named(frames: Seq<FrameModel>, id: Seq<char>, k: int)
    requires
        0 <= k < frames.len(),
        frames[k].id == id,
        forall|j: int| 0 <= j < frames.len() && j != k ==> (#[trigger] frames[j]).id != id,
    ensures
        named(frames, id) == seq![frames[k]],
{
    let before = frames.take(k);
    let after = frames.skip(k + 1);
    none_named(before, id);
    none_named(after, id);
    named_one(frames[k], id);
    named_together(before, seq![frames[k]], id);
    named_together(before + seq![frames[k]], after, id);
    assert(frames =~= before + seq![frames[k]] + after);
    assert(named(frames, id) =~= seq![frames[k]]);
}

proof fn named_without(frames: Seq<FrameModel>, new: FrameModel, id: Seq<char>)
    ensures
        new.id != id ==> named(without_first(frames, new), id) == named(frames, id),
        new.id == id && new.key == FrameKey::Same && alone(named(frames, id)) ==> named(
            without_first(frames, new),
            id,
        ).len() == 0,
    decreases frames.len(),
{
    if frames.len() > 0 {
        let rest = frames.drop_first();
        let head = frames[0];
        named_without(rest, new, id);
        named_one(head, id);
        named_together(seq![head], rest, id);
        assert(frames =~= seq![head] + rest);
        if conflicts(head, new) {
            if head.id != id {
                assert(named(frames, id) =~= named(rest, id));
            }
        } else {
            named_together(seq![head], without_first(rest, new), id);
            if new.id == id && new.key == FrameKey::Same && alone(named(frames, id)) {
                if head.id == id {
                    assert(named(frames, id)[0] == head);
                }
                assert(named(frames, id) =~= named(rest, id));
            }
        }
    } else {
        assert(without_first(frames, new) == frames);
    }
}

proof fn named_after(before: Seq<FrameModel>, new: Seq<FrameModel>, id: Seq<char>)
    ensures
        named(new, id).len() == 0 ==> named(with_frames(before, new), id) == named(before, id),
        named(new, id).len() > 0 ==> named(with_frames(before, new), id).len() > 0 && named(
            with_frames(before, new),
            id,
        ).last() == named(new, id).last(),
        alone(named(before, id)) && (forall|k: int|
            0 <= k < named(new, id).len() ==> (#[trigger] named(new, id)[k]).key == FrameKey::Same)
            ==> alone(named(with_frames(before, new), id)),
    decreases new.len(),
{
    if new.len() > 0 {
        let front = new.drop_last();
        let last = new.last();
        let held = with_frames(before, front);
        named_after(before, front, id);
        named_without(held, last, id);
        named_pushed(without_first(held, last), last, id);
        if alone(named(before, id)) && (forall|k: int|
            0 <= k < named(new, id).len() ==> (#[trigger] named(new, id)[k]).key
                == FrameKey::Same) {
            assert forall|k: int| 0 <= k < named(front, id).len() implies (
            #[trigger] named(front, id)[k]).key == FrameKey::Same by {
                assert(named(new, id)[k] == named(front, id)[k]);
            }
            if last.id == id {
                assert(named(new, id)[named(front, id).len() as int] == last);
            }
        }
    }
}

proof fn text_is_said(
    before: Seq<FrameModel>,
    new: Seq<FrameModel>,
    id: Seq<char>,
    value: Seq<char>,
    k: int,
)
    requires
        0 <= k < new.len(),
        new[k] == text_frame(id, value),
        forall|j: int| 0 <= j < new.len() && j != k ==> (#[trigger] new[j]).id != id,
    ensures
        says(with_frames(before, new), before, id, value),
{
    one_named(new, id, k);
    named_after(before, new, id);
}

proof fn names_differ()
    ensures
        "TIT2"@ != "TPE1"@,
        "TIT2"@ != "TDRL"@,
        "TIT2"@ != "TDRC"@,
        "TIT2"@ != "TCOM"@,
        "TIT2"@ != "TPE2"@,
        "TIT2"@ != "TALB"@,
        "TIT2"@ != "TCON"@,
        "TIT2"@ != "TSSE"@,
        "TIT2"@ != "APIC"@,
        "TIT2"@ != "TXXX"@,
        "TPE1"@ != "TDRL"@,
        "TPE1"@ != "TDRC"@,
        "TPE1"@ != "TCOM"@,
        "TPE1"@ != "TPE2"@,
        "TPE1"@ != "TALB"@,
        "TPE1"@ != "TCON"@,
        "TPE1"@ != "TSSE"@,
        "TPE1"@ != "APIC"@,
        "TPE1"@ != "TXXX"@,
        "TDRL"@ != "TDRC"@,
        "TDRL"@ != "TCOM"@,
        "TDRL"@ != "TPE2"@,
        "TDRL"@ != "TALB"@,
        "TDRL"@ != "TCON"@,
        "TDRL"@ != "TSSE"@,
        "TDRL"@ != "APIC"@,
        "TDRL"@ != "TXXX"@,
        "TDRC"@ != "TCOM"@,
        "TDRC"@ != "TPE2"@,
        "TDRC"@ != "TALB"@,
        "TDRC"@ != "TCON"@,
        "TDRC"@ != "TSSE"@,
        "TDRC"@ != "APIC"@,
        "TDRC"@ != "TXXX"@,
        "TCOM"@ != "TPE2"@,
        "TCOM"@ != "TALB"@,
        "TCOM"@ != "TCON"@,
        "TCOM"@ != "TSSE"@,
        "TCOM"@ != "APIC"@,
        "TCOM"@ != "TXXX"@,
        "TPE2"@ != "TALB"@,
        "TPE2"@ != "TCON"@,
        "TPE2"@ != "TSSE"@,
        "TPE2"@ != "APIC"@,
        "TPE2"@ != "TXXX"@,
        "TALB"@ != "TCON"@,
        "TALB"@ != "TSSE"@,
        "TALB"@ != "APIC"@,
        "TALB"@ != "TXXX"@,
        "TCON"@ != "TSSE"@,
        "TCON"@ != "APIC"@,
        "TCON"@ != "TXXX"@,
        "TSSE"@ != "APIC"@,
        "TSSE"@ != "TXXX"@,
        "APIC"@ != "TXXX"@,
{
    reveal_strlit("TIT2");
    reveal_strlit("TPE1");
    reveal_strlit("TDRL");
    reveal_strlit("TDRC");
    reveal_strlit("TCOM");
    reveal_strlit("TPE2");
    reveal_strlit("TALB");
    reveal_strlit("TCON");
    reveal_strlit("TSSE");
    reveal_strlit("APIC");
    reveal_strlit("TXXX");
    assert("TIT2"@[0] == 'T');
    assert("TIT2"@[1] == 'I');
    assert("TIT2"@[2] == 'T');
    assert("TIT2"@[3] == '2');
    assert("TPE1"@[0] == 'T');
    assert("TPE1"@[1] == 'P');
    assert("TPE1"@[2] == 'E');
    assert("TPE1"@[3] == '1');
    assert("TDRL"@[0] == 'T');
    assert("TDRL"@[1] == 'D');
    assert("TDRL"@[2] == 'R');
    assert("TDRL"@[3] == 'L');
    assert("TDRC"@[0] == 'T');
    assert("TDRC"@[1] == 'D');
    assert("TDRC"@[2] == 'R');
    assert("TDRC"@[3] == 'C');
    assert("TCOM"@[0] == 'T');
    assert("TCOM"@[1] == 'C');
    assert("TCOM"@[2] == 'O');
    assert("TCOM"@[3] == 'M');
    assert("TPE2"@[0] == 'T');
    assert("TPE2"@[1] == 'P');
    assert("TPE2"@[2] == 'E');
    assert("TPE2"@[3] == '2');
    assert("TALB"@[0] == 'T');
    assert("TALB"@[1] == 'A');
    assert("TALB"@[2] == 'L');
    assert("TALB"@[3] == 'B');
    assert("TCON"@[0] == 'T');
    assert("TCON"@[1] == 'C');
    assert("TCON"@[2] == 'O');
    assert("TCON"@[3] == 'N');
    assert("TSSE"@[0] == 'T');
    assert("TSSE"@[1] == 'S');
    assert("TSSE"@[2] == 'S');
    assert("TSSE"@[3] == 'E');
    assert("APIC"@[0] == 'A');
    assert("APIC"@[1] == 'P');
    assert("APIC"@[2] == 'I');
    assert("APIC"@[3] == 'C');
    assert("TXXX"@[0] == 'T');
    assert("TXXX"@[1] == 'X');
    assert("TXXX"@[2] == 'X');
    assert("TXXX"@[3] == 'X');
}

/// The name of each frame of a tag, by its place. What stands behind the credits is a cover
/// or a chapter.
proof fn places_of_names(
    meta: project::MetaModel,
    section: Option<project::ProjectFileModel>,
    year: i32,
    version: Seq<char>,
    cover: Option<(Seq<char>, Seq<u8>)>,
    chapters: Seq<FrameModel>,
)
    requires
        forall|k: int| 0 <= k < chapters.len() ==> (#[trigger] chapters[k]).id == "TXXX"@,
    ensures
        ({
            let frames = tag_frames(credit_frames(meta, section, year, version), cover, chapters);
            let released = release_year(credits(meta, section).2);
            let a = if released is Some {
                3int
            } else {
                2
            };
            let b = if meta.reader.len() > 0 {
                a + 2
            } else {
                a + 1
            };
            &&& frames.len() >= b + 4
            &&& frames[0] == text_frame("TIT2"@, credits(meta, section).0)
            &&& frames[1] == text_frame("TPE1"@, credits(meta, section).1)
            &&& released matches Some(y) ==> frames[2] == text_frame("TDRL"@, year_text(y))
            &&& frames[a] == text_frame("TDRC"@, year_text(year))
            &&& meta.reader.len() > 0 ==> frames[a + 1] == text_frame("TCOM"@, meta.reader)
            &&& frames[b] == text_frame("TPE2"@, meta.reader)
            &&& frames[b + 1] == text_frame("TALB"@, meta.title)
            &&& frames[b + 2] == text_frame("TCON"@, "Audiobook"@)
            &&& frames[b + 3] == text_frame("TSSE"@, "iamreader "@ + version)
            &&& forall|k: int|
                b + 4 <= k < frames.len() ==> (#[trigger] frames[k]).id == "APIC"@ || frames[k].id
                    == "TXXX"@
        }),
{
}

/// Whether a fragment has a known marker that starts a section.
pub open spec fn opens_section(
    f: project::ProjectFileModel,
    known: Map<Seq<char>, project::MarkerSettingsModel>,
) -> bool {
    exists|j: int|
        0 <= j < f.markers.len() && known.dom().contains(#[trigger] f.markers[j])
            && known[f.markers[j]].section == true
}

proof fn newest_is_last(
    files: Seq<project::ProjectFileModel>,
    known: Map<Seq<char>, project::MarkerSettingsModel>,
    n: int,
    i: int,
)
    requires
        0 <= i < n <= files.len(),
        opens_section(files[i], known),
        forall|k: int| i < k < n ==> !opens_section(#[trigger] files[k], known),
    ensures
        newest_section(files, known, n) == Some(files[i]),
    decreases n,
{
    section_is_opened(files[n - 1], known);
    if i < n - 1 {
        assert(!opens_section(files[n - 1], known));
        newest_is_last(files, known, n - 1, i);
    }
}

proof fn none_is_newest(
    files: Seq<project::ProjectFileModel>,
    known: Map<Seq<char>, project::MarkerSettingsModel>,
    n: int,
)
    requires
        0 <= n <= files.len(),
        forall|k: int| 0 <= k < n ==> !opens_section(#[trigger] files[k], known),
    ensures
        newest_section(files, known, n) is None,
    decreases n,
{
    if n > 0 {
        section_is_opened(files[n - 1], known);
        assert(!opens_section(files[n - 1], known));
        none_is_newest(files, known, n - 1);
    }
}

proof fn section_is_opened(
    f: project::ProjectFileModel,
    known: Map<Seq<char>, project::MarkerSettingsModel>,
)
    ensures
        markers::starts_section(f, known) == opens_section(f, known),
{
    if markers::starts_section(f, known) {
        let j = choose|j: int|
            0 <= j < f.markers.len() && #[trigger] markers::is_section(known, f.markers[j]);
        assert(known.dom().contains(f.markers[j]));
    }
    if opens_section(f, known) {
        let j = choose|j: int|
            0 <= j < f.markers.len() && known.dom().contains(#[trigger] f.markers[j])
                && known[f.markers[j]].section == true;
        assert(markers::is_section(known, f.markers[j]));
    }
}

/// The tag of a file with a section says what the newest fragment that starts one says of
/// itself: its title, its author and its year. Only what that fragment leaves empty comes
/// from the book.
pub proof fn sections_are_credited_first(
    before: Seq<FrameModel>,
    meta: project::MetaModel,
    files: Seq<project::ProjectFileModel>,
    known: Map<Seq<char>, project::MarkerSettingsModel>,
    year: i32,
    version: Seq<char>,
    cover: Option<(Seq<char>, Seq<u8>)>,
    chapters: Seq<(Seq<char>, int)>,
    sample_rate: u32,
    channels: u16,
    i: int,
)
    requires
        0 <= i < files.len(),
        opens_section(files[i], known),
        forall|k: int| i < k < files.len() ==> !opens_section(#[trigger] files[k], known),
    ensures
        ({
            let tag = with_frames(
                before,
                audio_frames(
                    meta,
                    files,
                    known,
                    year,
                    version,
                    cover,
                    chapters,
                    sample_rate,
                    channels,
                ),
            );
            let released = if files[i].year.len() > 0 {
                files[i].year
            } else {
                meta.year
            };
            &&& files[i].title.len() > 0 ==> says(tag, before, "TIT2"@, files[i].title)
            &&& files[i].title.len() == 0 ==> says(tag, before, "TIT2"@, meta.title)
            &&& files[i].author.len() > 0 ==> says(tag, before, "TPE1"@, files[i].author)
            &&& files[i].author.len() == 0 ==> says(tag, before, "TPE1"@, meta.author)
            &&& match text::signed(released) {
                Some(y) if i32::MIN <= y <= i32::MAX => says(
                    tag,
                    before,
                    "TDRL"@,
                    year_text(y as i32),
                ),
                _ => named(tag, "TDRL"@) == named(before, "TDRL"@),
            }
        }),
{
    newest_is_last(files, known, files.len() as int, i);
    let marks = chapter_frames(chapters, sample_rate, channels);
    credited(before, meta, Some(files[i]), year, version, cover, marks);
}

/// The tag of a file without a section says what is said of the book.
pub proof fn books_are_credited_otherwise(
    before: Seq<FrameModel>,
    meta: project::MetaModel,
    files: Seq<project::ProjectFileModel>,
    known: Map<Seq<char>, project::MarkerSettingsModel>,
    year: i32,
    version: Seq<char>,
    cover: Option<(Seq<char>, Seq<u8>)>,
    chapters: Seq<(Seq<char>, int)>,
    sample_rate: u32,
    channels: u16,
)
    requires
        forall|k: int| 0 <= k < files.len() ==> !opens_section(#[trigger] files[k], known),
    ensures
        ({
            let tag = with_frames(
                before,
                audio_frames(
                    meta,
                    files,
                    known,
                    year,
                    version,
                    cover,
                    chapters,
                    sample_rate,
                    channels,
                ),
            );
            &&& says(tag, before, "TIT2"@, meta.title)
            &&& says(tag, before, "TPE1"@, meta.author)
            &&& match text::signed(meta.year) {
                Some(y) if i32::MIN <= y <= i32::MAX => says(
                    tag,
                    before,
                    "TDRL"@,
                    year_text(y as i32),
                ),
                _ => named(tag, "TDRL"@) == named(before, "TDRL"@),
            }
        }),
{
    none_is_newest(files, known, files.len() as int);
    let marks = chapter_frames(chapters, sample_rate, channels);
    credited(before, meta, None, year, version, cover, marks);
}

proof fn credited(
    before: Seq<FrameModel>,
    meta: project::MetaModel,
    section: Option<project::ProjectFileModel>,
    year: i32,
    version: Seq<char>,
    cover: Option<(Seq<char>, Seq<u8>)>,
    chapters: Seq<FrameModel>,
)
    requires
        forall|k: int| 0 <= k < chapters.len() ==> (#[trigger] chapters[k]).id == "TXXX"@,
    ensures
        ({
            let frames = tag_frames(credit_frames(meta, section, year, version), cover, chapters);
            let tag = with_frames(before, frames);
            let (title, author, released) = credits(meta, section);
            &&& says(tag, before, "TIT2"@, title)
            &&& says(tag, before, "TPE1"@, author)
            &&& match release_year(released) {
                Some(y) => says(tag, before, "TDRL"@, year_text(y)),
                None => named(tag, "TDRL"@) == named(before, "TDRL"@),
            }
        }),
{
    let frames = tag_frames(credit_frames(meta, section, year, version), cover, chapters);
    let (title, author, released) = credits(meta, section);
    places_of_names(meta, section, year, version, cover, chapters);
    names_differ();
    text_is_said(before, frames, "TIT2"@, title, 0);
    text_is_said(before, frames, "TPE1"@, author, 1);
    match release_year(released) {
        Some(y) => {
            text_is_said(before, frames, "TDRL"@, year_text(y), 2);
        },
        None => {
            none_named(frames, "TDRL"@);
            named_after(before, frames, "TDRL"@);
        },
    }
}

/// The tag of every file names the book, its reader and the year of the export. A book
/// without a reader names no composer. What a tag said under other names stays.
pub proof fn every_file_names_the_book(
    before: Seq<FrameModel>,
    meta: project::MetaModel,
    files: Seq<project::ProjectFileModel>,
    known: Map<Seq<char>, project::MarkerSettingsModel>,
    year: i32,
    version: Seq<char>,
    cover: Option<(Seq<char>, Seq<u8>)>,
    chapters: Seq<(Seq<char>, int)>,
    sample_rate: u32,
    channels: u16,
    other: Seq<char>,
)
    requires
        other != "TIT2"@,
        other != "TPE1"@,
        other != "TDRL"@,
        other != "TDRC"@,
        other != "TCOM"@,
        other != "TPE2"@,
        other != "TALB"@,
        other != "TCON"@,
        other != "TSSE"@,
        other != "APIC"@,
        other != "TXXX"@,
    ensures
        ({
            let tag = with_frames(
                before,
                audio_frames(
                    meta,
                    files,
                    known,
                    year,
                    version,
                    cover,
                    chapters,
                    sample_rate,
                    channels,
                ),
            );
            &&& says(tag, before, "TDRC"@, year_text(year))
            &&& meta.reader.len() > 0 ==> says(tag, before, "TCOM"@, meta.reader)
            &&& meta.reader.len() == 0 ==> named(tag, "TCOM"@) == named(before, "TCOM"@)
            &&& says(tag, before, "TPE2"@, meta.reader)
            &&& says(tag, before, "TALB"@, meta.title)
            &&& says(tag, before, "TCON"@, "Audiobook"@)
            &&& says(tag, before, "TSSE"@, "iamreader "@ + version)
            &&& named(tag, other) == named(before, other)
        }),
{
    let section = newest_section(files, known, files.len() as int);
    let marks = chapter_frames(chapters, sample_rate, channels);
    let frames = tag_frames(credit_frames(meta, section, year, version), cover, marks);
    places_of_names(meta, section, year, version, cover, marks);
    names_differ();
    let a = if release_year(credits(meta, section).2) is Some {
        3int
    } else {
        2
    };
    let b = if meta.reader.len() > 0 {
        a + 2
    } else {
        a + 1
    };
    text_is_said(before, frames, "TDRC"@, year_text(year), a);
    if meta.reader.len() > 0 {
        text_is_said(before, frames, "TCOM"@, meta.reader, a + 1);
    } else {
        none_named(frames, "TCOM"@);
        named_after(before, frames, "TCOM"@);
    }
    text_is_said(before, frames, "TPE2"@, meta.reader, b);
    text_is_said(before, frames, "TALB"@, meta.title, b + 1);
    text_is_said(before, frames, "TCON"@, "Audiobook"@, b + 2);
    text_is_said(before, frames, "TSSE"@, "iamreader "@ + version, b + 3);
    none_named(frames, other);
    named_after(before, frames, other);
}

proof fn cut_before(x: Seq<FrameModel>, y: Seq<FrameModel>, new: FrameModel)
    requires
        forall|k: int| 0 <= k < y.len() ==> !conflicts(#[trigger] y[k], new),
    ensures
        without_first(x + y, new) == without_first(x, new) + y,
    decreases x.len(),
{
    if x.len() == 0 {
        assert(x + y =~= y);
        nothing_cut(y, new);
        assert(without_first(x, new) + y =~= y);
    } else {
        let rest = x.drop_first();
        assert((x + y)[0] == x[0]);
        assert((x + y).drop_first() =~= rest + y);
        cut_before(rest, y, new);
        assert(without_first(x + y, new) =~= without_first(x, new) + y);
    }
}

proof fn nothing_cut(y: Seq<FrameModel>, new: FrameModel)
    requires
        forall|k: int| 0 <= k < y.len() ==> !conflicts(#[trigger] y[k], new),
    ensures
        without_first(y, new) == y,
    decreases y.len(),
{
    if y.len() > 0 {
        let rest = y.drop_first();
        assert(!conflicts(y[0], new));
        assert forall|k: int| 0 <= k < rest.len() implies !conflicts(
            #[trigger] rest[k],
            new,
        ) by {
            assert(rest[k] == y[k + 1]);
        }
        nothing_cut(rest, new);
        assert(seq![y[0]] + rest =~= y);
    }
}

proof fn new_frames_stand_last(before: Seq<FrameModel>, new: Seq<FrameModel>) -> (kept: Seq<
    FrameModel,
>)
    requires
        forall|a: int, b: int|
            #![trigger new[a], new[b]]
            0 <= a < b < new.len() ==> !conflicts(new[a], new[b]),
    ensures
        with_frames(before, new) == kept + new,
    decreases new.len(),
{
    if new.len() == 0 {
        assert(before + new =~= before);
        before
    } else {
        let front = new.drop_last();
        let last = new.last();
        let kept = new_frames_stand_last(before, front);
        assert forall|k: int| 0 <= k < front.len() implies !conflicts(
            #[trigger] front[k],
            last,
        ) by {
            assert(front[k] == new[k]);
            assert(last == new[new.len() - 1]);
        }
        cut_before(kept, front, last);
        let rest = without_first(kept, last);
        assert((rest + front).push(last) =~= rest + new);
        rest
    }
}

proof fn descriptions_differ(a: nat, b: nat)
    requires
        a != b,
    ensures
        utf8::encode_utf8("CHAP:"@ + chapter_id(a)) != utf8::encode_utf8("CHAP:"@ + chapter_id(b)),
{
    let x = "CHAP:"@ + chapter_id(a);
    let y = "CHAP:"@ + chapter_id(b);
    if utf8::encode_utf8(x) == utf8::encode_utf8(y) {
        utf8::encode_utf8_decode_utf8(x);
        utf8::encode_utf8_decode_utf8(y);
        assert(x == y);
        let n = "CHAP:"@.len() as int;
        assert(x.skip(n) =~= chapter_id(a));
        assert(y.skip(n) =~= chapter_id(b));
        let m = "ch"@.len() as int;
        assert(chapter_id(a).skip(m) =~= text::zero_padded(a + 1, 2));
        assert(chapter_id(b).skip(m) =~= text::zero_padded(b + 1, 2));
        text::padding_keeps_numbers_apart(a + 1, b + 1, 2);
    }
}

/// The tag of a file holds a frame for each of its chapters, in their order, behind all
/// others: it is told from the others by the number of the chapter, and says the number,
/// when the chapter starts in whole milliseconds, and its title.
pub proof fn every_chapter_has_its_frame(
    before: Seq<FrameModel>,
    meta: project::MetaModel,
    files: Seq<project::ProjectFileModel>,
    known: Map<Seq<char>, project::MarkerSettingsModel>,
    year: i32,
    version: Seq<char>,
    cover: Option<(Seq<char>, Seq<u8>)>,
    chapters: Seq<(Seq<char>, int)>,
    sample_rate: u32,
    channels: u16,
    k: int,
)
    requires
        0 <= k < chapters.len(),
    ensures
        ({
            let tag = with_frames(
                before,
                audio_frames(
                    meta,
                    files,
                    known,
                    year,
                    version,
                    cover,
                    chapters,
                    sample_rate,
                    channels,
                ),
            );
            let number = text::zero_padded((k + 1) as nat, 2);
            let ms = chapters[k].1 * 1000 / (sample_rate * channels);
            &&& tag.len() >= chapters.len()
            &&& tag[tag.len() - chapters.len() + k].id == "TXXX"@
            &&& tag[tag.len() - chapters.len() + k].body == (FrameBody::Extended {
                description: "CHAP:"@ + ("ch"@ + number),
                value: "CHAP|"@ + ("ch"@ + number) + "|"@ + text::decimal(ms as nat) + "|"@
                    + chapters[k].0,
            })
        }),
{
    let section = newest_section(files, known, files.len() as int);
    let marks = chapter_frames(chapters, sample_rate, channels);
    let all = audio_frames(
        meta,
        files,
        known,
        year,
        version,
        cover,
        chapters,
        sample_rate,
        channels,
    );
    frames_get_along(meta, section, year, version, cover, chapters, sample_rate, channels);
    let kept = new_frames_stand_last(before, all);
    let tag = with_frames(before, all);
    assert(tag == kept + all);
    let place = all.len() - chapters.len() + k;
    assert(all[place] == marks[k]);
    assert(tag[tag.len() - chapters.len() + k] == all[place]);
}

/// The tag of a file holds its cover, unless that is missing or empty: the picture as it is,
/// as PNG if its name ends so and else as JPEG.
pub proof fn covers_are_in_the_tag(
    before: Seq<FrameModel>,
    meta: project::MetaModel,
    files: Seq<project::ProjectFileModel>,
    known: Map<Seq<char>, project::MarkerSettingsModel>,
    year: i32,
    version: Seq<char>,
    path: Seq<char>,
    data: Seq<u8>,
    chapters: Seq<(Seq<char>, int)>,
    sample_rate: u32,
    channels: u16,
)
    requires
        data.len() > 0,
    ensures
        ({
            let tag = with_frames(
                before,
                audio_frames(
                    meta,
                    files,
                    known,
                    year,
                    version,
                    Some((path, data)),
                    chapters,
                    sample_rate,
                    channels,
                ),
            );
            let plain = with_frames(
                before,
                audio_frames(
                    meta,
                    files,
                    known,
                    year,
                    version,
                    Some((path, Seq::empty())),
                    chapters,
                    sample_rate,
                    channels,
                ),
            );
            let mime = if paths::extension_spec(path) == Some("png"@) {
                "image/png"@
            } else {
                "image/jpeg"@
            };
            &&& named(tag, "APIC"@).len() > 0
            &&& named(tag, "APIC"@).last().body == (FrameBody::Cover { mime, data })
            &&& named(plain, "APIC"@) == named(before, "APIC"@)
        }),
{
    let section = newest_section(files, known, files.len() as int);
    let marks = chapter_frames(chapters, sample_rate, channels);
    let credit = credit_frames(meta, section, year, version);
    let cover = Some((path, data));
    let none = Some((path, Seq::<u8>::empty()));
    let all = tag_frames(credit, cover, marks);
    let bare = tag_frames(credit, none, marks);
    names_differ();
    places_of_names(meta, section, year, version, cover, marks);
    places_of_names(meta, section, year, version, none, marks);
    assert(all[credit.len() as int] == cover_frame(cover_mime_spec(path), data));
    assert forall|k: int| 0 <= k < credit.len() implies (#[trigger] credit[k]).id != "APIC"@ by {}
    assert forall|k: int| 0 <= k < all.len() && k != credit.len() implies (
    #[trigger] all[k]).id != "APIC"@ by {
        if k < credit.len() {
            assert(all[k] == credit[k]);
        } else {
            assert(all[k] == marks[k - credit.len() - 1]);
        }
    }
    one_named(all, "APIC"@, credit.len() as int);
    named_after(before, all, "APIC"@);
    assert forall|k: int| 0 <= k < bare.len() implies (#[trigger] bare[k]).id != "APIC"@ by {
        if k < credit.len() {
            assert(bare[k] == credit[k]);
        } else {
            assert(bare[k] == marks[k - credit.len()]);
        }
    }
    none_named(bare, "APIC"@);
    named_after(before, bare, "APIC"@);
}

/// Of the frames that are written to a tag none takes the place of another.
proof fn frames_get_along(
    meta: project::MetaModel,
    section: Option<project::ProjectFileModel>,
    year: i32,
    version: Seq<char>,
    cover: Option<(Seq<char>, Seq<u8>)>,
    chapters: Seq<(Seq<char>, int)>,
    sample_rate: u32,
    channels: u16,
)
    ensures
        ({
            let all = tag_frames(
                credit_frames(meta, section, year, version),
                cover,
                chapter_frames(chapters, sample_rate, channels),
            );
            forall|a: int, b: int|
                #![trigger all[a], all[b]]
                0 <= a < b < all.len() ==> !conflicts(all[a], all[b])
        }),
{
    let marks = chapter_frames(chapters, sample_rate, channels);
    let credit = credit_frames(meta, section, year, version);
    let all = tag_frames(credit, cover, marks);
    let first = all.len() - marks.len();
    names_differ();
    places_of_names(meta, section, year, version, cover, marks);
    assert forall|a: int, b: int|
        #![trigger all[a], all[b]]
        0 <= a < b < all.len() implies !conflicts(all[a], all[b]) by {
        if a >= first {
            assert(all[a] == marks[a - first]);
            assert(all[b] == marks[b - first]);
            let i = (a - first) as nat;
            let j = (b - first) as nat;
            descriptions_differ(i, j);
            let x = seq![utf8::encode_utf8("CHAP:"@ + chapter_id(i))];
            let y = seq![utf8::encode_utf8("CHAP:"@ + chapter_id(j))];
            assert(x[0] != y[0]);
            assert(x != y);
        } else if b >= first {
            assert(all[b] == marks[b - first]);
            if a < credit.len() {
                assert(all[a] == credit[a]);
            }
        } else if b >= credit.len() {
            assert(all[a] == credit[a]);
        } else {
            assert(all[a] == credit[a]);
            assert(all[b] == credit[b]);
        }
    }
}

} // verus!
