//! Validates dialog drafts and publishes them to the in-memory project only
//! after they were saved.
use crate::project::marker_map::MarkerMap;
use crate::project::project;
use crate::project::project::{
    ChunkSettingsData, MarkerAsset, MarkerAssets, MarkerSettings, MarkerSettingsData, MetaData,
    Project,
};
use crate::utils::indexes;
use crate::utils::json;
use crate::utils::text;
use vstd::prelude::*;

verus! {

/// What is wrong with one field of a form. The field names are those of the
/// form, so that the invalid input can be highlighted.
#[derive(Debug, PartialEq, Eq)]
pub struct FieldError {
    /// The form's own, untrimmed alias; empty for a form that is not a marker's.
    pub marker: String,
    pub field: String,
    pub message: String,
}

/// What the contracts know of [`FieldError`].
pub ghost struct FieldErrorModel {
    pub marker: Seq<char>,
    pub field: Seq<char>,
    pub message: Seq<char>,
}

impl View for FieldError {
    type V = FieldErrorModel;

    open spec fn view(&self) -> FieldErrorModel {
        FieldErrorModel { marker: self.marker@, field: self.field@, message: self.message@ }
    }
}

/// The label of a field in the user's words.
pub open spec fn field_label(field: Seq<char>) -> Seq<char> {
    if field == "marker"@ {
        "Alias"@
    } else if field == "shortcut"@ {
        "Shortcut"@
    } else if field == "begin_kind"@ {
        "Begin sound kind"@
    } else if field == "begin_reduction"@ {
        "Begin sound reduction"@
    } else if field == "begin_repeat"@ {
        "Begin sound repeat"@
    } else if field == "end_kind"@ {
        "End sound kind"@
    } else if field == "end_reduction"@ {
        "End sound reduction"@
    } else if field == "end_repeat"@ {
        "End sound repeat"@
    } else if field == "format_audio"@ {
        "Export format"@
    } else {
        field
    }
}

/// The sentence that a field error is shown as.
pub open spec fn field_error_text(e: FieldErrorModel) -> Seq<char> {
    if e.marker.len() == 0 {
        field_label(e.field) + ": "@ + e.message
    } else {
        "Marker "@ + text::quoted(e.marker) + " — "@ + field_label(e.field) + ": "@ + e.message
    }
}

fn label_of(field: &str) -> (r: String)
    ensures
        r@ == field_label(field@),
{
    if text::same_text(field, "marker") {
        "Alias".to_owned()
    } else if text::same_text(field, "shortcut") {
        "Shortcut".to_owned()
    } else if text::same_text(field, "begin_kind") {
        "Begin sound kind".to_owned()
    } else if text::same_text(field, "begin_reduction") {
        "Begin sound reduction".to_owned()
    } else if text::same_text(field, "begin_repeat") {
        "Begin sound repeat".to_owned()
    } else if text::same_text(field, "end_kind") {
        "End sound kind".to_owned()
    } else if text::same_text(field, "end_reduction") {
        "End sound reduction".to_owned()
    } else if text::same_text(field, "end_repeat") {
        "End sound repeat".to_owned()
    } else if text::same_text(field, "format_audio") {
        "Export format".to_owned()
    } else {
        field.to_owned()
    }
}

impl FieldError {
    /// The sentence shown to the user.
    pub fn text(&self) -> (r: String)
        ensures
            r@ == field_error_text(self@),
    {
        let label = label_of(self.field.as_str());
        if self.marker.as_str().is_empty() {
            label.concat(": ").concat(self.message.as_str())
        } else {
            "Marker ".to_owned().concat(text::quote(self.marker.as_str()).as_str()).concat(
                " — ",
            ).concat(label.as_str()).concat(": ").concat(self.message.as_str())
        }
    }
}

fn field_error(marker: &str, field: &str, message: &str) -> (r: FieldError)
    ensures
        r@ == (FieldErrorModel { marker: marker@, field: field@, message: message@ }),
{
    FieldError {
        marker: marker.to_owned(),
        field: field.to_owned(),
        message: message.to_owned(),
    }
}

/// The shortcut that a text states: nothing, or one ASCII digit.
pub open spec fn shortcut_of(value: Seq<char>) -> Result<Option<Seq<char>>, ()> {
    let t = text::trimmed(value);
    if t.len() == 0 {
        Ok(None)
    } else if t.len() == 1 && text::is_digit(t[0]) {
        Ok(Some(t))
    } else {
        Err(())
    }
}

pub open spec fn shortcut_error(marker: Seq<char>) -> FieldErrorModel {
    FieldErrorModel {
        marker,
        field: "shortcut"@,
        message: "Use one ASCII digit from 0 to 9, or leave blank"@,
    }
}

fn shortcut(marker: &str, value: &str) -> (r: Result<Option<String>, FieldError>)
    ensures
        match r {
            Ok(binding) => shortcut_of(value@) == Ok::<Option<Seq<char>>, ()>(
                text::option_text(binding),
            ),
            Err(e) => shortcut_of(value@) is Err && e@ == shortcut_error(marker@),
        },
{
    let t = text::trim(value);
    let v = text::to_chars(t.as_str());
    if v.len() == 0 {
        return Ok(None);
    }
    if v.len() != 1 || !('0' <= v[0] && v[0] <= '9') {
        return Err(
            field_error(marker, "shortcut", "Use one ASCII digit from 0 to 9, or leave blank"),
        );
    }
    Ok(Some(t))
}

/// The names of the three checked fields of a sound.
pub ghost struct AssetFields {
    pub kind: Seq<char>,
    pub reduction: Seq<char>,
    pub repeat: Seq<char>,
}

pub open spec fn begin_fields() -> AssetFields {
    AssetFields {
        kind: "begin_kind"@,
        reduction: "begin_reduction"@,
        repeat: "begin_repeat"@,
    }
}

pub open spec fn end_fields() -> AssetFields {
    AssetFields { kind: "end_kind"@, reduction: "end_reduction"@, repeat: "end_repeat"@ }
}

/// The reduction that a text states: nothing, or a percentage.
pub open spec fn reduction_of(value: Seq<char>) -> Result<Option<u8>, ()> {
    let t = text::trimmed(value);
    if t.len() == 0 {
        Ok(None)
    } else {
        match text::unsigned(t) {
            Some(n) => if n <= 100 {
                Ok(Some(n as u8))
            } else {
                Err(())
            },
            None => Err(()),
        }
    }
}

/// The repeat count that a text states; blank is once.
pub open spec fn repeat_of(value: Seq<char>) -> Result<i32, ()> {
    let t = text::trimmed(value);
    if t.len() == 0 {
        Ok(1i32)
    } else {
        match text::signed(t) {
            Some(n) => if i32::MIN <= n <= i32::MAX {
                Ok(n as i32)
            } else {
                Err(())
            },
            None => Err(()),
        }
    }
}

/// The sound that a form states, or what is wrong with it.
pub open spec fn asset_of(
    marker: Seq<char>,
    audio: Seq<char>,
    kind: Seq<char>,
    reduction: Seq<char>,
    repeat: Seq<char>,
    fields: AssetFields,
) -> Result<project::MarkerAssetModel, FieldErrorModel> {
    let k = text::trimmed(kind);
    let add = k == "add"@;
    if !add && k != "underlay"@ {
        Err(FieldErrorModel { marker, field: fields.kind, message: "Choose add or underlay"@ })
    } else {
        match (reduction_of(reduction), repeat_of(repeat)) {
            (Err(_), _) => Err(
                FieldErrorModel {
                    marker,
                    field: fields.reduction,
                    message: "Enter an integer from 0 to 100, or leave blank"@,
                },
            ),
            (Ok(_), Err(_)) => Err(
                FieldErrorModel {
                    marker,
                    field: fields.repeat,
                    message: "Enter a whole repeat count, or leave blank"@,
                },
            ),
            (Ok(percent), Ok(count)) => if add && count < 0 {
                Err(
                    FieldErrorModel {
                        marker,
                        field: fields.repeat,
                        message: "Add repeat must be 0 or greater"@,
                    },
                )
            } else if !add && count < -1 {
                Err(
                    FieldErrorModel {
                        marker,
                        field: fields.repeat,
                        message: "Underlay repeat must be -1 (loop), 0, or greater"@,
                    },
                )
            } else {
                Ok(
                    project::MarkerAssetModel {
                        audio,
                        kind: k,
                        reduction: percent,
                        repeat: Some(count),
                    },
                )
            },
        }
    }
}

fn asset(
    marker: &str,
    audio: &str,
    kind: &str,
    reduction: &str,
    repeat: &str,
    fields: (&str, &str, &str),
) -> (r: Result<MarkerAsset, FieldError>)
    ensures
        ({
            let names = AssetFields { kind: fields.0@, reduction: fields.1@, repeat: fields.2@ };
            let expected = asset_of(marker@, audio@, kind@, reduction@, repeat@, names);
            match r {
                Ok(a) => expected == Ok::<project::MarkerAssetModel, FieldErrorModel>(a@),
                Err(e) => expected == Err::<project::MarkerAssetModel, FieldErrorModel>(e@),
            }
        }),
{
    let kind = text::trim(kind);
    let add = text::same_text(kind.as_str(), "add");
    if !add && !text::same_text(kind.as_str(), "underlay") {
        return Err(field_error(marker, fields.0, "Choose add or underlay"));
    }
    let stated = text::trim(reduction);
    let percent: Option<u8> = if stated.as_str().is_empty() {
        None
    } else {
        match text::parse_unsigned(stated.as_str(), 100) {
            Some(n) => Some(n as u8),
            None => {
                return Err(
                    field_error(marker, fields.1, "Enter an integer from 0 to 100, or leave blank"),
                );
            },
        }
    };
    let stated = text::trim(repeat);
    let count: i32 = if stated.as_str().is_empty() {
        1
    } else {
        match text::parse_i32(stated.as_str()) {
            Some(n) => n,
            None => {
                return Err(
                    field_error(marker, fields.2, "Enter a whole repeat count, or leave blank"),
                );
            },
        }
    };
    if add && count < 0 {
        return Err(field_error(marker, fields.2, "Add repeat must be 0 or greater"));
    }
    if !add && count < -1 {
        return Err(
            field_error(marker, fields.2, "Underlay repeat must be -1 (loop), 0, or greater"),
        );
    }
    Ok(MarkerAsset { audio: audio.to_owned(), kind, reduction: percent, repeat: Some(count) })
}

pub open spec fn empty_alias_error(marker: Seq<char>) -> FieldErrorModel {
    FieldErrorModel { marker, field: "marker"@, message: "Alias must not be empty"@ }
}

/// What a marker form states, or what is wrong with it. Author and year are not
/// on the form: they stay as they were.
pub open spec fn form_settings(
    form: project::MarkerSettingsDataModel,
    existing: Option<project::MarkerSettingsModel>,
) -> Result<project::MarkerSettingsModel, FieldErrorModel> {
    if text::trimmed(form.marker).len() == 0 {
        Err(empty_alias_error(form.marker))
    } else {
        let begin = asset_of(
            form.marker,
            form.begin_audio,
            form.begin_kind,
            form.begin_reduction,
            form.begin_repeat,
            begin_fields(),
        );
        let end = asset_of(
            form.marker,
            form.end_audio,
            form.end_kind,
            form.end_reduction,
            form.end_repeat,
            end_fields(),
        );
        match (shortcut_of(form.shortcut), begin, end) {
            (Err(_), _, _) => Err(shortcut_error(form.marker)),
            (Ok(_), Err(e), _) => Err(e),
            (Ok(_), Ok(_), Err(e)) => Err(e),
            (Ok(binding), Ok(b), Ok(e)) => Ok(
                project::MarkerSettingsModel {
                    title: form.title,
                    author: match existing {
                        Some(settings) => settings.author,
                        None => Seq::empty(),
                    },
                    year: match existing {
                        Some(settings) => settings.year,
                        None => Seq::empty(),
                    },
                    hint: form.hint,
                    shortcut: binding,
                    assets: project::MarkerAssetsModel { begin: b, end: e },
                    section: form.section,
                },
            ),
        }
    }
}

/// Parses one draft. Its trimmed alias is the name under which it is stored.
pub fn validate_marker_form(
    form: &MarkerSettingsData,
    existing: Option<&MarkerSettings>,
) -> (r: Result<MarkerSettings, FieldError>)
    ensures
        ({
            let known = match existing {
                Some(settings) => Some(settings@),
                None => None,
            };
            match r {
                Ok(settings) => form_settings(form@, known) == Ok::<
                    project::MarkerSettingsModel,
                    FieldErrorModel,
                >(settings@),
                Err(e) => form_settings(form@, known) == Err::<
                    project::MarkerSettingsModel,
                    FieldErrorModel,
                >(e@),
            }
        }),
{
    let alias = text::trim(form.marker.as_str());
    if alias.as_str().is_empty() {
        return Err(field_error(form.marker.as_str(), "marker", "Alias must not be empty"));
    }
    let binding = match shortcut(form.marker.as_str(), form.shortcut.as_str()) {
        Ok(binding) => binding,
        Err(e) => return Err(e),
    };
    let begin = match asset(
        form.marker.as_str(),
        form.begin_audio.as_str(),
        form.begin_kind.as_str(),
        form.begin_reduction.as_str(),
        form.begin_repeat.as_str(),
        ("begin_kind", "begin_reduction", "begin_repeat"),
    ) {
        Ok(a) => a,
        Err(e) => return Err(e),
    };
    let end = match asset(
        form.marker.as_str(),
        form.end_audio.as_str(),
        form.end_kind.as_str(),
        form.end_reduction.as_str(),
        form.end_repeat.as_str(),
        ("end_kind", "end_reduction", "end_repeat"),
    ) {
        Ok(a) => a,
        Err(e) => return Err(e),
    };
    let (author, year) = match existing {
        Some(settings) => (settings.author.clone(), settings.year.clone()),
        None => (String::new(), String::new()),
    };
    Ok(
        MarkerSettings {
            title: form.title.clone(),
            author,
            year,
            hint: form.hint.clone(),
            shortcut: binding,
            assets: MarkerAssets { begin, end },
            section: form.section,
        },
    )
}

/// The models of a list of forms.
pub open spec fn form_models(forms: Seq<MarkerSettingsData>) -> Seq<
    project::MarkerSettingsDataModel,
> {
    forms.map_values(|f: MarkerSettingsData| f@)
}

/// Whether the form in place `j` is the first one with an alias.
pub open spec fn first_with_alias(
    forms: Seq<project::MarkerSettingsDataModel>,
    alias: Seq<char>,
    j: int,
) -> bool {
    &&& 0 <= j < forms.len()
    &&& text::trimmed(forms[j].marker) == alias
    &&& forall|k: int| 0 <= k < j ==> text::trimmed((#[trigger] forms[k]).marker) != alias
}

/// Markers with the drafts put over them, or what is wrong with a draft. A
/// marker that no draft mentions stays.
pub open spec fn merged(
    existing: Map<Seq<char>, project::MarkerSettingsModel>,
    forms: Seq<project::MarkerSettingsDataModel>,
) -> Result<Map<Seq<char>, project::MarkerSettingsModel>, FieldErrorModel>
    decreases forms.len(),
{
    if forms.len() == 0 {
        Ok(existing)
    } else {
        match merged(existing, forms.drop_last()) {
            Err(e) => Err(e),
            Ok(markers) => {
                let form = forms.last();
                let alias = text::trimmed(form.marker);
                let known = if existing.dom().contains(alias) {
                    Some(existing[alias])
                } else {
                    None
                };
                if alias.len() == 0 {
                    Err(empty_alias_error(form.marker))
                } else if exists|j: int| first_with_alias(forms.drop_last(), alias, j) {
                    Err(
                        FieldErrorModel {
                            marker: form.marker,
                            field: "marker"@,
                            message: "Alias is repeated in this dialog"@,
                        },
                    )
                } else {
                    match form_settings(form, known) {
                        Err(e) => Err(e),
                        Ok(settings) => Ok(markers.insert(alias, settings)),
                    }
                }
            },
        }
    }
}

/// The digit that a stored marker is bound to.
pub open spec fn binding(settings: project::MarkerSettingsModel) -> Option<Seq<char>> {
    match settings.shortcut {
        None => None,
        Some(value) => match shortcut_of(value) {
            Ok(digit) => digit,
            Err(_) => None,
        },
    }
}

/// Whether `j` is the first of the first `n` names that is bound to a digit.
pub open spec fn first_bound(
    markers: Map<Seq<char>, project::MarkerSettingsModel>,
    names: Seq<Seq<char>>,
    n: int,
    digit: Seq<char>,
    j: int,
) -> bool {
    &&& 0 <= j < n
    &&& binding(markers[names[j]]) == Some(digit)
    &&& forall|k: int| 0 <= k < j ==> binding(markers[#[trigger] names[k]]) != Some(digit)
}

/// The alias as a form has it, or the name itself.
pub open spec fn shown_name(
    forms: Seq<project::MarkerSettingsDataModel>,
    name: Seq<char>,
) -> Seq<char> {
    if exists|j: int| first_with_alias(forms, name, j) {
        forms[choose|j: int| first_with_alias(forms, name, j)].marker
    } else {
        name
    }
}

/// A conflict is reported on the marker that was submitted, if one was.
pub open spec fn conflict_error(
    forms: Seq<project::MarkerSettingsDataModel>,
    name: Seq<char>,
    previous: Seq<char>,
    digit: Seq<char>,
) -> FieldErrorModel {
    let submitted = exists|j: int| first_with_alias(forms, name, j);
    let earlier = exists|j: int| first_with_alias(forms, previous, j);
    let (owner, other) = if !submitted && earlier {
        (previous, name)
    } else {
        (name, previous)
    };
    FieldErrorModel {
        marker: shown_name(forms, owner),
        field: "shortcut"@,
        message: "Shortcut "@ + digit + " is also assigned to marker "@ + text::quoted(other),
    }
}

/// What is wrong with the marker in one place of the ordered names.
pub open spec fn name_error(
    markers: Map<Seq<char>, project::MarkerSettingsModel>,
    names: Seq<Seq<char>>,
    forms: Seq<project::MarkerSettingsDataModel>,
    i: int,
) -> Option<FieldErrorModel> {
    let name = names[i];
    if name.len() == 0 || text::trimmed(name) != name {
        Some(
            FieldErrorModel {
                marker: name,
                field: "marker"@,
                message: "Alias must be nonempty without surrounding whitespace"@,
            },
        )
    } else {
        match markers[name].shortcut {
            None => None,
            Some(value) => match shortcut_of(value) {
                Err(_) => Some(shortcut_error(name)),
                Ok(found) => if text::trimmed(value).len() != 0 && value != text::trimmed(value) {
                    Some(
                        FieldErrorModel {
                            marker: name,
                            field: "shortcut"@,
                            message:
                                "Stored shortcut must be one ASCII digit without surrounding whitespace"@,
                        },
                    )
                } else {
                    match found {
                        None => None,
                        Some(digit) => if exists|j: int| first_bound(markers, names, i, digit, j) {
                            let j = choose|j: int| first_bound(markers, names, i, digit, j);
                            Some(conflict_error(forms, name, names[j], digit))
                        } else {
                            None
                        },
                    }
                },
            },
        }
    }
}

/// The first thing that is wrong with the first `n` names.
pub open spec fn names_error(
    markers: Map<Seq<char>, project::MarkerSettingsModel>,
    names: Seq<Seq<char>>,
    forms: Seq<project::MarkerSettingsDataModel>,
    n: int,
) -> Option<FieldErrorModel>
    decreases n,
{
    if n <= 0 {
        None
    } else {
        match names_error(markers, names, forms, n - 1) {
            Some(e) => Some(e),
            None => name_error(markers, names, forms, n - 1),
        }
    }
}

fn find_alias(forms: &[MarkerSettingsData], n: usize, alias: &str) -> (r: Option<usize>)
    requires
        n <= forms@.len(),
    ensures
        match r {
            Some(j) => first_with_alias(form_models(forms@).take(n as int), alias@, j as int),
            None => forall|j: int|
                !first_with_alias(form_models(forms@).take(n as int), alias@, j),
        },
{
    let total: usize = forms.len();
    let mut j: usize = 0;
    while j < n
        invariant
            j <= n <= total == forms@.len(),
            forall|k: int|
                0 <= k < j ==> text::trimmed(
                    (#[trigger] form_models(forms@).take(n as int)[k]).marker,
                ) != alias@,
        decreases n - j,
    {
        assert(form_models(forms@).take(n as int)[j as int] == forms@[j as int]@);
        let known = text::trim(forms[j].marker.as_str());
        if text::same_text(known.as_str(), alias) {
            return Some(j);
        }
        j = j + 1;
    }
    None
}

fn ordered_names(markers: &MarkerMap) -> (r: Vec<String>)
    ensures
        text::texts(r@) == text::ordered(markers@.dom()),
        text::lists(text::texts(r@), markers@.dom()),
{
    let total: usize = markers.len();
    let mut names: Vec<String> = Vec::new();
    let mut i: usize = 0;
    while i < total
        invariant
            i <= total == markers.names().len(),
            text::texts(names@) == markers.names().take(i as int),
        decreases total - i,
    {
        let ghost before = text::texts(names@);
        names.push(markers.name_at(i).clone());
        proof {
            assert(text::texts(names@) =~= before.push(markers.names()[i as int]));
            assert(before.push(markers.names()[i as int]) =~= markers.names().take(i + 1));
        }
        i = i + 1;
    }
    assert(text::texts(names@) =~= markers.names());
    text::sort_names(names, Ghost(markers@.dom()))
}

fn conflict(
    forms: &[MarkerSettingsData],
    name: &str,
    previous: &str,
    digit: &str,
) -> (r: FieldError)
    ensures
        r@ == conflict_error(form_models(forms@), name@, previous@, digit@),
{
    let submitted = find_alias(forms, forms.len(), name);
    let earlier = find_alias(forms, forms.len(), previous);
    proof {
        let all = form_models(forms@);
        assert(all.take(forms@.len() as int) =~= all);
        assert forall|alias: Seq<char>, i: int, j: int|
            first_with_alias(all, alias, i) && first_with_alias(all, alias, j) implies i == j by {}
        assert forall|j: int| #[trigger] first_with_alias(all, name@, j) implies all[j].marker
            == forms@[j].marker@ by {}
        assert forall|j: int| #[trigger] first_with_alias(all, previous@, j) implies all[j].marker
            == forms@[j].marker@ by {}
    }
    let (owner, other, place) = if submitted.is_none() && earlier.is_some() {
        (previous, name, earlier)
    } else {
        (name, previous, submitted)
    };
    let marker = match place {
        Some(j) => forms[j].marker.clone(),
        None => owner.to_owned(),
    };
    let message = "Shortcut ".to_owned().concat(digit).concat(
        " is also assigned to marker ",
    ).concat(text::quote(other).as_str());
    FieldError { marker, field: "shortcut".to_owned(), message }
}

fn merge_forms(existing: &MarkerMap, forms: &[MarkerSettingsData]) -> (r: Result<
    MarkerMap,
    FieldError,
>)
    ensures
        match r {
            Ok(markers) => merged(existing@, form_models(forms@)) == Ok::<_, FieldErrorModel>(
                markers@,
            ),
            Err(e) => merged(existing@, form_models(forms@)) == Err::<
                Map<Seq<char>, project::MarkerSettingsModel>,
                FieldErrorModel,
            >(e@),
        },
{
    let total: usize = forms.len();
    let ghost all = form_models(forms@);
    let mut candidate = existing.clone();
    let mut n: usize = 0;
    while n < total
        invariant
            n <= total == forms@.len(),
            all == form_models(forms@),
            merged(existing@, all.take(n as int)) == Ok::<_, FieldErrorModel>(candidate@),
        decreases total - n,
    {
        let form = &forms[n];
        let ghost now = all.take(n + 1);
        proof {
            assert(now.drop_last() =~= all.take(n as int));
            assert(now.last() == form@);
        }
        let alias = text::trim(form.marker.as_str());
        if alias.as_str().is_empty() {
            proof {
                merge_stops(existing@, all, n + 1);
            }
            return Err(field_error(form.marker.as_str(), "marker", "Alias must not be empty"));
        }
        if find_alias(forms, n, alias.as_str()).is_some() {
            proof {
                merge_stops(existing@, all, n + 1);
            }
            return Err(
                field_error(form.marker.as_str(), "marker", "Alias is repeated in this dialog"),
            );
        }
        match validate_marker_form(form, existing.get(alias.as_str())) {
            Ok(settings) => {
                candidate.insert(alias, settings);
            },
            Err(e) => {
                proof {
                    merge_stops(existing@, all, n + 1);
                }
                return Err(e);
            },
        }
        n = n + 1;
    }
    assert(all.take(n as int) =~= all);
    Ok(candidate)
}

/// A draft that is refused is refused whatever follows it.
proof fn merge_stops(
    existing: Map<Seq<char>, project::MarkerSettingsModel>,
    forms: Seq<project::MarkerSettingsDataModel>,
    n: int,
)
    requires
        0 <= n <= forms.len(),
        merged(existing, forms.take(n)) is Err,
    ensures
        merged(existing, forms) == merged(existing, forms.take(n)),
    decreases forms.len(),
{
    if n < forms.len() {
        assert(forms.drop_last().take(n) =~= forms.take(n));
        merge_stops(existing, forms.drop_last(), n);
    } else {
        assert(forms.take(n) =~= forms);
    }
}

/// A wrong name is reported whatever follows it.
proof fn names_error_stops(
    markers: Map<Seq<char>, project::MarkerSettingsModel>,
    names: Seq<Seq<char>>,
    forms: Seq<project::MarkerSettingsDataModel>,
    m: int,
    n: int,
)
    requires
        0 <= m <= n,
        names_error(markers, names, forms, m) is Some,
    ensures
        names_error(markers, names, forms, n) == names_error(markers, names, forms, m),
    decreases n,
{
    if m < n {
        names_error_stops(markers, names, forms, m, n - 1);
    }
}

/// The markers that a dialog leaves, or why it is refused: a draft is wrong, or
/// the names and shortcuts of the whole do not fit together.
pub open spec fn accepted(
    existing: Map<Seq<char>, project::MarkerSettingsModel>,
    forms: Seq<project::MarkerSettingsDataModel>,
) -> Result<Map<Seq<char>, project::MarkerSettingsModel>, FieldErrorModel> {
    match merged(existing, forms) {
        Err(e) => Err(e),
        Ok(markers) => {
            let names = text::ordered(markers.dom());
            match names_error(markers, names, forms, names.len() as int) {
                Some(e) => Err(e),
                None => Ok(markers),
            }
        },
    }
}

/// The view of a validation result.
pub open spec fn markers_result(r: Result<MarkerMap, FieldError>) -> Result<
    Map<Seq<char>, project::MarkerSettingsModel>,
    FieldErrorModel,
> {
    match r {
        Ok(markers) => Ok(markers@),
        Err(e) => Err(e@),
    }
}

fn check_name(
    markers: &MarkerMap,
    names: &Vec<String>,
    forms: &[MarkerSettingsData],
    i: usize,
) -> (r: Option<FieldError>)
    requires
        text::lists(text::texts(names@), markers@.dom()),
        i < names@.len(),
    ensures
        match r {
            Some(e) => name_error(markers@, text::texts(names@), form_models(forms@), i as int)
                == Some(e@),
            None => name_error(
                markers@,
                text::texts(names@),
                form_models(forms@),
                i as int,
            ) is None,
        },
{
    let ghost all = text::texts(names@);
    let name = names[i].as_str();
    assert(all[i as int] == name@);
    assert(all.contains(name@));
    let plain = text::trim(name);
    if name.is_empty() || !text::same_text(plain.as_str(), name) {
        return Some(
            field_error(
                name,
                "marker",
                "Alias must be nonempty without surrounding whitespace",
            ),
        );
    }
    let settings = match markers.get(name) {
        Some(settings) => settings,
        None => return None,
    };
    let value = match &settings.shortcut {
        Some(value) => value,
        None => return None,
    };
    let found = match shortcut(name, value.as_str()) {
        Ok(found) => found,
        Err(e) => return Some(e),
    };
    let bare = text::trim(value.as_str());
    if !bare.as_str().is_empty() && !text::same_text(value.as_str(), bare.as_str()) {
        return Some(
            field_error(
                name,
                "shortcut",
                "Stored shortcut must be one ASCII digit without surrounding whitespace",
            ),
        );
    }
    let digit = match found {
        Some(digit) => digit,
        None => return None,
    };
    let mut j: usize = 0;
    while j < i
        invariant
            j <= i < names@.len(),
            all == text::texts(names@),
            text::lists(all, markers@.dom()),
            name@ == all[i as int],
            name_error(markers@, all, form_models(forms@), i as int) == (if exists|k: int|
                first_bound(markers@, all, i as int, digit@, k) {
                let k = choose|k: int| first_bound(markers@, all, i as int, digit@, k);
                Some(conflict_error(form_models(forms@), name@, all[k], digit@))
            } else {
                None
            }),
            forall|k: int| 0 <= k < j ==> binding(markers@[#[trigger] all[k]]) != Some(digit@),
        decreases i - j,
    {
        let other = names[j].as_str();
        assert(all[j as int] == other@);
        assert(all.contains(other@));
        if let Some(settings) = markers.get(other) {
            if let Some(value) = &settings.shortcut {
                if let Ok(Some(bound)) = shortcut(other, value.as_str()) {
                    if text::same_text(bound.as_str(), digit.as_str()) {
                        proof {
                            assert(first_bound(markers@, all, i as int, digit@, j as int));
                            assert forall|k: int|
                                first_bound(markers@, all, i as int, digit@, k) implies k == j by {}
                        }
                        return Some(conflict(forms, name, other, digit.as_str()));
                    }
                }
            }
        }
        j = j + 1;
    }
    None
}

/// Puts drafts over the markers without deleting unmentioned ones, then
/// validates the whole. Two edited markers may swap their shortcuts.
pub fn validate_marker_forms(existing: &MarkerMap, forms: &[MarkerSettingsData]) -> (r: Result<
    MarkerMap,
    FieldError,
>)
    ensures
        markers_result(r) == accepted(existing@, form_models(forms@)),
{
    let candidate = match merge_forms(existing, forms) {
        Ok(candidate) => candidate,
        Err(e) => return Err(e),
    };
    let names = ordered_names(&candidate);
    let ghost all = text::texts(names@);
    let mut i: usize = 0;
    while i < names.len()
        invariant
            i <= names.len(),
            all == text::texts(names@),
            text::lists(all, candidate@.dom()),
            all == text::ordered(candidate@.dom()),
            merged(existing@, form_models(forms@)) == Ok::<_, FieldErrorModel>(candidate@),
            names_error(candidate@, all, form_models(forms@), i as int) is None,
        decreases names.len() - i,
    {
        if let Some(e) = check_name(&candidate, &names, forms, i) {
            proof {
                names_error_stops(candidate@, all, form_models(forms@), i + 1, all.len() as int);
            }
            return Err(e);
        }
        i = i + 1;
    }
    Ok(candidate)
}

/// In markers that a dialog leaves, every alias is trimmed, every shortcut is blank or
/// trimmed, and no two markers are bound to the same digit.
pub proof fn accepted_markers_are_consistent(
    existing: Map<Seq<char>, project::MarkerSettingsModel>,
    forms: Seq<project::MarkerSettingsDataModel>,
    markers: Map<Seq<char>, project::MarkerSettingsModel>,
    a: Seq<char>,
    b: Seq<char>,
)
    requires
        accepted(existing, forms) == Ok::<_, FieldErrorModel>(markers),
        markers.dom().finite(),
        markers.dom().contains(a),
        markers.dom().contains(b),
    ensures
        a.len() > 0 && text::trimmed(a) == a,
        markers[a].shortcut matches Some(value) ==> shortcut_of(value) is Ok && (text::trimmed(
            value,
        ).len() == 0 || value == text::trimmed(value)),
        binding(markers[a]) matches Some(digit) ==> text::is_digit(digit[0]) && digit.len() == 1,
        a != b && binding(markers[a]) is Some ==> binding(markers[a]) != binding(markers[b]),
{
    let names = text::ordered(markers.dom());
    text::finite_sets_are_ordered(markers.dom());
    let i = choose|i: int| 0 <= i < names.len() && names[i] == a;
    assert(names.contains(a));
    assert(names.contains(b));
    let j = choose|j: int| 0 <= j < names.len() && names[j] == b;
    no_name_error(markers, names, forms, i);
    no_name_error(markers, names, forms, j);
    if a != b && binding(markers[a]) is Some && binding(markers[a]) == binding(markers[b]) {
        let digit = binding(markers[a])->0;
        let (low, high) = if i < j {
            (i, j)
        } else {
            (j, i)
        };
        some_first_bound(markers, names, high, digit, low);
        assert(name_error(markers, names, forms, high) is Some);
    }
}

proof fn no_name_error(
    markers: Map<Seq<char>, project::MarkerSettingsModel>,
    names: Seq<Seq<char>>,
    forms: Seq<project::MarkerSettingsDataModel>,
    i: int,
)
    requires
        0 <= i < names.len(),
        names_error(markers, names, forms, names.len() as int) is None,
    ensures
        name_error(markers, names, forms, i) is None,
{
    if names_error(markers, names, forms, i + 1) is Some {
        names_error_stops(markers, names, forms, i + 1, names.len() as int);
    }
}

proof fn some_first_bound(
    markers: Map<Seq<char>, project::MarkerSettingsModel>,
    names: Seq<Seq<char>>,
    n: int,
    digit: Seq<char>,
    j: int,
)
    requires
        0 <= j < n <= names.len(),
        binding(markers[names[j]]) == Some(digit),
    ensures
        exists|k: int| first_bound(markers, names, n, digit, k),
    decreases j,
{
    if exists|k: int| 0 <= k < j && binding(markers[#[trigger] names[k]]) == Some(digit) {
        let k = choose|k: int| 0 <= k < j && binding(markers[#[trigger] names[k]]) == Some(digit);
        some_first_bound(markers, names, n, digit, k);
    } else {
        assert(first_bound(markers, names, n, digit, j));
    }
}

/// A marker that no draft mentions stays exactly as it was.
pub proof fn unmentioned_markers_stay(
    existing: Map<Seq<char>, project::MarkerSettingsModel>,
    forms: Seq<project::MarkerSettingsDataModel>,
    name: Seq<char>,
)
    requires
        merged(existing, forms) is Ok,
        forall|j: int| 0 <= j < forms.len() ==> text::trimmed((#[trigger] forms[j]).marker) != name,
    ensures
        merged(existing, forms)->Ok_0.dom().contains(name) == existing.dom().contains(name),
        existing.dom().contains(name) ==> merged(existing, forms)->Ok_0[name] == existing[name],
    decreases forms.len(),
{
    if forms.len() > 0 {
        assert(text::trimmed(forms[forms.len() - 1].marker) != name);
        assert forall|j: int| 0 <= j < forms.drop_last().len() implies text::trimmed(
            (#[trigger] forms.drop_last()[j]).marker,
        ) != name by {
            assert(forms.drop_last()[j] == forms[j]);
        }
        unmentioned_markers_stay(existing, forms.drop_last(), name);
    }
}

/// What a dialog save achieved.
#[derive(Debug, PartialEq, Eq)]
pub struct DialogSaveOutcome {
    /// The file holds the new project, but the save could not confirm that it
    /// is safe on disk.
    pub warning: Option<String>,
}

/// What became of writing a project.
#[derive(Debug)]
pub enum SaveReport {
    Saved,
    Failed {
        error: String,
        /// The JSON that should have been stored.
        expected: Vec<u8>,
        /// The bytes that are stored, or why they cannot be read.
        stored: Result<Vec<u8>, String>,
    },
}

/// Whether a save holds after all, with its warning, or why it failed.
pub open spec fn settled(path: Seq<char>, report: SaveReport) -> Result<
    Option<Seq<char>>,
    Seq<char>,
> {
    match report {
        SaveReport::Saved => Ok(None),
        SaveReport::Failed { error, expected, stored } => match stored {
            Err(e) => Err(unverified(e@, error@)),
            Ok(bytes) => comparison_verdict(
                path,
                error@,
                json::json_comparison(expected@, bytes@),
            ),
        },
    }
}

/// Why a failed save could not be checked against the disk.
pub open spec fn unverified(read_error: Seq<char>, error: Seq<char>) -> Seq<char> {
    "Could not verify on-disk state after the save error: "@ + read_error + ": "@ + error
}

/// What a failed save comes to once the stored document was compared.
pub open spec fn comparison_verdict(
    path: Seq<char>,
    error: Seq<char>,
    comparison: Result<bool, Seq<char>>,
) -> Result<Option<Seq<char>>, Seq<char>> {
    match comparison {
        Ok(true) => Ok(
            Some(
                "Changes are present in "@ + path
                    + ", but save could not confirm durability: "@ + error,
            ),
        ),
        Ok(false) => Err(error),
        Err(e) => Err(unverified(e, error)),
    }
}

/// The view of a settled save.
pub open spec fn outcome_view(r: Result<DialogSaveOutcome, String>) -> Result<
    Option<Seq<char>>,
    Seq<char>,
> {
    match r {
        Ok(outcome) => Ok(text::option_text(outcome.warning)),
        Err(e) => Err(e@),
    }
}

/// Decides on a failed save from the comparison of what is stored.
pub fn judge_comparison(path: &str, error: String, comparison: Result<bool, String>) -> (r: Result<
    DialogSaveOutcome,
    String,
>)
    ensures
        outcome_view(r) == comparison_verdict(path@, error@, json::comparison_view(comparison)),
{
    match comparison {
        Ok(true) => {
            let warning = "Changes are present in ".to_owned().concat(path).concat(
                ", but save could not confirm durability: ",
            ).concat(error.as_str());
            Ok(DialogSaveOutcome { warning: Some(warning) })
        },
        Ok(false) => Err(error),
        Err(e) => Err(
            "Could not verify on-disk state after the save error: ".to_owned().concat(
                e.as_str(),
            ).concat(": ").concat(error.as_str()),
        ),
    }
}

/// Decides what a save report comes to. A save can fail after the file was
/// replaced: then the stored document is compared with the one that was meant.
pub fn settle_save(path: &str, report: SaveReport) -> (r: Result<DialogSaveOutcome, String>)
    ensures
        outcome_view(r) == settled(path@, report),
{
    match report {
        SaveReport::Saved => Ok(DialogSaveOutcome { warning: None }),
        SaveReport::Failed { error, expected, stored } => match stored {
            Err(e) => Err(
                "Could not verify on-disk state after the save error: ".to_owned().concat(
                    e.as_str(),
                ).concat(": ").concat(error.as_str()),
            ),
            Ok(bytes) => {
                let comparison = json::compare_json(expected.as_slice(), bytes.as_slice());
                judge_comparison(path, error, comparison)
            },
        },
    }
}

/// Stores a staged project and only then publishes it in memory. A project that
/// could not be stored leaves the one in memory untouched.
pub fn persist_staged<F: Fn(&Project) -> SaveReport>(
    project: &mut Project,
    path: &str,
    staged: Project,
    save: &F,
) -> (r: Result<DialogSaveOutcome, String>)
    requires
        forall|p: &Project| call_requires(save, (p,)),
    ensures
        exists|report: SaveReport| #[trigger]
            call_ensures(save, (&staged,), report) && outcome_view(r) == settled(path@, report),
        final(project)@ == (if r is Ok {
            staged@
        } else {
            old(project)@
        }),
{
    let report = save(&staged);
    match settle_save(path, report) {
        Ok(outcome) => {
            *project = staged;
            Ok(outcome)
        },
        Err(e) => Err(e),
    }
}

/// Why a dialog was not saved.
#[derive(Debug)]
pub enum DialogError {
    /// A field of the form is wrong.
    Field(FieldError),
    /// The selection is stale, or the project could not be stored.
    Refused(String),
}

impl DialogError {
    /// The sentence that belongs to an error.
    pub open spec fn spec_text(&self) -> Seq<char> {
        match self {
            DialogError::Field(e) => field_error_text(e@),
            DialogError::Refused(e) => e@,
        }
    }

    pub fn text(&self) -> (r: String)
        ensures
            r@ == self.spec_text(),
    {
        match self {
            DialogError::Field(e) => e.text(),
            DialogError::Refused(e) => e.clone(),
        }
    }
}

/// Whether a staged project was handed to the save and what came of it.
pub open spec fn was_persisted<F: Fn(&Project) -> SaveReport>(
    save: &F,
    path: Seq<char>,
    staged: project::ProjectModel,
    r: Result<DialogSaveOutcome, DialogError>,
) -> bool {
    exists|p: Project, report: SaveReport| #[trigger]
        call_ensures(save, (&p,), report) && p@ == staged && match r {
            Ok(outcome) => settled(path, report) == Ok::<Option<Seq<char>>, Seq<char>>(
                text::option_text(outcome.warning),
            ),
            Err(DialogError::Refused(e)) => settled(path, report) == Err::<
                Option<Seq<char>>,
                Seq<char>,
            >(e@),
            Err(DialogError::Field(_)) => false,
        }
}

fn persist<F: Fn(&Project) -> SaveReport>(
    project: &mut Project,
    path: &str,
    staged: Project,
    save: &F,
) -> (r: Result<DialogSaveOutcome, DialogError>)
    requires
        forall|p: &Project| call_requires(save, (p,)),
    ensures
        was_persisted(save, path@, staged@, r),
        final(project)@ == (if r is Ok {
            staged@
        } else {
            old(project)@
        }),
{
    match persist_staged(project, path, staged, save) {
        Ok(outcome) => Ok(outcome),
        Err(e) => Err(DialogError::Refused(e)),
    }
}

/// Saves the marker dialog.
pub fn save_marker_dialog<F: Fn(&Project) -> SaveReport>(
    project: &mut Project,
    path: &str,
    forms: &[MarkerSettingsData],
    save: &F,
) -> (r: Result<DialogSaveOutcome, DialogError>)
    requires
        forall|p: &Project| call_requires(save, (p,)),
    ensures
        match accepted(old(project)@.markers, form_models(forms@)) {
            Err(e) => r matches Err(DialogError::Field(error)) && error@ == e && final(project)@
                == old(project)@,
            Ok(markers) => {
                let staged = project::ProjectModel { markers, ..old(project)@ };
                &&& was_persisted(save, path@, staged, r)
                &&& final(project)@ == (if r is Ok {
                    staged
                } else {
                    old(project)@
                })
            },
        },
{
    let checked = validate_marker_forms(&project.markers, forms);
    match checked {
        Err(e) => Err(DialogError::Field(e)),
        Ok(markers) => {
            let mut staged = project.clone();
            staged.markers = markers;
            persist(project, path, staged, save)
        },
    }
}

/// A project with the book form taken over.
pub open spec fn with_meta(
    project: project::ProjectModel,
    data: project::MetaDataModel,
) -> project::ProjectModel {
    project::ProjectModel {
        meta: project::MetaModel {
            title: data.title,
            author: data.author,
            year: data.year,
            hint: data.hint,
            reader: data.reader,
        },
        settings: project::SettingsModel {
            format_audio: data.format_audio,
            normalize: data.normalize,
            cover: data.cover,
            section_split: data.section_split,
            denoise: data.denoise,
            ..project.settings
        },
        ..project
    }
}

/// Saves the book dialog.
pub fn save_meta_dialog<F: Fn(&Project) -> SaveReport>(
    project: &mut Project,
    path: &str,
    data: &MetaData,
    save: &F,
) -> (r: Result<DialogSaveOutcome, DialogError>)
    requires
        forall|p: &Project| call_requires(save, (p,)),
    ensures
        data@.format_audio != "wav"@ && data@.format_audio != "mp3"@ ==> {
            &&& r matches Err(DialogError::Field(e)) && e@ == (FieldErrorModel {
                marker: Seq::empty(),
                field: "format_audio"@,
                message: "Choose WAV or MP3"@,
            })
            &&& final(project)@ == old(project)@
        },
        data@.format_audio == "wav"@ || data@.format_audio == "mp3"@ ==> {
            &&& was_persisted(save, path@, with_meta(old(project)@, data@), r)
            &&& final(project)@ == (if r is Ok {
                with_meta(old(project)@, data@)
            } else {
                old(project)@
            })
        },
{
    let known = text::same_text(data.format_audio.as_str(), "wav") || text::same_text(
        data.format_audio.as_str(),
        "mp3",
    );
    if !known {
        let e = FieldError {
            marker: String::new(),
            field: "format_audio".to_owned(),
            message: "Choose WAV or MP3".to_owned(),
        };
        return Err(DialogError::Field(e));
    }
    let mut staged = project.clone();
    staged.meta.title = data.title.clone();
    staged.meta.author = data.author.clone();
    staged.meta.year = data.year.clone();
    staged.meta.hint = data.hint.clone();
    staged.meta.reader = data.reader.clone();
    staged.settings.format_audio = data.format_audio.clone();
    staged.settings.normalize = data.normalize;
    staged.settings.cover = data.cover.clone();
    staged.settings.section_split = data.section_split;
    staged.settings.denoise = data.denoise;
    persist(project, path, staged, save)
}

/// A project with the recording form taken over by one fragment.
pub open spec fn with_chunk(
    project: project::ProjectModel,
    i: int,
    data: project::ChunkSettingsDataModel,
) -> project::ProjectModel {
    project::ProjectModel {
        files: project.files.update(
            i,
            project::ProjectFileModel {
                title: data.title,
                author: data.author,
                year: data.year,
                hint: data.hint,
                ..project.files[i]
            },
        ),
        ..project
    }
}

/// Why the recording form does not fit the project any more, if it does not.
pub open spec fn stale_selection(
    project: project::ProjectModel,
    ui_index: int,
    expected_path: Seq<char>,
) -> Option<Seq<char>> {
    if !(0 <= ui_index < project.files.len()) {
        Some("Recording selection is no longer valid; reopen its settings"@)
    } else if project.files[project.files.len() - 1 - ui_index].path != expected_path {
        Some("Recording selection changed; reopen settings for "@ + text::quoted(expected_path))
    } else {
        None
    }
}

/// Saves the recording dialog.
pub fn save_chunk_dialog<F: Fn(&Project) -> SaveReport>(
    project: &mut Project,
    path: &str,
    data: &ChunkSettingsData,
    expected_path: &str,
    save: &F,
) -> (r: Result<DialogSaveOutcome, DialogError>)
    requires
        forall|p: &Project| call_requires(save, (p,)),
    ensures
        match stale_selection(old(project)@, data@.ui_index, expected_path@) {
            Some(e) => r matches Err(DialogError::Refused(error)) && error@ == e
                && final(project)@ == old(project)@,
            None => {
                let staged = with_chunk(
                    old(project)@,
                    old(project)@.files.len() - 1 - data@.ui_index,
                    data@,
                );
                &&& was_persisted(save, path@, staged, r)
                &&& final(project)@ == (if r is Ok {
                    staged
                } else {
                    old(project)@
                })
            },
        },
{
    let i: usize = match indexes::ui_to_orig_index(data.ui_index, project.files.len()) {
        Some(i) => i,
        None => {
            return Err(
                DialogError::Refused(
                    "Recording selection is no longer valid; reopen its settings".to_owned(),
                ),
            );
        },
    };
    assert(project@.files[i as int] == project.files@[i as int]@);
    if !text::same_text(project.files[i].path.as_str(), expected_path) {
        return Err(
            DialogError::Refused(
                "Recording selection changed; reopen settings for ".to_owned().concat(
                    text::quote(expected_path).as_str(),
                ),
            ),
        );
    }
    let mut staged = project.clone();
    assert(staged@.files.len() == staged.files@.len());
    let ghost before = staged@;
    assert(before.files[i as int] == staged.files@[i as int]@);
    staged.files[i].title = data.title.clone();
    staged.files[i].author = data.author.clone();
    staged.files[i].year = data.year.clone();
    staged.files[i].hint = data.hint.clone();
    proof {
        assert(staged@.files =~= with_chunk(before, i as int, data@).files);
    }
    persist(project, path, staged, save)
}

} // verus!
