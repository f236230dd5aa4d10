//! A complete export is prepared privately and published in one step.
use crate::utils::paths;
use crate::utils::text;
use vstd::prelude::*;

verus! {

/// An export was cancelled.
#[derive(Clone, Copy, Debug, PartialEq, Eq, Structural)]
pub struct ExportCancelled;

impl ExportCancelled {
    pub fn message(&self) -> (r: &'static str)
        ensures
            r@ == "Compilation cancelled"@,
    {
        "Compilation cancelled"
    }
}

/// Fails if the flag of an export is set.
pub fn check_cancel(cancel: Option<bool>) -> (r: Result<(), ExportCancelled>)
    ensures
        r is Err <==> cancel == Some(true),
{
    match cancel {
        Some(true) => Err(ExportCancelled),
        _ => Ok(()),
    }
}

/// An export that was published.
#[derive(Debug)]
pub struct PublishedExport {
    pub path: String,
    /// It was published; these failures concern only its durability or what is left
    /// of its workspace.
    pub warnings: Vec<String>,
}

/// What stands in the place of an export.
#[derive(Clone, Copy, Debug, PartialEq, Eq, Structural)]
pub enum Destination {
    Missing,
    Directory,
    /// A file, or a link, wherever it leads.
    Other,
}

/// How an export comes into its place.
#[derive(Clone, Copy, Debug, PartialEq, Eq, Structural)]
pub enum Publication {
    /// It changes places with the previous one.
    Exchange,
    /// There was none before, and none may appear meanwhile.
    Create,
}

/// Why an export is not published. The previous one stays as it was.
#[derive(Debug)]
pub enum PublishError {
    Cancelled,
    NothingExpected,
    /// Something that is no directory stands in the place of the export.
    Destination(String),
    /// A prepared entry is no regular file.
    NotRegular(String),
    Empty,
    Incomplete { expected: usize, found: usize },
}

/// What the contracts know of [`PublishError`].
#[verifier::ext_equal]
pub ghost enum PublishErrorModel {
    Cancelled,
    NothingExpected,
    Destination(Seq<char>),
    NotRegular(Seq<char>),
    Empty,
    Incomplete { expected: usize, found: usize },
}

impl View for PublishError {
    type V = PublishErrorModel;

    open spec fn view(&self) -> PublishErrorModel {
        match self {
            PublishError::Cancelled => PublishErrorModel::Cancelled,
            PublishError::NothingExpected => PublishErrorModel::NothingExpected,
            PublishError::Destination(path) => PublishErrorModel::Destination(path@),
            PublishError::NotRegular(path) => PublishErrorModel::NotRegular(path@),
            PublishError::Empty => PublishErrorModel::Empty,
            PublishError::Incomplete { expected, found } => PublishErrorModel::Incomplete {
                expected: *expected,
                found: *found,
            },
        }
    }
}

/// The sentence that belongs to an error.
pub open spec fn publish_error_text(e: PublishErrorModel) -> Seq<char> {
    match e {
        PublishErrorModel::Cancelled => "Compilation cancelled"@,
        PublishErrorModel::NothingExpected => "Expected export output count must be positive"@,
        PublishErrorModel::Destination(path) => {
            "Export destination must be a real directory, not a file or symlink: "@ + path
        },
        PublishErrorModel::NotRegular(path) => {
            "Prepared export must contain only regular files: "@ + path
        },
        PublishErrorModel::Empty => "Prepared export is empty"@,
        PublishErrorModel::Incomplete { expected, found } => {
            "Prepared export file count does not match the complete book: expected "@
                + text::decimal(expected as nat) + ", found "@ + text::decimal(found as nat)
        },
    }
}

impl PublishError {
    pub fn text(&self) -> (r: String)
        ensures
            r@ == publish_error_text(self@),
    {
        match self {
            PublishError::Cancelled => "Compilation cancelled".to_owned(),
            PublishError::NothingExpected => {
                "Expected export output count must be positive".to_owned()
            },
            PublishError::Destination(path) => {
                "Export destination must be a real directory, not a file or symlink: ".to_owned().concat(
                path.as_str())
            },
            PublishError::NotRegular(path) => {
                "Prepared export must contain only regular files: ".to_owned().concat(path.as_str())
            },
            PublishError::Empty => "Prepared export is empty".to_owned(),
            PublishError::Incomplete { expected, found } => {
                "Prepared export file count does not match the complete book: expected ".to_owned().concat(
                text::decimal_text(*expected as u128).as_str()).concat(", found ").concat(
                    text::decimal_text(*found as u128).as_str(),
                )
            },
        }
    }
}

/// An entry of a prepared export.
#[derive(Debug)]
pub struct PreparedEntry {
    pub path: String,
    pub is_file: bool,
}

/// The first entry that is no regular file.
pub open spec fn first_irregular(entries: Seq<PreparedEntry>, i: int) -> bool {
    &&& 0 <= i < entries.len()
    &&& !entries[i].is_file
    &&& forall|k: int| 0 <= k < i ==> (#[trigger] entries[k]).is_file
}

/// Whether a prepared export is the complete book, or why not.
pub open spec fn prepared_error(
    cancelled: bool,
    expected: usize,
    destination: Destination,
    export_dir: Seq<char>,
    entries: Seq<PreparedEntry>,
    e: PublishErrorModel,
) -> bool {
    if cancelled {
        e is Cancelled
    } else if expected == 0 {
        e is NothingExpected
    } else if destination == Destination::Other {
        e == PublishErrorModel::Destination(export_dir)
    } else if exists|i: int| first_irregular(entries, i) {
        exists|i: int| #[trigger]
            first_irregular(entries, i) && e == PublishErrorModel::NotRegular(entries[i].path@)
    } else if entries.len() == 0 {
        e is Empty
    } else {
        entries.len() != expected && e == PublishErrorModel::Incomplete {
            expected,
            found: entries.len() as usize,
        }
    }
}

/// Whether a prepared export is the complete book.
pub open spec fn is_complete(
    cancelled: bool,
    expected: usize,
    destination: Destination,
    entries: Seq<PreparedEntry>,
) -> bool {
    &&& !cancelled
    &&& expected > 0
    &&& destination != Destination::Other
    &&& forall|i: int| 0 <= i < entries.len() ==> (#[trigger] entries[i]).is_file
    &&& entries.len() == expected
}

/// Checks a prepared export before it is published: it holds exactly the files of
/// the complete book.
pub fn check_prepared(
    cancelled: bool,
    expected: usize,
    destination: Destination,
    export_dir: &str,
    entries: &Vec<PreparedEntry>,
) -> (r: Result<(), PublishError>)
    ensures
        match r {
            Ok(_) => is_complete(cancelled, expected, destination, entries@),
            Err(e) => !is_complete(cancelled, expected, destination, entries@) && prepared_error(
                cancelled,
                expected,
                destination,
                export_dir@,
                entries@,
                e@,
            ),
        },
{
    if cancelled {
        return Err(PublishError::Cancelled);
    }
    if expected == 0 {
        return Err(PublishError::NothingExpected);
    }
    if destination == Destination::Other {
        return Err(PublishError::Destination(export_dir.to_owned()));
    }
    let total: usize = entries.len();
    let mut i: usize = 0;
    while i < total
        invariant
            i <= total == entries@.len(),
            !cancelled,
            expected > 0,
            destination != Destination::Other,
            forall|k: int| 0 <= k < i ==> (#[trigger] entries@[k]).is_file,
        decreases total - i,
    {
        if !entries[i].is_file {
            assert(first_irregular(entries@, i as int));
            return Err(PublishError::NotRegular(entries[i].path.clone()));
        }
        i = i + 1;
    }
    assert(forall|k: int| !first_irregular(entries@, k));
    if total == 0 {
        return Err(PublishError::Empty);
    }
    if total != expected {
        return Err(PublishError::Incomplete { expected, found: total });
    }
    Ok(())
}

/// How a checked export is published. The place is looked at again right before:
/// it may have changed meanwhile.
pub fn choose_publication(cancelled: bool, destination: Destination, export_dir: &str) -> (r: Result<
    Publication,
    PublishError,
>)
    ensures
        match r {
            Ok(p) => !cancelled && (match p {
                Publication::Exchange => destination == Destination::Directory,
                Publication::Create => destination == Destination::Missing,
            }),
            Err(e) => if destination == Destination::Other {
                e@ == PublishErrorModel::Destination(export_dir@)
            } else {
                cancelled && e@ is Cancelled
            },
        },
{
    match destination {
        Destination::Other => Err(PublishError::Destination(export_dir.to_owned())),
        _ if cancelled => Err(PublishError::Cancelled),
        Destination::Directory => Ok(Publication::Exchange),
        Destination::Missing => Ok(Publication::Create),
    }
}

/// The warnings of what failed after an export was published.
pub open spec fn publication_warnings(
    project_sync: Option<Seq<char>>,
    workspace_sync: Option<Seq<char>>,
    cleanup: Option<Seq<char>>,
) -> Seq<Seq<char>> {
    let first = match project_sync {
        Some(e) => seq![
            "Export was published, but syncing project directory failed: "@ + e,
        ],
        None => Seq::empty(),
    };
    let second = match workspace_sync {
        Some(e) => seq![
            "Export was published, but syncing workspace directory failed: "@ + e,
        ],
        None => Seq::empty(),
    };
    let third = match cleanup {
        Some(e) => seq!["Export was published, but cleanup failed: "@ + e],
        None => Seq::empty(),
    };
    first + second + third
}

/// Reports a published export. Nothing that fails after it was published makes it
/// a failure.
pub fn published(
    export_dir: String,
    project_sync: Option<String>,
    workspace_sync: Option<String>,
    cleanup: Option<String>,
) -> (r: PublishedExport)
    ensures
        r.path@ == export_dir@,
        text::texts(r.warnings@) == publication_warnings(
            text::option_text(project_sync),
            text::option_text(workspace_sync),
            text::option_text(cleanup),
        ),
{
    let mut warnings: Vec<String> = Vec::new();
    let ghost wanted = publication_warnings(
        text::option_text(project_sync),
        text::option_text(workspace_sync),
        text::option_text(cleanup),
    );
    if let Some(e) = project_sync {
        warnings.push(
            "Export was published, but syncing project directory failed: ".to_owned().concat(
                e.as_str(),
            ),
        );
    }
    if let Some(e) = workspace_sync {
        warnings.push(
            "Export was published, but syncing workspace directory failed: ".to_owned().concat(
                e.as_str(),
            ),
        );
    }
    if let Some(e) = cleanup {
        warnings.push(
            "Export was published, but cleanup failed: ".to_owned().concat(e.as_str()),
        );
    }
    assert(text::texts(warnings@) =~= wanted);
    PublishedExport { path: export_dir, warnings }
}

/// What is known of a private file that is to be staged.
#[derive(Clone, Copy, Debug)]
pub struct StagedSource {
    pub is_file: bool,
    pub links: u64,
}

/// Why a private file cannot be staged.
#[derive(Clone, Copy, Debug, PartialEq, Eq, Structural)]
pub enum StageError {
    SamePath,
    NotRegular,
    Shared,
}

impl StageError {
    /// The sentence that belongs to an error.
    pub open spec fn spec_text(&self) -> Seq<char> {
        match self {
            StageError::SamePath => "Export staging paths must differ"@,
            StageError::NotRegular => "Export staging source must be a regular file"@,
            StageError::Shared => "Export staging source must have exactly one hard link"@,
        }
    }

    pub fn message(&self) -> (r: &'static str)
        ensures
            r@ == self.spec_text(),
    {
        match self {
            StageError::SamePath => "Export staging paths must differ",
            StageError::NotRegular => "Export staging source must be a regular file",
            StageError::Shared => "Export staging source must have exactly one hard link",
        }
    }
}

/// Whether a private file may be moved into the prepared export. It is never copied
/// and never replaces another one.
pub fn check_stage(source: &str, destination: &str, found: StagedSource) -> (r: Result<
    (),
    StageError,
>)
    ensures
        match r {
            Ok(_) => !paths::same_path_spec(source@, destination@) && found.is_file && found.links
                == 1,
            Err(StageError::SamePath) => paths::same_path_spec(source@, destination@),
            Err(StageError::NotRegular) => !paths::same_path_spec(source@, destination@)
                && !found.is_file,
            Err(StageError::Shared) => !paths::same_path_spec(source@, destination@)
                && found.is_file && found.links != 1,
        },
{
    if paths::same_path(source, destination) {
        Err(StageError::SamePath)
    } else if !found.is_file {
        Err(StageError::NotRegular)
    } else if found.links != 1 {
        Err(StageError::Shared)
    } else {
        Ok(())
    }
}

} // verus!
