//! What passes between the engine and whoever drives it: the engine asks for one
//! piece of outside work at a time, and is told how it went.

use crate::catalog::{opt_catalog, Catalog, CatalogView};
use crate::error::{Error, ErrorView};
use crate::kind::Kind;
use crate::store::{installed_views, InstalledEntry, InstalledEntryView};
use crate::text::views_of;
use vstd::prelude::*;

verus! {

/// How an operation ended well.
#[derive(Debug, PartialEq, Eq)]
pub enum Outcome {
    /// The version was installed and is the active one.
    Installed(InstalledEntry),
    /// The version was there already: nothing was done.
    AlreadyInstalled(InstalledEntry),
    /// Nothing of the kind is installed any more.
    Uninstalled,
    /// Every kind of the update was seen to.
    Updated,
    /// What is installed.
    Listed(Vec<InstalledEntry>),
}

pub enum OutcomeView {
    Installed(InstalledEntryView),
    AlreadyInstalled(InstalledEntryView),
    Uninstalled,
    Updated,
    Listed(Seq<InstalledEntryView>),
}

impl View for Outcome {
    type V = OutcomeView;

    open spec fn view(&self) -> OutcomeView {
        match self {
            Outcome::Installed(e) => OutcomeView::Installed(e@),
            Outcome::AlreadyInstalled(e) => OutcomeView::AlreadyInstalled(e@),
            Outcome::Uninstalled => OutcomeView::Uninstalled,
            Outcome::Updated => OutcomeView::Updated,
            Outcome::Listed(l) => OutcomeView::Listed(installed_views(l@)),
        }
    }
}

/// The view of how an operation ended.
pub open spec fn result_view(r: Result<Outcome, Error>) -> Result<OutcomeView, ErrorView> {
    match r {
        Ok(o) => Ok(o@),
        Err(e) => Err(e@),
    }
}

/// One piece of outside work that the engine asks for, or the end of the operation.
/// Every step that changes what others can see on the disk is a single rename or
/// removal of one entry: it has either happened or not.
#[derive(Debug, PartialEq, Eq)]
pub enum Action {
    /// Fetch the catalog of `kind` and keep a snapshot of it at `snapshot`; where it
    /// cannot be reached, read the snapshot kept there. Answered by
    /// `Event::Catalog`.
    FetchCatalog { kind: Kind, snapshot: String },
    /// Ask the source host whether `revision` exists. Answered by `Event::Exists`.
    Probe { kind: Kind, revision: String },
    /// Compute the checksum of the cached archive at `path`. Answered by
    /// `Event::Digest`.
    Hash { path: String },
    /// Remove the record at `record`, then the cached archive at `path`; that there
    /// is none is no failure. Answered by `Event::Completed`.
    Evict { path: String, record: String },
    /// Download `url` to `temp` and compute the checksum of what arrived. Answered
    /// by `Event::Digest`.
    Download { url: String, temp: String },
    /// Rename the file at `temp` to `path`, in place of what is there, and put
    /// `checksum` on record at `record`, which is removed first and written last.
    /// Answered by `Event::Completed`.
    Commit { temp: String, path: String, record: String, checksum: Vec<u8> },
    /// Put the sources of `kind` at `revision` into the empty directory `dir`.
    /// Answered by `Event::Completed`.
    FetchSource { kind: Kind, revision: String, dir: String },
    /// Run the build of `kind` on the sources in `source`, with its output captured,
    /// so that what it makes is left in `output`. Answered by `Event::Exited`.
    Compile { kind: Kind, source: String, output: String },
    /// Pack the directory `output` into an archive at `temp` and compute its
    /// checksum. Answered by `Event::Digest`.
    Package { output: String, temp: String },
    /// Unpack `archive` into the empty directory `staging` and list the names at
    /// its top level. Answered by `Event::Listing`.
    Extract { archive: String, staging: String },
    /// Rename the directory `staging` to `path`. Where `replace` is set a directory
    /// is at `path` already and is replaced; where it is not, one found there is a
    /// failure. Answered by `Event::Completed`.
    Promote { staging: String, path: String, replace: bool },
    /// Make `pointer` refer to `target`, by renaming a new pointer over the old.
    /// Answered by `Event::Completed`.
    Activate { pointer: String, target: String },
    /// Remove `pointer`. Answered by `Event::Completed`.
    Deactivate { pointer: String },
    /// Remove the directory at `path`, by renaming it away and deleting it there.
    /// Answered by `Event::Completed`.
    Remove { path: String },
    /// The operation is over. The scratch area is emptied now.
    Done(Result<Outcome, Error>),
}

pub enum ActionView {
    FetchCatalog { kind: Kind, snapshot: Seq<char> },
    Probe { kind: Kind, revision: Seq<char> },
    Hash { path: Seq<char> },
    Evict { path: Seq<char>, record: Seq<char> },
    Download { url: Seq<char>, temp: Seq<char> },
    Commit { temp: Seq<char>, path: Seq<char>, record: Seq<char>, checksum: Seq<u8> },
    FetchSource { kind: Kind, revision: Seq<char>, dir: Seq<char> },
    Compile { kind: Kind, source: Seq<char>, output: Seq<char> },
    Package { output: Seq<char>, temp: Seq<char> },
    Extract { archive: Seq<char>, staging: Seq<char> },
    Promote { staging: Seq<char>, path: Seq<char>, replace: bool },
    Activate { pointer: Seq<char>, target: Seq<char> },
    Deactivate { pointer: Seq<char> },
    Remove { path: Seq<char> },
    Done(Result<OutcomeView, ErrorView>),
}

impl View for Action {
    type V = ActionView;

    open spec fn view(&self) -> ActionView {
        match self {
            Action::FetchCatalog { kind, snapshot } => ActionView::FetchCatalog {
                kind: *kind,
                snapshot: snapshot@,
            },
            Action::Probe { kind, revision } => ActionView::Probe {
                kind: *kind,
                revision: revision@,
            },
            Action::Hash { path } => ActionView::Hash { path: path@ },
            Action::Evict { path, record } => ActionView::Evict { path: path@, record: record@ },
            Action::Download { url, temp } => ActionView::Download { url: url@, temp: temp@ },
            Action::Commit { temp, path, record, checksum } => ActionView::Commit {
                temp: temp@,
                path: path@,
                record: record@,
                checksum: checksum@,
            },
            Action::FetchSource { kind, revision, dir } => ActionView::FetchSource {
                kind: *kind,
                revision: revision@,
                dir: dir@,
            },
            Action::Compile { kind, source, output } => ActionView::Compile {
                kind: *kind,
                source: source@,
                output: output@,
            },
            Action::Package { output, temp } => ActionView::Package {
                output: output@,
                temp: temp@,
            },
            Action::Extract { archive, staging } => ActionView::Extract {
                archive: archive@,
                staging: staging@,
            },
            Action::Promote { staging, path, replace } => ActionView::Promote {
                staging: staging@,
                path: path@,
                replace: *replace,
            },
            Action::Activate { pointer, target } => ActionView::Activate {
                pointer: pointer@,
                target: target@,
            },
            Action::Deactivate { pointer } => ActionView::Deactivate { pointer: pointer@ },
            Action::Remove { path } => ActionView::Remove { path: path@ },
            Action::Done(r) => ActionView::Done(result_view(*r)),
        }
    }
}

/// How a piece of outside work went.
#[derive(Debug, PartialEq, Eq)]
pub enum Event {
    /// The catalog as just fetched, where it could be reached, and the snapshot kept
    /// of it, where there is one.
    Catalog { fresh: Option<Catalog>, kept: Option<Catalog> },
    /// Whether the source host has the revision.
    Exists(bool),
    /// The checksum that was computed.
    Digest(Vec<u8>),
    /// The names at the top level of what was unpacked.
    Listing(Vec<String>),
    /// The build subprocess ended with `code`; `output` is what it printed.
    Exited { code: i32, output: String },
    /// The step was carried out.
    Completed,
    /// The step was not carried out, and why. Nothing of it is left behind.
    Failed(String),
}

pub enum EventView {
    Catalog { fresh: Option<CatalogView>, kept: Option<CatalogView> },
    Exists(bool),
    Digest(Seq<u8>),
    Listing(Seq<Seq<char>>),
    Exited { code: i32, output: Seq<char> },
    Completed,
    Failed(Seq<char>),
}

impl View for Event {
    type V = EventView;

    open spec fn view(&self) -> EventView {
        match self {
            Event::Catalog { fresh, kept } => EventView::Catalog {
                fresh: opt_catalog(*fresh),
                kept: opt_catalog(*kept),
            },
            Event::Exists(b) => EventView::Exists(*b),
            Event::Digest(d) => EventView::Digest(d@),
            Event::Listing(l) => EventView::Listing(views_of(l@)),
            Event::Exited { code, output } => EventView::Exited { code: *code, output: output@ },
            Event::Completed => EventView::Completed,
            Event::Failed(why) => EventView::Failed(why@),
        }
    }
}

} // verus!
