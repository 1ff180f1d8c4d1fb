//! The lifecycle engine as a transition system: what the engine holds, and what each
//! reply from outside makes of it.
//!
//! An operation is a walk through stages. In each stage one piece of outside work
//! is awaited. A reply that reports the work as done moves the operation on; any
//! other reply ends it with a failure and leaves the installed versions and the
//! cache as they were.

use crate::cache::{ArtifactKeyView, CacheEntryView};
use crate::catalog::{no_such_version, resolution, VersionSpecView};
use crate::error::{ErrorClass, ErrorView, Phase};
use crate::kind::Kind;
use crate::layout::{is_expected_layout, WorkspaceView};
use crate::protocol::{ActionView, EventView, OutcomeView};
use crate::store::StoreView;
use crate::text::is_safe_name;
use vstd::prelude::*;

verus! {

/// The piece of outside work that an operation is waiting for.
#[derive(Clone, Copy, Debug, PartialEq, Eq, Structural)]
pub enum Stage {
    /// The catalog, to resolve the version against.
    Catalog,
    /// Whether the revision exists on the source host.
    Probe,
    /// The checksum of the archive found in the cache.
    Verify,
    /// The removal of the archive found in the cache.
    Evict,
    /// The download, and the checksum of what arrived.
    Download,
    /// The move of the verified archive into the cache.
    Commit,
    /// The sources of the build.
    Source,
    /// The build subprocess.
    Compile,
    /// The packing of what the build made.
    Package,
    /// The unpacking into the staging directory.
    Extract,
    /// The promotion of the staging directory.
    Promote,
    /// The swap of the active pointer.
    Activate,
    /// The removal of the active pointer.
    Deactivate,
    /// The removal of a version directory.
    Remove,
}

/// The operation under way.
pub struct JobView {
    pub kind: Kind,
    /// What was asked for.
    pub request: VersionSpecView,
    pub force: bool,
    /// Whether the archive is built from source rather than downloaded.
    pub building: bool,
    /// Whether the caller asked for the version to be made the active one.
    pub activate: bool,
    /// Whether this is one install of an update of several kinds.
    pub batch: bool,
    /// The kinds of the update that are still to come.
    pub pending: Seq<Kind>,
    pub stage: Stage,
    /// The version, once resolved.
    pub tag: Seq<char>,
    /// Where the archive is published.
    pub url: Seq<char>,
    /// The checksum that the catalog gives for the archive.
    pub checksum: Seq<u8>,
    /// The checksum of the archive on its way into the cache.
    pub digest: Seq<u8>,
}

/// What the engine holds.
pub struct EngineView {
    pub store: StoreView,
    pub cache: Map<ArtifactKeyView, CacheEntryView>,
    pub workspace: WorkspaceView,
    pub job: Option<JobView>,
}

/// What a step gives: the engine after it, and what the engine asks for next.
pub struct Step {
    pub engine: EngineView,
    pub action: ActionView,
}

impl EngineView {
    /// The key of the archive that job `j` is about.
    pub open spec fn key(self, j: JobView) -> ArtifactKeyView {
        ArtifactKeyView { kind: j.kind, tag: j.tag, platform: self.workspace.platform }
    }

    /// The store is well formed, and the operation under way fits what is held: its
    /// version can name a directory once it is resolved; an archive that is being
    /// verified or evicted is in the cache, one that is being downloaded is not; a
    /// downloaded archive on its way into the cache has the checksum that the
    /// catalog gives; only a build has sources; a version that is being activated or
    /// removed is installed, and versions are removed only once the pointer is gone.
    pub open spec fn wf(self) -> bool {
        &&& self.store.wf()
        &&& self.job matches Some(j) ==> {
            &&& j.stage != Stage::Catalog ==> is_safe_name(j.tag)
            &&& j.stage == Stage::Verify || j.stage == Stage::Evict ==> self.cache.contains_key(
                self.key(j),
            )
            &&& j.stage == Stage::Download ==> !self.cache.contains_key(self.key(j))
            &&& j.stage == Stage::Commit && !j.building ==> j.digest == j.checksum
            &&& j.stage == Stage::Probe || j.stage == Stage::Source || j.stage == Stage::Compile
                || j.stage == Stage::Package ==> j.building
            &&& j.stage == Stage::Activate || j.stage == Stage::Remove ==> self.store.has(
                j.kind,
                j.tag,
            )
            &&& j.stage == Stage::Remove ==> self.store.slot(j.kind).active is None
        }
    }

    /// This engine with no operation under way.
    pub open spec fn idle(self) -> EngineView {
        EngineView { job: None, ..self }
    }

    /// This engine with job `j` in `stage`.
    pub open spec fn at(self, j: JobView, stage: Stage) -> EngineView {
        EngineView { job: Some(JobView { stage, ..j }), ..self }
    }
}

/// A job that has just begun.
pub open spec fn new_job(
    kind: Kind,
    request: VersionSpecView,
    force: bool,
    building: bool,
    activate: bool,
    stage: Stage,
    tag: Seq<char>,
) -> JobView {
    JobView {
        kind,
        request,
        force,
        building,
        activate,
        batch: false,
        pending: Seq::empty(),
        stage,
        tag,
        url: Seq::empty(),
        checksum: Seq::empty(),
        digest: Seq::empty(),
    }
}

/// The install of the first of `plan`, with the rest of it still to come.
pub open spec fn batch_job(plan: Seq<Kind>, force: bool) -> JobView {
    JobView {
        kind: plan[0],
        request: VersionSpecView::Latest,
        force,
        building: false,
        activate: true,
        batch: true,
        pending: plan.remove(0),
        stage: Stage::Catalog,
        tag: Seq::empty(),
        url: Seq::empty(),
        checksum: Seq::empty(),
        digest: Seq::empty(),
    }
}

/// The catalog of `kind` is asked for.
pub open spec fn ask_catalog(e: EngineView, kind: Kind) -> ActionView {
    ActionView::FetchCatalog { kind, snapshot: e.workspace.snapshot(kind) }
}

/// The archive of job `j` is to leave the cache.
pub open spec fn ask_eviction(e: EngineView, j: JobView) -> ActionView {
    ActionView::Evict {
        path: e.cache[e.key(j)].local_path,
        record: e.workspace.record(e.key(j)),
    }
}

/// Why a reply that does not report success says the work failed.
pub open spec fn failure_text(ev: EventView) -> Seq<char> {
    match ev {
        EventView::Failed(why) => why,
        _ => "unexpected reply"@,
    }
}

/// The failure of job `j`.
pub open spec fn failure(j: JobView, class: ErrorClass, phase: Phase, detail: Seq<char>) -> ErrorView {
    ErrorView { class, phase, kind: Some(j.kind), version: Some(j.tag), detail }
}

/// The operation ends with a failure. Neither the store nor the cache changes.
pub open spec fn failed(
    e: EngineView,
    j: JobView,
    class: ErrorClass,
    phase: Phase,
    detail: Seq<char>,
) -> Step {
    Step { engine: e.idle(), action: ActionView::Done(Err(failure(j, class, phase, detail))) }
}

/// One install has gone well. Alone, it ends the operation with `outcome`. In an
/// update, the next kind follows; after the last, the update is done.
pub open spec fn completed(e: EngineView, j: JobView, outcome: OutcomeView) -> Step {
    if !j.batch {
        Step { engine: e.idle(), action: ActionView::Done(Ok(outcome)) }
    } else if j.pending.len() == 0 {
        Step { engine: e.idle(), action: ActionView::Done(Ok(OutcomeView::Updated)) }
    } else {
        Step {
            engine: EngineView { job: Some(batch_job(j.pending, j.force)), ..e },
            action: ask_catalog(e, j.pending[0]),
        }
    }
}

/// The fetcher sets out. An archive in the cache is verified before it is used, and
/// no download is made if it holds; with `force` it is evicted instead. Without one
/// the archive is downloaded.
pub open spec fn fetch(e: EngineView, j: JobView) -> Step {
    let key = e.key(j);
    if e.cache.contains_key(key) {
        if j.force {
            Step { engine: e.at(j, Stage::Evict), action: ask_eviction(e, j) }
        } else {
            Step {
                engine: e.at(j, Stage::Verify),
                action: ActionView::Hash { path: e.cache[key].local_path },
            }
        }
    } else {
        download(e, j)
    }
}

/// The download is asked for.
pub open spec fn download(e: EngineView, j: JobView) -> Step {
    Step {
        engine: e.at(j, Stage::Download),
        action: ActionView::Download { url: j.url, temp: e.workspace.download() },
    }
}

/// The sources of the build are asked for.
pub open spec fn fetch_source(e: EngineView, j: JobView) -> Step {
    Step {
        engine: e.at(j, Stage::Source),
        action: ActionView::FetchSource {
            kind: j.kind,
            revision: j.tag,
            dir: e.workspace.source(),
        },
    }
}

/// The archive in the cache is handed to the installer.
pub open spec fn extract(e: EngineView, j: JobView, archive: Seq<char>) -> Step {
    Step {
        engine: e.at(j, Stage::Extract),
        action: ActionView::Extract { archive, staging: e.workspace.staging() },
    }
}

/// The catalog has come, or has not. The version is resolved. One that is installed
/// is left alone, unless `force` is set. A release that needs a host which the
/// active toolchain is not is `Incompatible`. A build goes on to the sources, an
/// install to the fetcher; an install of a release without an archive for this
/// platform is `NotFound`.
pub open spec fn after_catalog(e: EngineView, j: JobView, ev: EventView) -> Step {
    let r = match ev {
        EventView::Catalog { fresh, kept } => resolution(
            j.kind,
            j.request,
            fresh,
            kept,
            e.workspace.platform,
        ),
        _ => resolution(j.kind, j.request, None, None, e.workspace.platform),
    };
    match r {
        Err(err) => Step { engine: e.idle(), action: ActionView::Done(Err(err)) },
        Ok(v) => {
            let j = JobView { tag: v.tag, ..j };
            if !j.force && e.store.has(j.kind, j.tag) {
                completed(e, j, OutcomeView::AlreadyInstalled(e.store.entry(j.kind, j.tag)))
            } else if v.host matches Some(host) && !e.store.satisfies(host) {
                failed(
                    e,
                    j,
                    ErrorClass::Incompatible,
                    Phase::Resolve,
                    "the active host toolchain is not one that this release is made for"@,
                )
            } else if j.building {
                fetch_source(e, j)
            } else {
                match v.artifact {
                    Some(a) => fetch(e, JobView { url: a.url, checksum: a.checksum, ..j }),
                    None => failed(
                        e,
                        j,
                        ErrorClass::NotFound,
                        Phase::Resolve,
                        "no archive is published for this platform"@,
                    ),
                }
            }
        },
    }
}

/// The source host has answered. A revision that it has is built; one that it lacks
/// is `NotFound`; no answer is `NetworkError`.
pub open spec fn after_probe(e: EngineView, j: JobView, ev: EventView) -> Step {
    match ev {
        EventView::Exists(true) => fetch_source(e, j),
        EventView::Exists(false) => failed(
            e,
            j,
            ErrorClass::NotFound,
            Phase::Resolve,
            "the source host has no such revision"@,
        ),
        _ => failed(e, j, ErrorClass::NetworkError, Phase::Resolve, failure_text(ev)),
    }
}

/// The archive in the cache has been read. If its checksum is still the one it was
/// stored with, it is used as it is. If not, or if it could not be read, it counts
/// as missing: it is evicted and fetched again.
pub open spec fn after_verify(e: EngineView, j: JobView, ev: EventView) -> Step {
    let entry = e.cache[e.key(j)];
    if ev == EventView::Digest(entry.checksum) {
        extract(e, j, entry.local_path)
    } else {
        Step { engine: e.at(j, Stage::Evict), action: ask_eviction(e, j) }
    }
}

/// The archive has left the cache, or has not: then that is `FilesystemError`.
pub open spec fn after_evict(e: EngineView, j: JobView, ev: EventView) -> Step {
    match ev {
        EventView::Completed => download(
            EngineView { cache: e.cache.remove(e.key(j)), ..e },
            j,
        ),
        _ => failed(e, j, ErrorClass::FilesystemError, Phase::Fetch, failure_text(ev)),
    }
}

/// The download has ended. What arrived enters the cache only if its checksum is
/// the one that the catalog gives: any other is `IntegrityError`, and a transfer
/// that failed is `NetworkError`.
pub open spec fn after_download(e: EngineView, j: JobView, ev: EventView) -> Step {
    match ev {
        EventView::Digest(d) => if d == j.checksum {
            Step {
                engine: e.at(JobView { digest: d, ..j }, Stage::Commit),
                action: ActionView::Commit {
                    temp: e.workspace.download(),
                    path: e.workspace.archive(e.key(j)),
                    record: e.workspace.record(e.key(j)),
                    checksum: d,
                },
            }
        } else {
            failed(e, j, ErrorClass::IntegrityError, Phase::Fetch, "checksum mismatch"@)
        },
        _ => failed(e, j, ErrorClass::NetworkError, Phase::Fetch, failure_text(ev)),
    }
}

/// The entry that job `j` files in the cache.
pub open spec fn filed(e: EngineView, j: JobView) -> CacheEntryView {
    CacheEntryView {
        key: e.key(j),
        local_path: e.workspace.archive(e.key(j)),
        checksum: j.digest,
    }
}

/// The archive is in the cache, under its key and with the checksum it was verified
/// with, and is handed to the installer. Or it is not: then that is
/// `FilesystemError`.
pub open spec fn after_commit(e: EngineView, j: JobView, ev: EventView) -> Step {
    match ev {
        EventView::Completed => extract(
            EngineView { cache: e.cache.insert(e.key(j), filed(e, j)), ..e },
            j,
            e.workspace.archive(e.key(j)),
        ),
        _ => failed(e, j, ErrorClass::FilesystemError, Phase::Fetch, failure_text(ev)),
    }
}

/// The sources are there, and the build is run. Sources that could not be had are
/// `BuildError`.
pub open spec fn after_source(e: EngineView, j: JobView, ev: EventView) -> Step {
    match ev {
        EventView::Completed => Step {
            engine: e.at(j, Stage::Compile),
            action: ActionView::Compile {
                kind: j.kind,
                source: e.workspace.source(),
                output: e.workspace.output(),
            },
        },
        _ => failed(e, j, ErrorClass::BuildError, Phase::Build, failure_text(ev)),
    }
}

/// The build has ended. With exit code 0 what it made is packed. Any other code
/// is `BuildError`, with what the build printed as its detail; so is a build that
/// could not be started.
pub open spec fn after_compile(e: EngineView, j: JobView, ev: EventView) -> Step {
    match ev {
        EventView::Exited { code, output } => if code == 0 {
            Step {
                engine: e.at(j, Stage::Package),
                action: ActionView::Package {
                    output: e.workspace.output(),
                    temp: e.workspace.package(),
                },
            }
        } else {
            failed(e, j, ErrorClass::BuildError, Phase::Build, output)
        },
        _ => failed(e, j, ErrorClass::BuildError, Phase::Build, failure_text(ev)),
    }
}

/// What the build made is packed, and enters the cache as a download would.
pub open spec fn after_package(e: EngineView, j: JobView, ev: EventView) -> Step {
    match ev {
        EventView::Digest(d) => Step {
            engine: e.at(JobView { digest: d, ..j }, Stage::Commit),
            action: ActionView::Commit {
                temp: e.workspace.package(),
                path: e.workspace.archive(e.key(j)),
                record: e.workspace.record(e.key(j)),
                checksum: d,
            },
        },
        _ => failed(e, j, ErrorClass::FilesystemError, Phase::Build, failure_text(ev)),
    }
}

/// The archive is unpacked. If its top level has the expected shape, the staging
/// directory is promoted, in place of the version's directory if there is one.
/// Any other shape, and an archive that could not be unpacked, is
/// `FilesystemError`.
pub open spec fn after_extract(e: EngineView, j: JobView, ev: EventView) -> Step {
    match ev {
        EventView::Listing(names) => if is_expected_layout(j.kind, names) {
            Step {
                engine: e.at(j, Stage::Promote),
                action: ActionView::Promote {
                    staging: e.workspace.staging(),
                    path: e.store.version_dir(j.kind, j.tag),
                    replace: e.store.has(j.kind, j.tag),
                },
            }
        } else {
            failed(
                e,
                j,
                ErrorClass::FilesystemError,
                Phase::Extract,
                "the archive lacks an expected entry"@,
            )
        },
        _ => failed(e, j, ErrorClass::FilesystemError, Phase::Extract, failure_text(ev)),
    }
}

/// The version's directory is in place. The link manager is asked to point at it
/// if the caller asked for that, or if it is the only version of its kind;
/// otherwise the install is done, and the pointer stays as it is. A promotion
/// that failed is `FilesystemError`, and nothing has changed.
pub open spec fn after_promote(e: EngineView, j: JobView, ev: EventView) -> Step {
    match ev {
        EventView::Completed => {
            let store = e.store.promoted(j.kind, j.tag);
            if j.activate || store.slot(j.kind).versions.len() == 1 {
                Step {
                    engine: EngineView { store, ..e }.at(j, Stage::Activate),
                    action: ActionView::Activate {
                        pointer: store.pointer(j.kind),
                        target: store.version_dir(j.kind, j.tag),
                    },
                }
            } else {
                completed(
                    EngineView { store, ..e },
                    j,
                    OutcomeView::Installed(store.entry(j.kind, j.tag)),
                )
            }
        },
        _ => failed(e, j, ErrorClass::FilesystemError, Phase::Extract, failure_text(ev)),
    }
}

/// The pointer refers to the version, and the install is done. A swap that failed
/// is `FilesystemError`: the version stays installed, and the pointer is as it was.
pub open spec fn after_activate(e: EngineView, j: JobView, ev: EventView) -> Step {
    match ev {
        EventView::Completed => {
            let store = e.store.activated(j.kind, j.tag);
            completed(
                EngineView { store, ..e },
                j,
                OutcomeView::Installed(store.entry(j.kind, j.tag)),
            )
        },
        _ => failed(e, j, ErrorClass::FilesystemError, Phase::Activate, failure_text(ev)),
    }
}

/// What an uninstall does next: it removes the pointer first, then the version
/// directories one by one, and is done when none is left.
pub open spec fn unwind(e: EngineView, j: JobView) -> Step {
    let slot = e.store.slot(j.kind);
    match slot.active {
        Some(a) => Step {
            engine: e.at(JobView { tag: a, ..j }, Stage::Deactivate),
            action: ActionView::Deactivate { pointer: e.store.pointer(j.kind) },
        },
        None => if slot.versions.len() > 0 {
            Step {
                engine: e.at(JobView { tag: slot.versions[0], ..j }, Stage::Remove),
                action: ActionView::Remove { path: e.store.version_dir(j.kind, slot.versions[0]) },
            }
        } else {
            Step { engine: e.idle(), action: ActionView::Done(Ok(OutcomeView::Uninstalled)) }
        },
    }
}

/// The pointer is gone. One that could not be removed is `FilesystemError`.
pub open spec fn after_deactivate(e: EngineView, j: JobView, ev: EventView) -> Step {
    match ev {
        EventView::Completed => unwind(
            EngineView { store: e.store.deactivated(j.kind), ..e },
            j,
        ),
        _ => failed(e, j, ErrorClass::FilesystemError, Phase::Activate, failure_text(ev)),
    }
}

/// A version directory is gone. One that could not be removed is `FilesystemError`.
pub open spec fn after_remove(e: EngineView, j: JobView, ev: EventView) -> Step {
    match ev {
        EventView::Completed => unwind(
            EngineView { store: e.store.removed(j.kind, j.tag), ..e },
            j,
        ),
        _ => failed(e, j, ErrorClass::FilesystemError, Phase::Extract, failure_text(ev)),
    }
}

/// What reply `ev` makes of an engine whose operation is `j`.
pub open spec fn step(e: EngineView, j: JobView, ev: EventView) -> Step {
    match j.stage {
        Stage::Catalog => after_catalog(e, j, ev),
        Stage::Probe => after_probe(e, j, ev),
        Stage::Verify => after_verify(e, j, ev),
        Stage::Evict => after_evict(e, j, ev),
        Stage::Download => after_download(e, j, ev),
        Stage::Commit => after_commit(e, j, ev),
        Stage::Source => after_source(e, j, ev),
        Stage::Compile => after_compile(e, j, ev),
        Stage::Package => after_package(e, j, ev),
        Stage::Extract => after_extract(e, j, ev),
        Stage::Promote => after_promote(e, j, ev),
        Stage::Activate => after_activate(e, j, ev),
        Stage::Deactivate => after_deactivate(e, j, ev),
        Stage::Remove => after_remove(e, j, ev),
    }
}

/// An install begins. A tag that is installed is left alone without any outside
/// work, unless `force` is set. A revision is no published release: `NotFound`.
/// Anything else starts with the catalog.
pub open spec fn begin_install(
    e: EngineView,
    kind: Kind,
    request: VersionSpecView,
    force: bool,
    activate: bool,
) -> Step {
    match request {
        VersionSpecView::Revision(r) => Step {
            engine: e,
            action: ActionView::Done(Err(no_such_version(kind, Some(r)))),
        },
        VersionSpecView::Tag(t) => if !force && e.store.has(kind, t) {
            Step {
                engine: e,
                action: ActionView::Done(Ok(OutcomeView::AlreadyInstalled(e.store.entry(kind, t)))),
            }
        } else {
            Step {
                engine: e.at(new_job(kind, request, force, false, activate, Stage::Catalog, Seq::empty()), Stage::Catalog),
                action: ask_catalog(e, kind),
            }
        },
        VersionSpecView::Latest => Step {
            engine: e.at(new_job(kind, request, force, false, activate, Stage::Catalog, Seq::empty()), Stage::Catalog),
            action: ask_catalog(e, kind),
        },
    }
}

/// A build begins. A revision bypasses the catalog: one that cannot name a
/// directory is `NotFound`, one that is installed is left alone, any other is
/// looked for on the source host. A tag that is installed is left alone. Anything
/// else starts with the catalog.
pub open spec fn begin_build(e: EngineView, kind: Kind, request: VersionSpecView) -> Step {
    match request {
        VersionSpecView::Revision(r) => if !is_safe_name(r) {
            Step { engine: e, action: ActionView::Done(Err(no_such_version(kind, Some(r)))) }
        } else if e.store.has(kind, r) {
            Step {
                engine: e,
                action: ActionView::Done(Ok(OutcomeView::AlreadyInstalled(e.store.entry(kind, r)))),
            }
        } else {
            Step {
                engine: e.at(new_job(kind, request, false, true, true, Stage::Probe, r), Stage::Probe),
                action: ActionView::Probe { kind, revision: r },
            }
        },
        VersionSpecView::Tag(t) => if e.store.has(kind, t) {
            Step {
                engine: e,
                action: ActionView::Done(Ok(OutcomeView::AlreadyInstalled(e.store.entry(kind, t)))),
            }
        } else {
            Step {
                engine: e.at(new_job(kind, request, false, true, true, Stage::Catalog, Seq::empty()), Stage::Catalog),
                action: ask_catalog(e, kind),
            }
        },
        VersionSpecView::Latest => Step {
            engine: e.at(new_job(kind, request, false, true, true, Stage::Catalog, Seq::empty()), Stage::Catalog),
            action: ask_catalog(e, kind),
        },
    }
}

/// An uninstall begins.
pub open spec fn begin_uninstall(e: EngineView, kind: Kind) -> Step {
    unwind(
        e,
        new_job(kind, VersionSpecView::Latest, false, false, false, Stage::Remove, Seq::empty()),
    )
}

/// An update begins: the latest release of each kind of `plan` is installed, one
/// kind after the other, until one fails.
pub open spec fn begin_update(e: EngineView, plan: Seq<Kind>, force: bool) -> Step {
    if plan.len() == 0 {
        Step { engine: e, action: ActionView::Done(Ok(OutcomeView::Updated)) }
    } else {
        Step {
            engine: EngineView { job: Some(batch_job(plan, force)), ..e },
            action: ask_catalog(e, plan[0]),
        }
    }
}

/// The engine after the replies `evs`, taken in turn for as long as an operation is
/// under way.
pub open spec fn run(e: EngineView, evs: Seq<EventView>) -> EngineView
    decreases evs.len(),
{
    if evs.len() == 0 {
        e
    } else {
        match e.job {
            Some(j) => run(step(e, j, evs[0]).engine, evs.drop_first()),
            None => e,
        }
    }
}

/// Whether the operation is an install or a build that has not promoted anything
/// yet.
pub open spec fn before_promotion(j: JobView) -> bool {
    j.stage != Stage::Activate && j.stage != Stage::Deactivate && j.stage != Stage::Remove
}

/// How many replies an operation in `stage` takes at most until its install is
/// over.
pub open spec fn stage_rank(stage: Stage) -> nat {
    match stage {
        Stage::Catalog => 10,
        Stage::Probe => 10,
        Stage::Source => 9,
        Stage::Compile => 8,
        Stage::Package => 7,
        Stage::Verify => 7,
        Stage::Evict => 6,
        Stage::Download => 5,
        Stage::Commit => 4,
        Stage::Extract => 3,
        Stage::Promote => 2,
        Stage::Activate => 1,
        Stage::Deactivate => 0,
        Stage::Remove => 0,
    }
}

/// How many replies the operation under way takes at most until it is over; 0
/// where none is under way.
pub open spec fn replies_left(e: EngineView) -> nat {
    match e.job {
        None => 0,
        Some(j) => match j.stage {
            Stage::Deactivate => e.store.slot(j.kind).versions.len() + 1,
            Stage::Remove => e.store.slot(j.kind).versions.len(),
            _ => 10 * j.pending.len() + stage_rank(j.stage),
        },
    }
}

/// What the user asks of the engine.
pub enum OperationView {
    ListToolchains,
    Install { kind: Kind, request: VersionSpecView, force: bool },
    Uninstall { kind: Kind },
    Build { kind: Kind, request: VersionSpecView },
    Update { plan: Seq<Kind>, force: bool },
}

/// An operation begins. A listing is over at once and changes nothing.
pub open spec fn begin(e: EngineView, op: OperationView) -> Step {
    match op {
        OperationView::ListToolchains => Step {
            engine: e,
            action: ActionView::Done(Ok(OutcomeView::Listed(e.store.toolchains()))),
        },
        OperationView::Install { kind, request, force } => begin_install(
            e,
            kind,
            request,
            force,
            true,
        ),
        OperationView::Uninstall { kind } => begin_uninstall(e, kind),
        OperationView::Build { kind, request } => begin_build(e, kind, request),
        OperationView::Update { plan, force } => begin_update(e, plan, force),
    }
}

} // verus!
