//! The lifecycle engine: installs, builds, updates and uninstalls, one reply at a
//! time.
//!
//! The engine does no outside work itself. An operation begins with a call such as
//! `install`, which gives the first `Action`. Whoever drives the engine carries the
//! action out and hands the `Event` that came of it to `advance`, which gives the next
//! action, until `Action::Done` ends the operation.

use crate::cache::{ArtifactKey, Cache, CacheEntry};
use crate::catalog::{
    lemma_resolved_is_safe, opt_catalog, resolve, Catalog, ResolvedVersion, VersionSpec,
};
use crate::error::{Error, ErrorClass, Phase};
use crate::kind::Kind;
use crate::layout::{expected_layout, Workspace};
use crate::model::{
    after_activate, after_catalog, after_commit, after_compile, after_deactivate,
    after_download, after_evict, after_extract, after_package, after_probe, after_promote,
    after_remove, after_source, after_verify, ask_catalog, batch_job, begin_build, begin_install,
    begin, begin_uninstall, begin_update, completed, download, extract, failed, failure_text, fetch,
    fetch_source, filed, new_job, step, unwind, EngineView, JobView, OperationView, Stage, Step,
};
use crate::protocol::{Action, Event, Outcome};
use crate::store::{lemma_promoted_wf, InstalledEntry, Store};
use crate::text::{safe_name, same_bytes};
use vstd::prelude::*;
use vstd::string::*;

verus! {

struct Job {
    kind: Kind,
    request: VersionSpec,
    force: bool,
    building: bool,
    activate: bool,
    batch: bool,
    pending: Vec<Kind>,
    stage: Stage,
    tag: String,
    url: String,
    checksum: Vec<u8>,
    digest: Vec<u8>,
}

impl View for Job {
    type V = JobView;

    closed spec fn view(&self) -> JobView {
        JobView {
            kind: self.kind,
            request: self.request@,
            force: self.force,
            building: self.building,
            activate: self.activate,
            batch: self.batch,
            pending: self.pending@,
            stage: self.stage,
            tag: self.tag@,
            url: self.url@,
            checksum: self.checksum@,
            digest: self.digest@,
        }
    }
}

impl Job {
    fn new(
        kind: Kind,
        request: VersionSpec,
        force: bool,
        building: bool,
        activate: bool,
        stage: Stage,
        tag: String,
    ) -> (job: Job)
        ensures
            job@ == new_job(kind, request@, force, building, activate, stage, tag@),
    {
        Job {
            kind,
            request,
            force,
            building,
            activate,
            batch: false,
            pending: Vec::new(),
            stage,
            tag,
            url: String::new(),
            checksum: Vec::new(),
            digest: Vec::new(),
        }
    }

    fn batch(plan: Vec<Kind>, force: bool) -> (r: (Job, Kind))
        requires
            plan.len() > 0,
        ensures
            r.0@ == batch_job(plan@, force),
            r.1 == plan[0],
    {
        let mut pending = plan;
        let kind = pending.remove(0);
        (
            Job {
                kind,
                request: VersionSpec::Latest,
                force,
                building: false,
                activate: true,
                batch: true,
                pending,
                stage: Stage::Catalog,
                tag: String::new(),
                url: String::new(),
                checksum: Vec::new(),
                digest: Vec::new(),
            },
            kind,
        )
    }
}

/// The engine: the installed versions, the cache, and the operation under way.
pub struct Engine {
    store: Store,
    cache: Cache,
    workspace: Workspace,
    job: Option<Job>,
}

impl View for Engine {
    type V = EngineView;

    closed spec fn view(&self) -> EngineView {
        EngineView {
            store: self.store@,
            cache: self.cache@,
            workspace: self.workspace@,
            job: match self.job {
                Some(j) => Some(j@),
                None => None,
            },
        }
    }
}

fn reason(event: Event) -> (why: String)
    ensures
        why@ == failure_text(event@),
{
    match event {
        Event::Failed(why) => why,
        _ => String::from_str("unexpected reply"),
    }
}

impl Engine {
    /// What the engine holds fits together: see `EngineView::wf`.
    pub closed spec fn wf(&self) -> bool {
        self@.wf() && self.cache.wf()
    }

    /// A well-formed engine has a well-formed view.
    pub proof fn lemma_wf(&self)
        requires
            self.wf(),
        ensures
            self@.wf(),
    {
    }

    /// An engine over what was found on the disk, with no operation under way.
    pub fn new(store: Store, cache: Cache, workspace: Workspace) -> (engine: Engine)
        requires
            store@.wf(),
            cache.wf(),
        ensures
            engine.wf(),
            engine@ == (EngineView {
                store: store@,
                cache: cache@,
                workspace: workspace@,
                job: None,
            }),
    {
        Engine { store, cache, workspace, job: None }
    }

    /// Takes what a new scan of the disk found in place of what the engine holds, and
    /// says whether it did: while an operation is under way it does not, and
    /// nothing changes.
    pub fn refresh(&mut self, store: Store, cache: Cache) -> (taken: bool)
        requires
            old(self).wf(),
            store@.wf(),
            cache.wf(),
        ensures
            final(self).wf(),
            taken == (old(self)@.job is None),
            final(self)@ == if taken {
                EngineView { store: store@, cache: cache@, ..old(self)@ }
            } else {
                old(self)@
            },
    {
        if self.job.is_some() {
            false
        } else {
            self.store = store;
            self.cache = cache;
            true
        }
    }

    /// The installed versions and active pointers.
    pub fn store(&self) -> (store: &Store)
        ensures
            store@ == self@.store,
    {
        &self.store
    }

    /// The artifact cache.
    pub fn cache(&self) -> (cache: &Cache)
        requires
            self.wf(),
        ensures
            cache@ == self@.cache,
            cache.wf(),
    {
        &self.cache
    }

    /// Whether no operation is under way.
    pub fn is_idle(&self) -> (r: bool)
        ensures
            r == (self@.job is None),
    {
        self.job.is_none()
    }

    /// The inventory: the installed versions of one kind, or of all kinds, each with
    /// whether it is the active one.
    pub fn list_installed(&self, kind: Option<Kind>) -> (entries: Vec<InstalledEntry>)
        ensures
            crate::store::installed_views(entries@) == self@.store.listing(kind),
    {
        self.store.list(kind)
    }

    fn ask_catalog(&self, kind: Kind) -> (a: Action)
        ensures
            a@ == ask_catalog(self@, kind),
    {
        Action::FetchCatalog { kind, snapshot: self.workspace.snapshot(kind) }
    }

    fn key(&self, job: &Job) -> (key: ArtifactKey)
        ensures
            key@ == self@.key(job@),
    {
        ArtifactKey { kind: job.kind, tag: job.tag.clone(), platform: self.workspace.platform.clone() }
    }

    fn fail(&mut self, job: &Job, class: ErrorClass, phase: Phase, detail: String) -> (a: Action)
        requires
            old(self).job is None,
            old(self).wf(),
        ensures
            final(self).wf(),
            (Step { engine: final(self)@, action: a@ }) == failed(
                old(self)@,
                job@,
                class,
                phase,
                detail@,
            ),
    {
        Action::Done(
            Err(
                Error {
                    class,
                    phase,
                    kind: Some(job.kind),
                    version: Some(job.tag.clone()),
                    detail,
                },
            ),
        )
    }

    fn complete(&mut self, job: Job, outcome: Outcome) -> (a: Action)
        requires
            old(self).job is None,
            old(self).wf(),
        ensures
            final(self).wf(),
            (Step { engine: final(self)@, action: a@ }) == completed(old(self)@, job@, outcome@),
    {
        if !job.batch {
            Action::Done(Ok(outcome))
        } else if job.pending.len() == 0 {
            Action::Done(Ok(Outcome::Updated))
        } else {
            let (next, kind) = Job::batch(job.pending, job.force);
            self.job = Some(next);
            self.ask_catalog(kind)
        }
    }

    fn download(&mut self, job: Job) -> (a: Action)
        requires
            old(self).job is None,
            old(self).wf(),
            is_safe(job@),
            !old(self)@.cache.contains_key(old(self)@.key(job@)),
        ensures
            final(self).wf(),
            (Step { engine: final(self)@, action: a@ }) == download(old(self)@, job@),
    {
        let a = Action::Download { url: job.url.clone(), temp: self.workspace.download() };
        self.job = Some(Job { stage: Stage::Download, ..job });
        a
    }

    fn fetch(&mut self, job: Job) -> (a: Action)
        requires
            old(self).job is None,
            old(self).wf(),
            is_safe(job@),
        ensures
            final(self).wf(),
            (Step { engine: final(self)@, action: a@ }) == fetch(old(self)@, job@),
    {
        let key = self.key(&job);
        match self.cache.get(&key) {
            Some(entry) => {
                let path = entry.local_path.clone();
                if job.force {
                    let record = self.workspace.record(&key);
                    self.job = Some(Job { stage: Stage::Evict, ..job });
                    Action::Evict { path, record }
                } else {
                    self.job = Some(Job { stage: Stage::Verify, ..job });
                    Action::Hash { path }
                }
            },
            None => self.download(job),
        }
    }

    fn fetch_source(&mut self, job: Job) -> (a: Action)
        requires
            old(self).job is None,
            old(self).wf(),
            is_safe(job@),
            job@.building,
        ensures
            final(self).wf(),
            (Step { engine: final(self)@, action: a@ }) == fetch_source(old(self)@, job@),
    {
        let a = Action::FetchSource {
            kind: job.kind,
            revision: job.tag.clone(),
            dir: self.workspace.source(),
        };
        self.job = Some(Job { stage: Stage::Source, ..job });
        a
    }

    fn extract(&mut self, job: Job, archive: String) -> (a: Action)
        requires
            old(self).job is None,
            old(self).wf(),
            is_safe(job@),
        ensures
            final(self).wf(),
            (Step { engine: final(self)@, action: a@ }) == extract(old(self)@, job@, archive@),
    {
        let a = Action::Extract { archive, staging: self.workspace.staging() };
        self.job = Some(Job { stage: Stage::Extract, ..job });
        a
    }

    fn after_catalog(&mut self, job: Job, event: Event) -> (a: Action)
        requires
            old(self).job is None,
            old(self).wf(),
        ensures
            final(self).wf(),
            (Step { engine: final(self)@, action: a@ }) == after_catalog(
                old(self)@,
                job@,
                event@,
            ),
    {
        let r = match &event {
            Event::Catalog { fresh, kept } => {
                let fresh: Option<&Catalog> = match fresh {
                    Some(c) => Some(c),
                    None => None,
                };
                let kept: Option<&Catalog> = match kept {
                    Some(c) => Some(c),
                    None => None,
                };
                proof {
                    lemma_resolved_is_safe(
                        job.kind,
                        job.request@,
                        opt_catalog(event->fresh),
                        opt_catalog(event->kept),
                        self.workspace.platform@,
                    );
                }
                resolve(job.kind, &job.request, fresh, kept, self.workspace.platform.as_str())
            },
            _ => {
                proof {
                    lemma_resolved_is_safe(
                        job.kind,
                        job.request@,
                        None,
                        None,
                        self.workspace.platform@,
                    );
                }
                resolve(job.kind, &job.request, None, None, self.workspace.platform.as_str())
            },
        };
        match r {
            Err(err) => Action::Done(Err(err)),
            Ok(v) => {
                let ResolvedVersion { kind: _, tag, host, artifact } = v;
                let job = Job { tag, ..job };
                let hosted = match host {
                    Some(h) => self.store.satisfies(&h),
                    None => true,
                };
                if !job.force && self.store.contains(job.kind, job.tag.as_str()) {
                    let entry = self.store.describe(job.kind, job.tag.as_str());
                    self.complete(job, Outcome::AlreadyInstalled(entry))
                } else if !hosted {
                    self.fail(
                        &job,
                        ErrorClass::Incompatible,
                        Phase::Resolve,
                        String::from_str(
                            "the active host toolchain is not one that this release is made for",
                        ),
                    )
                } else if job.building {
                    self.fetch_source(job)
                } else {
                    match artifact {
                        Some(found) => {
                            let job = Job { url: found.url, checksum: found.checksum, ..job };
                            self.fetch(job)
                        },
                        None => self.fail(
                            &job,
                            ErrorClass::NotFound,
                            Phase::Resolve,
                            String::from_str("no archive is published for this platform"),
                        ),
                    }
                }
            },
        }
    }

    fn after_probe(&mut self, job: Job, event: Event) -> (a: Action)
        requires
            old(self).job is None,
            old(self).wf(),
            is_safe(job@),
            job@.building,
        ensures
            final(self).wf(),
            (Step { engine: final(self)@, action: a@ }) == after_probe(old(self)@, job@, event@),
    {
        match event {
            Event::Exists(true) => self.fetch_source(job),
            Event::Exists(false) => self.fail(
                &job,
                ErrorClass::NotFound,
                Phase::Resolve,
                String::from_str("the source host has no such revision"),
            ),
            other => {
                let why = reason(other);
                self.fail(&job, ErrorClass::NetworkError, Phase::Resolve, why)
            },
        }
    }

    fn after_verify(&mut self, job: Job, event: Event) -> (a: Action)
        requires
            old(self).job is None,
            old(self).wf(),
            is_safe(job@),
            old(self)@.cache.contains_key(old(self)@.key(job@)),
        ensures
            final(self).wf(),
            (Step { engine: final(self)@, action: a@ }) == after_verify(old(self)@, job@, event@),
    {
        let key = self.key(&job);
        let (path, holds) = match self.cache.get(&key) {
            Some(entry) => (
                entry.local_path.clone(),
                match &event {
                    Event::Digest(d) => same_bytes(d.as_slice(), entry.checksum.as_slice()),
                    _ => false,
                },
            ),
            None => (String::new(), false),
        };
        if holds {
            self.extract(job, path)
        } else {
            let record = self.workspace.record(&key);
            self.job = Some(Job { stage: Stage::Evict, ..job });
            Action::Evict { path, record }
        }
    }

    fn after_evict(&mut self, job: Job, event: Event) -> (a: Action)
        requires
            old(self).job is None,
            old(self).wf(),
            is_safe(job@),
        ensures
            final(self).wf(),
            (Step { engine: final(self)@, action: a@ }) == after_evict(old(self)@, job@, event@),
    {
        match event {
            Event::Completed => {
                let key = self.key(&job);
                self.cache.evict(&key);
                self.download(job)
            },
            other => {
                let why = reason(other);
                self.fail(&job, ErrorClass::FilesystemError, Phase::Fetch, why)
            },
        }
    }

    fn after_download(&mut self, job: Job, event: Event) -> (a: Action)
        requires
            old(self).job is None,
            old(self).wf(),
            is_safe(job@),
        ensures
            final(self).wf(),
            (Step { engine: final(self)@, action: a@ }) == after_download(
                old(self)@,
                job@,
                event@,
            ),
    {
        match event {
            Event::Digest(d) => {
                if same_bytes(d.as_slice(), job.checksum.as_slice()) {
                    let key = self.key(&job);
                    let a = Action::Commit {
                        temp: self.workspace.download(),
                        path: self.workspace.archive(&key),
                        record: self.workspace.record(&key),
                        checksum: d.clone(),
                    };
                    self.job = Some(Job { digest: d, stage: Stage::Commit, ..job });
                    a
                } else {
                    self.fail(
                        &job,
                        ErrorClass::IntegrityError,
                        Phase::Fetch,
                        String::from_str("checksum mismatch"),
                    )
                }
            },
            other => {
                let why = reason(other);
                self.fail(&job, ErrorClass::NetworkError, Phase::Fetch, why)
            },
        }
    }

    fn after_commit(&mut self, job: Job, event: Event) -> (a: Action)
        requires
            old(self).job is None,
            old(self).wf(),
            is_safe(job@),
        ensures
            final(self).wf(),
            (Step { engine: final(self)@, action: a@ }) == after_commit(old(self)@, job@, event@),
    {
        match event {
            Event::Completed => {
                let key = self.key(&job);
                let path = self.workspace.archive(&key);
                let entry = CacheEntry {
                    key,
                    local_path: path.clone(),
                    checksum: job.digest.clone(),
                };
                assert(entry@ == filed(self@, job@));
                self.cache.put(entry);
                self.extract(job, path)
            },
            other => {
                let why = reason(other);
                self.fail(&job, ErrorClass::FilesystemError, Phase::Fetch, why)
            },
        }
    }

    fn after_source(&mut self, job: Job, event: Event) -> (a: Action)
        requires
            old(self).job is None,
            old(self).wf(),
            is_safe(job@),
            job@.building,
        ensures
            final(self).wf(),
            (Step { engine: final(self)@, action: a@ }) == after_source(old(self)@, job@, event@),
    {
        match event {
            Event::Completed => {
                let a = Action::Compile {
                    kind: job.kind,
                    source: self.workspace.source(),
                    output: self.workspace.output(),
                };
                self.job = Some(Job { stage: Stage::Compile, ..job });
                a
            },
            other => {
                let why = reason(other);
                self.fail(&job, ErrorClass::BuildError, Phase::Build, why)
            },
        }
    }

    fn after_compile(&mut self, job: Job, event: Event) -> (a: Action)
        requires
            old(self).job is None,
            old(self).wf(),
            is_safe(job@),
            job@.building,
        ensures
            final(self).wf(),
            (Step { engine: final(self)@, action: a@ }) == after_compile(
                old(self)@,
                job@,
                event@,
            ),
    {
        match event {
            Event::Exited { code, output } => {
                if code == 0 {
                    let a = Action::Package {
                        output: self.workspace.output(),
                        temp: self.workspace.package(),
                    };
                    self.job = Some(Job { stage: Stage::Package, ..job });
                    a
                } else {
                    self.fail(&job, ErrorClass::BuildError, Phase::Build, output)
                }
            },
            other => {
                let why = reason(other);
                self.fail(&job, ErrorClass::BuildError, Phase::Build, why)
            },
        }
    }

    fn after_package(&mut self, job: Job, event: Event) -> (a: Action)
        requires
            old(self).job is None,
            old(self).wf(),
            is_safe(job@),
            job@.building,
        ensures
            final(self).wf(),
            (Step { engine: final(self)@, action: a@ }) == after_package(
                old(self)@,
                job@,
                event@,
            ),
    {
        match event {
            Event::Digest(d) => {
                let key = self.key(&job);
                let a = Action::Commit {
                    temp: self.workspace.package(),
                    path: self.workspace.archive(&key),
                    record: self.workspace.record(&key),
                    checksum: d.clone(),
                };
                self.job = Some(Job { digest: d, stage: Stage::Commit, ..job });
                a
            },
            other => {
                let why = reason(other);
                self.fail(&job, ErrorClass::FilesystemError, Phase::Build, why)
            },
        }
    }

    fn after_extract(&mut self, job: Job, event: Event) -> (a: Action)
        requires
            old(self).job is None,
            old(self).wf(),
            is_safe(job@),
        ensures
            final(self).wf(),
            (Step { engine: final(self)@, action: a@ }) == after_extract(
                old(self)@,
                job@,
                event@,
            ),
    {
        match event {
            Event::Listing(names) => {
                if expected_layout(job.kind, &names) {
                    let a = Action::Promote {
                        staging: self.workspace.staging(),
                        path: self.store.version_dir(job.kind, job.tag.as_str()),
                        replace: self.store.contains(job.kind, job.tag.as_str()),
                    };
                    self.job = Some(Job { stage: Stage::Promote, ..job });
                    a
                } else {
                    self.fail(
                        &job,
                        ErrorClass::FilesystemError,
                        Phase::Extract,
                        String::from_str("the archive lacks an expected entry"),
                    )
                }
            },
            other => {
                let why = reason(other);
                self.fail(&job, ErrorClass::FilesystemError, Phase::Extract, why)
            },
        }
    }

    fn after_promote(&mut self, job: Job, event: Event) -> (a: Action)
        requires
            old(self).job is None,
            old(self).wf(),
            is_safe(job@),
        ensures
            final(self).wf(),
            (Step { engine: final(self)@, action: a@ }) == after_promote(
                old(self)@,
                job@,
                event@,
            ),
    {
        match event {
            Event::Completed => {
                proof {
                    lemma_promoted_wf(self@.store.slot(job.kind), job.tag@);
                }
                self.store.promote(job.kind, job.tag.as_str());
                if job.activate || self.store.count(job.kind) == 1 {
                    let a = Action::Activate {
                        pointer: self.store.pointer(job.kind),
                        target: self.store.version_dir(job.kind, job.tag.as_str()),
                    };
                    self.job = Some(Job { stage: Stage::Activate, ..job });
                    a
                } else {
                    let entry = self.store.describe(job.kind, job.tag.as_str());
                    self.complete(job, Outcome::Installed(entry))
                }
            },
            other => {
                let why = reason(other);
                self.fail(&job, ErrorClass::FilesystemError, Phase::Extract, why)
            },
        }
    }

    fn after_activate(&mut self, job: Job, event: Event) -> (a: Action)
        requires
            old(self).job is None,
            old(self).wf(),
            is_safe(job@),
        ensures
            final(self).wf(),
            (Step { engine: final(self)@, action: a@ }) == after_activate(
                old(self)@,
                job@,
                event@,
            ),
    {
        match event {
            Event::Completed => {
                let _ = self.store.activate(job.kind, job.tag.as_str());
                let entry = self.store.describe(job.kind, job.tag.as_str());
                self.complete(job, Outcome::Installed(entry))
            },
            other => {
                let why = reason(other);
                self.fail(&job, ErrorClass::FilesystemError, Phase::Activate, why)
            },
        }
    }

    fn unwind(&mut self, job: Job) -> (a: Action)
        requires
            old(self).job is None,
            old(self).wf(),
        ensures
            final(self).wf(),
            (Step { engine: final(self)@, action: a@ }) == unwind(old(self)@, job@),
    {
        proof {
            assert(self@.store.slot(job.kind).wf());
        }
        match self.store.active(job.kind) {
            Some(tag) => {
                let a = Action::Deactivate { pointer: self.store.pointer(job.kind) };
                proof {
                    let slot = self@.store.slot(job.kind);
                    let i = choose|i: int| 0 <= i < slot.versions.len() && slot.versions[i] == tag@;
                    assert(crate::text::is_safe_name(slot.versions[i]));
                }
                self.job = Some(Job { tag, stage: Stage::Deactivate, ..job });
                a
            },
            None => {
                if self.store.count(job.kind) > 0 {
                    let tag = self.store.version_at(job.kind, 0);
                    let a = Action::Remove {
                        path: self.store.version_dir(job.kind, tag.as_str()),
                    };
                    proof {
                        let slot = self@.store.slot(job.kind);
                        assert(crate::text::is_safe_name(slot.versions[0]));
                    }
                    self.job = Some(Job { tag, stage: Stage::Remove, ..job });
                    a
                } else {
                    Action::Done(Ok(Outcome::Uninstalled))
                }
            },
        }
    }

    fn after_deactivate(&mut self, job: Job, event: Event) -> (a: Action)
        requires
            old(self).job is None,
            old(self).wf(),
        ensures
            final(self).wf(),
            (Step { engine: final(self)@, action: a@ }) == after_deactivate(
                old(self)@,
                job@,
                event@,
            ),
    {
        match event {
            Event::Completed => {
                self.store.deactivate(job.kind);
                self.unwind(job)
            },
            other => {
                let why = reason(other);
                self.fail(&job, ErrorClass::FilesystemError, Phase::Activate, why)
            },
        }
    }

    fn after_remove(&mut self, job: Job, event: Event) -> (a: Action)
        requires
            old(self).job is None,
            old(self).wf(),
        ensures
            final(self).wf(),
            (Step { engine: final(self)@, action: a@ }) == after_remove(old(self)@, job@, event@),
    {
        match event {
            Event::Completed => {
                self.store.remove(job.kind, job.tag.as_str());
                self.unwind(job)
            },
            other => {
                let why = reason(other);
                self.fail(&job, ErrorClass::FilesystemError, Phase::Extract, why)
            },
        }
    }

    /// Takes the reply to the action that the engine asked for last, and gives the
    /// next action. `None` where no operation is under way: then nothing changes.
    pub fn advance(&mut self, event: Event) -> (next: Option<Action>)
        requires
            old(self).wf(),
        ensures
            final(self).wf(),
            match next {
                Some(a) => old(self)@.job is Some && (Step { engine: final(self)@, action: a@ })
                    == step(old(self)@, old(self)@.job.unwrap(), event@),
                None => old(self)@.job is None && final(self)@ == old(self)@,
            },
    {
        let job = match self.job.take() {
            Some(job) => job,
            None => {
                return None;
            },
        };
        proof {
            lemma_step_ignores_job(old(self)@, job@, event@);
        }
        let a = match job.stage {
            Stage::Catalog => self.after_catalog(job, event),
            Stage::Probe => self.after_probe(job, event),
            Stage::Verify => self.after_verify(job, event),
            Stage::Evict => self.after_evict(job, event),
            Stage::Download => self.after_download(job, event),
            Stage::Commit => self.after_commit(job, event),
            Stage::Source => self.after_source(job, event),
            Stage::Compile => self.after_compile(job, event),
            Stage::Package => self.after_package(job, event),
            Stage::Extract => self.after_extract(job, event),
            Stage::Promote => self.after_promote(job, event),
            Stage::Activate => self.after_activate(job, event),
            Stage::Deactivate => self.after_deactivate(job, event),
            Stage::Remove => self.after_remove(job, event),
        };
        Some(a)
    }

    /// Begins the operation that the user asks for. `None` where an operation is
    /// under way already: then nothing changes.
    pub fn begin(&mut self, op: Operation) -> (first: Option<Action>)
        requires
            old(self).wf(),
        ensures
            final(self).wf(),
            match first {
                Some(a) => old(self)@.job is None && (Step { engine: final(self)@, action: a@ })
                    == begin(old(self)@, op@),
                None => old(self)@.job is Some && final(self)@ == old(self)@,
            },
    {
        match op {
            Operation::ListToolchains => {
                if self.job.is_some() {
                    None
                } else {
                    Some(Action::Done(Ok(Outcome::Listed(self.store.toolchains()))))
                }
            },
            Operation::Install { kind, request, force } => self.install(kind, request, force),
            Operation::Uninstall { kind } => self.uninstall(kind),
            Operation::Build { kind, request } => self.build(kind, request),
            Operation::Update { plan, force } => self.update(plan, force),
        }
    }

    /// Begins the install of a version of `kind`, which makes it the active one.
    /// `None` where an operation is under way already: then nothing changes.
    pub fn install(&mut self, kind: Kind, request: VersionSpec, force: bool) -> (first: Option<Action>)
        requires
            old(self).wf(),
        ensures
            final(self).wf(),
            match first {
                Some(a) => old(self)@.job is None && (Step { engine: final(self)@, action: a@ })
                    == begin_install(old(self)@, kind, request@, force, true),
                None => old(self)@.job is Some && final(self)@ == old(self)@,
            },
    {
        self.install_as(kind, request, force, true)
    }

    /// Begins the install of a version of `kind` beside the active one: the pointer
    /// is left as it is, unless the version is the only one of its kind. `None` where
    /// an operation is under way already: then nothing changes.
    pub fn install_beside(&mut self, kind: Kind, request: VersionSpec, force: bool) -> (first: Option<
        Action,
    >)
        requires
            old(self).wf(),
        ensures
            final(self).wf(),
            match first {
                Some(a) => old(self)@.job is None && (Step { engine: final(self)@, action: a@ })
                    == begin_install(old(self)@, kind, request@, force, false),
                None => old(self)@.job is Some && final(self)@ == old(self)@,
            },
    {
        self.install_as(kind, request, force, false)
    }

    fn install_as(&mut self, kind: Kind, request: VersionSpec, force: bool, activate: bool) -> (first:
        Option<Action>)
        requires
            old(self).wf(),
        ensures
            final(self).wf(),
            match first {
                Some(a) => old(self)@.job is None && (Step { engine: final(self)@, action: a@ })
                    == begin_install(old(self)@, kind, request@, force, activate),
                None => old(self)@.job is Some && final(self)@ == old(self)@,
            },
    {
        if self.job.is_some() {
            return None;
        }
        match request {
            VersionSpec::Revision(r) => Some(
                Action::Done(
                    Err(
                        Error {
                            class: ErrorClass::NotFound,
                            phase: Phase::Resolve,
                            kind: Some(kind),
                            version: Some(r),
                            detail: String::from_str("no published version matches"),
                        },
                    ),
                ),
            ),
            VersionSpec::Tag(t) => {
                if !force && self.store.contains(kind, t.as_str()) {
                    Some(Action::Done(Ok(Outcome::AlreadyInstalled(self.store.describe(kind, t.as_str())))))
                } else {
                    self.job = Some(
                        Job::new(
                            kind,
                            VersionSpec::Tag(t),
                            force,
                            false,
                            activate,
                            Stage::Catalog,
                            String::new(),
                        ),
                    );
                    Some(self.ask_catalog(kind))
                }
            },
            VersionSpec::Latest => {
                self.job = Some(
                    Job::new(
                        kind,
                        VersionSpec::Latest,
                        force,
                        false,
                        activate,
                        Stage::Catalog,
                        String::new(),
                    ),
                );
                Some(self.ask_catalog(kind))
            },
        }
    }

    /// Begins the build of a version of `kind` from source, which makes it the active
    /// one. `None` where an operation is under way already: then nothing changes.
    pub fn build(&mut self, kind: Kind, request: VersionSpec) -> (first: Option<Action>)
        requires
            old(self).wf(),
        ensures
            final(self).wf(),
            match first {
                Some(a) => old(self)@.job is None && (Step { engine: final(self)@, action: a@ })
                    == begin_build(old(self)@, kind, request@),
                None => old(self)@.job is Some && final(self)@ == old(self)@,
            },
    {
        if self.job.is_some() {
            return None;
        }
        match request {
            VersionSpec::Revision(r) => {
                if !safe_name(r.as_str()) {
                    Some(
                        Action::Done(
                            Err(
                                Error {
                                    class: ErrorClass::NotFound,
                                    phase: Phase::Resolve,
                                    kind: Some(kind),
                                    version: Some(r),
                                    detail: String::from_str("no published version matches"),
                                },
                            ),
                        ),
                    )
                } else if self.store.contains(kind, r.as_str()) {
                    Some(Action::Done(Ok(Outcome::AlreadyInstalled(self.store.describe(kind, r.as_str())))))
                } else {
                    let a = Action::Probe { kind, revision: r.clone() };
                    let tag = r.clone();
                    self.job = Some(
                        Job::new(kind, VersionSpec::Revision(r), false, true, true, Stage::Probe, tag),
                    );
                    Some(a)
                }
            },
            VersionSpec::Tag(t) => {
                if self.store.contains(kind, t.as_str()) {
                    Some(Action::Done(Ok(Outcome::AlreadyInstalled(self.store.describe(kind, t.as_str())))))
                } else {
                    self.job = Some(
                        Job::new(kind, VersionSpec::Tag(t), false, true, true, Stage::Catalog, String::new()),
                    );
                    Some(self.ask_catalog(kind))
                }
            },
            VersionSpec::Latest => {
                self.job = Some(
                    Job::new(kind, VersionSpec::Latest, false, true, true, Stage::Catalog, String::new()),
                );
                Some(self.ask_catalog(kind))
            },
        }
    }

    /// Begins the uninstall of `kind`: its pointer and every version of it are
    /// removed. `None` where an operation is under way already: then nothing
    /// changes.
    pub fn uninstall(&mut self, kind: Kind) -> (first: Option<Action>)
        requires
            old(self).wf(),
        ensures
            final(self).wf(),
            match first {
                Some(a) => old(self)@.job is None && (Step { engine: final(self)@, action: a@ })
                    == begin_uninstall(old(self)@, kind),
                None => old(self)@.job is Some && final(self)@ == old(self)@,
            },
    {
        if self.job.is_some() {
            return None;
        }
        let job = Job::new(
            kind,
            VersionSpec::Latest,
            false,
            false,
            false,
            Stage::Remove,
            String::new(),
        );
        Some(self.unwind(job))
    }

    /// Begins an update: the latest release of each kind of `plan` is installed, in
    /// that order. `None` where an operation is under way already: then nothing
    /// changes.
    pub fn update(&mut self, plan: Vec<Kind>, force: bool) -> (first: Option<Action>)
        requires
            old(self).wf(),
        ensures
            final(self).wf(),
            match first {
                Some(a) => old(self)@.job is None && (Step { engine: final(self)@, action: a@ })
                    == begin_update(old(self)@, plan@, force),
                None => old(self)@.job is Some && final(self)@ == old(self)@,
            },
    {
        if self.job.is_some() {
            return None;
        }
        if plan.len() == 0 {
            Some(Action::Done(Ok(Outcome::Updated)))
        } else {
            let (job, kind) = Job::batch(plan, force);
            self.job = Some(job);
            Some(self.ask_catalog(kind))
        }
    }

    /// Begins an update of every kind, toolchains first. `None` where an operation is
    /// under way already: then nothing changes.
    pub fn update_all(&mut self, force: bool) -> (first: Option<Action>)
        requires
            old(self).wf(),
        ensures
            final(self).wf(),
            match first {
                Some(a) => old(self)@.job is None && (Step { engine: final(self)@, action: a@ })
                    == begin_update(old(self)@, crate::kind::all_kinds(), force),
                None => old(self)@.job is Some && final(self)@ == old(self)@,
            },
    {
        self.update(Kind::all(), force)
    }
}

/// What the user asks of the engine.
#[derive(Debug, PartialEq, Eq)]
pub enum Operation {
    /// List the installed toolchains.
    ListToolchains,
    /// Install a version of `kind` and make it the active one.
    Install { kind: Kind, request: VersionSpec, force: bool },
    /// Remove the pointer of `kind` and every version of it.
    Uninstall { kind: Kind },
    /// Build a version of `kind` from source and make it the active one.
    Build { kind: Kind, request: VersionSpec },
    /// Install the latest release of each kind of `plan`, in that order.
    Update { plan: Vec<Kind>, force: bool },
}

impl View for Operation {
    type V = OperationView;

    open spec fn view(&self) -> OperationView {
        match self {
            Operation::ListToolchains => OperationView::ListToolchains,
            Operation::Install { kind, request, force } => OperationView::Install {
                kind: *kind,
                request: request@,
                force: *force,
            },
            Operation::Uninstall { kind } => OperationView::Uninstall { kind: *kind },
            Operation::Build { kind, request } => OperationView::Build {
                kind: *kind,
                request: request@,
            },
            Operation::Update { plan, force } => OperationView::Update {
                plan: plan@,
                force: *force,
            },
        }
    }
}

/// Whether the version of a job can name a directory.
spec fn is_safe(j: JobView) -> bool {
    crate::text::is_safe_name(j.tag)
}

/// A step does not depend on the operation that the engine is recorded with, only on
/// the one it is given.
proof fn lemma_step_ignores_job(e: EngineView, j: JobView, ev: crate::protocol::EventView)
    ensures
        step(e, j, ev) == step(e.idle(), j, ev),
{
}

} // verus!
