//! The version resolver: from what the user asked for to one published release.

use crate::error::{Error, ErrorClass, ErrorView, Phase};
use crate::kind::{Kind, ToolchainKind};
use crate::text::{is_safe_name, safe_name, same_text};
use crate::version::{lemma_version_is_component, version_of, Version};
use vstd::prelude::*;
use vstd::string::*;

verus! {

/// What the user asked for.
#[derive(Debug, PartialEq, Eq)]
pub enum VersionSpec {
    /// Nothing: the latest stable release.
    Latest,
    /// A published release, by its tag.
    Tag(String),
    /// A revision of the sources, for a build.
    Revision(String),
}

pub enum VersionSpecView {
    Latest,
    Tag(Seq<char>),
    Revision(Seq<char>),
}

impl View for VersionSpec {
    type V = VersionSpecView;

    open spec fn view(&self) -> VersionSpecView {
        match self {
            VersionSpec::Latest => VersionSpecView::Latest,
            VersionSpec::Tag(t) => VersionSpecView::Tag(t@),
            VersionSpec::Revision(r) => VersionSpecView::Revision(r@),
        }
    }
}

impl VersionSpec {
    /// What an install is asked for: a tag, or the latest stable release.
    pub fn for_install(version: Option<String>) -> (spec: VersionSpec)
        ensures
            spec@ == match version {
                Some(t) => VersionSpecView::Tag(t@),
                None => VersionSpecView::Latest,
            },
    {
        match version {
            Some(t) => VersionSpec::Tag(t),
            None => VersionSpec::Latest,
        }
    }

    /// What a build is asked for: a revision of the sources, or the latest stable release.
    pub fn for_build(version: Option<String>) -> (spec: VersionSpec)
        ensures
            spec@ == match version {
                Some(r) => VersionSpecView::Revision(r@),
                None => VersionSpecView::Latest,
            },
    {
        match version {
            Some(r) => VersionSpec::Revision(r),
            None => VersionSpec::Latest,
        }
    }
}

/// A downloadable archive of one release for one platform.
#[derive(Debug, PartialEq, Eq)]
pub struct Artifact {
    pub platform: String,
    pub url: String,
    pub checksum: Vec<u8>,
}

pub struct ArtifactView {
    pub platform: Seq<char>,
    pub url: Seq<char>,
    pub checksum: Seq<u8>,
}

impl View for Artifact {
    type V = ArtifactView;

    open spec fn view(&self) -> ArtifactView {
        ArtifactView { platform: self.platform@, url: self.url@, checksum: self.checksum@ }
    }
}

impl Clone for Artifact {
    fn clone(&self) -> (r: Self)
        ensures
            r@ == self@,
    {
        Artifact {
            platform: self.platform.clone(),
            url: self.url.clone(),
            checksum: self.checksum.clone(),
        }
    }
}

/// The host that a release is made for: a toolchain whose active version must not
/// be older than `minimum`.
#[derive(Clone, Copy, Debug, PartialEq, Eq, Structural)]
pub struct HostRequirement {
    pub toolchain: ToolchainKind,
    pub minimum: Version,
}

/// One published version of a kind.
#[derive(Debug, PartialEq, Eq)]
pub struct Release {
    pub tag: String,
    /// Whether the release is on the stable channel.
    pub stable: bool,
    /// The host that the release needs, where it needs one.
    pub host: Option<HostRequirement>,
    pub artifacts: Vec<Artifact>,
}

pub struct ReleaseView {
    pub tag: Seq<char>,
    pub stable: bool,
    pub host: Option<HostRequirement>,
    pub artifacts: Seq<ArtifactView>,
}

impl View for Release {
    type V = ReleaseView;

    open spec fn view(&self) -> ReleaseView {
        ReleaseView {
            tag: self.tag@,
            stable: self.stable,
            host: self.host,
            artifacts: self.artifacts@.map_values(|a: Artifact| a@),
        }
    }
}

/// A snapshot of what is published for one kind.
#[derive(Debug, PartialEq, Eq)]
pub struct Catalog {
    /// Whether the catalog marks releases as stable or not. Where it does not,
    /// every release counts as stable.
    pub channels: bool,
    pub releases: Vec<Release>,
}

pub struct CatalogView {
    pub channels: bool,
    pub releases: Seq<ReleaseView>,
}

impl View for Catalog {
    type V = CatalogView;

    open spec fn view(&self) -> CatalogView {
        CatalogView {
            channels: self.channels,
            releases: self.releases@.map_values(|r: Release| r@),
        }
    }
}

/// The view of an optional catalog.
pub open spec fn opt_catalog(c: Option<Catalog>) -> Option<CatalogView> {
    match c {
        Some(c) => Some(c@),
        None => None,
    }
}

/// One concrete version of a kind, as resolved for one operation.
#[derive(Debug, PartialEq, Eq)]
pub struct ResolvedVersion {
    pub kind: Kind,
    pub tag: String,
    /// The host that the release needs, where it needs one.
    pub host: Option<HostRequirement>,
    /// The archive for this platform, where the release has one.
    pub artifact: Option<Artifact>,
}

pub struct ResolvedVersionView {
    pub kind: Kind,
    pub tag: Seq<char>,
    pub host: Option<HostRequirement>,
    pub artifact: Option<ArtifactView>,
}

/// The view of an optional artifact.
pub open spec fn opt_artifact(a: Option<Artifact>) -> Option<ArtifactView> {
    match a {
        Some(a) => Some(a@),
        None => None,
    }
}

impl View for ResolvedVersion {
    type V = ResolvedVersionView;

    open spec fn view(&self) -> ResolvedVersionView {
        ResolvedVersionView {
            kind: self.kind,
            tag: self.tag@,
            host: self.host,
            artifact: opt_artifact(self.artifact),
        }
    }
}

/// The first artifact at or after `from` that is for `platform`.
pub open spec fn artifact_from(artifacts: Seq<ArtifactView>, platform: Seq<char>, from: int) -> Option<
    ArtifactView,
>
    decreases artifacts.len() - from,
{
    if from < 0 || from >= artifacts.len() {
        None
    } else if artifacts[from].platform == platform {
        Some(artifacts[from])
    } else {
        artifact_from(artifacts, platform, from + 1)
    }
}

/// The artifact of a release for `platform`: the first one listed for it.
pub open spec fn artifact_for(artifacts: Seq<ArtifactView>, platform: Seq<char>) -> Option<
    ArtifactView,
> {
    artifact_from(artifacts, platform, 0)
}

/// The first release at or after `from` that carries `tag`.
pub open spec fn release_from(releases: Seq<ReleaseView>, tag: Seq<char>, from: int) -> Option<int>
    decreases releases.len() - from,
{
    if from < 0 || from >= releases.len() {
        None
    } else if releases[from].tag == tag {
        Some(from)
    } else {
        release_from(releases, tag, from + 1)
    }
}

/// The release that carries `tag`: the first one listed with it.
pub open spec fn release_of(releases: Seq<ReleaseView>, tag: Seq<char>) -> Option<int> {
    release_from(releases, tag, 0)
}

/// The release found for a tag is the first that carries it; none is found only where
/// no release carries it.
pub proof fn lemma_release_from(releases: Seq<ReleaseView>, tag: Seq<char>, from: int)
    requires
        0 <= from,
    ensures
        match release_from(releases, tag, from) {
            Some(i) => {
                &&& from <= i < releases.len()
                &&& releases[i].tag == tag
                &&& forall|j: int| from <= j < i ==> (#[trigger] releases[j]).tag != tag
            },
            None => forall|j: int| from <= j < releases.len() ==> (#[trigger] releases[j]).tag != tag,
        },
    decreases releases.len() - from,
{
    if from < releases.len() && releases[from].tag != tag {
        lemma_release_from(releases, tag, from + 1);
    }
}

/// The artifact found for a platform is the first that is for it; none is found only
/// where no artifact is for it.
pub proof fn lemma_artifact_from(artifacts: Seq<ArtifactView>, platform: Seq<char>, from: int)
    requires
        0 <= from,
    ensures
        match artifact_from(artifacts, platform, from) {
            Some(a) => exists|i: int|
                {
                    &&& from <= i < artifacts.len()
                    &&& #[trigger] artifacts[i] == a
                    &&& a.platform == platform
                    &&& forall|j: int| from <= j < i ==> (#[trigger] artifacts[j]).platform != platform
                },
            None => forall|j: int|
                from <= j < artifacts.len() ==> (#[trigger] artifacts[j]).platform != platform,
        },
    decreases artifacts.len() - from,
{
    if from < artifacts.len() {
        if artifacts[from].platform != platform {
            lemma_artifact_from(artifacts, platform, from + 1);
            match artifact_from(artifacts, platform, from + 1) {
                Some(a) => {
                    let i = choose|i: int|
                        {
                            &&& from + 1 <= i < artifacts.len()
                            &&& #[trigger] artifacts[i] == a
                            &&& a.platform == platform
                            &&& forall|j: int|
                                from + 1 <= j < i ==> (#[trigger] artifacts[j]).platform != platform
                        };
                    assert(from <= i < artifacts.len() && artifacts[i] == a);
                },
                None => {},
            }
        } else {
            assert(artifacts[from] == artifacts[from]);
        }
    }
}

/// Whether a release can be chosen as the latest: its tag spells a version, and it is
/// stable where the catalog has channels.
pub open spec fn is_candidate(catalog: CatalogView, i: int) -> bool {
    &&& 0 <= i < catalog.releases.len()
    &&& version_of(catalog.releases[i].tag) is Some
    &&& catalog.channels ==> catalog.releases[i].stable
}

/// The version that the tag of release `i` spells.
pub open spec fn version_at(catalog: CatalogView, i: int) -> Version {
    version_of(catalog.releases[i].tag).unwrap()
}

/// The newest candidate among the first `n` releases; of several equally new, the first.
pub open spec fn latest_among(catalog: CatalogView, n: int) -> Option<int>
    decreases n,
{
    if n <= 0 {
        None
    } else {
        let before = latest_among(catalog, n - 1);
        if is_candidate(catalog, n - 1) && (before matches Some(b) ==> version_at(
            catalog,
            b,
        ).precedes(version_at(catalog, n - 1))) {
            Some(n - 1)
        } else {
            before
        }
    }
}

/// The latest stable release of a catalog.
pub open spec fn latest(catalog: CatalogView) -> Option<int> {
    latest_among(catalog, catalog.releases.len() as int)
}

/// The latest release is a candidate that no candidate is newer than, and the first such;
/// there is none only where there is no candidate.
pub proof fn lemma_latest_is_newest(catalog: CatalogView, n: int)
    requires
        0 <= n <= catalog.releases.len(),
    ensures
        match latest_among(catalog, n) {
            Some(i) => {
                &&& 0 <= i < n
                &&& is_candidate(catalog, i)
                &&& forall|j: int|
                    0 <= j < n && is_candidate(catalog, j) ==> !version_at(catalog, i).precedes(
                        #[trigger] version_at(catalog, j),
                    )
                &&& forall|j: int|
                    0 <= j < i && is_candidate(catalog, j) ==> (#[trigger] version_at(
                        catalog,
                        j,
                    )).precedes(version_at(catalog, i))
            },
            None => forall|j: int| 0 <= j < n ==> !#[trigger] is_candidate(catalog, j),
        },
    decreases n,
{
    if n > 0 {
        lemma_latest_is_newest(catalog, n - 1);
    }
}

/// The characterization of the latest release has one solution: a candidate that no
/// candidate is newer than, and before which every candidate is older, is the
/// latest.
pub proof fn lemma_latest_is_unique(catalog: CatalogView, i: int)
    requires
        is_candidate(catalog, i),
        forall|j: int|
            0 <= j < catalog.releases.len() && is_candidate(catalog, j) ==> !version_at(
                catalog,
                i,
            ).precedes(#[trigger] version_at(catalog, j)),
        forall|j: int|
            0 <= j < i && is_candidate(catalog, j) ==> (#[trigger] version_at(
                catalog,
                j,
            )).precedes(version_at(catalog, i)),
    ensures
        latest(catalog) == Some(i),
{
    lemma_latest_is_newest(catalog, catalog.releases.len() as int);
    match latest(catalog) {
        Some(k) => {
            if k < i {
                assert(version_at(catalog, k).precedes(version_at(catalog, i)));
                assert(!version_at(catalog, k).precedes(version_at(catalog, i)));
            } else if i < k {
                assert(version_at(catalog, i).precedes(version_at(catalog, k)));
                assert(!version_at(catalog, i).precedes(version_at(catalog, k)));
            }
        },
        None => {
            assert(!is_candidate(catalog, i));
        },
    }
}

/// The failure for a request that matches no published version.
pub open spec fn no_such_version(kind: Kind, version: Option<Seq<char>>) -> ErrorView {
    ErrorView {
        class: ErrorClass::NotFound,
        phase: Phase::Resolve,
        kind: Some(kind),
        version,
        detail: "no published version matches"@,
    }
}

/// The failure for a catalog that cannot be reached and of which no snapshot is kept.
pub open spec fn catalog_unreachable(kind: Kind) -> ErrorView {
    ErrorView {
        class: ErrorClass::NetworkError,
        phase: Phase::Resolve,
        kind: Some(kind),
        version: None,
        detail: "the catalog is unreachable and no snapshot of it is kept"@,
    }
}

/// What a resolution gives. A revision bypasses the catalog and is passed through as it
/// is, provided it can name a directory. Otherwise the catalog as just fetched is used,
/// or else the snapshot kept of it; with neither the resolution fails with
/// `NetworkError`. No version selects the newest stable release, a tag the release that
/// carries it; where there is none, the resolution fails with `NotFound`.
pub open spec fn resolution(
    kind: Kind,
    spec: VersionSpecView,
    fresh: Option<CatalogView>,
    kept: Option<CatalogView>,
    platform: Seq<char>,
) -> Result<ResolvedVersionView, ErrorView> {
    match spec {
        VersionSpecView::Revision(r) => if is_safe_name(r) {
            Ok(ResolvedVersionView { kind, tag: r, host: None, artifact: None })
        } else {
            Err(no_such_version(kind, Some(r)))
        },
        VersionSpecView::Latest => match snapshot(fresh, kept) {
            None => Err(catalog_unreachable(kind)),
            Some(c) => match latest(c) {
                Some(i) => Ok(pick(kind, c, i, platform)),
                None => Err(no_such_version(kind, None)),
            },
        },
        VersionSpecView::Tag(t) => match snapshot(fresh, kept) {
            None => Err(catalog_unreachable(kind)),
            Some(c) => match release_of(c.releases, t) {
                Some(i) => if is_safe_name(t) {
                    Ok(pick(kind, c, i, platform))
                } else {
                    Err(no_such_version(kind, Some(t)))
                },
                None => Err(no_such_version(kind, Some(t))),
            },
        },
    }
}

/// The catalog to resolve against: the fresh one, or else the snapshot kept.
pub open spec fn snapshot(fresh: Option<CatalogView>, kept: Option<CatalogView>) -> Option<
    CatalogView,
> {
    match fresh {
        Some(c) => Some(c),
        None => kept,
    }
}

/// Release `i` of a catalog as a resolved version.
pub open spec fn pick(kind: Kind, catalog: CatalogView, i: int, platform: Seq<char>) -> ResolvedVersionView {
    ResolvedVersionView {
        kind,
        tag: catalog.releases[i].tag,
        host: catalog.releases[i].host,
        artifact: artifact_for(catalog.releases[i].artifacts, platform),
    }
}

/// The view of the result of a resolution.
pub open spec fn resolved_view(r: Result<ResolvedVersion, Error>) -> Result<
    ResolvedVersionView,
    ErrorView,
> {
    match r {
        Ok(v) => Ok(v@),
        Err(e) => Err(e@),
    }
}

fn find_artifact(artifacts: &Vec<Artifact>, platform: &str) -> (r: Option<Artifact>)
    ensures
        opt_artifact(r) == artifact_for(artifacts@.map_values(|a: Artifact| a@), platform@),
{
    let ghost views = artifacts@.map_values(|a: Artifact| a@);
    let mut i: usize = 0;
    while i < artifacts.len()
        invariant
            i <= artifacts.len(),
            views == artifacts@.map_values(|a: Artifact| a@),
            artifact_for(views, platform@) == artifact_from(views, platform@, i as int),
        decreases artifacts.len() - i,
    {
        assert(views[i as int] == artifacts@[i as int]@);
        if same_text(artifacts[i].platform.as_str(), platform) {
            return Some(artifacts[i].clone());
        }
        i += 1;
    }
    None
}

fn find_release(releases: &Vec<Release>, tag: &str) -> (r: Option<usize>)
    ensures
        match r {
            Some(i) => release_of(releases@.map_values(|r: Release| r@), tag@) == Some(i as int)
                && i < releases.len(),
            None => release_of(releases@.map_values(|r: Release| r@), tag@) is None,
        },
{
    let ghost views = releases@.map_values(|r: Release| r@);
    let mut i: usize = 0;
    while i < releases.len()
        invariant
            i <= releases.len(),
            views == releases@.map_values(|r: Release| r@),
            release_of(views, tag@) == release_from(views, tag@, i as int),
        decreases releases.len() - i,
    {
        assert(views[i as int] == releases@[i as int]@);
        if same_text(releases[i].tag.as_str(), tag) {
            return Some(i);
        }
        i += 1;
    }
    None
}

fn find_latest(catalog: &Catalog) -> (r: Option<usize>)
    ensures
        match r {
            Some(i) => latest(catalog@) == Some(i as int) && i < catalog.releases.len(),
            None => latest(catalog@) is None,
        },
{
    let mut best: Option<(usize, Version)> = None;
    let mut i: usize = 0;
    while i < catalog.releases.len()
        invariant
            i <= catalog.releases.len(),
            match best {
                Some((b, v)) => latest_among(catalog@, i as int) == Some(b as int) && b < i
                    && is_candidate(catalog@, b as int) && v == version_at(catalog@, b as int),
                None => latest_among(catalog@, i as int) is None,
            },
        decreases catalog.releases.len() - i,
    {
        let release = &catalog.releases[i];
        assert(catalog@.releases[i as int] == release@);
        let eligible = !catalog.channels || release.stable;
        if eligible {
            match Version::parse(release.tag.as_str()) {
                Some(v) => {
                    let newer = match best {
                        Some((_, b)) => b.older_than(&v),
                        None => true,
                    };
                    if newer {
                        best = Some((i, v));
                    }
                },
                None => {},
            }
        }
        i += 1;
    }
    match best {
        Some((b, _)) => Some(b),
        None => None,
    }
}

fn not_found(kind: Kind, version: Option<String>) -> (e: Error)
    ensures
        e@ == no_such_version(kind, crate::text::opt_view(version)),
{
    Error {
        class: ErrorClass::NotFound,
        phase: Phase::Resolve,
        kind: Some(kind),
        version,
        detail: String::from_str("no published version matches"),
    }
}

fn offline(kind: Kind) -> (e: Error)
    ensures
        e@ == catalog_unreachable(kind),
{
    Error {
        class: ErrorClass::NetworkError,
        phase: Phase::Resolve,
        kind: Some(kind),
        version: None,
        detail: String::from_str("the catalog is unreachable and no snapshot of it is kept"),
    }
}

fn pick_release(kind: Kind, catalog: &Catalog, i: usize, platform: &str) -> (r: ResolvedVersion)
    requires
        i < catalog.releases.len(),
    ensures
        r@ == pick(kind, catalog@, i as int, platform@),
{
    let release = &catalog.releases[i];
    assert(catalog@.releases[i as int] == release@);
    ResolvedVersion {
        kind,
        tag: release.tag.clone(),
        host: release.host,
        artifact: find_artifact(&release.artifacts, platform),
    }
}

/// Maps what the user asked for to one concrete version of `kind`, against the catalog
/// as just fetched (`fresh`) or else the snapshot kept of it (`kept`).
pub fn resolve(
    kind: Kind,
    request: &VersionSpec,
    fresh: Option<&Catalog>,
    kept: Option<&Catalog>,
    platform: &str,
) -> (r: Result<ResolvedVersion, Error>)
    ensures
        resolved_view(r) == resolution(
            kind,
            request@,
            match fresh {
                Some(c) => Some(c@),
                None => None,
            },
            match kept {
                Some(c) => Some(c@),
                None => None,
            },
            platform@,
        ),
{
    if let VersionSpec::Revision(r) = request {
        if safe_name(r.as_str()) {
            return Ok(ResolvedVersion { kind, tag: r.clone(), host: None, artifact: None });
        } else {
            return Err(not_found(kind, Some(r.clone())));
        }
    }
    let catalog = match fresh {
        Some(c) => c,
        None => match kept {
            Some(c) => c,
            None => {
                return Err(offline(kind));
            },
        },
    };
    match request {
        VersionSpec::Tag(t) => match find_release(&catalog.releases, t.as_str()) {
            Some(i) => if safe_name(t.as_str()) {
                Ok(pick_release(kind, catalog, i, platform))
            } else {
                Err(not_found(kind, Some(t.clone())))
            },
            None => Err(not_found(kind, Some(t.clone()))),
        },
        _ => match find_latest(catalog) {
            Some(i) => Ok(pick_release(kind, catalog, i, platform)),
            None => Err(not_found(kind, None)),
        },
    }
}

/// Resolution is determined by the catalog: two catalogs with the same content
/// resolve the same request to the same version.
pub proof fn lemma_resolution_deterministic(
    kind: Kind,
    spec: VersionSpecView,
    a: CatalogView,
    b: CatalogView,
    platform: Seq<char>,
)
    requires
        a.channels == b.channels,
        a.releases =~= b.releases,
    ensures
        resolution(kind, spec, Some(a), None, platform) == resolution(
            kind,
            spec,
            Some(b),
            None,
            platform,
        ),
{
}

/// A version that a resolution gives can name a directory on the disk.
pub proof fn lemma_resolved_is_safe(
    kind: Kind,
    spec: VersionSpecView,
    fresh: Option<CatalogView>,
    kept: Option<CatalogView>,
    platform: Seq<char>,
)
    ensures
        resolution(kind, spec, fresh, kept, platform) matches Ok(v) ==> is_safe_name(v.tag)
            && v.kind == kind,
{
    let r = resolution(kind, spec, fresh, kept, platform);
    match spec {
        VersionSpecView::Latest => {
            if snapshot(fresh, kept) is Some {
                let c = snapshot(fresh, kept).unwrap();
                lemma_latest_is_newest(c, c.releases.len() as int);
                if latest(c) is Some {
                    let i = latest(c).unwrap();
                    assert(is_candidate(c, i));
                    lemma_version_is_component(crate::text::bytes_of(c.releases[i].tag));
                    assert(r == Ok::<ResolvedVersionView, ErrorView>(pick(kind, c, i, platform)));
                    assert(is_safe_name(pick(kind, c, i, platform).tag));
                } else {
                    assert(r is Err);
                }
            } else {
                assert(r is Err);
            }
        },
        VersionSpecView::Tag(t) => {
            if snapshot(fresh, kept) is Some {
                lemma_release_from(snapshot(fresh, kept).unwrap().releases, t, 0);
            }
            assert(r matches Ok(v) ==> v.tag == t && is_safe_name(t));
        },
        VersionSpecView::Revision(t) => {
            assert(r matches Ok(v) ==> v.tag == t && is_safe_name(t));
        },
    }
}

} // verus!
