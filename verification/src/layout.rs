//! Where things lie outside the installed tree: the cache namespace and the scratch
//! area of the running operation.

use crate::cache::{ArtifactKey, ArtifactKeyView};
use crate::kind::{kind_name, lemma_names_are_plain, lemma_names_distinct, ExtensionKind, Kind};
use crate::text::{
    is_safe_name, lemma_safe_name_has_no_slash, lemma_same_prefix, lemma_same_suffix,
    lemma_split_at_slash, same_text,
    views_of,
};
use vstd::prelude::*;
use vstd::string::*;

verus! {

/// The directories that an engine works in besides the root, and the platform that it
/// installs for.
#[derive(Debug, PartialEq, Eq)]
pub struct Workspace {
    /// The cache namespace.
    pub cache: String,
    /// The scratch area. It belongs to one operation at a time and is emptied when
    /// the operation is done, whether it succeeded or failed.
    pub scratch: String,
    pub platform: String,
}

pub struct WorkspaceView {
    pub cache: Seq<char>,
    pub scratch: Seq<char>,
    pub platform: Seq<char>,
}

impl View for Workspace {
    type V = WorkspaceView;

    open spec fn view(&self) -> WorkspaceView {
        WorkspaceView { cache: self.cache@, scratch: self.scratch@, platform: self.platform@ }
    }
}

impl WorkspaceView {
    /// The directory in the cache of what is filed under `key`.
    pub open spec fn entry_dir(self, key: ArtifactKeyView) -> Seq<char> {
        self.cache + "/"@ + kind_name(key.kind) + "/"@ + key.tag + "/"@ + key.platform
    }

    /// Where the archive under `key` lies in the cache.
    pub open spec fn archive(self, key: ArtifactKeyView) -> Seq<char> {
        self.entry_dir(key) + "/archive"@
    }

    /// Where the checksum of the archive under `key` is on record. An archive
    /// without its record is not in the cache.
    pub open spec fn record(self, key: ArtifactKeyView) -> Seq<char> {
        self.entry_dir(key) + "/checksum"@
    }

    /// Where the snapshot of the catalog of `kind` is kept.
    pub open spec fn snapshot(self, kind: Kind) -> Seq<char> {
        self.cache + "/"@ + kind_name(kind) + ".catalog"@
    }

    /// Where a download is written before it is verified.
    pub open spec fn download(self) -> Seq<char> {
        self.scratch + "/download"@
    }

    /// Where an archive is unpacked before it is promoted.
    pub open spec fn staging(self) -> Seq<char> {
        self.scratch + "/staging"@
    }

    /// Where the sources of a build are put.
    pub open spec fn source(self) -> Seq<char> {
        self.scratch + "/source"@
    }

    /// Where a build leaves what it made.
    pub open spec fn output(self) -> Seq<char> {
        self.scratch + "/output"@
    }

    /// Where what a build made is packed before it enters the cache.
    pub open spec fn package(self) -> Seq<char> {
        self.scratch + "/package"@
    }
}

/// Archives under different keys lie at different places in the cache, as long as
/// the versions are names that can be used for a directory.
pub proof fn lemma_archives_differ(w: WorkspaceView, a: ArtifactKeyView, b: ArtifactKeyView)
    requires
        is_safe_name(a.tag),
        is_safe_name(b.tag),
        w.archive(a) == w.archive(b),
    ensures
        a == b,
{
    reveal_strlit("/");
    lemma_names_are_plain(a.kind);
    lemma_names_are_plain(b.kind);
    lemma_safe_name_has_no_slash(a.tag);
    lemma_safe_name_has_no_slash(b.tag);
    lemma_same_suffix(w.entry_dir(a), w.entry_dir(b), "/archive"@);
    let p = w.cache + "/"@;
    let rest_a = a.tag + "/"@ + a.platform;
    let rest_b = b.tag + "/"@ + b.platform;
    assert(w.entry_dir(a) =~= p + (kind_name(a.kind) + "/"@ + rest_a));
    assert(w.entry_dir(b) =~= p + (kind_name(b.kind) + "/"@ + rest_b));
    lemma_same_prefix(p, kind_name(a.kind) + "/"@ + rest_a, kind_name(b.kind) + "/"@ + rest_b);
    lemma_split_at_slash(kind_name(a.kind), rest_a, kind_name(b.kind), rest_b);
    lemma_names_distinct(a.kind, b.kind);
    lemma_split_at_slash(a.tag, a.platform, b.tag, b.platform);
}

impl Workspace {
    fn entry_dir(&self, key: &ArtifactKey) -> (path: String)
        ensures
            path@ == self@.entry_dir(key@),
    {
        let mut path = self.cache.clone();
        path.append("/");
        path.append(key.kind.to_str());
        path.append("/");
        path.append(key.tag.as_str());
        path.append("/");
        path.append(key.platform.as_str());
        path
    }

    /// Where the archive under `key` lies in the cache.
    pub fn archive(&self, key: &ArtifactKey) -> (path: String)
        ensures
            path@ == self@.archive(key@),
    {
        let mut path = self.entry_dir(key);
        path.append("/archive");
        path
    }

    /// Where the checksum of the archive under `key` is on record.
    pub fn record(&self, key: &ArtifactKey) -> (path: String)
        ensures
            path@ == self@.record(key@),
    {
        let mut path = self.entry_dir(key);
        path.append("/checksum");
        path
    }

    /// Where the snapshot of the catalog of `kind` is kept.
    pub fn snapshot(&self, kind: Kind) -> (path: String)
        ensures
            path@ == self@.snapshot(kind),
    {
        let mut path = self.cache.clone();
        path.append("/");
        path.append(kind.to_str());
        path.append(".catalog");
        path
    }

    /// Where a download is written before it is verified.
    pub fn download(&self) -> (path: String)
        ensures
            path@ == self@.download(),
    {
        let mut path = self.scratch.clone();
        path.append("/download");
        path
    }

    /// Where an archive is unpacked before it is promoted.
    pub fn staging(&self) -> (path: String)
        ensures
            path@ == self@.staging(),
    {
        let mut path = self.scratch.clone();
        path.append("/staging");
        path
    }

    /// Where the sources of a build are put.
    pub fn source(&self) -> (path: String)
        ensures
            path@ == self@.source(),
    {
        let mut path = self.scratch.clone();
        path.append("/source");
        path
    }

    /// Where a build leaves what it made.
    pub fn output(&self) -> (path: String)
        ensures
            path@ == self@.output(),
    {
        let mut path = self.scratch.clone();
        path.append("/output");
        path
    }

    /// Where what a build made is packed before it enters the cache.
    pub fn package(&self) -> (path: String)
        ensures
            path@ == self@.package(),
    {
        let mut path = self.scratch.clone();
        path.append("/package");
        path
    }
}

/// The entry that an unpacked archive of `kind` must have at its top level.
pub open spec fn required_entry(kind: Kind) -> Seq<char> {
    match kind {
        Kind::Toolchain(_) => "bin"@,
        Kind::Extension(ExtensionKind::CargoRiscZero) => "cargo-risczero"@,
    }
}

/// Whether the top level of an unpacked archive has the shape expected of `kind`.
pub open spec fn is_expected_layout(kind: Kind, top_level: Seq<Seq<char>>) -> bool {
    top_level.contains(required_entry(kind))
}

/// Decides `is_expected_layout`.
pub fn expected_layout(kind: Kind, top_level: &Vec<String>) -> (r: bool)
    ensures
        r == is_expected_layout(kind, views_of(top_level@)),
{
    let required = match kind {
        Kind::Toolchain(_) => "bin",
        Kind::Extension(ExtensionKind::CargoRiscZero) => "cargo-risczero",
    };
    let mut i: usize = 0;
    while i < top_level.len()
        invariant
            i <= top_level.len(),
            required@ == required_entry(kind),
            forall|j: int| 0 <= j < i ==> views_of(top_level@)[j] != required@,
        decreases top_level.len() - i,
    {
        if same_text(top_level[i].as_str(), required) {
            assert(views_of(top_level@)[i as int] == required@);
            return true;
        }
        i += 1;
    }
    false
}

} // verus!
