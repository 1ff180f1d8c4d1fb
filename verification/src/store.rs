//! The installed versions and the active pointers, as they stand on the disk:
//! what the installer promotes and removes, what the link manager points at,
//! and what the inventory lists.

use crate::error::{Error, ErrorClass, ErrorView, Phase};
use crate::kind::{
    kind_name, lemma_names_are_plain, lemma_names_distinct, ExtensionKind, Kind, ToolchainKind,
};
use crate::catalog::HostRequirement;
use crate::text::{
    is_safe_name, lemma_same_prefix, lemma_split_at_slash, opt_view, safe_name, same_text, views_of,
};
use crate::version::{version_of, Version};
use vstd::prelude::*;
use vstd::string::*;

verus! {

/// One installed version of a kind.
#[derive(Debug, PartialEq, Eq)]
pub struct InstalledEntry {
    pub kind: Kind,
    pub version: String,
    pub install_path: String,
    pub is_active: bool,
}

pub struct InstalledEntryView {
    pub kind: Kind,
    pub version: Seq<char>,
    pub install_path: Seq<char>,
    pub is_active: bool,
}

impl View for InstalledEntry {
    type V = InstalledEntryView;

    open spec fn view(&self) -> InstalledEntryView {
        InstalledEntryView {
            kind: self.kind,
            version: self.version@,
            install_path: self.install_path@,
            is_active: self.is_active,
        }
    }
}

impl Clone for InstalledEntry {
    fn clone(&self) -> (r: Self)
        ensures
            r@ == self@,
    {
        InstalledEntry {
            kind: self.kind,
            version: self.version.clone(),
            install_path: self.install_path.clone(),
            is_active: self.is_active,
        }
    }
}

/// The view of an optional entry.
pub open spec fn opt_installed(e: Option<InstalledEntry>) -> Option<InstalledEntryView> {
    match e {
        Some(e) => Some(e@),
        None => None,
    }
}

/// The views of a list of entries, in order.
pub open spec fn installed_views(entries: Seq<InstalledEntry>) -> Seq<InstalledEntryView> {
    entries.map_values(|e: InstalledEntry| e@)
}

/// The subtree of one kind: its version directories, in the order in which they
/// came, and its active pointer.
pub struct SlotView {
    pub versions: Seq<Seq<char>>,
    pub active: Option<Seq<char>>,
}

impl SlotView {
    /// No version occurs twice, each can name a directory, and the pointer, where
    /// there is one, refers to an installed version.
    pub open spec fn wf(self) -> bool {
        &&& forall|i: int, j: int|
            0 <= i < self.versions.len() && 0 <= j < self.versions.len() && #[trigger] self.versions[i]
                == #[trigger] self.versions[j] ==> i == j
        &&& forall|i: int| 0 <= i < self.versions.len() ==> is_safe_name(#[trigger] self.versions[i])
        &&& self.active matches Some(a) ==> self.versions.contains(a)
    }

    pub open spec fn has(self, tag: Seq<char>) -> bool {
        self.versions.contains(tag)
    }

    /// Where `tag` stands among the versions.
    pub open spec fn position(self, tag: Seq<char>) -> int {
        choose|i: int| 0 <= i < self.versions.len() && self.versions[i] == tag
    }

    /// The subtree once a directory named `tag` was promoted into it. A directory
    /// that is already there is replaced, which leaves the list as it is.
    pub open spec fn promoted(self, tag: Seq<char>) -> SlotView {
        if is_safe_name(tag) && !self.has(tag) {
            SlotView { versions: self.versions.push(tag), active: self.active }
        } else {
            self
        }
    }

    /// The subtree once the directory named `tag` was removed from it. The pointer
    /// goes with the version it referred to.
    pub open spec fn removed(self, tag: Seq<char>) -> SlotView {
        if self.has(tag) {
            SlotView {
                versions: self.versions.remove(self.position(tag)),
                active: if self.active == Some(tag) {
                    None
                } else {
                    self.active
                },
            }
        } else {
            self
        }
    }

    /// The subtree once its pointer was swapped to `tag`.
    pub open spec fn activated(self, tag: Seq<char>) -> SlotView {
        if self.has(tag) {
            SlotView { versions: self.versions, active: Some(tag) }
        } else {
            self
        }
    }

    /// The subtree once its pointer was removed.
    pub open spec fn deactivated(self) -> SlotView {
        SlotView { versions: self.versions, active: None }
    }
}

/// The installed set under one root directory.
pub struct StoreView {
    pub root: Seq<char>,
    pub rust: SlotView,
    pub cpp: SlotView,
    pub cargo_risczero: SlotView,
}

impl StoreView {
    pub open spec fn wf(self) -> bool {
        self.rust.wf() && self.cpp.wf() && self.cargo_risczero.wf()
    }

    /// The subtree of `kind`.
    pub open spec fn slot(self, kind: Kind) -> SlotView {
        match kind {
            Kind::Toolchain(ToolchainKind::Rust) => self.rust,
            Kind::Toolchain(ToolchainKind::Cpp) => self.cpp,
            Kind::Extension(ExtensionKind::CargoRiscZero) => self.cargo_risczero,
        }
    }

    /// This store with the subtree of `kind` replaced.
    pub open spec fn with(self, kind: Kind, slot: SlotView) -> StoreView {
        match kind {
            Kind::Toolchain(ToolchainKind::Rust) => StoreView { rust: slot, ..self },
            Kind::Toolchain(ToolchainKind::Cpp) => StoreView { cpp: slot, ..self },
            Kind::Extension(ExtensionKind::CargoRiscZero) => StoreView {
                cargo_risczero: slot,
                ..self
            },
        }
    }

    pub open spec fn has(self, kind: Kind, tag: Seq<char>) -> bool {
        self.slot(kind).has(tag)
    }

    pub open spec fn promoted(self, kind: Kind, tag: Seq<char>) -> StoreView {
        self.with(kind, self.slot(kind).promoted(tag))
    }

    pub open spec fn removed(self, kind: Kind, tag: Seq<char>) -> StoreView {
        self.with(kind, self.slot(kind).removed(tag))
    }

    pub open spec fn activated(self, kind: Kind, tag: Seq<char>) -> StoreView {
        self.with(kind, self.slot(kind).activated(tag))
    }

    pub open spec fn deactivated(self, kind: Kind) -> StoreView {
        self.with(kind, self.slot(kind).deactivated())
    }

    /// The directory of version `tag` of `kind`.
    pub open spec fn version_dir(self, kind: Kind, tag: Seq<char>) -> Seq<char> {
        self.root + "/"@ + kind_name(kind) + "/"@ + tag
    }

    /// The entry that holds the active pointer of `kind`.
    pub open spec fn pointer(self, kind: Kind) -> Seq<char> {
        self.root + "/"@ + kind_name(kind) + ".active"@
    }

    /// Version `tag` of `kind` as an entry of the inventory.
    pub open spec fn entry(self, kind: Kind, tag: Seq<char>) -> InstalledEntryView {
        InstalledEntryView {
            kind,
            version: tag,
            install_path: self.version_dir(kind, tag),
            is_active: self.slot(kind).active == Some(tag),
        }
    }

    /// The installed versions of `kind`, in the order in which they came.
    pub open spec fn entries(self, kind: Kind) -> Seq<InstalledEntryView> {
        Seq::new(
            self.slot(kind).versions.len(),
            |i: int| self.entry(kind, self.slot(kind).versions[i]),
        )
    }

    /// Whether the active version of the toolchain that `host` names spells a
    /// version that is not older than the one `host` asks for.
    pub open spec fn satisfies(self, host: HostRequirement) -> bool {
        match self.slot(Kind::Toolchain(host.toolchain)).active {
            Some(a) => match version_of(a) {
                Some(v) => !v.precedes(host.minimum),
                None => false,
            },
            None => false,
        }
    }

    /// The store that a scan of the root directory gives: the first `n` of the
    /// directories found are recorded in turn.
    pub open spec fn with_dirs(self, dirs: Seq<(Kind, Seq<char>)>, n: int) -> StoreView
        decreases n,
    {
        if n <= 0 {
            self
        } else {
            self.with_dirs(dirs, n - 1).promoted(dirs[n - 1].0, dirs[n - 1].1)
        }
    }

    /// The store that a scan of the root directory gives: the first `n` of the
    /// pointers found are recorded in turn.
    pub open spec fn with_pointers(self, pointers: Seq<(Kind, Seq<char>)>, n: int) -> StoreView
        decreases n,
    {
        if n <= 0 {
            self
        } else {
            self.with_pointers(pointers, n - 1).activated(pointers[n - 1].0, pointers[n - 1].1)
        }
    }

    /// The installed versions of the toolchains.
    pub open spec fn toolchains(self) -> Seq<InstalledEntryView> {
        self.entries(Kind::Toolchain(ToolchainKind::Rust)) + self.entries(
            Kind::Toolchain(ToolchainKind::Cpp),
        )
    }

    /// The inventory: of one kind, or of all of them, toolchains first.
    pub open spec fn listing(self, kind: Option<Kind>) -> Seq<InstalledEntryView> {
        match kind {
            Some(k) => self.entries(k),
            None => self.entries(Kind::Toolchain(ToolchainKind::Rust)) + self.entries(
                Kind::Toolchain(ToolchainKind::Cpp),
            ) + self.entries(Kind::Extension(ExtensionKind::CargoRiscZero)),
        }
    }
}

/// The store of a root directory that holds nothing.
pub open spec fn empty_store(root: Seq<char>) -> StoreView {
    let nothing = SlotView { versions: Seq::empty(), active: None };
    StoreView { root, rust: nothing, cpp: nothing, cargo_risczero: nothing }
}

/// The views of what a scan found, in order.
pub open spec fn pairs_view(found: Seq<(Kind, String)>) -> Seq<(Kind, Seq<char>)> {
    found.map_values(|p: (Kind, String)| (p.0, p.1@))
}

/// The failure for a version that is not installed.
pub open spec fn not_installed(kind: Kind, tag: Seq<char>) -> ErrorView {
    ErrorView {
        class: ErrorClass::NotFound,
        phase: Phase::Activate,
        kind: Some(kind),
        version: Some(tag),
        detail: "this version is not installed"@,
    }
}

struct Slot {
    versions: Vec<String>,
    active: Option<String>,
}

impl View for Slot {
    type V = SlotView;

    closed spec fn view(&self) -> SlotView {
        SlotView { versions: views_of(self.versions@), active: opt_view(self.active) }
    }
}

impl Slot {
    fn new() -> (slot: Slot)
        ensures
            slot@.wf(),
            slot@.versions.len() == 0,
            slot@.active is None,
    {
        Slot { versions: Vec::new(), active: None }
    }

    fn position(&self, tag: &str) -> (r: Option<usize>)
        requires
            self@.wf(),
        ensures
            match r {
                Some(i) => self@.has(tag@) && i == self@.position(tag@) && i < self.versions.len()
                    && self.versions[i as int]@ == tag@,
                None => !self@.has(tag@),
            },
    {
        let mut i: usize = 0;
        while i < self.versions.len()
            invariant
                i <= self.versions.len(),
                self@.wf(),
                forall|j: int| 0 <= j < i ==> self@.versions[j] != tag@,
            decreases self.versions.len() - i,
        {
            if same_text(self.versions[i].as_str(), tag) {
                proof {
                    assert(self@.versions[i as int] == tag@);
                    let c = self@.position(tag@);
                    assert(self@.versions[c] == tag@);
                }
                return Some(i);
            }
            i += 1;
        }
        None
    }

    fn is_active(&self, tag: &str) -> (r: bool)
        ensures
            r == (self@.active == Some(tag@)),
    {
        match &self.active {
            Some(a) => same_text(a.as_str(), tag),
            None => false,
        }
    }

    fn promote(&mut self, tag: &str)
        requires
            old(self)@.wf(),
        ensures
            final(self)@.wf(),
            final(self)@ == old(self)@.promoted(tag@),
    {
        if safe_name(tag) && self.position(tag).is_none() {
            let ghost before = self@;
            self.versions.push(String::from_str(tag));
            proof {
                assert(self@.versions =~= before.versions.push(tag@));
                assert(self@.active matches Some(a) ==> self@.versions.contains(a)) by {
                    if let Some(a) = self@.active {
                        let i = choose|i: int| 0 <= i < before.versions.len() && before.versions[i] == a;
                        assert(self@.versions[i] == a);
                    }
                }
            }
        }
    }

    fn remove(&mut self, tag: &str)
        requires
            old(self)@.wf(),
        ensures
            final(self)@.wf(),
            final(self)@ == old(self)@.removed(tag@),
    {
        match self.position(tag) {
            Some(i) => {
                let ghost before = self@;
                self.versions.remove(i);
                if self.is_active(tag) {
                    self.active = None;
                }
                proof {
                    assert(self@.versions =~= before.versions.remove(i as int));
                    lemma_removed_wf(before, tag@);
                }
            },
            None => {},
        }
    }

    fn activate(&mut self, tag: &str) -> (r: bool)
        requires
            old(self)@.wf(),
        ensures
            final(self)@.wf(),
            final(self)@ == old(self)@.activated(tag@),
            r == old(self)@.has(tag@),
    {
        match self.position(tag) {
            Some(_) => {
                self.active = Some(String::from_str(tag));
                true
            },
            None => false,
        }
    }

    fn deactivate(&mut self)
        requires
            old(self)@.wf(),
        ensures
            final(self)@.wf(),
            final(self)@ == old(self)@.deactivated(),
    {
        self.active = None;
    }
}

/// Removing a directory keeps a subtree well formed.
pub proof fn lemma_removed_wf(slot: SlotView, tag: Seq<char>)
    requires
        slot.wf(),
    ensures
        slot.removed(tag).wf(),
        !slot.removed(tag).has(tag),
        forall|other: Seq<char>| other != tag ==> slot.removed(tag).has(other) == slot.has(other),
{
    if slot.has(tag) {
        let p = slot.position(tag);
        let after = slot.removed(tag);
        assert forall|i: int| 0 <= i < after.versions.len() implies #[trigger] after.versions[i]
            == slot.versions[if i < p {
            i
        } else {
            i + 1
        }] by {}
        assert forall|i: int, j: int|
            0 <= i < after.versions.len() && 0 <= j < after.versions.len()
                && #[trigger] after.versions[i] == #[trigger] after.versions[j] implies i == j by {
            let i0 = if i < p { i } else { i + 1 };
            let j0 = if j < p { j } else { j + 1 };
            assert(after.versions[i] == slot.versions[i0]);
            assert(after.versions[j] == slot.versions[j0]);
        }
        assert forall|i: int| 0 <= i < after.versions.len() implies is_safe_name(
            #[trigger] after.versions[i],
        ) by {
            let i0 = if i < p { i } else { i + 1 };
            assert(after.versions[i] == slot.versions[i0]);
        }
        assert forall|other: Seq<char>| other != tag implies after.has(other) == slot.has(
            other,
        ) by {
            if slot.has(other) {
                let k = choose|k: int| 0 <= k < slot.versions.len() && slot.versions[k] == other;
                let k1 = if k < p { k } else { k - 1 };
                assert(after.versions[k1] == other);
            }
            if after.has(other) {
                let k = choose|k: int| 0 <= k < after.versions.len() && after.versions[k] == other;
                let k0 = if k < p { k } else { k + 1 };
                assert(slot.versions[k0] == other);
            }
        }
        if after.has(tag) {
            let k = choose|k: int| 0 <= k < after.versions.len() && after.versions[k] == tag;
            let k0 = if k < p { k } else { k + 1 };
            assert(slot.versions[k0] == tag);
        }
        if let Some(a) = after.active {
            assert(slot.has(a));
        }
    }
}

/// Promoting a directory keeps a subtree well formed.
pub proof fn lemma_promoted_wf(slot: SlotView, tag: Seq<char>)
    requires
        slot.wf(),
    ensures
        slot.promoted(tag).wf(),
        is_safe_name(tag) ==> slot.promoted(tag).has(tag),
        forall|other: Seq<char>| slot.has(other) ==> slot.promoted(tag).has(other),
{
    let after = slot.promoted(tag);
    if is_safe_name(tag) && !slot.has(tag) {
        assert(after.versions[slot.versions.len() as int] == tag);
        assert forall|other: Seq<char>| slot.has(other) implies after.has(other) by {
            let k = choose|k: int| 0 <= k < slot.versions.len() && slot.versions[k] == other;
            assert(after.versions[k] == other);
        }
        if let Some(a) = after.active {
            assert(slot.has(a));
        }
    }
}

/// The installed versions and active pointers under one root directory.
pub struct Store {
    root: String,
    rust: Slot,
    cpp: Slot,
    cargo_risczero: Slot,
}

impl View for Store {
    type V = StoreView;

    closed spec fn view(&self) -> StoreView {
        StoreView {
            root: self.root@,
            rust: self.rust@,
            cpp: self.cpp@,
            cargo_risczero: self.cargo_risczero@,
        }
    }
}

impl Store {
    /// The store of a root directory that holds nothing yet.
    pub fn new(root: String) -> (store: Store)
        ensures
            store@.wf(),
            store@.root == root@,
            forall|kind: Kind|
                (#[trigger] store@.slot(kind)).versions.len() == 0 && store@.slot(kind).active
                    is None,
    {
        Store { root, rust: Slot::new(), cpp: Slot::new(), cargo_risczero: Slot::new() }
    }

    fn slot(&self, kind: Kind) -> (slot: &Slot)
        ensures
            slot@ == self@.slot(kind),
    {
        match kind {
            Kind::Toolchain(ToolchainKind::Rust) => &self.rust,
            Kind::Toolchain(ToolchainKind::Cpp) => &self.cpp,
            Kind::Extension(ExtensionKind::CargoRiscZero) => &self.cargo_risczero,
        }
    }

    /// The store that a scan of `root` gives. `dirs` are the directories found in the
    /// subtree of each kind, `pointers` what the pointers found refer to. A
    /// directory whose name no version could have, and one listed twice, is passed
    /// over; so is a pointer to a version that is not there.
    pub fn from_scan(root: String, dirs: &Vec<(Kind, String)>, pointers: &Vec<(Kind, String)>) -> (store:
        Store)
        ensures
            store@.wf(),
            store@ == empty_store(root@).with_dirs(pairs_view(dirs@), dirs.len() as int).with_pointers(
                pairs_view(pointers@),
                pointers.len() as int,
            ),
    {
        let mut store = Store::new(root);
        assert(store@ == empty_store(root@)) by {
            assert(store@.slot(Kind::Toolchain(ToolchainKind::Rust)).versions =~= Seq::empty());
            assert(store@.slot(Kind::Toolchain(ToolchainKind::Cpp)).versions =~= Seq::empty());
            assert(store@.slot(Kind::Extension(ExtensionKind::CargoRiscZero)).versions
                =~= Seq::empty());
        }
        let mut i: usize = 0;
        while i < dirs.len()
            invariant
                i <= dirs.len(),
                store@.wf(),
                store@ == empty_store(root@).with_dirs(pairs_view(dirs@), i as int),
            decreases dirs.len() - i,
        {
            assert(pairs_view(dirs@)[i as int] == (dirs@[i as int].0, dirs@[i as int].1@));
            store.promote(dirs[i].0, dirs[i].1.as_str());
            i += 1;
        }
        let ghost base = store@;
        let mut k: usize = 0;
        while k < pointers.len()
            invariant
                k <= pointers.len(),
                store@.wf(),
                store@ == base.with_pointers(pairs_view(pointers@), k as int),
            decreases pointers.len() - k,
        {
            assert(pairs_view(pointers@)[k as int] == (pointers@[k as int].0, pointers@[k as int].1@));
            let _ = store.activate(pointers[k].0, pointers[k].1.as_str());
            k += 1;
        }
        store
    }

    /// Whether the active version of the toolchain that `host` names is one that
    /// `host` accepts.
    pub fn satisfies(&self, host: &HostRequirement) -> (r: bool)
        ensures
            r == self@.satisfies(*host),
    {
        match &self.slot(Kind::Toolchain(host.toolchain)).active {
            Some(a) => match Version::parse(a.as_str()) {
                Some(v) => !v.older_than(&host.minimum),
                None => false,
            },
            None => false,
        }
    }

    /// The root directory.
    pub fn root(&self) -> (root: &str)
        ensures
            root@ == self@.root,
    {
        self.root.as_str()
    }

    /// The directory of version `tag` of `kind`.
    pub fn version_dir(&self, kind: Kind, tag: &str) -> (path: String)
        ensures
            path@ == self@.version_dir(kind, tag@),
    {
        let mut path = self.root.clone();
        path.append("/");
        path.append(kind.to_str());
        path.append("/");
        path.append(tag);
        path
    }

    /// The entry that holds the active pointer of `kind`.
    pub fn pointer(&self, kind: Kind) -> (path: String)
        ensures
            path@ == self@.pointer(kind),
    {
        let mut path = self.root.clone();
        path.append("/");
        path.append(kind.to_str());
        path.append(".active");
        path
    }

    /// Whether version `tag` of `kind` is installed.
    pub fn contains(&self, kind: Kind, tag: &str) -> (r: bool)
        requires
            self@.wf(),
        ensures
            r == self@.has(kind, tag@),
    {
        self.slot(kind).position(tag).is_some()
    }

    /// The number of installed versions of `kind`.
    pub fn count(&self, kind: Kind) -> (n: usize)
        ensures
            n == self@.slot(kind).versions.len(),
    {
        self.slot(kind).versions.len()
    }

    /// The version of `kind` at place `i` among its installed versions.
    pub fn version_at(&self, kind: Kind, i: usize) -> (tag: String)
        requires
            i < self@.slot(kind).versions.len(),
        ensures
            tag@ == self@.slot(kind).versions[i as int],
    {
        self.slot(kind).versions[i].clone()
    }

    /// The version that the pointer of `kind` refers to, if there is a pointer.
    pub fn active(&self, kind: Kind) -> (tag: Option<String>)
        ensures
            opt_view(tag) == self@.slot(kind).active,
    {
        match &self.slot(kind).active {
            Some(a) => Some(a.clone()),
            None => None,
        }
    }

    /// Version `tag` of `kind` as an entry of the inventory, whether installed or not.
    pub fn describe(&self, kind: Kind, tag: &str) -> (e: InstalledEntry)
        ensures
            e@ == self@.entry(kind, tag@),
    {
        InstalledEntry {
            kind,
            version: String::from_str(tag),
            install_path: self.version_dir(kind, tag),
            is_active: self.slot(kind).is_active(tag),
        }
    }

    /// The entry of version `tag` of `kind`, if it is installed.
    pub fn entry(&self, kind: Kind, tag: &str) -> (e: Option<InstalledEntry>)
        requires
            self@.wf(),
        ensures
            opt_installed(e) == if self@.has(kind, tag@) {
                Some(self@.entry(kind, tag@))
            } else {
                None
            },
    {
        if self.contains(kind, tag) {
            Some(self.describe(kind, tag))
        } else {
            None
        }
    }

    /// Records that a directory named `tag` was promoted into the subtree of `kind`.
    pub fn promote(&mut self, kind: Kind, tag: &str)
        requires
            old(self)@.wf(),
        ensures
            final(self)@.wf(),
            final(self)@ == old(self)@.promoted(kind, tag@),
    {
        match kind {
            Kind::Toolchain(ToolchainKind::Rust) => self.rust.promote(tag),
            Kind::Toolchain(ToolchainKind::Cpp) => self.cpp.promote(tag),
            Kind::Extension(ExtensionKind::CargoRiscZero) => self.cargo_risczero.promote(tag),
        }
    }

    /// Records that the directory of version `tag` of `kind` was removed. Where the
    /// pointer referred to it, the kind is left without an active version.
    pub fn remove(&mut self, kind: Kind, tag: &str)
        requires
            old(self)@.wf(),
        ensures
            final(self)@.wf(),
            final(self)@ == old(self)@.removed(kind, tag@),
    {
        match kind {
            Kind::Toolchain(ToolchainKind::Rust) => self.rust.remove(tag),
            Kind::Toolchain(ToolchainKind::Cpp) => self.cpp.remove(tag),
            Kind::Extension(ExtensionKind::CargoRiscZero) => self.cargo_risczero.remove(tag),
        }
    }

    /// Records that the pointer of `kind` was swapped to version `tag`. A version that
    /// is not installed cannot be activated: that is `NotFound`, and nothing changes.
    pub fn activate(&mut self, kind: Kind, tag: &str) -> (r: Result<(), Error>)
        requires
            old(self)@.wf(),
        ensures
            final(self)@.wf(),
            final(self)@ == old(self)@.activated(kind, tag@),
            match r {
                Ok(_) => old(self)@.has(kind, tag@),
                Err(e) => !old(self)@.has(kind, tag@) && e@ == not_installed(kind, tag@),
            },
    {
        let done = match kind {
            Kind::Toolchain(ToolchainKind::Rust) => self.rust.activate(tag),
            Kind::Toolchain(ToolchainKind::Cpp) => self.cpp.activate(tag),
            Kind::Extension(ExtensionKind::CargoRiscZero) => self.cargo_risczero.activate(tag),
        };
        if done {
            Ok(())
        } else {
            Err(
                Error {
                    class: ErrorClass::NotFound,
                    phase: Phase::Activate,
                    kind: Some(kind),
                    version: Some(String::from_str(tag)),
                    detail: String::from_str("this version is not installed"),
                },
            )
        }
    }

    /// Records that the pointer of `kind` was removed. The version directories stay.
    pub fn deactivate(&mut self, kind: Kind)
        requires
            old(self)@.wf(),
        ensures
            final(self)@.wf(),
            final(self)@ == old(self)@.deactivated(kind),
    {
        match kind {
            Kind::Toolchain(ToolchainKind::Rust) => self.rust.deactivate(),
            Kind::Toolchain(ToolchainKind::Cpp) => self.cpp.deactivate(),
            Kind::Extension(ExtensionKind::CargoRiscZero) => self.cargo_risczero.deactivate(),
        }
    }

    fn append_entries(&self, kind: Kind, out: &mut Vec<InstalledEntry>)
        ensures
            installed_views(final(out)@) == installed_views(old(out)@) + self@.entries(kind),
    {
        let ghost start = installed_views(out@);
        let n = self.count(kind);
        let mut i: usize = 0;
        while i < n
            invariant
                i <= n,
                n == self@.slot(kind).versions.len(),
                installed_views(out@) == start + self@.entries(kind).subrange(0, i as int),
            decreases n - i,
        {
            let tag = self.version_at(kind, i);
            let e = self.describe(kind, tag.as_str());
            let ghost before = installed_views(out@);
            out.push(e);
            proof {
                assert(installed_views(out@) =~= before.push(e@));
                assert(self@.entries(kind).subrange(0, i + 1) =~= self@.entries(kind).subrange(
                    0,
                    i as int,
                ).push(self@.entries(kind)[i as int]));
                assert(installed_views(out@) =~= start + self@.entries(kind).subrange(0, i + 1));
            }
            i += 1;
        }
        proof {
            assert(self@.entries(kind).subrange(0, n as int) =~= self@.entries(kind));
            assert(start + Seq::<InstalledEntryView>::empty() =~= start);
        }
    }

    /// The installed versions of the toolchains, each with its path and whether it
    /// is the active one.
    pub fn toolchains(&self) -> (entries: Vec<InstalledEntry>)
        ensures
            installed_views(entries@) == self@.toolchains(),
    {
        let mut out: Vec<InstalledEntry> = Vec::new();
        assert(installed_views(out@) =~= Seq::<InstalledEntryView>::empty());
        self.append_entries(Kind::Toolchain(ToolchainKind::Rust), &mut out);
        self.append_entries(Kind::Toolchain(ToolchainKind::Cpp), &mut out);
        assert(installed_views(out@) =~= self@.toolchains());
        out
    }

    /// The inventory: the installed versions of one kind, or of all kinds, toolchains
    /// first, each with its path and whether it is the active one.
    pub fn list(&self, kind: Option<Kind>) -> (entries: Vec<InstalledEntry>)
        ensures
            installed_views(entries@) == self@.listing(kind),
    {
        let mut out: Vec<InstalledEntry> = Vec::new();
        assert(installed_views(out@) =~= Seq::<InstalledEntryView>::empty());
        match kind {
            Some(k) => {
                self.append_entries(k, &mut out);
                assert(Seq::<InstalledEntryView>::empty() + self@.entries(k) =~= self@.entries(k));
            },
            None => {
                self.append_entries(Kind::Toolchain(ToolchainKind::Rust), &mut out);
                self.append_entries(Kind::Toolchain(ToolchainKind::Cpp), &mut out);
                self.append_entries(Kind::Extension(ExtensionKind::CargoRiscZero), &mut out);
                assert(installed_views(out@) =~= self@.listing(kind));
            },
        }
        out
    }
}

/// The layout is unambiguous: different versions have different directories,
/// different kinds have different pointers, and no pointer is where a version's
/// directory is.
pub proof fn lemma_layout_is_unambiguous(
    store: StoreView,
    kind: Kind,
    tag: Seq<char>,
    other: Kind,
    other_tag: Seq<char>,
)
    ensures
        store.version_dir(kind, tag) == store.version_dir(other, other_tag) ==> kind == other && tag
            == other_tag,
        store.pointer(kind) == store.pointer(other) ==> kind == other,
        store.pointer(kind) != store.version_dir(other, other_tag),
{
    reveal_strlit("/");
    reveal_strlit(".active");
    lemma_names_are_plain(kind);
    lemma_names_are_plain(other);
    let p = store.root + "/"@;
    let a = kind_name(kind);
    let c = kind_name(other);
    assert(store.version_dir(kind, tag) =~= p + (a + "/"@ + tag));
    assert(store.version_dir(other, other_tag) =~= p + (c + "/"@ + other_tag));
    assert(store.pointer(kind) =~= p + (a + ".active"@));
    assert(store.pointer(other) =~= p + (c + ".active"@));
    if store.version_dir(kind, tag) == store.version_dir(other, other_tag) {
        lemma_same_prefix(p, a + "/"@ + tag, c + "/"@ + other_tag);
        lemma_split_at_slash(a, tag, c, other_tag);
        lemma_names_distinct(kind, other);
    }
    if store.pointer(kind) == store.pointer(other) {
        lemma_same_prefix(p, a + ".active"@, c + ".active"@);
        assert((a + ".active"@).len() == a.len() + 7);
        assert((c + ".active"@).len() == c.len() + 7);
    }
    if store.pointer(kind) == store.version_dir(other, other_tag) {
        lemma_same_prefix(p, a + ".active"@, c + "/"@ + other_tag);
        let x = a + ".active"@;
        let y = c + "/"@ + other_tag;
        let at = c.len() as int;
        assert(y[at] == '/');
        assert(x[at] == '/');
        if at < a.len() {
            assert(x[at] == a[at]);
        } else {
            assert(x[at] == ".active"@[at - a.len()]);
        }
    }
}

/// At most one installed version of a kind is active.
pub proof fn lemma_one_active(store: StoreView, kind: Kind, i: int, j: int)
    requires
        store.wf(),
        0 <= i < store.entries(kind).len(),
        0 <= j < store.entries(kind).len(),
        store.entries(kind)[i].is_active,
        store.entries(kind)[j].is_active,
    ensures
        i == j,
{
    assert(store.slot(kind).wf());
    assert(store.slot(kind).versions[i] == store.slot(kind).versions[j]);
}

/// Recording a promotion, a removal or a step of the link manager keeps the store
/// well formed and leaves the other kinds as they were.
pub proof fn lemma_store_steps(store: StoreView, kind: Kind, tag: Seq<char>)
    requires
        store.wf(),
    ensures
        store.promoted(kind, tag).wf(),
        store.removed(kind, tag).wf(),
        store.activated(kind, tag).wf(),
        store.deactivated(kind).wf(),
        forall|other: Kind|
            other != kind ==> {
                &&& #[trigger] store.promoted(kind, tag).slot(other) == store.slot(other)
                &&& store.removed(kind, tag).slot(other) == store.slot(other)
                &&& store.activated(kind, tag).slot(other) == store.slot(other)
                &&& store.deactivated(kind).slot(other) == store.slot(other)
            },
{
    assert(store.slot(kind).wf());
    lemma_promoted_wf(store.slot(kind), tag);
    lemma_removed_wf(store.slot(kind), tag);
}

/// After a version was promoted and then removed, it is no longer listed, and the
/// pointer is gone if it referred to that version.
pub proof fn lemma_promote_then_remove(store: StoreView, kind: Kind, tag: Seq<char>)
    requires
        store.wf(),
    ensures
        !store.promoted(kind, tag).removed(kind, tag).has(kind, tag),
        store.promoted(kind, tag).activated(kind, tag).removed(kind, tag).slot(kind).active
            is None || !is_safe_name(tag),
        forall|i: int|
            0 <= i < store.promoted(kind, tag).removed(kind, tag).entries(kind).len() ==> (
            #[trigger] store.promoted(kind, tag).removed(kind, tag).entries(kind)[i]).version
                != tag,
{
    let a = store.promoted(kind, tag);
    lemma_store_steps(store, kind, tag);
    assert(store.slot(kind).wf());
    lemma_promoted_wf(store.slot(kind), tag);
    assert(a.slot(kind) == store.slot(kind).promoted(tag));
    lemma_removed_wf(a.slot(kind), tag);
    let b = a.removed(kind, tag);
    assert(b.slot(kind) == a.slot(kind).removed(tag));
    assert forall|i: int| 0 <= i < b.entries(kind).len() implies (#[trigger] b.entries(
        kind,
    )[i]).version != tag by {
        if b.entries(kind)[i].version == tag {
            assert(b.slot(kind).versions[i] == tag);
        }
    }
    let c = a.activated(kind, tag);
    assert(c.slot(kind) == a.slot(kind).activated(tag));
    assert(c.removed(kind, tag).slot(kind) == c.slot(kind).removed(tag));
}

} // verus!
