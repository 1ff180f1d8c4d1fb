//! The closed sets of things that can be installed, and their names.

use crate::error::{Error, ErrorClass, ErrorView, Phase};
use crate::text::same_text;
use vstd::prelude::*;
use vstd::string::*;

verus! {

/// A compiler toolchain with its own version line and active pointer.
#[derive(Clone, Copy, Debug, PartialEq, Eq, Structural)]
pub enum ToolchainKind {
    Rust,
    Cpp,
}

/// An add-on that is layered on a toolchain's active version.
#[derive(Clone, Copy, Debug, PartialEq, Eq, Structural)]
pub enum ExtensionKind {
    CargoRiscZero,
}

/// Anything the engine manages: a toolchain or an extension.
#[derive(Clone, Copy, Debug, PartialEq, Eq, Structural)]
pub enum Kind {
    Toolchain(ToolchainKind),
    Extension(ExtensionKind),
}

/// The name of a toolchain, as typed by the user and as used on disk.
pub open spec fn toolchain_name(kind: ToolchainKind) -> Seq<char> {
    match kind {
        ToolchainKind::Rust => "rust"@,
        ToolchainKind::Cpp => "cpp"@,
    }
}

/// The name of an extension, as typed by the user and as used on disk.
pub open spec fn extension_name(kind: ExtensionKind) -> Seq<char> {
    match kind {
        ExtensionKind::CargoRiscZero => "cargo-risczero"@,
    }
}

/// The name of a kind.
pub open spec fn kind_name(kind: Kind) -> Seq<char> {
    match kind {
        Kind::Toolchain(t) => toolchain_name(t),
        Kind::Extension(e) => extension_name(e),
    }
}

/// The toolchain of a name, if the name is that of one.
pub open spec fn toolchain_named(name: Seq<char>) -> Option<ToolchainKind> {
    if name == "rust"@ {
        Some(ToolchainKind::Rust)
    } else if name == "cpp"@ {
        Some(ToolchainKind::Cpp)
    } else {
        None
    }
}

/// The extension of a name, if the name is that of one.
pub open spec fn extension_named(name: Seq<char>) -> Option<ExtensionKind> {
    if name == "cargo-risczero"@ {
        Some(ExtensionKind::CargoRiscZero)
    } else {
        None
    }
}

/// The failure for a name that matches no kind.
pub open spec fn unknown_name(name: Seq<char>) -> ErrorView {
    ErrorView {
        class: ErrorClass::NotFound,
        phase: Phase::Resolve,
        kind: None,
        version: None,
        detail: name,
    }
}

fn unknown(name: &str) -> (e: Error)
    ensures
        e@ == unknown_name(name@),
{
    Error {
        class: ErrorClass::NotFound,
        phase: Phase::Resolve,
        kind: None,
        version: None,
        detail: String::from_str(name),
    }
}

/// The names of the kinds are pairwise different.
pub proof fn lemma_names_distinct(a: Kind, b: Kind)
    ensures
        kind_name(a) == kind_name(b) <==> a == b,
{
    reveal_strlit("rust");
    reveal_strlit("cpp");
    reveal_strlit("cargo-risczero");
    if a != b {
        assert(kind_name(a).len() != kind_name(b).len());
    }
}

/// The name of a kind holds neither slash nor dot, and the names differ in length.
pub proof fn lemma_names_are_plain(kind: Kind)
    ensures
        forall|i: int|
            0 <= i < kind_name(kind).len() ==> #[trigger] kind_name(kind)[i] != '/' && kind_name(
                kind,
            )[i] != '.',
        kind_name(kind).len() == match kind {
            Kind::Toolchain(ToolchainKind::Rust) => 4nat,
            Kind::Toolchain(ToolchainKind::Cpp) => 3nat,
            Kind::Extension(ExtensionKind::CargoRiscZero) => 14nat,
        },
{
    reveal_strlit("rust");
    reveal_strlit("cpp");
    reveal_strlit("cargo-risczero");
}

impl ToolchainKind {
    /// The toolchain's name.
    pub fn to_str(&self) -> (name: &'static str)
        ensures
            name@ == toolchain_name(*self),
    {
        match self {
            ToolchainKind::Rust => "rust",
            ToolchainKind::Cpp => "cpp",
        }
    }

    /// The toolchain of that name: `rust` or `cpp`. Any other name is `NotFound`.
    pub fn parse(name: &str) -> (r: Result<ToolchainKind, Error>)
        ensures
            match r {
                Ok(k) => toolchain_named(name@) == Some(k) && name@ == toolchain_name(k),
                Err(e) => toolchain_named(name@) is None && e@ == unknown_name(name@)
                    && forall|k: ToolchainKind| name@ != #[trigger] toolchain_name(k),
            },
    {
        proof {
            reveal_strlit("rust");
            reveal_strlit("cpp");
        }
        if same_text(name, "rust") {
            Ok(ToolchainKind::Rust)
        } else if same_text(name, "cpp") {
            Ok(ToolchainKind::Cpp)
        } else {
            Err(unknown(name))
        }
    }
}

impl ExtensionKind {
    /// The extension's name.
    pub fn to_str(&self) -> (name: &'static str)
        ensures
            name@ == extension_name(*self),
    {
        match self {
            ExtensionKind::CargoRiscZero => "cargo-risczero",
        }
    }

    /// The extension of that name: `cargo-risczero`. Any other name is `NotFound`.
    pub fn parse(name: &str) -> (r: Result<ExtensionKind, Error>)
        ensures
            match r {
                Ok(k) => extension_named(name@) == Some(k) && name@ == extension_name(k),
                Err(e) => extension_named(name@) is None && e@ == unknown_name(name@)
                    && forall|k: ExtensionKind| name@ != #[trigger] extension_name(k),
            },
    {
        if same_text(name, "cargo-risczero") {
            Ok(ExtensionKind::CargoRiscZero)
        } else {
            Err(unknown(name))
        }
    }
}

impl Kind {
    /// The kind's name.
    pub fn to_str(&self) -> (name: &'static str)
        ensures
            name@ == kind_name(*self),
    {
        match self {
            Kind::Toolchain(t) => t.to_str(),
            Kind::Extension(e) => e.to_str(),
        }
    }

    /// The kind of that name, toolchains first. Any other name is `NotFound`.
    pub fn parse(name: &str) -> (r: Result<Kind, Error>)
        ensures
            match r {
                Ok(k) => name@ == kind_name(k),
                Err(e) => e@ == unknown_name(name@) && forall|k: Kind|
                    name@ != #[trigger] kind_name(k),
            },
    {
        match ToolchainKind::parse(name) {
            Ok(t) => Ok(Kind::Toolchain(t)),
            Err(_) => match ExtensionKind::parse(name) {
                Ok(x) => Ok(Kind::Extension(x)),
                Err(e) => {
                    assert forall|k: Kind| name@ != #[trigger] kind_name(k) by {
                        match k {
                            Kind::Toolchain(t) => {
                                assert(name@ != toolchain_name(t));
                            },
                            Kind::Extension(x) => {
                                assert(name@ != extension_name(x));
                            },
                        }
                    }
                    Err(e)
                },
            },
        }
    }

    /// Every kind, toolchains first: the order in which an update of everything proceeds.
    pub fn all() -> (kinds: Vec<Kind>)
        ensures
            kinds@ == all_kinds(),
    {
        let mut kinds: Vec<Kind> = Vec::new();
        kinds.push(Kind::Toolchain(ToolchainKind::Rust));
        kinds.push(Kind::Toolchain(ToolchainKind::Cpp));
        kinds.push(Kind::Extension(ExtensionKind::CargoRiscZero));
        assert(kinds@ =~= all_kinds());
        kinds
    }
}

/// Every kind, toolchains first.
pub open spec fn all_kinds() -> Seq<Kind> {
    seq![
        Kind::Toolchain(ToolchainKind::Rust),
        Kind::Toolchain(ToolchainKind::Cpp),
        Kind::Extension(ExtensionKind::CargoRiscZero),
    ]
}

} // verus!
