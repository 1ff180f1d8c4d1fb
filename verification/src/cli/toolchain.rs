//! The `toolchain` subcommands.

use crate::catalog::{VersionSpec, VersionSpecView};
use crate::engine::Operation;
use crate::error::{Error, ErrorView};
use crate::kind::{toolchain_named, unknown_name, Kind, ToolchainKind};
use crate::model::OperationView;
use crate::text::opt_view;
use vstd::prelude::*;

verus! {

/// A subcommand of `toolchain`, as typed.
#[derive(Debug, PartialEq, Eq)]
pub enum ToolchainSubcmd {
    /// List installed toolchains.
    List,
    /// Install a toolchain, by name (`rust` or `cpp`) and, if given, version tag.
    /// With `force`, existing installations and downloads are removed.
    Install { toolchain: String, version: Option<String>, force: bool },
    /// Uninstall a toolchain, by name.
    Uninstall { toolchain: String },
    /// Build a toolchain, by name and, if given, version tag or commit hash.
    Build { toolchain: String, version: Option<String> },
}

pub enum ToolchainSubcmdView {
    List,
    Install { toolchain: Seq<char>, version: Option<Seq<char>>, force: bool },
    Uninstall { toolchain: Seq<char> },
    Build { toolchain: Seq<char>, version: Option<Seq<char>> },
}

impl View for ToolchainSubcmd {
    type V = ToolchainSubcmdView;

    open spec fn view(&self) -> ToolchainSubcmdView {
        match self {
            ToolchainSubcmd::List => ToolchainSubcmdView::List,
            ToolchainSubcmd::Install { toolchain, version, force } => ToolchainSubcmdView::Install {
                toolchain: toolchain@,
                version: opt_view(*version),
                force: *force,
            },
            ToolchainSubcmd::Uninstall { toolchain } => ToolchainSubcmdView::Uninstall {
                toolchain: toolchain@,
            },
            ToolchainSubcmd::Build { toolchain, version } => ToolchainSubcmdView::Build {
                toolchain: toolchain@,
                version: opt_view(*version),
            },
        }
    }
}

/// What a version given to `install` asks for: that tag, or the latest stable
/// release where none is given.
pub open spec fn install_request(version: Option<Seq<char>>) -> VersionSpecView {
    match version {
        Some(t) => VersionSpecView::Tag(t),
        None => VersionSpecView::Latest,
    }
}

/// What a version given to `build` asks for: that revision of the sources, or the
/// latest stable release where none is given.
pub open spec fn build_request(version: Option<Seq<char>>) -> VersionSpecView {
    match version {
        Some(r) => VersionSpecView::Revision(r),
        None => VersionSpecView::Latest,
    }
}

/// The operation that a subcommand asks for. A name that is not that of a
/// toolchain is `NotFound`.
pub open spec fn operation_of(subcmd: ToolchainSubcmdView) -> Result<OperationView, ErrorView> {
    match subcmd {
        ToolchainSubcmdView::List => Ok(OperationView::ListToolchains),
        ToolchainSubcmdView::Install { toolchain, version, force } => match toolchain_named(
            toolchain,
        ) {
            Some(t) => Ok(
                OperationView::Install {
                    kind: Kind::Toolchain(t),
                    request: install_request(version),
                    force,
                },
            ),
            None => Err(unknown_name(toolchain)),
        },
        ToolchainSubcmdView::Uninstall { toolchain } => match toolchain_named(toolchain) {
            Some(t) => Ok(OperationView::Uninstall { kind: Kind::Toolchain(t) }),
            None => Err(unknown_name(toolchain)),
        },
        ToolchainSubcmdView::Build { toolchain, version } => match toolchain_named(toolchain) {
            Some(t) => Ok(
                OperationView::Build { kind: Kind::Toolchain(t), request: build_request(version) },
            ),
            None => Err(unknown_name(toolchain)),
        },
    }
}

/// The view of what `handler` gives.
pub open spec fn handled(r: Result<Operation, Error>) -> Result<OperationView, ErrorView> {
    match r {
        Ok(op) => Ok(op@),
        Err(e) => Err(e@),
    }
}

/// Turns a subcommand into the operation that the engine is to begin.
pub fn handler(subcmd: ToolchainSubcmd) -> (r: Result<Operation, Error>)
    ensures
        handled(r) == operation_of(subcmd@),
{
    match subcmd {
        ToolchainSubcmd::List => Ok(Operation::ListToolchains),
        ToolchainSubcmd::Install { toolchain, version, force } => {
            match ToolchainKind::parse(toolchain.as_str()) {
                Ok(t) => Ok(
                    Operation::Install {
                        kind: Kind::Toolchain(t),
                        request: VersionSpec::for_install(version),
                        force,
                    },
                ),
                Err(e) => Err(e),
            }
        },
        ToolchainSubcmd::Uninstall { toolchain } => {
            match ToolchainKind::parse(toolchain.as_str()) {
                Ok(t) => Ok(Operation::Uninstall { kind: Kind::Toolchain(t) }),
                Err(e) => Err(e),
            }
        },
        ToolchainSubcmd::Build { toolchain, version } => {
            match ToolchainKind::parse(toolchain.as_str()) {
                Ok(t) => Ok(
                    Operation::Build {
                        kind: Kind::Toolchain(t),
                        request: VersionSpec::for_build(version),
                    },
                ),
                Err(e) => Err(e),
            }
        },
    }
}

} // verus!
