//! Typed failures: what went wrong, for which kind and version, in which phase.

use crate::kind::{kind_name, Kind};
use crate::text::opt_view;
use vstd::prelude::*;
use vstd::string::*;

verus! {

/// The class of a failure.
#[derive(Clone, Copy, Debug, PartialEq, Eq, Structural)]
pub enum ErrorClass {
    /// An unknown kind name, or a version request that matches nothing.
    NotFound,
    /// The catalog, the source host or a download could not be reached.
    NetworkError,
    /// A checksum did not match.
    IntegrityError,
    /// A step on the disk failed, or what was unpacked has the wrong shape.
    FilesystemError,
    /// Source retrieval or the build subprocess failed.
    BuildError,
    /// The release asks for a host toolchain that is not the active one.
    Incompatible,
}

/// The phase of an operation in which a failure occurred.
#[derive(Clone, Copy, Debug, PartialEq, Eq, Structural)]
pub enum Phase {
    /// Version resolution.
    Resolve,
    /// The fetcher and the artifact cache.
    Fetch,
    /// The installer: unpacking, validation, promotion and removal.
    Extract,
    /// The build orchestrator.
    Build,
    /// The link manager.
    Activate,
}

/// A failure, with the context needed to render a precise message.
#[derive(Debug, PartialEq, Eq)]
pub struct Error {
    pub class: ErrorClass,
    pub phase: Phase,
    /// The kind concerned; `None` where a name matched no kind.
    pub kind: Option<Kind>,
    /// The version concerned, once one is known.
    pub version: Option<String>,
    /// The underlying cause, verbatim where it comes from outside.
    pub detail: String,
}

pub struct ErrorView {
    pub class: ErrorClass,
    pub phase: Phase,
    pub kind: Option<Kind>,
    pub version: Option<Seq<char>>,
    pub detail: Seq<char>,
}

impl View for Error {
    type V = ErrorView;

    open spec fn view(&self) -> ErrorView {
        ErrorView {
            class: self.class,
            phase: self.phase,
            kind: self.kind,
            version: opt_view(self.version),
            detail: self.detail@,
        }
    }
}

/// The name of a class of failures.
pub open spec fn class_name(class: ErrorClass) -> Seq<char> {
    match class {
        ErrorClass::NotFound => "not found"@,
        ErrorClass::NetworkError => "network error"@,
        ErrorClass::IntegrityError => "integrity error"@,
        ErrorClass::FilesystemError => "filesystem error"@,
        ErrorClass::BuildError => "build error"@,
        ErrorClass::Incompatible => "incompatible host"@,
    }
}

/// The name of a phase.
pub open spec fn phase_name(phase: Phase) -> Seq<char> {
    match phase {
        Phase::Resolve => "resolve"@,
        Phase::Fetch => "fetch"@,
        Phase::Extract => "extract"@,
        Phase::Build => "build"@,
        Phase::Activate => "activate"@,
    }
}

/// What a failure concerns: the kind, where one is known, and the version, where
/// one is known.
pub open spec fn subject(kind: Option<Kind>, version: Option<Seq<char>>) -> Seq<char> {
    let of_kind = match kind {
        Some(k) => " of "@ + kind_name(k),
        None => Seq::empty(),
    };
    match version {
        Some(v) => of_kind + " "@ + v,
        None => of_kind,
    }
}

/// The message of a failure: its class, its phase, what it concerns, and the cause.
pub open spec fn message_of(e: ErrorView) -> Seq<char> {
    class_name(e.class) + " in phase "@ + phase_name(e.phase) + subject(e.kind, e.version) + ": "@
        + e.detail
}

impl ErrorClass {
    /// The name of the class.
    pub fn to_str(&self) -> (name: &'static str)
        ensures
            name@ == class_name(*self),
    {
        match self {
            ErrorClass::NotFound => "not found",
            ErrorClass::NetworkError => "network error",
            ErrorClass::IntegrityError => "integrity error",
            ErrorClass::FilesystemError => "filesystem error",
            ErrorClass::BuildError => "build error",
            ErrorClass::Incompatible => "incompatible host",
        }
    }
}

impl Phase {
    /// The name of the phase.
    pub fn to_str(&self) -> (name: &'static str)
        ensures
            name@ == phase_name(*self),
    {
        match self {
            Phase::Resolve => "resolve",
            Phase::Fetch => "fetch",
            Phase::Extract => "extract",
            Phase::Build => "build",
            Phase::Activate => "activate",
        }
    }
}

impl Error {
    /// The message of the failure. It names the class, the phase, the kind and the
    /// version concerned, and gives the cause as it is.
    pub fn message(&self) -> (text: String)
        ensures
            text@ == message_of(self@),
    {
        let mut text = String::from_str(self.class.to_str());
        text.append(" in phase ");
        text.append(self.phase.to_str());
        let ghost head = text@;
        match self.kind {
            Some(k) => {
                text.append(" of ");
                text.append(k.to_str());
            },
            None => {},
        }
        match &self.version {
            Some(v) => {
                text.append(" ");
                text.append(v.as_str());
            },
            None => {},
        }
        assert(text@ =~= head + subject(self.kind, opt_view(self.version)));
        text.append(": ");
        text.append(self.detail.as_str());
        text
    }
}

impl Clone for Error {
    fn clone(&self) -> (r: Self)
        ensures
            r@ == self@,
    {
        Error {
            class: self.class,
            phase: self.phase,
            kind: self.kind,
            version: match &self.version {
                Some(v) => Some(v.clone()),
                None => None,
            },
            detail: self.detail.clone(),
        }
    }
}

} // verus!
