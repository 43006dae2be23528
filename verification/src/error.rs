//! The ways in which an operation of this library fails.

use vstd::prelude::*;

verus! {

/// A required key of a package descriptor.
#[derive(Debug, Clone, Copy, PartialEq, Eq, Structural)]
pub enum Field {
    Name,
    Version,
    Entrypoint,
}

/// Why an operation failed.
#[derive(Debug, Clone, PartialEq, Eq)]
pub enum Error {
    /// The descriptor is not a structured text document.
    MalformedDescriptor,
    /// A required key of the descriptor is absent or holds the wrong kind of
    /// value.
    MissingField { field: Field },
    /// The version, the bundle or the source that was asked for is not there.
    NotFound { path: String },
    /// The name is already a key of the registry.
    AlreadyRegistered { name: String },
    /// The name is not a key of the registry.
    UnknownPackage { name: String },
    /// The name cannot be the default: it is not a key of the registry.
    UnregisteredDefault { name: String },
    /// The descriptor in a version directory disagrees with the name or the
    /// version under which the directory was found.
    NameVersionMismatch { path: String },
    /// The descriptor names an entrypoint that is no file.
    EntrypointMissing { path: String },
    /// The host could not carry out a request on `path`.
    IoFailure { path: String, message: String },
    /// The store holds nothing that a clean could remove.
    NothingToClean,
}

/// The mathematical value of an [`Error`].
pub enum ErrorView {
    MalformedDescriptor,
    MissingField { field: Field },
    NotFound { path: Seq<char> },
    AlreadyRegistered { name: Seq<char> },
    UnknownPackage { name: Seq<char> },
    UnregisteredDefault { name: Seq<char> },
    NameVersionMismatch { path: Seq<char> },
    EntrypointMissing { path: Seq<char> },
    IoFailure { path: Seq<char>, message: Seq<char> },
    NothingToClean,
}

impl View for Error {
    type V = ErrorView;

    open spec fn view(&self) -> ErrorView {
        match self {
            Error::MalformedDescriptor => ErrorView::MalformedDescriptor,
            Error::MissingField { field } => ErrorView::MissingField { field: *field },
            Error::NotFound { path } => ErrorView::NotFound { path: path@ },
            Error::AlreadyRegistered { name } => ErrorView::AlreadyRegistered { name: name@ },
            Error::UnknownPackage { name } => ErrorView::UnknownPackage { name: name@ },
            Error::UnregisteredDefault { name } => ErrorView::UnregisteredDefault { name: name@ },
            Error::NameVersionMismatch { path } => ErrorView::NameVersionMismatch { path: path@ },
            Error::EntrypointMissing { path } => ErrorView::EntrypointMissing { path: path@ },
            Error::IoFailure { path, message } => ErrorView::IoFailure {
                path: path@,
                message: message@,
            },
            Error::NothingToClean => ErrorView::NothingToClean,
        }
    }
}

impl Error {
    /// A copy of this error.
    pub fn duplicate(&self) -> (copy: Error)
        ensures
            copy@ == self@,
    {
        match self {
            Error::MalformedDescriptor => Error::MalformedDescriptor,
            Error::MissingField { field } => Error::MissingField { field: *field },
            Error::NotFound { path } => Error::NotFound { path: path.clone() },
            Error::AlreadyRegistered { name } => Error::AlreadyRegistered { name: name.clone() },
            Error::UnknownPackage { name } => Error::UnknownPackage { name: name.clone() },
            Error::UnregisteredDefault { name } => Error::UnregisteredDefault {
                name: name.clone(),
            },
            Error::NameVersionMismatch { path } => Error::NameVersionMismatch {
                path: path.clone(),
            },
            Error::EntrypointMissing { path } => Error::EntrypointMissing { path: path.clone() },
            Error::IoFailure { path, message } => Error::IoFailure {
                path: path.clone(),
                message: message.clone(),
            },
            Error::NothingToClean => Error::NothingToClean,
        }
    }
}

} // verus!
