//! Vendoring of local Typst packages: discovery and validation of package
//! directories, the registry of package names, and the install and clean
//! engines of the versioned store.
//!
//! The library performs no input or output of its own. Every operation that
//! needs the file system is a small state machine: it hands out a
//! [`host::Request`], the caller performs it and hands back a
//! [`host::Reply`], until the operation finishes with its result. What an
//! operation does to a file system is stated against [`host::Disk`], a model
//! of the file system of a host that serves each request faithfully.
//!
//! - [`package`]: descriptors and their validation, the test whether a
//!   directory is a package, and the search for packages below a directory.
//! - [`manifest`]: the registry of package names.
//! - [`install`]: the installation of one package, of the packages of a
//!   directory, and of all versions of a registered package.
//! - [`util`]: the clean of a version, of a bundle, or of the store.
//! - [`store`]: the layout of the store.
//! - [`version`], [`document`], [`text`], [`error`], [`host`]: what the
//!   others stand on.

pub mod document;
pub mod error;
pub mod host;
pub mod install;
pub mod manifest;
pub mod package;
pub mod store;
pub mod text;
pub mod util;
pub mod version;
