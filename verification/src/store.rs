//! The layout of the versioned store: where a package of a given name and
//! version is installed, below the data directory of the user.
//!
//! A package is installed in `{data-dir}/typst/packages/local/{name}/{version}`.

use crate::text::{join, joined};
use crate::version::{Version, VersionView};
use vstd::prelude::*;

verus! {

/// The store of local packages below the data directory `data_dir`.
pub open spec fn store_of(data_dir: Seq<char>) -> Seq<char> {
    joined(data_dir, "typst/packages/local"@)
}

/// The document of the registry below the data directory `data_dir`.
pub open spec fn registry_of(data_dir: Seq<char>) -> Seq<char> {
    joined(data_dir, "typst/manifest.toml"@)
}

/// The directory of the store that holds every version of the package
/// `name`: its bundle.
pub open spec fn bundle_dir(store: Seq<char>, name: Seq<char>) -> Seq<char> {
    joined(store, name)
}

/// The directory of the store that holds the given version of the package
/// `name`.
pub open spec fn version_dir(store: Seq<char>, name: Seq<char>, version: VersionView) -> Seq<
    char,
> {
    joined(bundle_dir(store, name), version.text())
}

/// The directory of the bundle of `name` in `store`.
pub fn bundle_path(store: &str, name: &str) -> (path: String)
    ensures
        path@ == bundle_dir(store@, name@),
{
    join(store, name)
}

/// The directory of the given version of `name` in `store`.
pub fn version_path(store: &str, name: &str, version: &Version) -> (path: String)
    ensures
        path@ == version_dir(store@, name@, version@),
{
    let bundle = join(store, name);
    join(bundle.as_str(), version.to_text().as_str())
}

/// The places that the engines work on.
#[derive(Debug, Clone, PartialEq, Eq)]
pub struct Locations {
    /// The data directory of the user.
    pub data_dir: String,
    /// The store of local packages.
    pub store: String,
    /// The document of the registry.
    pub registry: String,
}

/// The places below the data directory `data_dir`.
pub fn locations_in(data_dir: &str) -> (places: Locations)
    ensures
        places.data_dir@ == data_dir@,
        places.store@ == store_of(data_dir@),
        places.registry@ == registry_of(data_dir@),
{
    Locations {
        data_dir: data_dir.to_owned(),
        store: join(data_dir, "typst/packages/local"),
        registry: join(data_dir, "typst/manifest.toml"),
    }
}

/// Calls `dirs::data_dir` and writes the path as a string. The result depends
/// on the platform and on the environment of the process, so nothing is
/// stated of it; it is `None` where there is no such directory or its path is
/// not valid text.
#[verifier::external_body]
fn data_dir() -> Option<String> {
    match dirs::data_dir() {
        Some(dir) => dir.into_os_string().into_string().ok(),
        None => None,
    }
}

/// Locates the store and the registry of the user who runs the process.
/// Whatever data directory the platform names, the store and the registry lie
/// below it as [`store_of`] and [`registry_of`] say; `None` where the platform
/// names no data directory.
pub fn locate() -> (places: Option<Locations>)
    ensures
        places matches Some(places) ==> places.store@ == store_of(places.data_dir@)
            && places.registry@ == registry_of(places.data_dir@),
{
    locations_of(data_dir())
}

/// The places of a user whose data directory is `data_dir`: those below the
/// directory where the platform names one, and none where it names none.
pub fn locations_of(data_dir: Option<String>) -> (places: Option<Locations>)
    ensures
        places is Some <==> data_dir is Some,
        places matches Some(places) ==> places.data_dir@ == data_dir->0@ && places.store@
            == store_of(data_dir->0@) && places.registry@ == registry_of(data_dir->0@),
{
    match data_dir {
        Some(dir) => Some(locations_in(dir.as_str())),
        None => None,
    }
}

} // verus!
