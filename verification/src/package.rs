//! Packages and their descriptors, and the discovery of packages in a tree
//! of directories.
//!
//! A package is a directory that holds a descriptor, `typst.toml`, whose
//! `[package]` table names the package, its version and its entrypoint, and
//! that holds the entrypoint as a file.

use crate::document::{parse_value, text_at, toml_document, value_get, Node};
use crate::error::{Error, ErrorView, Field};
use crate::host::{serves, Disk, Reply, ReplyView, Request, RequestView, Step, StepView};
use crate::text::{component, is_component, join, joined, same_text, text_of, texts};
use crate::version::{semver_version, Version, VersionView};
use vstd::prelude::*;
use vstd::string::*;

verus! {

/// The `[package]` table of a descriptor, with the keys that every package
/// must define.
#[derive(Debug, Clone, PartialEq, Eq)]
pub struct PackageSpec {
    /// The identifier of the package in its namespace: one path component.
    pub name: String,
    /// The version of the package.
    pub version: Version,
    /// The path of the main file, relative to the package's directory.
    pub entrypoint: String,
}

/// The mathematical value of a [`PackageSpec`].
pub struct PackageSpecView {
    pub name: Seq<char>,
    pub version: VersionView,
    pub entrypoint: Seq<char>,
}

impl View for PackageSpec {
    type V = PackageSpecView;

    open spec fn view(&self) -> PackageSpecView {
        PackageSpecView { name: self.name@, version: self.version@, entrypoint: self.entrypoint@ }
    }
}

/// A descriptor: the `typst.toml` of a package, reduced to what is required
/// of it.
#[derive(Debug, Clone, PartialEq, Eq)]
pub struct PackageManifest {
    pub package: PackageSpec,
}

impl View for PackageManifest {
    type V = PackageSpecView;

    open spec fn view(&self) -> PackageSpecView {
        self.package@
    }
}

/// A package that was found: a directory with a valid descriptor and an
/// entrypoint that exists.
#[derive(Debug, Clone, PartialEq, Eq)]
pub struct Package {
    /// The directory of the package.
    pub path: String,
    pub name: String,
    pub version: Version,
    /// The path of the main file, relative to `path`.
    pub entrypoint: String,
}

/// The mathematical value of a [`Package`].
pub struct PackageView {
    pub path: Seq<char>,
    pub name: Seq<char>,
    pub version: VersionView,
    pub entrypoint: Seq<char>,
}

impl PackageView {
    /// The package at `path` that the descriptor `spec` describes.
    pub open spec fn at(path: Seq<char>, spec: PackageSpecView) -> PackageView {
        PackageView {
            path,
            name: spec.name,
            version: spec.version,
            entrypoint: spec.entrypoint,
        }
    }

    /// How the package is named in reports: its name, a colon, its version.
    pub open spec fn label(self) -> Seq<char> {
        self.name + seq![':'] + self.version.text()
    }
}

impl View for Package {
    type V = PackageView;

    open spec fn view(&self) -> PackageView {
        PackageView {
            path: self.path@,
            name: self.name@,
            version: self.version@,
            entrypoint: self.entrypoint@,
        }
    }
}

impl Package {
    /// The name and the version of the package, as reports show them.
    pub fn label(&self) -> (text: String)
        ensures
            text@ == self@.label(),
    {
        proof {
            reveal_strlit(":");
        }
        let mut text = self.name.clone();
        text.append(":");
        text.append(self.version.to_text().as_str());
        assert(text@ =~= self@.label());
        text
    }

    /// A copy of this package.
    pub fn duplicate(&self) -> (copy: Package)
        ensures
            copy@ == self@,
    {
        Package {
            path: self.path.clone(),
            name: self.name.clone(),
            version: self.version.duplicate(),
            entrypoint: self.entrypoint.clone(),
        }
    }
}

/// Whether `name` can name a package: it is one path component, so that it
/// can name the bundle of the package in a store, and it is neither `.` nor
/// `..`.
pub open spec fn is_identifier(name: Seq<char>) -> bool {
    is_component(name) && name != "."@ && name != ".."@
}

/// Whether `path` is a relative path: not empty, and not starting at the
/// root.
pub open spec fn is_relative(path: Seq<char>) -> bool {
    path.len() > 0 && path[0] != '/'
}

/// What the three required values of a descriptor make, where `version` is
/// the version that the string under that key denotes. The values are
/// looked at in the order name, version, entrypoint; the first that is absent,
/// or is a name that cannot name a package, or is a path that is not relative,
/// is reported as missing.
pub open spec fn assembled(
    name: Option<Seq<char>>,
    version: Option<VersionView>,
    entrypoint: Option<Seq<char>>,
) -> Result<PackageSpecView, ErrorView> {
    if name is None || !is_identifier(name->0) {
        Err(ErrorView::MissingField { field: Field::Name })
    } else if version is None {
        Err(ErrorView::MissingField { field: Field::Version })
    } else if entrypoint is None || !is_relative(entrypoint->0) {
        Err(ErrorView::MissingField { field: Field::Entrypoint })
    } else {
        Ok(PackageSpecView { name: name->0, version: version->0, entrypoint: entrypoint->0 })
    }
}

/// The version that a string which may be absent denotes.
pub open spec fn version_in(text: Option<Seq<char>>) -> Option<VersionView> {
    match text {
        Some(text) => semver_version(text),
        None => None,
    }
}

/// What the document `doc` says as a descriptor. The required keys are
/// looked up in the table under `package`; a key that holds no string counts
/// as absent, and so does a version that is no semantic version. Other keys
/// are not looked at.
pub open spec fn descriptor(doc: Node) -> Result<PackageSpecView, ErrorView> {
    let section = match doc.entry("package"@) {
        Some(section) => section,
        None => Node::Other,
    };
    assembled(
        section.text_at("name"@),
        version_in(section.text_at("version"@)),
        section.text_at("entrypoint"@),
    )
}

/// What the text of a descriptor validates to: the descriptor that it
/// denotes, or the reason why it denotes none.
pub open spec fn validated(text: Seq<char>) -> Result<PackageSpecView, ErrorView> {
    match toml_document(text) {
        Some(doc) => descriptor(doc),
        None => Err(ErrorView::MalformedDescriptor),
    }
}

/// The value of a version that may be absent.
pub open spec fn version_of(version: Option<Version>) -> Option<VersionView> {
    match version {
        Some(version) => Some(version@),
        None => None,
    }
}

/// Tells whether `name` can name a package.
pub fn identifier(name: &str) -> (ok: bool)
    ensures
        ok == is_identifier(name@),
{
    component(name) && !same_text(name, ".") && !same_text(name, "..")
}

/// Makes a descriptor of the three required values, as they were found in a
/// document: each is `None` where its key is absent or of the wrong kind.
///
/// Fails with [`Error::MissingField`] for the first of name, version and
/// entrypoint that is absent; a name that is empty or is not one path
/// component, and an entrypoint that is not a relative path, count as absent.
pub fn assemble(name: Option<String>, version: Option<Version>, entrypoint: Option<String>) -> (made:
    Result<PackageManifest, Error>)
    ensures
        made matches Ok(manifest) ==> assembled(
            text_of(name),
            version_of(version),
            text_of(entrypoint),
        ) == Ok::<PackageSpecView, ErrorView>(manifest@),
        made matches Err(error) ==> assembled(
            text_of(name),
            version_of(version),
            text_of(entrypoint),
        ) == Err::<PackageSpecView, ErrorView>(error@),
{
    let name = match name {
        Some(name) => name,
        None => {
            return Err(Error::MissingField { field: Field::Name });
        },
    };
    if !identifier(name.as_str()) {
        return Err(Error::MissingField { field: Field::Name });
    }
    let version = match version {
        Some(version) => version,
        None => {
            return Err(Error::MissingField { field: Field::Version });
        },
    };
    let entrypoint = match entrypoint {
        Some(entrypoint) => entrypoint,
        None => {
            return Err(Error::MissingField { field: Field::Entrypoint });
        },
    };
    if entrypoint.as_str().unicode_len() == 0 || entrypoint.as_str().get_char(0) == '/' {
        return Err(Error::MissingField { field: Field::Entrypoint });
    }
    Ok(PackageManifest { package: PackageSpec { name, version, entrypoint } })
}

/// Validates the text of a descriptor.
///
/// Fails with [`Error::MalformedDescriptor`] where the text is no structured
/// document, and with [`Error::MissingField`] where a required key is absent
/// or of the wrong kind. Keys that are not required are ignored.
pub fn validate(text: &str) -> (checked: Result<PackageManifest, Error>)
    ensures
        checked matches Ok(manifest) ==> validated(text@) == Ok::<PackageSpecView, ErrorView>(
            manifest@,
        ),
        checked matches Err(error) ==> validated(text@) == Err::<PackageSpecView, ErrorView>(
            error@,
        ),
{
    let doc = match parse_value(text) {
        Some(doc) => doc,
        None => {
            return Err(Error::MalformedDescriptor);
        },
    };
    match value_get(&doc, "package") {
        Some(section) => {
            let version = match text_at(section, "version") {
                Some(version) => Version::parse(version.as_str()),
                None => None,
            };
            assemble(text_at(section, "name"), version, text_at(section, "entrypoint"))
        },
        None => assemble(None, None, None),
    }
}

/// The state of the test whether a directory is a package.
#[derive(Debug)]
pub enum Probe {
    /// The descriptor of `dir` is being read.
    Reading { dir: String },
    /// The descriptor of `dir` is valid; its entrypoint is being looked for.
    Checking { dir: String, spec: PackageSpec },
}

/// The mathematical value of a [`Probe`].
pub enum ProbeView {
    Reading { dir: Seq<char> },
    Checking { dir: Seq<char>, spec: PackageSpecView },
}

impl View for Probe {
    type V = ProbeView;

    open spec fn view(&self) -> ProbeView {
        match self {
            Probe::Reading { dir } => ProbeView::Reading { dir: dir@ },
            Probe::Checking { dir, spec } => ProbeView::Checking { dir: dir@, spec: spec@ },
        }
    }
}

/// The value of a package that may be absent.
pub open spec fn package_of(found: Option<Package>) -> Option<PackageView> {
    match found {
        Some(package) => Some(package@),
        None => None,
    }
}

/// The mathematical value of a step of [`Probe`].
pub open spec fn probe_step(step: Step<Probe, Option<Package>>) -> StepView<
    ProbeView,
    Option<PackageView>,
> {
    match step {
        Step::Ask(state, request) => StepView::Ask(state@, request@),
        Step::Done(found) => StepView::Done(package_of(found)),
    }
}

/// Where the descriptor of the directory `dir` lies.
pub open spec fn descriptor_path(dir: Seq<char>) -> Seq<char> {
    joined(dir, "typst.toml"@)
}

/// How the test of `dir` begins: by reading its descriptor.
pub open spec fn probe_start(dir: Seq<char>) -> (ProbeView, RequestView) {
    (ProbeView::Reading { dir }, RequestView::ReadText { path: descriptor_path(dir) })
}

/// How the test goes on when the host has answered.
///
/// A descriptor that cannot be read, or that is not valid, ends the test:
/// the directory is no package. A valid one leads to the question whether
/// its entrypoint is a file; the answer decides. An answer of the wrong kind
/// ends the test as well.
pub open spec fn probe_next(state: ProbeView, reply: ReplyView) -> StepView<
    ProbeView,
    Option<PackageView>,
> {
    match (state, reply) {
        (ProbeView::Reading { dir }, ReplyView::Text(Some(text))) => match validated(text) {
            Ok(spec) => StepView::Ask(
                ProbeView::Checking { dir, spec },
                RequestView::IsFile { path: joined(dir, spec.entrypoint) },
            ),
            Err(_) => StepView::Done(None),
        },
        (ProbeView::Checking { dir, spec }, ReplyView::Flag(true)) => StepView::Done(
            Some(PackageView::at(dir, spec)),
        ),
        _ => StepView::Done(None),
    }
}

/// Begins the test whether the directory `path` holds a package. The result
/// is `Some` only if the descriptor in it is valid and its entrypoint is a
/// file; a descriptor that is absent is no error.
pub fn is_package(path: &str) -> (start: (Probe, Request))
    ensures
        (start.0@, start.1@) == probe_start(path@),
{
    (
        Probe::Reading { dir: path.to_owned() },
        Request::ReadText { path: join(path, "typst.toml") },
    )
}

impl Probe {
    /// Goes on with the answer of the host.
    pub fn resume(self, reply: Reply) -> (next: Step<Probe, Option<Package>>)
        ensures
            probe_step(next) == probe_next(self@, reply@),
    {
        match self {
            Probe::Reading { dir } => match reply {
                Reply::Text(Some(text)) => match validate(text.as_str()) {
                    Ok(manifest) => {
                        let path = join(dir.as_str(), manifest.package.entrypoint.as_str());
                        Step::Ask(
                            Probe::Checking { dir, spec: manifest.package },
                            Request::IsFile { path },
                        )
                    },
                    Err(_) => Step::Done(None),
                },
                _ => Step::Done(None),
            },
            Probe::Checking { dir, spec } => match reply {
                Reply::Flag(true) => Step::Done(
                    Some(
                        Package {
                            path: dir,
                            name: spec.name,
                            version: spec.version,
                            entrypoint: spec.entrypoint,
                        },
                    ),
                ),
                _ => Step::Done(None),
            },
        }
    }
}

/// The package that `disk` holds in the directory `dir`: there is one where
/// the descriptor of the directory is a file with valid text and the
/// entrypoint that it names is a file.
pub open spec fn package_at(disk: Disk, dir: Seq<char>) -> Option<PackageView> {
    if disk.files.contains_key(descriptor_path(dir)) {
        match validated(disk.files[descriptor_path(dir)]) {
            Ok(spec) => if disk.files.contains_key(joined(dir, spec.entrypoint)) {
                Some(PackageView::at(dir, spec))
            } else {
                None
            },
            Err(_) => None,
        }
    } else {
        None
    }
}

/// Whether a test that stands in `state` and has asked `request` ends with
/// `result` when a faithful host answers `replies` on `disk`.
pub open spec fn probe_run(
    state: ProbeView,
    request: RequestView,
    disk: Disk,
    replies: Seq<ReplyView>,
    result: Option<PackageView>,
) -> bool
    decreases replies.len(),
{
    replies.len() > 0 && serves(disk, request, replies[0], disk) && match probe_next(
        state,
        replies[0],
    ) {
        StepView::Done(found) => replies.len() == 1 && found == result,
        StepView::Ask(next, request) => probe_run(
            next,
            request,
            disk,
            replies.drop_first(),
            result,
        ),
    }
}

/// The test of a directory finds the package that the disk holds there: with
/// a valid descriptor and an entrypoint that is a file, the package found has
/// the fields of the descriptor; without a descriptor, nothing is found, and
/// that is no error.
pub proof fn law_probe_finds_the_package(
    disk: Disk,
    dir: Seq<char>,
    replies: Seq<ReplyView>,
    result: Option<PackageView>,
)
    requires
        probe_run(probe_start(dir).0, probe_start(dir).1, disk, replies, result),
    ensures
        result == package_at(disk, dir),
        !disk.files.contains_key(descriptor_path(dir)) ==> result is None,
        forall|spec: PackageSpecView|
            disk.files.contains_key(descriptor_path(dir)) && validated(
                disk.files[descriptor_path(dir)],
            ) == Ok::<PackageSpecView, ErrorView>(spec) && disk.files.contains_key(
                joined(dir, spec.entrypoint),
            ) ==> result == Some(
                PackageView {
                    path: dir,
                    name: spec.name,
                    version: spec.version,
                    entrypoint: spec.entrypoint,
                },
            ),
{
    reveal_with_fuel(probe_run, 3);
}

/// A directory that a search has still to test.
#[derive(Debug)]
pub struct Pending {
    path: String,
    /// Set for a directory two levels below the root: the search does not
    /// descend into it.
    leaf: bool,
}

/// The mathematical value of a [`Pending`].
pub struct PendingView {
    pub path: Seq<char>,
    pub leaf: bool,
}

impl View for Pending {
    type V = PendingView;

    closed spec fn view(&self) -> PendingView {
        PendingView { path: self.path@, leaf: self.leaf }
    }
}

/// What a search is waiting for.
#[derive(Debug)]
enum SearchStage {
    /// The directories inside `dir` are being listed. `top` is set where
    /// `dir` is the root of the search.
    Listing { dir: String, top: bool },
    /// The directory `dir` is being tested.
    Probing { probe: Probe, dir: String, leaf: bool },
}

/// The mathematical value of what a search is waiting for.
pub enum SearchStageView {
    Listing { dir: Seq<char>, top: bool },
    Probing { probe: ProbeView, dir: Seq<char>, leaf: bool },
}

/// The state of a search for packages below a root directory.
#[derive(Debug)]
pub struct Search {
    root: String,
    /// The directories still to test; the last one is the next.
    todo: Vec<Pending>,
    found: Vec<Package>,
    stage: SearchStage,
}

/// The mathematical value of a [`Search`].
pub struct SearchView {
    pub root: Seq<char>,
    pub todo: Seq<PendingView>,
    pub found: Seq<PackageView>,
    pub stage: SearchStageView,
}

/// The values of the directories of a list.
pub open spec fn pendings(list: Seq<Pending>) -> Seq<PendingView> {
    Seq::new(list.len(), |i: int| list[i]@)
}

/// The values of the packages of a list.
pub open spec fn packages_of(list: Seq<Package>) -> Seq<PackageView> {
    Seq::new(list.len(), |i: int| list[i]@)
}

impl View for Search {
    type V = SearchView;

    closed spec fn view(&self) -> SearchView {
        SearchView {
            root: self.root@,
            todo: pendings(self.todo@),
            found: packages_of(self.found@),
            stage: match self.stage {
                SearchStage::Listing { dir, top } => SearchStageView::Listing { dir: dir@, top },
                SearchStage::Probing { probe, dir, leaf } => SearchStageView::Probing {
                    probe: probe@,
                    dir: dir@,
                    leaf,
                },
            },
        }
    }
}

/// The mathematical value of a step of [`Search`].
pub open spec fn search_step(step: Step<Search, Vec<Package>>) -> StepView<
    SearchView,
    Seq<PackageView>,
> {
    match step {
        Step::Ask(state, request) => StepView::Ask(state@, request@),
        Step::Done(found) => StepView::Done(packages_of(found@)),
    }
}

/// The directories that a listing of `dir` adds to those still to test: one
/// for each name that is a single path component, the first name last, so
/// that it is the next to be tested.
pub open spec fn stacked(dir: Seq<char>, leaf: bool, names: Seq<Seq<char>>) -> Seq<PendingView>
    decreases names.len(),
{
    if names.len() == 0 {
        Seq::empty()
    } else {
        stacked(dir, leaf, names.drop_first()) + (if is_component(names[0]) {
            seq![PendingView { path: joined(dir, names[0]), leaf }]
        } else {
            Seq::empty()
        })
    }
}

/// How a search begins: by listing the directories inside its root. The root
/// itself is not tested.
pub open spec fn search_start(root: Seq<char>) -> (SearchView, RequestView) {
    (
        SearchView {
            root,
            todo: Seq::empty(),
            found: Seq::empty(),
            stage: SearchStageView::Listing { dir: root, top: true },
        },
        RequestView::ListDirs { path: root },
    )
}

/// How a search turns to the next directory still to test, or ends with what
/// it has found when none is left.
pub open spec fn search_advance(
    root: Seq<char>,
    todo: Seq<PendingView>,
    found: Seq<PackageView>,
) -> StepView<SearchView, Seq<PackageView>> {
    if todo.len() == 0 {
        StepView::Done(found)
    } else {
        let next = todo.last();
        let (probe, request) = probe_start(next.path);
        StepView::Ask(
            SearchView {
                root,
                todo: todo.drop_last(),
                found,
                stage: SearchStageView::Probing { probe, dir: next.path, leaf: next.leaf },
            },
            request,
        )
    }
}

/// How a search goes on when the host has answered.
///
/// A listing adds the directories that it names to those still to test; a
/// listing that failed adds none. A test that ends adds the package that it
/// found, if any; then the tested directory is listed in turn, unless it lies
/// two levels below the root. Directories are tested in the order in which a
/// walk of the tree meets them, each before what it holds.
pub open spec fn search_next(state: SearchView, reply: ReplyView) -> StepView<
    SearchView,
    Seq<PackageView>,
> {
    match state.stage {
        SearchStageView::Listing { dir, top } => {
            let names = match reply {
                ReplyView::Names(names) => names,
                _ => Seq::empty(),
            };
            search_advance(state.root, state.todo + stacked(dir, !top, names), state.found)
        },
        SearchStageView::Probing { probe, dir, leaf } => match probe_next(probe, reply) {
            StepView::Ask(probe, request) => StepView::Ask(
                SearchView {
                    stage: SearchStageView::Probing { probe, dir, leaf },
                    ..state
                },
                request,
            ),
            StepView::Done(found) => {
                let found = match found {
                    Some(package) => state.found.push(package),
                    None => state.found,
                };
                if leaf {
                    search_advance(state.root, state.todo, found)
                } else {
                    StepView::Ask(
                        SearchView {
                            found,
                            stage: SearchStageView::Listing { dir, top: false },
                            ..state
                        },
                        RequestView::ListDirs { path: dir },
                    )
                }
            },
        },
    }
}

/// Begins a search for the packages that lie one or two levels below the
/// directory `path`.
pub fn search(path: &str) -> (start: (Search, Request))
    ensures
        (start.0@, start.1@) == search_start(path@),
{
    let state = Search {
        root: path.to_owned(),
        todo: Vec::new(),
        found: Vec::new(),
        stage: SearchStage::Listing { dir: path.to_owned(), top: true },
    };
    assert(state@.todo =~= Seq::empty());
    assert(state@.found =~= Seq::empty());
    (state, Request::ListDirs { path: path.to_owned() })
}

impl Search {
    /// Turns to the next directory still to test.
    fn advance(root: String, todo: Vec<Pending>, found: Vec<Package>) -> (next: Step<
        Search,
        Vec<Package>,
    >)
        ensures
            search_step(next) == search_advance(root@, pendings(todo@), packages_of(found@)),
    {
        let ghost before = todo@;
        let mut todo = todo;
        match todo.pop() {
            None => Step::Done(found),
            Some(pending) => {
                let (probe, request) = is_package(pending.path.as_str());
                let state = Search {
                    root,
                    todo,
                    found,
                    stage: SearchStage::Probing { probe, dir: pending.path, leaf: pending.leaf },
                };
                assert(state@.todo =~= pendings(before).drop_last());
                Step::Ask(state, request)
            },
        }
    }

    /// Adds the directories that a listing of `dir` names to those still to
    /// test.
    fn stack(todo: &mut Vec<Pending>, dir: &str, leaf: bool, names: &Vec<String>)
        ensures
            pendings(final(todo)@) == pendings(old(todo)@) + stacked(dir@, leaf, texts(names@)),
    {
        let n = names.len();
        let mut i = n;
        assert(texts(names@).subrange(n as int, n as int) =~= Seq::empty());
        assert(pendings(todo@) =~= pendings(old(todo)@) + Seq::empty());
        while i > 0
            invariant
                n == names.len(),
                i <= n,
                pendings(todo@) == pendings(old(todo)@) + stacked(
                    dir@,
                    leaf,
                    texts(names@).subrange(i as int, n as int),
                ),
            decreases i,
        {
            i = i - 1;
            let ghost before = pendings(todo@);
            let ghost rest = texts(names@).subrange(i + 1, n as int);
            let ghost part = texts(names@).subrange(i as int, n as int);
            assert(part.drop_first() =~= rest);
            assert(part[0] == names@[i as int]@);
            if component(names[i].as_str()) {
                todo.push(Pending { path: join(dir, names[i].as_str()), leaf });
                assert(pendings(todo@) =~= before + seq![
                    PendingView { path: joined(dir@, names@[i as int]@), leaf },
                ]);
            }
            assert(pendings(todo@) =~= pendings(old(todo)@) + stacked(dir@, leaf, part));
        }
        assert(texts(names@).subrange(0, n as int) =~= texts(names@));
    }

    /// Goes on with the answer of the host.
    pub fn resume(self, reply: Reply) -> (next: Step<Search, Vec<Package>>)
        ensures
            search_step(next) == search_next(self@, reply@),
    {
        let Search { root, todo, found, stage } = self;
        match stage {
            SearchStage::Listing { dir, top } => {
                let mut todo = todo;
                let names = match reply {
                    Reply::Names(names) => names,
                    _ => Vec::new(),
                };
                Search::stack(&mut todo, dir.as_str(), !top, &names);
                Search::advance(root, todo, found)
            },
            SearchStage::Probing { probe, dir, leaf } => match probe.resume(reply) {
                Step::Ask(probe, request) => Step::Ask(
                    Search { root, todo, found, stage: SearchStage::Probing { probe, dir, leaf } },
                    request,
                ),
                Step::Done(hit) => {
                    let mut found = found;
                    let ghost before = packages_of(found@);
                    match hit {
                        Some(package) => {
                            found.push(package);
                            assert(packages_of(found@) =~= before.push(package@));
                        },
                        None => {},
                    }
                    if leaf {
                        Search::advance(root, todo, found)
                    } else {
                        let request = Request::ListDirs { path: dir.clone() };
                        Step::Ask(
                            Search {
                                root,
                                todo,
                                found,
                                stage: SearchStage::Listing { dir, top: false },
                            },
                            request,
                        )
                    }
                },
            },
        }
    }
}

/// Whether `path` lies exactly `levels` levels below `root`: it is the root
/// followed by that many single components.
pub open spec fn below(root: Seq<char>, path: Seq<char>, levels: nat) -> bool
    decreases levels,
{
    if levels == 0 {
        path == root
    } else {
        exists|parent: Seq<char>, name: Seq<char>|
            #![trigger joined(parent, name)]
            below(root, parent, (levels - 1) as nat) && is_component(name) && path == joined(
                parent,
                name,
            )
    }
}

/// Whether `path` lies one or two levels below `root`.
pub open spec fn within_two_levels(root: Seq<char>, path: Seq<char>) -> bool {
    below(root, path, 1) || below(root, path, 2)
}

impl ProbeView {
    /// The directory that is tested.
    pub open spec fn dir(self) -> Seq<char> {
        match self {
            ProbeView::Reading { dir } => dir,
            ProbeView::Checking { dir, .. } => dir,
        }
    }
}

impl SearchView {
    /// What holds of every state that a search reaches: the directories still
    /// to test, the directory at hand and every package found so far lie one or
    /// two levels below the root.
    pub open spec fn wf(self) -> bool {
        &&& forall|i: int|
            0 <= i < self.todo.len() ==> below(
                self.root,
                #[trigger] self.todo[i].path,
                if self.todo[i].leaf {
                    2
                } else {
                    1
                },
            )
        &&& forall|i: int|
            0 <= i < self.found.len() ==> within_two_levels(
                self.root,
                #[trigger] self.found[i].path,
            )
        &&& match self.stage {
            SearchStageView::Listing { dir, top } => below(
                self.root,
                dir,
                if top {
                    0
                } else {
                    1
                },
            ),
            SearchStageView::Probing { probe, dir, leaf } => probe.dir() == dir && below(
                self.root,
                dir,
                if leaf {
                    2
                } else {
                    1
                },
            ),
        }
    }
}

/// A path that lies below a root is longer than the root.
pub proof fn lemma_below_is_longer(root: Seq<char>, path: Seq<char>, levels: nat)
    requires
        below(root, path, levels),
    ensures
        path.len() >= root.len() + 2 * levels,
    decreases levels,
{
    if levels > 0 {
        let (parent, name) = choose|parent: Seq<char>, name: Seq<char>|
            #![trigger joined(parent, name)]
            below(root, parent, (levels - 1) as nat) && is_component(name) && path == joined(
                parent,
                name,
            );
        lemma_below_is_longer(root, parent, (levels - 1) as nat);
    }
}

/// Every directory that a listing adds lies one level below the listed one.
proof fn lemma_stacked_below(
    root: Seq<char>,
    dir: Seq<char>,
    levels: nat,
    leaf: bool,
    names: Seq<Seq<char>>,
)
    requires
        below(root, dir, levels),
    ensures
        forall|i: int|
            #![trigger stacked(dir, leaf, names)[i]]
            0 <= i < stacked(dir, leaf, names).len() ==> below(
                root,
                stacked(dir, leaf, names)[i].path,
                levels + 1,
            ) && stacked(dir, leaf, names)[i].leaf == leaf,
    decreases names.len(),
{
    if names.len() > 0 {
        lemma_stacked_below(root, dir, levels, leaf, names.drop_first());
        let rest = stacked(dir, leaf, names.drop_first());
        let all = stacked(dir, leaf, names);
        assert forall|i: int| 0 <= i < all.len() implies below(
            root,
            (#[trigger] all[i]).path,
            levels + 1,
        ) && all[i].leaf == leaf by {
            if i < rest.len() {
                assert(all[i] == rest[i]);
            } else {
                assert(all[i].path == joined(dir, names[0]));
                assert(below(root, dir, ((levels + 1) - 1) as nat));
            }
        }
    }
}

/// A search begins in a state of which [`SearchView::wf`] holds.
pub proof fn law_search_begins_well(root: Seq<char>)
    ensures
        search_start(root).0.wf(),
{
}

/// A search never leaves the two levels below its root: each step keeps
/// [`SearchView::wf`], and when the search ends, every package of its result
/// lies one or two levels below the root, so that none is the root itself.
pub proof fn law_search_stays_within_two_levels(state: SearchView, reply: ReplyView)
    requires
        state.wf(),
    ensures
        match search_next(state, reply) {
            StepView::Ask(next, _) => next.wf() && next.root == state.root,
            StepView::Done(found) => forall|i: int|
                0 <= i < found.len() ==> within_two_levels(state.root, #[trigger] found[i].path)
                    && found[i].path != state.root,
        },
{
    assert forall|path: Seq<char>| within_two_levels(state.root, path) implies path
        != state.root by {
        if below(state.root, path, 1) {
            lemma_below_is_longer(state.root, path, 1);
        } else {
            lemma_below_is_longer(state.root, path, 2);
        }
    }
    match state.stage {
        SearchStageView::Listing { dir, top } => {
            let names = match reply {
                ReplyView::Names(names) => names,
                _ => Seq::empty(),
            };
            let levels: nat = if top {
                0
            } else {
                1
            };
            lemma_stacked_below(state.root, dir, levels, !top, names);
        },
        SearchStageView::Probing { probe, dir, leaf } => {},
    }
}

/// Whether `request` is what a test in the state `probe` has asked.
pub open spec fn probe_asks(probe: ProbeView, request: RequestView) -> bool {
    match probe {
        ProbeView::Reading { dir } => request == (RequestView::ReadText {
            path: descriptor_path(dir),
        }),
        ProbeView::Checking { dir, spec } => request == (RequestView::IsFile {
            path: joined(dir, spec.entrypoint),
        }),
    }
}

/// Whether `request` is what a search in `state` has asked.
pub open spec fn search_asks(state: SearchView, request: RequestView) -> bool {
    match state.stage {
        SearchStageView::Listing { dir, .. } => request == (RequestView::ListDirs { path: dir }),
        SearchStageView::Probing { probe, .. } => probe_asks(probe, request),
    }
}

/// Whether what a search in `state` has learnt is true of `disk`: each
/// package found so far is the package that the disk holds at its path, and
/// the descriptor of the directory at hand, if it was read, is the one that
/// the disk holds.
pub open spec fn search_holds(state: SearchView, disk: Disk) -> bool {
    &&& forall|i: int|
        0 <= i < state.found.len() ==> package_at(disk, (#[trigger] state.found[i]).path) == Some(
            state.found[i],
        )
    &&& state.stage matches SearchStageView::Probing { probe: ProbeView::Checking { dir, spec }, .. }
        ==> disk.files.contains_key(descriptor_path(dir)) && validated(
        disk.files[descriptor_path(dir)],
    ) == Ok::<PackageSpecView, ErrorView>(spec)
}

/// Whether a search that stands in `state` and has asked `request` ends with
/// `result` when a faithful host answers `replies` on `disk`.
pub open spec fn search_run(
    state: SearchView,
    request: RequestView,
    disk: Disk,
    replies: Seq<ReplyView>,
    result: Seq<PackageView>,
) -> bool
    decreases replies.len(),
{
    replies.len() > 0 && serves(disk, request, replies[0], disk) && match search_next(
        state,
        replies[0],
    ) {
        StepView::Done(found) => replies.len() == 1 && found == result,
        StepView::Ask(next, request) => search_run(
            next,
            request,
            disk,
            replies.drop_first(),
            result,
        ),
    }
}

/// What a search on a disk ends with, from any state that it reaches, are
/// packages that the disk holds within two levels below the root.
proof fn lemma_search_run(
    state: SearchView,
    request: RequestView,
    disk: Disk,
    replies: Seq<ReplyView>,
    result: Seq<PackageView>,
)
    requires
        search_run(state, request, disk, replies, result),
        search_asks(state, request),
        search_holds(state, disk),
        state.wf(),
    ensures
        forall|i: int|
            0 <= i < result.len() ==> package_at(disk, (#[trigger] result[i]).path) == Some(
                result[i],
            ) && within_two_levels(state.root, result[i].path),
    decreases replies.len(),
{
    law_search_stays_within_two_levels(state, replies[0]);
    match search_next(state, replies[0]) {
        StepView::Done(found) => {},
        StepView::Ask(next, asked) => {
            lemma_search_run(next, asked, disk, replies.drop_first(), result);
        },
    }
}

/// A search on a disk reports nothing but packages that the disk holds: each
/// package of its result is the package that the disk holds at its path, and
/// its path lies one or two levels below the root of the search.
pub proof fn law_search_finds_only_packages(
    root: Seq<char>,
    disk: Disk,
    replies: Seq<ReplyView>,
    result: Seq<PackageView>,
)
    requires
        search_run(search_start(root).0, search_start(root).1, disk, replies, result),
    ensures
        forall|i: int|
            0 <= i < result.len() ==> package_at(disk, (#[trigger] result[i]).path) == Some(
                result[i],
            ) && within_two_levels(root, result[i].path),
{
    lemma_search_run(search_start(root).0, search_start(root).1, disk, replies, result);
}

/// Whether `dir` is a directory that `disk` holds directly inside `parent`.
pub open spec fn listed(disk: Disk, parent: Seq<char>, dir: Seq<char>) -> bool {
    exists|name: Seq<char>|
        #![trigger joined(parent, name)]
        is_component(name) && dir == joined(parent, name) && disk.dirs.contains(dir)
}

/// Whether `dir` is a directory that a search below `root` has to test: a
/// directory inside the root, or inside a directory inside the root.
pub open spec fn in_reach(disk: Disk, root: Seq<char>, dir: Seq<char>) -> bool {
    listed(disk, root, dir) || exists|parent: Seq<char>|
        #![trigger listed(disk, parent, dir)]
        listed(disk, root, parent) && listed(disk, parent, dir)
}

/// Whether one of the directories `todo` is `dir`, or is a directory that is
/// to be listed and holds `dir`.
pub open spec fn pending_covers(todo: Seq<PendingView>, disk: Disk, dir: Seq<char>) -> bool {
    exists|i: int|
        0 <= i < todo.len() && ((#[trigger] todo[i]).path == dir || (!todo[i].leaf && listed(
            disk,
            todo[i].path,
            dir,
        )))
}

/// Whether a search in `state` has still to come to `dir`: the directory is
/// one of those still to test or at hand, or it lies in one of those and that
/// one is still to be listed.
pub open spec fn search_covers(state: SearchView, disk: Disk, dir: Seq<char>) -> bool {
    pending_covers(state.todo, disk, dir) || match state.stage {
        SearchStageView::Listing { dir: at, top } => listed(disk, at, dir) || (top && exists|
            parent: Seq<char>,
        |
            #![trigger listed(disk, parent, dir)]
            listed(disk, at, parent) && listed(disk, parent, dir)),
        SearchStageView::Probing { dir: at, leaf, .. } => at == dir || (!leaf && listed(
            disk,
            at,
            dir,
        )),
    }
}

/// A listing that names `name` adds the directory of that name to those
/// still to test.
proof fn lemma_stacked_contains(
    dir: Seq<char>,
    leaf: bool,
    names: Seq<Seq<char>>,
    name: Seq<char>,
)
    requires
        names.contains(name),
        is_component(name),
    ensures
        exists|j: int|
            0 <= j < stacked(dir, leaf, names).len() && #[trigger] stacked(dir, leaf, names)[j]
                == (PendingView { path: joined(dir, name), leaf }),
    decreases names.len(),
{
    let all = stacked(dir, leaf, names);
    let rest = stacked(dir, leaf, names.drop_first());
    let k = choose|k: int| 0 <= k < names.len() && names[k] == name;
    if k == 0 {
        assert(all[rest.len() as int] == (PendingView { path: joined(dir, name), leaf }));
    } else {
        assert(names.drop_first()[k - 1] == name);
        lemma_stacked_contains(dir, leaf, names.drop_first(), name);
        let j = choose|j: int|
            0 <= j < rest.len() && #[trigger] rest[j] == (PendingView {
                path: joined(dir, name),
                leaf,
            });
        assert(all[j] == rest[j]);
    }
}

/// Turning to the next directory loses none of the directories still to
/// come to.
proof fn lemma_advance_covers(
    root: Seq<char>,
    todo: Seq<PendingView>,
    found: Seq<PackageView>,
    disk: Disk,
    dir: Seq<char>,
    package: PackageView,
)
    requires
        found.contains(package) || pending_covers(todo, disk, dir),
    ensures
        match search_advance(root, todo, found) {
            StepView::Ask(next, _) => next.found.contains(package) || search_covers(
                next,
                disk,
                dir,
            ),
            StepView::Done(end) => end.contains(package),
        },
{
    if !found.contains(package) {
        let i = choose|i: int|
            0 <= i < todo.len() && ((#[trigger] todo[i]).path == dir || (!todo[i].leaf && listed(
                disk,
                todo[i].path,
                dir,
            )));
        if i < todo.len() - 1 {
            assert(todo.drop_last()[i] == todo[i]);
        }
    }
}

/// A step of a search on a disk keeps what the search has learnt true, and
/// asks what its next state waits for.
proof fn lemma_search_step_holds(
    state: SearchView,
    request: RequestView,
    reply: ReplyView,
    disk: Disk,
)
    requires
        serves(disk, request, reply, disk),
        search_asks(state, request),
        search_holds(state, disk),
        state.wf(),
    ensures
        match search_next(state, reply) {
            StepView::Ask(next, asked) => search_asks(next, asked) && search_holds(next, disk)
                && next.wf() && next.root == state.root,
            StepView::Done(found) => forall|i: int|
                0 <= i < found.len() ==> package_at(disk, (#[trigger] found[i]).path) == Some(
                    found[i],
                ) && within_two_levels(state.root, found[i].path),
        },
{
    law_search_stays_within_two_levels(state, reply);
}

/// A step of a search on a disk loses no package that the search has still
/// to come to.
proof fn lemma_search_step_covers(
    state: SearchView,
    request: RequestView,
    reply: ReplyView,
    disk: Disk,
    dir: Seq<char>,
    package: PackageView,
)
    requires
        serves(disk, request, reply, disk),
        search_asks(state, request),
        search_holds(state, disk),
        state.wf(),
        package_at(disk, dir) == Some(package),
        state.found.contains(package) || search_covers(state, disk, dir),
    ensures
        match search_next(state, reply) {
            StepView::Ask(next, _) => next.found.contains(package) || search_covers(
                next,
                disk,
                dir,
            ),
            StepView::Done(found) => found.contains(package),
        },
{
    match state.stage {
        SearchStageView::Listing { dir: at, top } => {
            let names = reply->Names_0;
            let added = stacked(at, !top, names);
            let todo = state.todo + added;
            if !state.found.contains(package) {
                if pending_covers(state.todo, disk, dir) {
                    let i = choose|i: int|
                        0 <= i < state.todo.len() && ((#[trigger] state.todo[i]).path == dir || (
                        !state.todo[i].leaf && listed(disk, state.todo[i].path, dir)));
                    assert(todo[i] == state.todo[i]);
                } else if listed(disk, at, dir) {
                    let name = choose|name: Seq<char>|
                        #![trigger joined(at, name)]
                        is_component(name) && dir == joined(at, name) && disk.dirs.contains(dir);
                    assert(names.contains(name));
                    lemma_stacked_contains(at, !top, names, name);
                    let j = choose|j: int|
                        0 <= j < added.len() && #[trigger] added[j] == (PendingView {
                            path: joined(at, name),
                            leaf: !top,
                        });
                    assert(todo[state.todo.len() + j] == added[j]);
                } else {
                    let parent = choose|parent: Seq<char>|
                        #![trigger listed(disk, parent, dir)]
                        listed(disk, at, parent) && listed(disk, parent, dir);
                    let name = choose|name: Seq<char>|
                        #![trigger joined(at, name)]
                        is_component(name) && parent == joined(at, name) && disk.dirs.contains(
                            parent,
                        );
                    assert(names.contains(name));
                    lemma_stacked_contains(at, !top, names, name);
                    let j = choose|j: int|
                        0 <= j < added.len() && #[trigger] added[j] == (PendingView {
                            path: joined(at, name),
                            leaf: !top,
                        });
                    assert(todo[state.todo.len() + j] == added[j]);
                }
                assert(pending_covers(todo, disk, dir));
            }
            lemma_advance_covers(state.root, todo, state.found, disk, dir, package);
        },
        SearchStageView::Probing { probe, dir: at, leaf } => {
            match probe_next(probe, reply) {
                StepView::Ask(_, _) => {},
                StepView::Done(hit) => {
                    let found = match hit {
                        Some(package) => state.found.push(package),
                        None => state.found,
                    };
                    if state.found.contains(package) {
                        let i = choose|i: int|
                            0 <= i < state.found.len() && state.found[i] == package;
                        assert(found[i] == package);
                    } else if at == dir {
                        assert(hit == Some(package));
                        assert(found[state.found.len() as int] == package);
                    }
                    if leaf {
                        lemma_advance_covers(state.root, state.todo, found, disk, dir, package);
                    }
                },
            }
        },
    }
}

/// A search on a disk ends, from any state that it reaches, with every
/// package that it has found or has still to come to.
proof fn lemma_search_run_covers(
    state: SearchView,
    request: RequestView,
    disk: Disk,
    replies: Seq<ReplyView>,
    result: Seq<PackageView>,
    dir: Seq<char>,
    package: PackageView,
)
    requires
        search_run(state, request, disk, replies, result),
        search_asks(state, request),
        search_holds(state, disk),
        state.wf(),
        package_at(disk, dir) == Some(package),
        state.found.contains(package) || search_covers(state, disk, dir),
    ensures
        result.contains(package),
    decreases replies.len(),
{
    lemma_search_step_holds(state, request, replies[0], disk);
    lemma_search_step_covers(state, request, replies[0], disk, dir, package);
    match search_next(state, replies[0]) {
        StepView::Done(found) => {},
        StepView::Ask(next, asked) => {
            lemma_search_run_covers(next, asked, disk, replies.drop_first(), result, dir, package);
        },
    }
}

/// A search on a disk misses no package: the package that the disk holds in
/// a directory inside the root, or inside a directory inside the root, is one
/// of the packages of the result.
pub proof fn law_search_finds_every_package(
    root: Seq<char>,
    disk: Disk,
    replies: Seq<ReplyView>,
    result: Seq<PackageView>,
    dir: Seq<char>,
    package: PackageView,
)
    requires
        search_run(search_start(root).0, search_start(root).1, disk, replies, result),
        in_reach(disk, root, dir),
        package_at(disk, dir) == Some(package),
    ensures
        result.contains(package),
{
    lemma_search_run_covers(
        search_start(root).0,
        search_start(root).1,
        disk,
        replies,
        result,
        dir,
        package,
    );
}

} // verus!
