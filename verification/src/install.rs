//! Installation of packages into the versioned store.

use crate::error::{Error, ErrorView};
use crate::host::{
    entry_at, is_suffix, serves, unexpected, Disk, Reply, ReplyView, Request, RequestView, Step, StepView,
};
use crate::manifest::{Manifest, Registry};
use crate::package::{
    descriptor_path, is_package, packages_of, probe_next, probe_start, search, search_next,
    search_start, validate, validated, Package, PackageManifest, PackageSpec, PackageSpecView,
    PackageView, Probe, ProbeView, Search, SearchView,
};
use crate::text::{join, joined, same_text, texts, under};
use crate::version::{semver_version, Version, VersionView};
use crate::store::{version_dir, version_path};
use vstd::prelude::*;

verus! {

/// What an installation does with a version that the store already holds.
#[derive(Debug, Clone, Copy, PartialEq, Eq, Structural)]
pub enum Policy {
    /// Leave it as it is: the installation succeeds without copying.
    SkipExisting,
    /// Copy again, replacing the files that exist.
    Overwrite,
}

/// How an installation succeeded.
#[derive(Debug, Clone, Copy, PartialEq, Eq, Structural)]
pub enum Installed {
    /// The package was copied into the store.
    Copied,
    /// The store held the version already; nothing was copied.
    AlreadyPresent,
}

/// What an installation is waiting for.
#[derive(Debug)]
enum InstallStage {
    /// Whether the destination exists.
    Probing,
    /// The destination is being created.
    Creating,
    /// The package is being copied.
    Copying,
    /// The installation failed because of `cause`; the destination is being
    /// removed.
    Cleaning { cause: String },
}

/// The mathematical value of what an installation is waiting for.
pub enum InstallStageView {
    Probing,
    Creating,
    Copying,
    Cleaning { cause: Seq<char> },
}

/// The state of the installation of one package.
#[derive(Debug)]
pub struct Install {
    package: Package,
    dest: String,
    policy: Policy,
    stage: InstallStage,
}

/// The mathematical value of an [`Install`].
pub struct InstallView {
    pub package: PackageView,
    pub dest: Seq<char>,
    pub policy: Policy,
    pub stage: InstallStageView,
}

impl View for Install {
    type V = InstallView;

    closed spec fn view(&self) -> InstallView {
        InstallView {
            package: self.package@,
            dest: self.dest@,
            policy: self.policy,
            stage: match self.stage {
                InstallStage::Probing => InstallStageView::Probing,
                InstallStage::Creating => InstallStageView::Creating,
                InstallStage::Copying => InstallStageView::Copying,
                InstallStage::Cleaning { cause } => InstallStageView::Cleaning { cause: cause@ },
            },
        }
    }
}

/// The mathematical value of the result of an installation.
pub open spec fn install_result(result: Result<Installed, Error>) -> Result<Installed, ErrorView> {
    match result {
        Ok(done) => Ok(done),
        Err(error) => Err(error@),
    }
}

/// The mathematical value of a step of [`Install`].
pub open spec fn install_step(step: Step<Install, Result<Installed, Error>>) -> StepView<
    InstallView,
    Result<Installed, ErrorView>,
> {
    match step {
        Step::Ask(state, request) => StepView::Ask(state@, request@),
        Step::Done(result) => StepView::Done(install_result(result)),
    }
}

/// How the installation of `package` into `store` begins: by asking whether
/// the directory of its name and version exists there.
pub open spec fn install_start(store: Seq<char>, package: PackageView, policy: Policy) -> (
    InstallView,
    RequestView,
) {
    let dest = version_dir(store, package.name, package.version);
    (
        InstallView { package, dest, policy, stage: InstallStageView::Probing },
        RequestView::Exists { path: dest },
    )
}

/// The step that removes the destination after a failure with `cause`.
pub open spec fn install_cleanup(state: InstallView, cause: Seq<char>) -> StepView<
    InstallView,
    Result<Installed, ErrorView>,
> {
    StepView::Ask(
        InstallView { stage: InstallStageView::Cleaning { cause }, ..state },
        RequestView::RemoveDirAll { path: state.dest },
    )
}

/// How an installation goes on when the host has answered.
///
/// Where the destination exists and the policy is to skip, the installation
/// is done. Else the destination is created, then the package is copied into
/// it. Where creating or copying fails, the destination is removed as a whole
/// before the failure is reported, with the message of what failed first.
pub open spec fn install_next(state: InstallView, reply: ReplyView) -> StepView<
    InstallView,
    Result<Installed, ErrorView>,
> {
    match state.stage {
        InstallStageView::Probing => match reply {
            ReplyView::Flag(present) => if present && state.policy == Policy::SkipExisting {
                StepView::Done(Ok(Installed::AlreadyPresent))
            } else {
                StepView::Ask(
                    InstallView { stage: InstallStageView::Creating, ..state },
                    RequestView::CreateDirAll { path: state.dest },
                )
            },
            _ => StepView::Done(
                Err(ErrorView::IoFailure { path: state.dest, message: unexpected() }),
            ),
        },
        InstallStageView::Creating => match reply {
            ReplyView::Done(None) => StepView::Ask(
                InstallView { stage: InstallStageView::Copying, ..state },
                RequestView::CopyTree {
                    from: state.package.path,
                    to: state.dest,
                    skip_exist: state.policy == Policy::SkipExisting,
                },
            ),
            ReplyView::Done(Some(cause)) => install_cleanup(state, cause),
            _ => install_cleanup(state, unexpected()),
        },
        InstallStageView::Copying => match reply {
            ReplyView::Done(None) => StepView::Done(Ok(Installed::Copied)),
            ReplyView::Done(Some(cause)) => install_cleanup(state, cause),
            _ => install_cleanup(state, unexpected()),
        },
        InstallStageView::Cleaning { cause } => StepView::Done(
            Err(ErrorView::IoFailure { path: state.dest, message: cause }),
        ),
    }
}

/// Begins the installation of `package` into `store`: into the directory of
/// its name and version there.
pub fn install(store: &str, package: Package, policy: Policy) -> (start: (Install, Request))
    ensures
        (start.0@, start.1@) == install_start(store@, package@, policy),
{
    let dest = version_path(store, package.name.as_str(), &package.version);
    let request = Request::Exists { path: dest.clone() };
    (Install { package, dest, policy, stage: InstallStage::Probing }, request)
}

impl Install {
    /// The package that is being installed.
    pub fn package(&self) -> (package: &Package)
        ensures
            package@ == self@.package,
    {
        &self.package
    }

    /// Asks the host to remove the destination after a failure with `cause`.
    fn cleanup(self, cause: String) -> (next: Step<Install, Result<Installed, Error>>)
        ensures
            install_step(next) == install_cleanup(self@, cause@),
    {
        let request = Request::RemoveDirAll { path: self.dest.clone() };
        Step::Ask(
            Install {
                package: self.package,
                dest: self.dest,
                policy: self.policy,
                stage: InstallStage::Cleaning { cause },
            },
            request,
        )
    }

    /// Goes on with the answer of the host.
    pub fn resume(self, reply: Reply) -> (next: Step<Install, Result<Installed, Error>>)
        ensures
            install_step(next) == install_next(self@, reply@),
    {
        match self.stage {
            InstallStage::Probing => match reply {
                Reply::Flag(present) => {
                    if present && matches!(self.policy, Policy::SkipExisting) {
                        Step::Done(Ok(Installed::AlreadyPresent))
                    } else {
                        let request = Request::CreateDirAll { path: self.dest.clone() };
                        Step::Ask(
                            Install {
                                package: self.package,
                                dest: self.dest,
                                policy: self.policy,
                                stage: InstallStage::Creating,
                            },
                            request,
                        )
                    }
                },
                _ => Step::Done(
                    Err(
                        Error::IoFailure {
                            path: self.dest,
                            message: "unexpected reply".to_owned(),
                        },
                    ),
                ),
            },
            InstallStage::Creating => match reply {
                Reply::Done(None) => {
                    let request = Request::CopyTree {
                        from: self.package.path.clone(),
                        to: self.dest.clone(),
                        skip_exist: matches!(self.policy, Policy::SkipExisting),
                    };
                    Step::Ask(
                        Install {
                            package: self.package,
                            dest: self.dest,
                            policy: self.policy,
                            stage: InstallStage::Copying,
                        },
                        request,
                    )
                },
                Reply::Done(Some(cause)) => self.cleanup(cause),
                _ => self.cleanup("unexpected reply".to_owned()),
            },
            InstallStage::Copying => match reply {
                Reply::Done(None) => Step::Done(Ok(Installed::Copied)),
                Reply::Done(Some(cause)) => self.cleanup(cause),
                _ => self.cleanup("unexpected reply".to_owned()),
            },
            InstallStage::Cleaning { cause } => Step::Done(
                Err(Error::IoFailure { path: self.dest, message: cause }),
            ),
        }
    }
}

/// Whether an installation that stands in `state` and has asked `request`
/// ends with `result` when a faithful host answers `replies`, one after the
/// other, on a disk that is `disk` at first and `disks[i]` after the answer
/// `replies[i]`.
pub open spec fn install_run(
    state: InstallView,
    request: RequestView,
    disk: Disk,
    replies: Seq<ReplyView>,
    disks: Seq<Disk>,
    result: Result<Installed, ErrorView>,
) -> bool
    decreases replies.len(),
{
    replies.len() > 0 && disks.len() == replies.len() && serves(
        disk,
        request,
        replies[0],
        disks[0],
    ) && match install_next(state, replies[0]) {
        StepView::Done(end) => replies.len() == 1 && end == result,
        StepView::Ask(next, request) => install_run(
            next,
            request,
            disks[0],
            replies.drop_first(),
            disks.drop_first(),
            result,
        ),
    }
}

/// Installing is idempotent: once a package has been installed, installing it
/// again under the policy to skip succeeds without a change to the disk, so
/// that the store holds afterwards exactly what it held before.
pub proof fn law_install_twice_is_once(
    store: Seq<char>,
    package: PackageView,
    policy: Policy,
    disk: Disk,
    first: Seq<ReplyView>,
    first_disks: Seq<Disk>,
    done: Installed,
    second: Seq<ReplyView>,
    second_disks: Seq<Disk>,
    result: Result<Installed, ErrorView>,
)
    requires
        install_run(
            install_start(store, package, policy).0,
            install_start(store, package, policy).1,
            disk,
            first,
            first_disks,
            Ok(done),
        ),
        install_run(
            install_start(store, package, Policy::SkipExisting).0,
            install_start(store, package, Policy::SkipExisting).1,
            first_disks.last(),
            second,
            second_disks,
            result,
        ),
    ensures
        result == Ok::<Installed, ErrorView>(Installed::AlreadyPresent),
        second.len() == 1,
        second_disks.last() == first_disks.last(),
{
    reveal_with_fuel(install_run, 5);
    let dest = version_dir(store, package.name, package.version);
    assert(first_disks.last().occupied(dest));
}

/// A failed installation leaves no partial bundle: it fails only after it
/// has asked the host to remove the destination, and where the host has done
/// so, nothing is left at the destination nor below it.
pub proof fn law_failed_install_leaves_nothing(
    store: Seq<char>,
    package: PackageView,
    policy: Policy,
    disk: Disk,
    replies: Seq<ReplyView>,
    disks: Seq<Disk>,
    error: ErrorView,
)
    requires
        install_run(
            install_start(store, package, policy).0,
            install_start(store, package, policy).1,
            disk,
            replies,
            disks,
            Err(error),
        ),
    ensures
        error matches ErrorView::IoFailure { path, .. } && path == version_dir(
            store,
            package.name,
            package.version,
        ),
        replies.last() == ReplyView::Done(None) ==> disks.last().empty_under(
            version_dir(store, package.name, package.version),
        ),
{
    reveal_with_fuel(install_run, 5);
}

/// A successful copy brings every file of the package into the store, under
/// the same relative path and with the same text, unless the policy is to
/// skip and the store held a file there already.
pub proof fn law_install_copies_every_file(
    store: Seq<char>,
    package: PackageView,
    policy: Policy,
    disk: Disk,
    replies: Seq<ReplyView>,
    disks: Seq<Disk>,
    suffix: Seq<char>,
)
    requires
        install_run(
            install_start(store, package, policy).0,
            install_start(store, package, policy).1,
            disk,
            replies,
            disks,
            Ok(Installed::Copied),
        ),
        is_suffix(suffix),
        disk.files.contains_key(entry_at(package.path, suffix)),
    ensures
        disks.last().files.contains_key(
            entry_at(version_dir(store, package.name, package.version), suffix),
        ),
        policy == Policy::Overwrite || !disk.files.contains_key(
            entry_at(version_dir(store, package.name, package.version), suffix),
        ) ==> disks.last().files[entry_at(
            version_dir(store, package.name, package.version),
            suffix,
        )] == disk.files[entry_at(package.path, suffix)],
{
    reveal_with_fuel(install_run, 5);
    let created = disks.drop_first()[0];
    let copied = disks.drop_first().drop_first()[0];
    assert(copied == disks.last());
    assert(created.files == disk.files);
}

/// An installation changes nothing outside its destination, but that it may
/// create the directories that lead to the destination: whatever the host
/// answers, every file elsewhere is afterwards what it was before, no
/// directory elsewhere is lost, and a directory that is new elsewhere is one
/// that the destination lies below.
pub proof fn law_install_stays_inside(
    store: Seq<char>,
    package: PackageView,
    policy: Policy,
    disk: Disk,
    replies: Seq<ReplyView>,
    disks: Seq<Disk>,
    result: Result<Installed, ErrorView>,
)
    requires
        install_run(
            install_start(store, package, policy).0,
            install_start(store, package, policy).1,
            disk,
            replies,
            disks,
            result,
        ),
    ensures
        forall|path: Seq<char>|
            !(#[trigger] under(path, version_dir(store, package.name, package.version))) ==> {
                &&& disks.last().files.contains_key(path) == disk.files.contains_key(path)
                &&& disk.files.contains_key(path) ==> disks.last().files[path] == disk.files[path]
                &&& disk.dirs.contains(path) ==> disks.last().dirs.contains(path)
                &&& disks.last().dirs.contains(path) ==> disk.dirs.contains(path) || under(
                    version_dir(store, package.name, package.version),
                    path,
                )
            },
{
    reveal_with_fuel(install_run, 5);
}

/// One line of the report of an installation of several packages.
#[derive(Debug, Clone, PartialEq, Eq)]
pub struct Record {
    pub package: Package,
    pub outcome: Installed,
}

/// The mathematical value of a [`Record`].
pub struct RecordView {
    pub package: PackageView,
    pub outcome: Installed,
}

impl View for Record {
    type V = RecordView;

    open spec fn view(&self) -> RecordView {
        RecordView { package: self.package@, outcome: self.outcome }
    }
}

/// The values of the records of a list.
pub open spec fn records_of(list: Seq<Record>) -> Seq<RecordView> {
    Seq::new(list.len(), |i: int| list[i]@)
}

/// What the installation of the packages of a directory is waiting for.
#[derive(Debug)]
enum PackagesStage {
    /// The directory itself is being tested.
    Probing { probe: Probe },
    /// The directory is no package; the packages below it are being searched.
    Searching { search: Search },
    /// One package is being installed; `rest` come after it.
    Installing { install: Install, rest: Vec<Package> },
}

/// The mathematical value of what such an installation is waiting for.
pub enum PackagesStageView {
    Probing { probe: ProbeView },
    Searching { search: SearchView },
    Installing { install: InstallView, rest: Seq<PackageView> },
}

/// The state of the installation of the packages of a directory.
#[derive(Debug)]
pub struct Packages {
    store: String,
    path: String,
    done: Vec<Record>,
    stage: PackagesStage,
}

/// The mathematical value of a [`Packages`].
pub struct PackagesView {
    pub store: Seq<char>,
    pub path: Seq<char>,
    pub done: Seq<RecordView>,
    pub stage: PackagesStageView,
}

impl View for Packages {
    type V = PackagesView;

    closed spec fn view(&self) -> PackagesView {
        PackagesView {
            store: self.store@,
            path: self.path@,
            done: records_of(self.done@),
            stage: match self.stage {
                PackagesStage::Probing { probe } => PackagesStageView::Probing { probe: probe@ },
                PackagesStage::Searching { search } => PackagesStageView::Searching {
                    search: search@,
                },
                PackagesStage::Installing { install, rest } => PackagesStageView::Installing {
                    install: install@,
                    rest: packages_of(rest@),
                },
            },
        }
    }
}

/// The mathematical value of the result of such an installation.
pub open spec fn packages_result(result: Result<Vec<Record>, Error>) -> Result<
    Seq<RecordView>,
    ErrorView,
> {
    match result {
        Ok(done) => Ok(records_of(done@)),
        Err(error) => Err(error@),
    }
}

/// The mathematical value of a step of [`Packages`].
pub open spec fn packages_step(step: Step<Packages, Result<Vec<Record>, Error>>) -> StepView<
    PackagesView,
    Result<Seq<RecordView>, ErrorView>,
> {
    match step {
        Step::Ask(state, request) => StepView::Ask(state@, request@),
        Step::Done(result) => StepView::Done(packages_result(result)),
    }
}

/// How the installation of the packages of `path` into `store` begins: by
/// the test whether `path` itself is a package.
pub open spec fn packages_start(store: Seq<char>, path: Seq<char>) -> (PackagesView, RequestView) {
    (
        PackagesView {
            store,
            path,
            done: Seq::empty(),
            stage: PackagesStageView::Probing { probe: probe_start(path).0 },
        },
        probe_start(path).1,
    )
}

/// How such an installation turns to the first package of `queue`, or ends
/// with its report when the queue is empty.
pub open spec fn packages_advance(
    store: Seq<char>,
    path: Seq<char>,
    done: Seq<RecordView>,
    queue: Seq<PackageView>,
) -> StepView<PackagesView, Result<Seq<RecordView>, ErrorView>> {
    if queue.len() == 0 {
        StepView::Done(Ok(done))
    } else {
        let (install, request) = install_start(store, queue[0], Policy::SkipExisting);
        StepView::Ask(
            PackagesView {
                store,
                path,
                done,
                stage: PackagesStageView::Installing { install, rest: queue.drop_first() },
            },
            request,
        )
    }
}

/// How such an installation goes on when the host has answered.
///
/// Where the directory is a package, that package alone is installed. Where
/// it is none, the packages one and two levels below it are searched and
/// installed in the order in which they were found; if there is none, the
/// installation fails with [`Error::NotFound`]. Each package is installed
/// under the policy to skip what the store holds. The first package that
/// fails ends the installation with its failure.
pub open spec fn packages_next(state: PackagesView, reply: ReplyView) -> StepView<
    PackagesView,
    Result<Seq<RecordView>, ErrorView>,
> {
    match state.stage {
        PackagesStageView::Probing { probe } => match probe_next(probe, reply) {
            StepView::Ask(probe, request) => StepView::Ask(
                PackagesView { stage: PackagesStageView::Probing { probe }, ..state },
                request,
            ),
            StepView::Done(Some(package)) => packages_advance(
                state.store,
                state.path,
                state.done,
                seq![package],
            ),
            StepView::Done(None) => StepView::Ask(
                PackagesView {
                    stage: PackagesStageView::Searching { search: search_start(state.path).0 },
                    ..state
                },
                search_start(state.path).1,
            ),
        },
        PackagesStageView::Searching { search } => match search_next(search, reply) {
            StepView::Ask(search, request) => StepView::Ask(
                PackagesView { stage: PackagesStageView::Searching { search }, ..state },
                request,
            ),
            StepView::Done(found) => if found.len() == 0 {
                StepView::Done(Err(ErrorView::NotFound { path: state.path }))
            } else {
                packages_advance(state.store, state.path, state.done, found)
            },
        },
        PackagesStageView::Installing { install, rest } => match install_next(install, reply) {
            StepView::Ask(install, request) => StepView::Ask(
                PackagesView { stage: PackagesStageView::Installing { install, rest }, ..state },
                request,
            ),
            StepView::Done(Ok(outcome)) => packages_advance(
                state.store,
                state.path,
                state.done.push(RecordView { package: install.package, outcome }),
                rest,
            ),
            StepView::Done(Err(error)) => StepView::Done(Err(error)),
        },
    }
}

/// Begins the installation of the package at `path`, or else of the packages
/// that lie one or two levels below `path`, into `store`.
pub fn packages(store: &str, path: &str) -> (start: (Packages, Request))
    ensures
        (start.0@, start.1@) == packages_start(store@, path@),
{
    let (probe, request) = is_package(path);
    let state = Packages {
        store: store.to_owned(),
        path: path.to_owned(),
        done: Vec::new(),
        stage: PackagesStage::Probing { probe },
    };
    assert(state@.done =~= Seq::empty());
    (state, request)
}

impl Packages {
    /// Turns to the first package of `queue`.
    fn advance(store: String, path: String, done: Vec<Record>, queue: Vec<Package>) -> (next: Step<
        Packages,
        Result<Vec<Record>, Error>,
    >)
        ensures
            packages_step(next) == packages_advance(
                store@,
                path@,
                records_of(done@),
                packages_of(queue@),
            ),
    {
        if queue.len() == 0 {
            Step::Done(Ok(done))
        } else {
            let mut queue = queue;
            let ghost before = queue@;
            let first = queue.remove(0);
            let (install, request) = install(store.as_str(), first, Policy::SkipExisting);
            let state = Packages {
                store,
                path,
                done,
                stage: PackagesStage::Installing { install, rest: queue },
            };
            assert(packages_of(queue@) =~= packages_of(before).drop_first());
            Step::Ask(state, request)
        }
    }

    /// Goes on with the answer of the host.
    pub fn resume(self, reply: Reply) -> (next: Step<Packages, Result<Vec<Record>, Error>>)
        ensures
            packages_step(next) == packages_next(self@, reply@),
    {
        let Packages { store, path, done, stage } = self;
        match stage {
            PackagesStage::Probing { probe } => match probe.resume(reply) {
                Step::Ask(probe, request) => Step::Ask(
                    Packages { store, path, done, stage: PackagesStage::Probing { probe } },
                    request,
                ),
                Step::Done(Some(package)) => {
                    let mut queue: Vec<Package> = Vec::new();
                    queue.push(package);
                    assert(packages_of(queue@) =~= seq![package@]);
                    Packages::advance(store, path, done, queue)
                },
                Step::Done(None) => {
                    let (search, request) = search(path.as_str());
                    Step::Ask(
                        Packages { store, path, done, stage: PackagesStage::Searching { search } },
                        request,
                    )
                },
            },
            PackagesStage::Searching { search } => match search.resume(reply) {
                Step::Ask(search, request) => Step::Ask(
                    Packages { store, path, done, stage: PackagesStage::Searching { search } },
                    request,
                ),
                Step::Done(found) => {
                    if found.len() == 0 {
                        Step::Done(Err(Error::NotFound { path }))
                    } else {
                        Packages::advance(store, path, done, found)
                    }
                },
            },
            PackagesStage::Installing { install, rest } => {
                let package = install.package().duplicate();
                match install.resume(reply) {
                    Step::Ask(install, request) => Step::Ask(
                        Packages {
                            store,
                            path,
                            done,
                            stage: PackagesStage::Installing { install, rest },
                        },
                        request,
                    ),
                    Step::Done(Ok(outcome)) => {
                        let mut done = done;
                        let ghost before = records_of(done@);
                        done.push(Record { package, outcome });
                        assert(records_of(done@) =~= before.push(
                            RecordView { package: package@, outcome },
                        ));
                        Packages::advance(store, path, done, rest)
                    },
                    Step::Done(Err(error)) => Step::Done(Err(error)),
                }
            },
        }
    }
}

/// What became of one version in an installation of all versions of a
/// package.
#[derive(Debug, PartialEq, Eq)]
pub struct Outcome {
    pub version: Version,
    pub result: Result<Installed, Error>,
}

/// The mathematical value of an [`Outcome`].
pub struct OutcomeView {
    pub version: VersionView,
    pub result: Result<Installed, ErrorView>,
}

impl View for Outcome {
    type V = OutcomeView;

    open spec fn view(&self) -> OutcomeView {
        OutcomeView { version: self.version@, result: install_result(self.result) }
    }
}

/// The values of the outcomes of a list.
pub open spec fn outcomes_of(list: Seq<Outcome>) -> Seq<OutcomeView> {
    Seq::new(list.len(), |i: int| list[i]@)
}

/// A directory that is named as a version, still to be installed.
#[derive(Debug)]
pub struct Candidate {
    dir: String,
    version: Version,
}

/// The mathematical value of a [`Candidate`].
pub struct CandidateView {
    pub dir: Seq<char>,
    pub version: VersionView,
}

impl View for Candidate {
    type V = CandidateView;

    closed spec fn view(&self) -> CandidateView {
        CandidateView { dir: self.dir@, version: self.version@ }
    }
}

/// The values of the candidates of a list.
pub open spec fn candidates_of(list: Seq<Candidate>) -> Seq<CandidateView> {
    Seq::new(list.len(), |i: int| list[i]@)
}

/// What an installation of all versions is waiting for.
#[derive(Debug)]
enum AllStage {
    /// The directories of the source are being listed.
    Listing,
    /// The descriptor of a version directory is being read.
    Reading { at: Candidate },
    /// The descriptor agrees with the directory; its entrypoint is being
    /// looked for.
    Checking { at: Candidate, spec: PackageSpec },
    /// The version is being installed.
    Installing { version: Version, install: Install },
}

/// The mathematical value of what such an installation is waiting for.
pub enum AllStageView {
    Listing,
    Reading { at: CandidateView },
    Checking { at: CandidateView, spec: PackageSpecView },
    Installing { version: VersionView, install: InstallView },
}

/// The state of the installation of all versions of a registered package.
#[derive(Debug)]
pub struct InstallAll {
    name: String,
    store: String,
    source: String,
    /// The version directories still to handle; the first one is the next.
    todo: Vec<Candidate>,
    outcomes: Vec<Outcome>,
    stage: AllStage,
}

/// The mathematical value of an [`InstallAll`].
pub struct InstallAllView {
    pub name: Seq<char>,
    pub store: Seq<char>,
    pub source: Seq<char>,
    pub todo: Seq<CandidateView>,
    pub outcomes: Seq<OutcomeView>,
    pub stage: AllStageView,
}

impl View for InstallAll {
    type V = InstallAllView;

    closed spec fn view(&self) -> InstallAllView {
        InstallAllView {
            name: self.name@,
            store: self.store@,
            source: self.source@,
            todo: candidates_of(self.todo@),
            outcomes: outcomes_of(self.outcomes@),
            stage: match self.stage {
                AllStage::Listing => AllStageView::Listing,
                AllStage::Reading { at } => AllStageView::Reading { at: at@ },
                AllStage::Checking { at, spec } => AllStageView::Checking { at: at@, spec: spec@ },
                AllStage::Installing { version, install } => AllStageView::Installing {
                    version: version@,
                    install: install@,
                },
            },
        }
    }
}

/// The mathematical value of the result of such an installation.
pub open spec fn all_result(result: Result<Vec<Outcome>, Error>) -> Result<
    Seq<OutcomeView>,
    ErrorView,
> {
    match result {
        Ok(outcomes) => Ok(outcomes_of(outcomes@)),
        Err(error) => Err(error@),
    }
}

/// The mathematical value of a step of [`InstallAll`].
pub open spec fn all_step(step: Step<InstallAll, Result<Vec<Outcome>, Error>>) -> StepView<
    InstallAllView,
    Result<Seq<OutcomeView>, ErrorView>,
> {
    match step {
        Step::Ask(state, request) => StepView::Ask(state@, request@),
        Step::Done(result) => StepView::Done(all_result(result)),
    }
}

/// The version directories among the directories `names` of `source`: those
/// whose name is a semantic version, in the order of the listing.
pub open spec fn candidates(source: Seq<char>, names: Seq<Seq<char>>) -> Seq<CandidateView>
    decreases names.len(),
{
    if names.len() == 0 {
        Seq::empty()
    } else {
        candidates(source, names.drop_last()) + (match semver_version(names.last()) {
            Some(version) => seq![CandidateView { dir: joined(source, names.last()), version }],
            None => Seq::empty(),
        })
    }
}

/// Whether the descriptor `spec` declares the name and the version under
/// which its directory was found.
pub open spec fn agrees(name: Seq<char>, version: VersionView, spec: PackageSpecView) -> bool {
    spec.name == name && spec.version == version
}

/// What is reported of a descriptor that the host could not read.
pub open spec fn unreadable() -> Seq<char> {
    "descriptor cannot be read"@
}

/// Whether every outcome of a list is a failure.
pub open spec fn all_failed(outcomes: Seq<OutcomeView>) -> bool {
    forall|i: int| 0 <= i < outcomes.len() ==> (#[trigger] outcomes[i]).result is Err
}

/// How such an installation ends: with [`Error::NotFound`] where the source
/// holds no version directory, with the first failure where every version
/// failed, and else with the outcome of each version.
pub open spec fn all_finish(source: Seq<char>, outcomes: Seq<OutcomeView>) -> Result<
    Seq<OutcomeView>,
    ErrorView,
> {
    if outcomes.len() == 0 {
        Err(ErrorView::NotFound { path: source })
    } else if all_failed(outcomes) {
        Err(outcomes[0].result->Err_0)
    } else {
        Ok(outcomes)
    }
}

/// How such an installation turns to the next version directory, or ends
/// when none is left.
pub open spec fn all_advance(state: InstallAllView) -> StepView<
    InstallAllView,
    Result<Seq<OutcomeView>, ErrorView>,
> {
    if state.todo.len() == 0 {
        StepView::Done(all_finish(state.source, state.outcomes))
    } else {
        StepView::Ask(
            InstallAllView {
                todo: state.todo.drop_first(),
                stage: AllStageView::Reading { at: state.todo[0] },
                ..state
            },
            RequestView::ReadText { path: descriptor_path(state.todo[0].dir) },
        )
    }
}

/// How such an installation notes what became of a version, and goes on
/// with the next: the failure of one version does not end the installation.
pub open spec fn all_record(
    state: InstallAllView,
    version: VersionView,
    result: Result<Installed, ErrorView>,
) -> StepView<InstallAllView, Result<Seq<OutcomeView>, ErrorView>> {
    all_advance(
        InstallAllView { outcomes: state.outcomes.push(OutcomeView { version, result }), ..state },
    )
}

/// How the installation of all versions of `name` into `store` begins: the
/// name is resolved in the registry, and the directories of its source are
/// listed. A name that is not registered ends it at once.
pub open spec fn all_start(registry: Registry, store: Seq<char>, name: Seq<char>) -> StepView<
    InstallAllView,
    Result<Seq<OutcomeView>, ErrorView>,
> {
    match registry.resolve(name) {
        Ok(source) => StepView::Ask(
            InstallAllView {
                name,
                store,
                source,
                todo: Seq::empty(),
                outcomes: Seq::empty(),
                stage: AllStageView::Listing,
            },
            RequestView::ListDirs { path: source },
        ),
        Err(error) => StepView::Done(Err(error)),
    }
}

/// How such an installation goes on when the host has answered.
///
/// Each directory of the source that is named as a version is handled in
/// turn. Its descriptor is read and validated; it must declare the registered
/// name and the version that the directory is named as, else the version
/// fails with [`Error::NameVersionMismatch`] and nothing of it is copied; its
/// entrypoint must be a file, else the version fails with
/// [`Error::EntrypointMissing`]. Then the version is installed under the
/// policy to overwrite.
pub open spec fn all_next(state: InstallAllView, reply: ReplyView) -> StepView<
    InstallAllView,
    Result<Seq<OutcomeView>, ErrorView>,
> {
    match state.stage {
        AllStageView::Listing => all_advance(
            InstallAllView {
                todo: candidates(
                    state.source,
                    match reply {
                        ReplyView::Names(names) => names,
                        _ => Seq::empty(),
                    },
                ),
                ..state
            },
        ),
        AllStageView::Reading { at } => match reply {
            ReplyView::Text(Some(text)) => match validated(text) {
                Ok(spec) => if agrees(state.name, at.version, spec) {
                    StepView::Ask(
                        InstallAllView { stage: AllStageView::Checking { at, spec }, ..state },
                        RequestView::IsFile { path: joined(at.dir, spec.entrypoint) },
                    )
                } else {
                    all_record(
                        state,
                        at.version,
                        Err(ErrorView::NameVersionMismatch { path: at.dir }),
                    )
                },
                Err(error) => all_record(state, at.version, Err(error)),
            },
            _ => all_record(
                state,
                at.version,
                Err(ErrorView::IoFailure { path: descriptor_path(at.dir), message: unreadable() }),
            ),
        },
        AllStageView::Checking { at, spec } => match reply {
            ReplyView::Flag(true) => {
                let (install, request) = install_start(
                    state.store,
                    PackageView::at(at.dir, spec),
                    Policy::Overwrite,
                );
                StepView::Ask(
                    InstallAllView {
                        stage: AllStageView::Installing { version: at.version, install },
                        ..state
                    },
                    request,
                )
            },
            _ => all_record(
                state,
                at.version,
                Err(ErrorView::EntrypointMissing { path: joined(at.dir, spec.entrypoint) }),
            ),
        },
        AllStageView::Installing { version, install } => match install_next(install, reply) {
            StepView::Ask(install, request) => StepView::Ask(
                InstallAllView { stage: AllStageView::Installing { version, install }, ..state },
                request,
            ),
            StepView::Done(result) => all_record(state, version, result),
        },
    }
}

/// Checks that the descriptor found in the version directory `dir` declares
/// the name and the version under which the directory was found. Fails with
/// [`Error::NameVersionMismatch`] exactly where it declares another name or
/// another version.
pub fn cross_check(name: &str, version: &Version, dir: &str, descriptor: &PackageManifest) -> (checked:
    Result<(), Error>)
    ensures
        checked is Ok <==> agrees(name@, version@, descriptor@),
        checked matches Err(error) ==> error@ == (ErrorView::NameVersionMismatch { path: dir@ }),
{
    if same_text(descriptor.package.name.as_str(), name) && descriptor.package.version.same(
        version,
    ) {
        Ok(())
    } else {
        Err(Error::NameVersionMismatch { path: dir.to_owned() })
    }
}

/// Begins the installation of every version of the registered package `name`
/// into `store`.
pub fn install_all_versions(manifest: &Manifest, store: &str, name: &str) -> (start: Step<
    InstallAll,
    Result<Vec<Outcome>, Error>,
>)
    ensures
        all_step(start) == all_start(manifest@.registry, store@, name@),
{
    match manifest.package_path(name) {
        Ok(source) => {
            let request = Request::ListDirs { path: source.clone() };
            let state = InstallAll {
                name: name.to_owned(),
                store: store.to_owned(),
                source,
                todo: Vec::new(),
                outcomes: Vec::new(),
                stage: AllStage::Listing,
            };
            assert(state@.todo =~= Seq::empty());
            assert(state@.outcomes =~= Seq::empty());
            Step::Ask(state, request)
        },
        Err(error) => Step::Done(Err(error)),
    }
}

impl InstallAll {
    /// The version directories among `names`.
    fn select(source: &str, names: &Vec<String>) -> (todo: Vec<Candidate>)
        ensures
            candidates_of(todo@) == candidates(source@, texts(names@)),
    {
        let mut todo: Vec<Candidate> = Vec::new();
        let n = names.len();
        let mut i: usize = 0;
        assert(texts(names@).subrange(0, 0) =~= Seq::empty());
        assert(candidates_of(todo@) =~= Seq::empty());
        while i < n
            invariant
                n == names.len(),
                i <= n,
                candidates_of(todo@) == candidates(source@, texts(names@).subrange(0, i as int)),
            decreases n - i,
        {
            let ghost before = candidates_of(todo@);
            let ghost part = texts(names@).subrange(0, i + 1);
            assert(part.drop_last() =~= texts(names@).subrange(0, i as int));
            assert(part.last() == names@[i as int]@);
            match Version::parse(names[i].as_str()) {
                Some(version) => {
                    todo.push(Candidate { dir: join(source, names[i].as_str()), version });
                    assert(candidates_of(todo@) =~= before.push(
                        CandidateView { dir: joined(source@, names@[i as int]@), version: version@ },
                    ));
                },
                None => {},
            }
            assert(candidates_of(todo@) =~= candidates(source@, part));
            i = i + 1;
        }
        assert(texts(names@).subrange(0, n as int) =~= texts(names@));
        todo
    }

    /// Whether every outcome is a failure.
    fn failed(outcomes: &Vec<Outcome>) -> (yes: bool)
        ensures
            yes == all_failed(outcomes_of(outcomes@)),
    {
        let n = outcomes.len();
        let mut i: usize = 0;
        while i < n
            invariant
                n == outcomes.len(),
                i <= n,
                forall|j: int| 0 <= j < i ==> (#[trigger] outcomes_of(outcomes@)[j]).result is Err,
            decreases n - i,
        {
            if outcomes[i].result.is_ok() {
                assert(outcomes_of(outcomes@)[i as int].result is Ok);
                return false;
            }
            assert(outcomes_of(outcomes@)[i as int].result is Err);
            i = i + 1;
        }
        true
    }

    /// Turns to the next version directory.
    fn advance(self) -> (next: Step<InstallAll, Result<Vec<Outcome>, Error>>)
        ensures
            all_step(next) == all_advance(self@),
    {
        let InstallAll { name, store, source, todo, outcomes, stage } = self;
        if todo.len() == 0 {
            if outcomes.len() == 0 {
                Step::Done(Err(Error::NotFound { path: source }))
            } else if InstallAll::failed(&outcomes) {
                let error = match &outcomes[0].result {
                    Err(error) => error.duplicate(),
                    Ok(_) => Error::NotFound { path: source },
                };
                assert(outcomes_of(outcomes@)[0].result is Err);
                Step::Done(Err(error))
            } else {
                Step::Done(Ok(outcomes))
            }
        } else {
            let mut todo = todo;
            let ghost before = todo@;
            let at = todo.remove(0);
            let request = Request::ReadText { path: join(at.dir.as_str(), "typst.toml") };
            assert(candidates_of(todo@) =~= candidates_of(before).drop_first());
            Step::Ask(
                InstallAll { name, store, source, todo, outcomes, stage: AllStage::Reading { at } },
                request,
            )
        }
    }

    /// Notes what became of `version` and turns to the next.
    fn record(self, version: Version, result: Result<Installed, Error>) -> (next: Step<
        InstallAll,
        Result<Vec<Outcome>, Error>,
    >)
        ensures
            all_step(next) == all_record(self@, version@, install_result(result)),
    {
        let InstallAll { name, store, source, todo, outcomes, stage } = self;
        let mut outcomes = outcomes;
        let ghost before = outcomes_of(outcomes@);
        outcomes.push(Outcome { version, result });
        assert(outcomes_of(outcomes@) =~= before.push(
            OutcomeView { version: version@, result: install_result(result) },
        ));
        let state = InstallAll { name, store, source, todo, outcomes, stage };
        state.advance()
    }

    /// Goes on with the answer of the host.
    pub fn resume(self, reply: Reply) -> (next: Step<InstallAll, Result<Vec<Outcome>, Error>>)
        ensures
            all_step(next) == all_next(self@, reply@),
    {
        let InstallAll { name, store, source, todo, outcomes, stage } = self;
        match stage {
            AllStage::Listing => {
                let names = match reply {
                    Reply::Names(names) => names,
                    _ => Vec::new(),
                };
                let todo = InstallAll::select(source.as_str(), &names);
                let state = InstallAll {
                    name,
                    store,
                    source,
                    todo,
                    outcomes,
                    stage: AllStage::Listing,
                };
                state.advance()
            },
            AllStage::Reading { at } => match reply {
                Reply::Text(Some(text)) => match validate(text.as_str()) {
                    Ok(descriptor) => match cross_check(
                        name.as_str(),
                        &at.version,
                        at.dir.as_str(),
                        &descriptor,
                    ) {
                        Ok(()) => {
                            let request = Request::IsFile {
                                path: join(at.dir.as_str(), descriptor.package.entrypoint.as_str()),
                            };
                            Step::Ask(
                                InstallAll {
                                    name,
                                    store,
                                    source,
                                    todo,
                                    outcomes,
                                    stage: AllStage::Checking { at, spec: descriptor.package },
                                },
                                request,
                            )
                        },
                        Err(error) => {
                            let state = InstallAll {
                                name,
                                store,
                                source,
                                todo,
                                outcomes,
                                stage: AllStage::Listing,
                            };
                            state.record(at.version, Err(error))
                        },
                    },
                    Err(error) => {
                        let state = InstallAll {
                            name,
                            store,
                            source,
                            todo,
                            outcomes,
                            stage: AllStage::Listing,
                        };
                        state.record(at.version, Err(error))
                    },
                },
                _ => {
                    let error = Error::IoFailure {
                        path: join(at.dir.as_str(), "typst.toml"),
                        message: "descriptor cannot be read".to_owned(),
                    };
                    let state = InstallAll {
                        name,
                        store,
                        source,
                        todo,
                        outcomes,
                        stage: AllStage::Listing,
                    };
                    state.record(at.version, Err(error))
                },
            },
            AllStage::Checking { at, spec } => match reply {
                Reply::Flag(true) => {
                    let package = Package {
                        path: at.dir,
                        name: spec.name,
                        version: spec.version,
                        entrypoint: spec.entrypoint,
                    };
                    let (install, request) = install(store.as_str(), package, Policy::Overwrite);
                    Step::Ask(
                        InstallAll {
                            name,
                            store,
                            source,
                            todo,
                            outcomes,
                            stage: AllStage::Installing { version: at.version, install },
                        },
                        request,
                    )
                },
                _ => {
                    let error = Error::EntrypointMissing {
                        path: join(at.dir.as_str(), spec.entrypoint.as_str()),
                    };
                    let state = InstallAll {
                        name,
                        store,
                        source,
                        todo,
                        outcomes,
                        stage: AllStage::Listing,
                    };
                    state.record(at.version, Err(error))
                },
            },
            AllStage::Installing { version, install } => match install.resume(reply) {
                Step::Ask(install, request) => Step::Ask(
                    InstallAll {
                        name,
                        store,
                        source,
                        todo,
                        outcomes,
                        stage: AllStage::Installing { version, install },
                    },
                    request,
                ),
                Step::Done(result) => {
                    let state = InstallAll {
                        name,
                        store,
                        source,
                        todo,
                        outcomes,
                        stage: AllStage::Listing,
                    };
                    state.record(version, result)
                },
            },
        }
    }
}

/// A version directory whose descriptor declares another name or another
/// version than the directory was found under is rejected with
/// [`Error::NameVersionMismatch`], and nothing of it is copied: the
/// installation goes straight on to the next version directory, or ends.
pub proof fn law_mismatch_is_never_copied(
    state: InstallAllView,
    text: Seq<char>,
    spec: PackageSpecView,
)
    requires
        state.stage is Reading,
        validated(text) == Ok::<PackageSpecView, ErrorView>(spec),
        !agrees(state.name, state.stage->Reading_at.version, spec),
    ensures
        all_next(state, ReplyView::Text(Some(text))) == all_record(
            state,
            state.stage->Reading_at.version,
            Err(ErrorView::NameVersionMismatch { path: state.stage->Reading_at.dir }),
        ),
        match all_next(state, ReplyView::Text(Some(text))) {
            StepView::Ask(next, request) => request is ReadText && next.stage is Reading
                && next.outcomes.last().result == Err::<Installed, ErrorView>(
                ErrorView::NameVersionMismatch { path: state.stage->Reading_at.dir },
            ),
            StepView::Done(_) => true,
        },
{
}

impl InstallAllView {
    /// What holds of every state that an installation of all versions
    /// reaches: a descriptor whose entrypoint is looked for agrees with its
    /// directory, and a version that is being installed is installed under the
    /// registered name and the version that its directory is named as.
    pub open spec fn wf(self) -> bool {
        match self.stage {
            AllStageView::Checking { at, spec } => agrees(self.name, at.version, spec),
            AllStageView::Installing { version, install } => install.package.name == self.name
                && install.package.version == version && install.dest == version_dir(
                self.store,
                self.name,
                version,
            ),
            _ => true,
        }
    }
}

/// Nothing is copied into the store but what agrees with its directory:
/// each step of an installation of all versions keeps
/// [`InstallAllView::wf`], and whenever it asks the host to copy, the
/// destination is the directory of the registered name and of the version
/// that the source directory is named as.
pub proof fn law_only_what_agrees_is_copied(state: InstallAllView, reply: ReplyView)
    requires
        state.wf(),
    ensures
        match all_next(state, reply) {
            StepView::Ask(next, request) => next.wf() && next.name == state.name && next.store
                == state.store && (request matches RequestView::CopyTree { to, .. }
                ==> next.stage matches AllStageView::Installing { version, .. } && to
                == version_dir(state.store, state.name, version)),
            StepView::Done(_) => true,
        },
{
}

} // verus!
