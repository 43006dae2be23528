//! Cleaning of the versioned store: the removal of one version, of the
//! bundle of one package, or of every bundle.

use crate::error::{Error, ErrorView};
use crate::host::{
    serves, unexpected, Disk, Reply, ReplyView, Request, RequestView, Step, StepView,
};
use crate::manifest::{Manifest, Registry};
use crate::store::{bundle_dir, bundle_path, version_dir, version_path};
use crate::text::{
    component, is_component, join, joined, lemma_entry_is_under, lemma_under_is_transitive, text_of,
    texts, under,
};
use crate::package::{identifier, is_identifier, version_of};
use crate::version::{Version, VersionView};
use vstd::prelude::*;

verus! {

/// A directory that a clean could not remove, with the message of the host.
#[derive(Debug, Clone, PartialEq, Eq)]
pub struct Failure {
    pub path: String,
    pub message: String,
}

/// The mathematical value of a [`Failure`].
pub struct FailureView {
    pub path: Seq<char>,
    pub message: Seq<char>,
}

impl View for Failure {
    type V = FailureView;

    open spec fn view(&self) -> FailureView {
        FailureView { path: self.path@, message: self.message@ }
    }
}

/// The values of the failures of a list.
pub open spec fn failures_of(list: Seq<Failure>) -> Seq<FailureView> {
    Seq::new(list.len(), |i: int| list[i]@)
}

/// What a clean has done.
#[derive(Debug, Clone, PartialEq, Eq)]
pub struct CleanReport {
    /// The directories that were removed, in the order of their removal.
    pub removed: Vec<String>,
    /// The directories that could not be removed.
    pub failed: Vec<Failure>,
    /// The name that the registry has to forget: the name of a bundle that
    /// was removed as a whole.
    pub forget: Option<String>,
}

/// The mathematical value of a [`CleanReport`].
pub struct CleanReportView {
    pub removed: Seq<Seq<char>>,
    pub failed: Seq<FailureView>,
    pub forget: Option<Seq<char>>,
}

impl View for CleanReport {
    type V = CleanReportView;

    open spec fn view(&self) -> CleanReportView {
        CleanReportView {
            removed: texts(self.removed@),
            failed: failures_of(self.failed@),
            forget: text_of(self.forget),
        }
    }
}

/// What a clean is to remove.
#[derive(Debug)]
enum Scope {
    /// One version of one package.
    Version,
    /// Every version of the package `name`.
    Bundle { name: String },
    /// Every bundle of the store.
    Store,
}

/// The mathematical value of what a clean is to remove.
pub enum ScopeView {
    Version,
    Bundle { name: Seq<char> },
    Store,
}

/// What a clean is waiting for.
#[derive(Debug)]
enum CleanStage {
    /// Whether the directory to clean exists.
    Probing,
    /// The directories inside the directory to clean are being listed.
    Listing,
    /// The directory `path` is being removed.
    Removing { path: String },
    /// Every version of the bundle is removed; the directory of the bundle is
    /// being removed.
    Sweeping,
}

/// The mathematical value of what a clean is waiting for.
pub enum CleanStageView {
    Probing,
    Listing,
    Removing { path: Seq<char> },
    Sweeping,
}

/// The state of a clean.
#[derive(Debug)]
pub struct Clean {
    scope: Scope,
    /// The directory to clean: of the version, of the bundle, or the store.
    dir: String,
    /// The directories still to remove; the first one is the next.
    todo: Vec<String>,
    removed: Vec<String>,
    failed: Vec<Failure>,
    stage: CleanStage,
}

/// The mathematical value of a [`Clean`].
pub struct CleanView {
    pub scope: ScopeView,
    pub dir: Seq<char>,
    pub todo: Seq<Seq<char>>,
    pub removed: Seq<Seq<char>>,
    pub failed: Seq<FailureView>,
    pub stage: CleanStageView,
}

impl View for Clean {
    type V = CleanView;

    closed spec fn view(&self) -> CleanView {
        CleanView {
            scope: match self.scope {
                Scope::Version => ScopeView::Version,
                Scope::Bundle { name } => ScopeView::Bundle { name: name@ },
                Scope::Store => ScopeView::Store,
            },
            dir: self.dir@,
            todo: texts(self.todo@),
            removed: texts(self.removed@),
            failed: failures_of(self.failed@),
            stage: match self.stage {
                CleanStage::Probing => CleanStageView::Probing,
                CleanStage::Listing => CleanStageView::Listing,
                CleanStage::Removing { path } => CleanStageView::Removing { path: path@ },
                CleanStage::Sweeping => CleanStageView::Sweeping,
            },
        }
    }
}

/// The mathematical value of the result of a clean.
pub open spec fn clean_result(result: Result<CleanReport, Error>) -> Result<
    CleanReportView,
    ErrorView,
> {
    match result {
        Ok(report) => Ok(report@),
        Err(error) => Err(error@),
    }
}

/// The mathematical value of a step of [`Clean`].
pub open spec fn clean_step(step: Step<Clean, Result<CleanReport, Error>>) -> StepView<
    CleanView,
    Result<CleanReportView, ErrorView>,
> {
    match step {
        Step::Ask(state, request) => StepView::Ask(state@, request@),
        Step::Done(result) => StepView::Done(clean_result(result)),
    }
}

/// The directories inside `dir` that a listing names: one for each name that
/// is a single path component, in the order of the listing.
pub open spec fn children(dir: Seq<char>, names: Seq<Seq<char>>) -> Seq<Seq<char>>
    decreases names.len(),
{
    if names.len() == 0 {
        Seq::empty()
    } else {
        children(dir, names.drop_last()) + (if is_component(names.last()) {
            seq![joined(dir, names.last())]
        } else {
            Seq::empty()
        })
    }
}

/// How a clean begins.
///
/// With a name and a version, the clean is of that version of that package;
/// with a name alone, of the bundle of that package; without a name, of every
/// bundle of the store, whatever version is given. A clean of a version or of
/// a bundle first asks whether its directory exists; a clean of the store
/// lists the store. A name that cannot name a package names nothing that a
/// store holds: the clean ends at once with [`Error::NotFound`].
pub open spec fn clean_start(
    store: Seq<char>,
    name: Option<Seq<char>>,
    version: Option<VersionView>,
) -> StepView<CleanView, Result<CleanReportView, ErrorView>> {
    let (scope, dir) = match name {
        Some(name) => match version {
            Some(version) => (ScopeView::Version, version_dir(store, name, version)),
            None => (ScopeView::Bundle { name }, bundle_dir(store, name)),
        },
        None => (ScopeView::Store, store),
    };
    if name matches Some(name) && !is_identifier(name) {
        StepView::Done(Err(ErrorView::NotFound { path: dir }))
    } else {
        StepView::Ask(
            CleanView {
                scope,
                dir,
                todo: Seq::empty(),
                removed: Seq::empty(),
                failed: Seq::empty(),
                stage: if scope is Store {
                    CleanStageView::Listing
                } else {
                    CleanStageView::Probing
                },
            },
            if scope is Store {
                RequestView::ListDirs { path: dir }
            } else {
                RequestView::Exists { path: dir }
            },
        )
    }
}

/// How a clean ends when nothing is left to remove: with the first failure
/// where nothing was removed and something failed, and else with its report.
/// The registry has to forget the name of a bundle exactly where the bundle
/// was removed without a failure.
pub open spec fn clean_finish(state: CleanView) -> Result<CleanReportView, ErrorView> {
    if state.removed.len() == 0 && state.failed.len() > 0 {
        Err(ErrorView::IoFailure { path: state.failed[0].path, message: state.failed[0].message })
    } else {
        Ok(
            CleanReportView {
                removed: state.removed,
                failed: state.failed,
                forget: match state.scope {
                    ScopeView::Bundle { name } => if state.failed.len() == 0 {
                        Some(name)
                    } else {
                        None
                    },
                    _ => None,
                },
            },
        )
    }
}

/// How a clean turns to the next directory to remove. When none is left, a
/// clean of a bundle that has not failed removes the directory of the bundle
/// itself; any other clean ends.
pub open spec fn clean_advance(state: CleanView) -> StepView<
    CleanView,
    Result<CleanReportView, ErrorView>,
> {
    if state.todo.len() > 0 {
        StepView::Ask(
            CleanView {
                todo: state.todo.drop_first(),
                stage: CleanStageView::Removing { path: state.todo[0] },
                ..state
            },
            RequestView::RemoveDirAll { path: state.todo[0] },
        )
    } else if state.scope is Bundle && state.failed.len() == 0 && !(state.stage is Sweeping) {
        StepView::Ask(
            CleanView { stage: CleanStageView::Sweeping, ..state },
            RequestView::RemoveDirAll { path: state.dir },
        )
    } else {
        StepView::Done(clean_finish(state))
    }
}

/// How a clean notes whether `path` was removed, and goes on: a removal
/// that fails does not end the clean.
pub open spec fn clean_note(state: CleanView, path: Seq<char>, reply: ReplyView) -> StepView<
    CleanView,
    Result<CleanReportView, ErrorView>,
> {
    match reply {
        ReplyView::Done(None) => clean_advance(
            CleanView { removed: state.removed.push(path), ..state },
        ),
        ReplyView::Done(Some(message)) => clean_advance(
            CleanView { failed: state.failed.push(FailureView { path, message }), ..state },
        ),
        _ => clean_advance(
            CleanView {
                failed: state.failed.push(FailureView { path, message: unexpected() }),
                ..state
            },
        ),
    }
}

/// How a clean goes on when the host has answered.
///
/// A version or a bundle that does not exist ends the clean with
/// [`Error::NotFound`], before anything is changed. A version is removed as
/// one directory. Of a bundle, each version directory is removed, then the
/// directory of the bundle. Of the store, each bundle is removed; a store
/// that holds none ends the clean with [`Error::NothingToClean`].
pub open spec fn clean_next(state: CleanView, reply: ReplyView) -> StepView<
    CleanView,
    Result<CleanReportView, ErrorView>,
> {
    match state.stage {
        CleanStageView::Probing => match reply {
            ReplyView::Flag(true) => if state.scope is Version {
                clean_advance(CleanView { todo: seq![state.dir], ..state })
            } else {
                StepView::Ask(
                    CleanView { stage: CleanStageView::Listing, ..state },
                    RequestView::ListDirs { path: state.dir },
                )
            },
            ReplyView::Flag(false) => StepView::Done(
                Err(ErrorView::NotFound { path: state.dir }),
            ),
            _ => StepView::Done(
                Err(ErrorView::IoFailure { path: state.dir, message: unexpected() }),
            ),
        },
        CleanStageView::Listing => {
            let todo = children(
                state.dir,
                match reply {
                    ReplyView::Names(names) => names,
                    _ => Seq::empty(),
                },
            );
            if state.scope is Store && todo.len() == 0 {
                StepView::Done(Err(ErrorView::NothingToClean))
            } else {
                clean_advance(CleanView { todo, ..state })
            }
        },
        CleanStageView::Removing { path } => clean_note(state, path, reply),
        CleanStageView::Sweeping => clean_note(state, state.dir, reply),
    }
}

/// Begins a clean of `store`.
///
/// With `name` and `version`, the clean removes that version of that package;
/// with `name` alone, every version of that package; without `name`, every
/// bundle of the store.
pub fn clean(store: &str, name: Option<String>, version: Option<Version>) -> (start: Step<
    Clean,
    Result<CleanReport, Error>,
>)
    ensures
        clean_step(start) == clean_start(store@, text_of(name), version_of(version)),
{
    let valid = match &name {
        Some(name) => identifier(name.as_str()),
        None => true,
    };
    let (scope, dir) = match name {
        Some(name) => match version {
            Some(version) => (Scope::Version, version_path(store, name.as_str(), &version)),
            None => {
                let dir = bundle_path(store, name.as_str());
                (Scope::Bundle { name }, dir)
            },
        },
        None => (Scope::Store, store.to_owned()),
    };
    if !valid {
        return Step::Done(Err(Error::NotFound { path: dir }));
    }
    let whole = matches!(scope, Scope::Store);
    let request = if whole {
        Request::ListDirs { path: dir.clone() }
    } else {
        Request::Exists { path: dir.clone() }
    };
    let state = Clean {
        scope,
        dir,
        todo: Vec::new(),
        removed: Vec::new(),
        failed: Vec::new(),
        stage: if whole {
            CleanStage::Listing
        } else {
            CleanStage::Probing
        },
    };
    assert(state@.todo =~= Seq::empty());
    assert(state@.removed =~= Seq::empty());
    assert(state@.failed =~= Seq::empty());
    Step::Ask(state, request)
}

impl Clean {
    /// The directories inside `dir` that `names` name.
    fn select(dir: &str, names: &Vec<String>) -> (todo: Vec<String>)
        ensures
            texts(todo@) == children(dir@, texts(names@)),
    {
        let mut todo: Vec<String> = Vec::new();
        let n = names.len();
        let mut i: usize = 0;
        assert(texts(names@).subrange(0, 0) =~= Seq::empty());
        assert(texts(todo@) =~= Seq::empty());
        while i < n
            invariant
                n == names.len(),
                i <= n,
                texts(todo@) == children(dir@, texts(names@).subrange(0, i as int)),
            decreases n - i,
        {
            let ghost before = texts(todo@);
            let ghost part = texts(names@).subrange(0, i + 1);
            assert(part.drop_last() =~= texts(names@).subrange(0, i as int));
            assert(part.last() == names@[i as int]@);
            if component(names[i].as_str()) {
                todo.push(join(dir, names[i].as_str()));
                assert(texts(todo@) =~= before.push(joined(dir@, names@[i as int]@)));
            }
            assert(texts(todo@) =~= children(dir@, part));
            i = i + 1;
        }
        assert(texts(names@).subrange(0, n as int) =~= texts(names@));
        todo
    }

    /// Turns to the next directory to remove.
    fn advance(self) -> (next: Step<Clean, Result<CleanReport, Error>>)
        ensures
            clean_step(next) == clean_advance(self@),
    {
        let Clean { scope, dir, todo, removed, failed, stage } = self;
        if todo.len() > 0 {
            let mut todo = todo;
            let ghost before = todo@;
            let path = todo.remove(0);
            let request = Request::RemoveDirAll { path: path.clone() };
            assert(texts(todo@) =~= texts(before).drop_first());
            Step::Ask(
                Clean { scope, dir, todo, removed, failed, stage: CleanStage::Removing { path } },
                request,
            )
        } else if matches!(scope, Scope::Bundle { .. }) && failed.len() == 0 && !matches!(
            stage,
            CleanStage::Sweeping
        ) {
            let request = Request::RemoveDirAll { path: dir.clone() };
            Step::Ask(
                Clean { scope, dir, todo, removed, failed, stage: CleanStage::Sweeping },
                request,
            )
        } else if removed.len() == 0 && failed.len() > 0 {
            let first = &failed[0];
            assert(failures_of(failed@)[0] == first@);
            Step::Done(
                Err(Error::IoFailure { path: first.path.clone(), message: first.message.clone() }),
            )
        } else {
            let forget = match scope {
                Scope::Bundle { name } => if failed.len() == 0 {
                    Some(name)
                } else {
                    None
                },
                _ => None,
            };
            Step::Done(Ok(CleanReport { removed, failed, forget }))
        }
    }

    /// Notes whether `path` was removed and turns to the next.
    fn note(self, path: String, reply: Reply) -> (next: Step<Clean, Result<CleanReport, Error>>)
        ensures
            clean_step(next) == clean_note(self@, path@, reply@),
    {
        let Clean { scope, dir, todo, removed, failed, stage } = self;
        let mut removed = removed;
        let mut failed = failed;
        let ghost removed_before = texts(removed@);
        let ghost failed_before = failures_of(failed@);
        match reply {
            Reply::Done(None) => {
                removed.push(path);
                assert(texts(removed@) =~= removed_before.push(path@));
            },
            Reply::Done(Some(message)) => {
                failed.push(Failure { path, message });
                assert(failures_of(failed@) =~= failed_before.push(
                    FailureView { path: path@, message: message@ },
                ));
            },
            _ => {
                failed.push(Failure { path, message: "unexpected reply".to_owned() });
                assert(failures_of(failed@) =~= failed_before.push(
                    FailureView { path: path@, message: unexpected() },
                ));
            },
        }
        let state = Clean { scope, dir, todo, removed, failed, stage };
        state.advance()
    }

    /// Goes on with the answer of the host.
    pub fn resume(self, reply: Reply) -> (next: Step<Clean, Result<CleanReport, Error>>)
        ensures
            clean_step(next) == clean_next(self@, reply@),
    {
        let Clean { scope, dir, todo, removed, failed, stage } = self;
        match stage {
            CleanStage::Probing => match reply {
                Reply::Flag(true) => {
                    if matches!(scope, Scope::Version) {
                        let mut todo: Vec<String> = Vec::new();
                        todo.push(dir.clone());
                        assert(texts(todo@) =~= seq![dir@]);
                        let state = Clean {
                            scope,
                            dir,
                            todo,
                            removed,
                            failed,
                            stage: CleanStage::Probing,
                        };
                        state.advance()
                    } else {
                        let request = Request::ListDirs { path: dir.clone() };
                        Step::Ask(
                            Clean { scope, dir, todo, removed, failed, stage: CleanStage::Listing },
                            request,
                        )
                    }
                },
                Reply::Flag(false) => Step::Done(Err(Error::NotFound { path: dir })),
                _ => Step::Done(
                    Err(Error::IoFailure { path: dir, message: "unexpected reply".to_owned() }),
                ),
            },
            CleanStage::Listing => {
                let names = match reply {
                    Reply::Names(names) => names,
                    _ => Vec::new(),
                };
                let todo = Clean::select(dir.as_str(), &names);
                if matches!(scope, Scope::Store) && todo.len() == 0 {
                    Step::Done(Err(Error::NothingToClean))
                } else {
                    let state = Clean {
                        scope,
                        dir,
                        todo,
                        removed,
                        failed,
                        stage: CleanStage::Listing,
                    };
                    state.advance()
                }
            },
            CleanStage::Removing { path } => {
                let state = Clean {
                    scope,
                    dir,
                    todo,
                    removed,
                    failed,
                    stage: CleanStage::Removing { path: path.clone() },
                };
                state.note(path, reply)
            },
            CleanStage::Sweeping => {
                let path = dir.clone();
                let state = Clean { scope, dir, todo, removed, failed, stage: CleanStage::Sweeping };
                state.note(path, reply)
            },
        }
    }
}

/// Brings the registry in line with a clean: where the clean removed the
/// bundle of a package as a whole, the name of the package is unregistered.
/// The result is the text that the caller then has to write to the place of
/// the registry; it is `None` where the registry stays as it is.
pub fn settle(manifest: &mut Manifest, report: &CleanReport) -> (text: Option<String>)
    ensures
        final(manifest)@.path == old(manifest)@.path,
        match report@.forget {
            Some(name) => final(manifest)@.registry == old(manifest)@.registry.unregister(name)
                && text_of(text) == Some(final(manifest)@.text),
            None => final(manifest)@ == old(manifest)@ && text is None,
        },
{
    match &report.forget {
        Some(name) => Some(manifest.unregister(name.as_str())),
        None => None,
    }
}

/// Whether a clean that stands in `state` and has asked `request` ends with
/// `result` when a faithful host answers `replies`, one after the other, on a
/// disk that is `disk` at first and `disks[i]` after the answer `replies[i]`.
pub open spec fn clean_run(
    state: CleanView,
    request: RequestView,
    disk: Disk,
    replies: Seq<ReplyView>,
    disks: Seq<Disk>,
    result: Result<CleanReportView, ErrorView>,
) -> bool
    decreases replies.len(),
{
    replies.len() > 0 && disks.len() == replies.len() && serves(
        disk,
        request,
        replies[0],
        disks[0],
    ) && match clean_next(state, replies[0]) {
        StepView::Done(end) => replies.len() == 1 && end == result,
        StepView::Ask(next, request) => clean_run(
            next,
            request,
            disks[0],
            replies.drop_first(),
            disks.drop_first(),
            result,
        ),
    }
}

/// The directory that a clean of `store` is to clean.
pub open spec fn clean_dir(
    store: Seq<char>,
    name: Option<Seq<char>>,
    version: Option<VersionView>,
) -> Seq<char> {
    match name {
        Some(name) => match version {
            Some(version) => version_dir(store, name, version),
            None => bundle_dir(store, name),
        },
        None => store,
    }
}

/// Whether a clean of `store` ends with `result` when a faithful host
/// answers `replies`, one after the other, on a disk that is `disk` at first
/// and `disks[i]` after the answer `replies[i]`. A clean that ends at once
/// asks nothing.
pub open spec fn clean_ends(
    store: Seq<char>,
    name: Option<Seq<char>>,
    version: Option<VersionView>,
    disk: Disk,
    replies: Seq<ReplyView>,
    disks: Seq<Disk>,
    result: Result<CleanReportView, ErrorView>,
) -> bool {
    match clean_start(store, name, version) {
        StepView::Ask(state, request) => clean_run(state, request, disk, replies, disks, result),
        StepView::Done(end) => replies.len() == 0 && disks.len() == 0 && end == result,
    }
}

/// The disk that a clean leaves: the last of `disks`, or `disk` where nothing
/// was asked.
pub open spec fn left(disk: Disk, disks: Seq<Disk>) -> Disk {
    if disks.len() == 0 {
        disk
    } else {
        disks.last()
    }
}

/// A clean of a version or of a bundle that the store does not hold fails
/// with [`Error::NotFound`] and changes nothing on the disk.
pub proof fn law_clean_of_nothing_changes_nothing(
    store: Seq<char>,
    name: Seq<char>,
    version: Option<VersionView>,
    disk: Disk,
    replies: Seq<ReplyView>,
    disks: Seq<Disk>,
    result: Result<CleanReportView, ErrorView>,
)
    requires
        clean_ends(store, Some(name), version, disk, replies, disks, result),
        !disk.occupied(clean_dir(store, Some(name), version)),
    ensures
        result == Err::<CleanReportView, ErrorView>(
            ErrorView::NotFound { path: clean_dir(store, Some(name), version) },
        ),
        replies.len() <= 1,
        left(disk, disks) == disk,
{
    reveal_with_fuel(clean_run, 2);
}

/// A clean never reports fewer failures than it has noted; and a clean of a
/// bundle that reports none has removed the directory of the bundle last.
proof fn lemma_bundle_run(
    state: CleanView,
    request: RequestView,
    disk: Disk,
    replies: Seq<ReplyView>,
    disks: Seq<Disk>,
    report: CleanReportView,
)
    requires
        clean_run(state, request, disk, replies, disks, Ok(report)),
        state.scope is Bundle,
        state.stage is Sweeping ==> state.todo.len() == 0 && request == (
        RequestView::RemoveDirAll { path: state.dir }),
    ensures
        report.failed.len() >= state.failed.len(),
        report.failed.len() == 0 ==> disks.last().empty_under(state.dir) && report.forget == Some(
            state.scope->Bundle_name,
        ),
    decreases replies.len(),
{
    reveal_with_fuel(clean_run, 2);
    match clean_next(state, replies[0]) {
        StepView::Done(end) => {},
        StepView::Ask(next, request) => {
            lemma_bundle_run(
                next,
                request,
                disks[0],
                replies.drop_first(),
                disks.drop_first(),
                report,
            );
            assert(clean_run(
                next,
                request,
                disks[0],
                replies.drop_first(),
                disks.drop_first(),
                Ok(report),
            ));
            assert(disks.drop_first().len() > 0);
            assert(disks.drop_first().last() == disks.last());
        },
    }
}

/// A clean of the bundle of a package that reports no failure has removed
/// every version of the package: nothing is left at the directory of the
/// bundle nor below it, and the report names the package as the one that the
/// registry has to forget.
pub proof fn law_clean_removes_the_bundle(
    store: Seq<char>,
    name: Seq<char>,
    disk: Disk,
    replies: Seq<ReplyView>,
    disks: Seq<Disk>,
    report: CleanReportView,
)
    requires
        clean_ends(store, Some(name), None, disk, replies, disks, Ok(report)),
        report.failed.len() == 0,
    ensures
        left(disk, disks).empty_under(bundle_dir(store, name)),
        report.forget == Some(name),
{
    match clean_start(store, Some(name), None) {
        StepView::Ask(state, request) => {
            lemma_bundle_run(state, request, disk, replies, disks, report);
        },
        StepView::Done(_) => {},
    }
}

/// Once the registry is brought in line with a clean that removed the bundle
/// of `name`, the name is registered no more, and the registry keeps its
/// invariant.
pub proof fn law_cleaned_bundle_is_forgotten(registry: Registry, name: Seq<char>)
    requires
        registry.wf(),
    ensures
        registry.unregister(name).wf(),
        !registry.unregister(name).entries.contains_key(name),
        registry.unregister(name).resolve(name) == Err::<Seq<char>, ErrorView>(
            ErrorView::UnknownPackage { name },
        ),
{
}

impl CleanView {
    /// What holds of every state that a clean reaches: each directory that it
    /// is still to remove, or is removing, is the directory to clean or lies
    /// below it.
    pub open spec fn inside(self) -> bool {
        &&& forall|i: int| 0 <= i < self.todo.len() ==> under(#[trigger] self.todo[i], self.dir)
        &&& self.stage matches CleanStageView::Removing { path } ==> under(path, self.dir)
    }
}

/// Every directory that a listing names lies below the listed directory.
proof fn lemma_children_are_under(dir: Seq<char>, names: Seq<Seq<char>>)
    ensures
        forall|i: int|
            0 <= i < children(dir, names).len() ==> under(#[trigger] children(dir, names)[i], dir),
    decreases names.len(),
{
    if names.len() > 0 {
        lemma_children_are_under(dir, names.drop_last());
        lemma_entry_is_under(dir, names.last());
        let rest = children(dir, names.drop_last());
        let all = children(dir, names);
        assert forall|i: int| 0 <= i < all.len() implies under(#[trigger] all[i], dir) by {
            if i < rest.len() {
                assert(all[i] == rest[i]);
            } else {
                assert(all[i] == joined(dir, names.last()));
            }
        }
    }
}

/// A step of a clean keeps [`CleanView::inside`], and asks to remove nothing
/// but the directory to clean or what lies below it.
proof fn lemma_clean_step_stays_inside(state: CleanView, reply: ReplyView)
    requires
        state.inside(),
    ensures
        match clean_next(state, reply) {
            StepView::Ask(next, request) => next.inside() && next.dir == state.dir && (
            request matches RequestView::RemoveDirAll { path } ==> under(path, state.dir)) && !(
            request is CreateDirAll) && !(request is CopyTree),
            StepView::Done(_) => true,
        },
{
    match state.stage {
        CleanStageView::Listing => {
            let names = match reply {
                ReplyView::Names(names) => names,
                _ => Seq::empty(),
            };
            lemma_children_are_under(state.dir, names);
        },
        _ => {},
    }
}

/// A request that is served outside a directory leaves the disk as it was
/// outside every directory that the directory lies below.
proof fn lemma_served_inside(
    before: Disk,
    request: RequestView,
    reply: ReplyView,
    after: Disk,
    dir: Seq<char>,
)
    requires
        serves(before, request, reply, after),
        !(request is CreateDirAll),
        !(request is CopyTree),
        request matches RequestView::RemoveDirAll { path } ==> under(path, dir),
    ensures
        after.same_outside(before, dir),
{
    match request {
        RequestView::RemoveDirAll { path } => {
            assert forall|other: Seq<char>| !(#[trigger] under(other, dir)) implies after.same_at(
                before,
                other,
            ) by {
                if under(other, path) {
                    lemma_under_is_transitive(other, path, dir);
                }
            }
        },
        _ => {},
    }
}

/// A clean on a disk changes nothing outside the directory to clean, from
/// any state that it reaches.
proof fn lemma_clean_run_stays_inside(
    state: CleanView,
    request: RequestView,
    disk: Disk,
    replies: Seq<ReplyView>,
    disks: Seq<Disk>,
    result: Result<CleanReportView, ErrorView>,
)
    requires
        clean_run(state, request, disk, replies, disks, result),
        state.inside(),
        !(request is CreateDirAll),
        !(request is CopyTree),
        request matches RequestView::RemoveDirAll { path } ==> under(path, state.dir),
    ensures
        disks.last().same_outside(disk, state.dir),
    decreases replies.len(),
{
    reveal_with_fuel(clean_run, 2);
    lemma_served_inside(disk, request, replies[0], disks[0], state.dir);
    lemma_clean_step_stays_inside(state, replies[0]);
    match clean_next(state, replies[0]) {
        StepView::Done(end) => {},
        StepView::Ask(next, request) => {
            lemma_clean_run_stays_inside(
                next,
                request,
                disks[0],
                replies.drop_first(),
                disks.drop_first(),
                result,
            );
            assert(disks.drop_first().len() > 0);
            assert(disks.drop_first().last() == disks.last());
        },
    }
}

/// A clean changes nothing outside the directory that it is to clean: the
/// directory of the version, the directory of the bundle, or the store.
/// Whatever the host answers, what the disk holds elsewhere is afterwards what
/// it was before.
pub proof fn law_clean_stays_inside(
    store: Seq<char>,
    name: Option<Seq<char>>,
    version: Option<VersionView>,
    disk: Disk,
    replies: Seq<ReplyView>,
    disks: Seq<Disk>,
    result: Result<CleanReportView, ErrorView>,
)
    requires
        clean_ends(store, name, version, disk, replies, disks, result),
    ensures
        left(disk, disks).same_outside(disk, clean_dir(store, name, version)),
{
    match clean_start(store, name, version) {
        StepView::Ask(state, request) => {
            lemma_clean_run_stays_inside(state, request, disk, replies, disks, result);
        },
        StepView::Done(_) => {},
    }
}

} // verus!
