//! The conversation between an operation of this library and the host that
//! owns the file system.
//!
//! An operation never touches the file system. It asks: it hands out a
//! [`Request`], and goes on when it is handed the [`Reply`]. The host performs
//! each request once, in the order in which they are asked.

use crate::text::{is_component, joined, text_of, texts, under};
use vstd::prelude::*;

verus! {

/// What an operation asks of the host.
#[derive(Debug, Clone, PartialEq, Eq)]
pub enum Request {
    /// Read the file at `path` as text. Answered by [`Reply::Text`].
    ReadText { path: String },
    /// Tell whether `path` is a file. Answered by [`Reply::Flag`].
    IsFile { path: String },
    /// Tell whether anything exists at `path`. Answered by [`Reply::Flag`].
    Exists { path: String },
    /// List the names of the directories directly inside `path`, in the order
    /// of the directory. Answered by [`Reply::Names`].
    ListDirs { path: String },
    /// Create the directory `path` and every missing parent. Answered by
    /// [`Reply::Done`].
    CreateDirAll { path: String },
    /// Copy what the directory `from` holds into the directory `to`, keeping
    /// the relative structure. A file that exists at the destination is kept
    /// where `skip_exist` is set, and replaced where it is not. Answered by
    /// [`Reply::Done`].
    CopyTree { from: String, to: String, skip_exist: bool },
    /// Remove the directory `path` with all that it holds. Answered by
    /// [`Reply::Done`].
    RemoveDirAll { path: String },
}

/// The mathematical value of a [`Request`].
pub enum RequestView {
    ReadText { path: Seq<char> },
    IsFile { path: Seq<char> },
    Exists { path: Seq<char> },
    ListDirs { path: Seq<char> },
    CreateDirAll { path: Seq<char> },
    CopyTree { from: Seq<char>, to: Seq<char>, skip_exist: bool },
    RemoveDirAll { path: Seq<char> },
}

impl View for Request {
    type V = RequestView;

    open spec fn view(&self) -> RequestView {
        match self {
            Request::ReadText { path } => RequestView::ReadText { path: path@ },
            Request::IsFile { path } => RequestView::IsFile { path: path@ },
            Request::Exists { path } => RequestView::Exists { path: path@ },
            Request::ListDirs { path } => RequestView::ListDirs { path: path@ },
            Request::CreateDirAll { path } => RequestView::CreateDirAll { path: path@ },
            Request::CopyTree { from, to, skip_exist } => RequestView::CopyTree {
                from: from@,
                to: to@,
                skip_exist: *skip_exist,
            },
            Request::RemoveDirAll { path } => RequestView::RemoveDirAll { path: path@ },
        }
    }
}

/// What the host answers.
#[derive(Debug, Clone, PartialEq, Eq)]
pub enum Reply {
    /// The text of the file, or `None` where it cannot be read.
    Text(Option<String>),
    /// Yes or no.
    Flag(bool),
    /// The names that were asked for; empty where the directory cannot be
    /// listed.
    Names(Vec<String>),
    /// The request was carried out (`None`), or it failed with a message.
    Done(Option<String>),
}

/// The mathematical value of a [`Reply`].
pub enum ReplyView {
    Text(Option<Seq<char>>),
    Flag(bool),
    Names(Seq<Seq<char>>),
    Done(Option<Seq<char>>),
}

impl View for Reply {
    type V = ReplyView;

    open spec fn view(&self) -> ReplyView {
        match self {
            Reply::Text(text) => ReplyView::Text(text_of(*text)),
            Reply::Flag(flag) => ReplyView::Flag(*flag),
            Reply::Names(names) => ReplyView::Names(texts(names@)),
            Reply::Done(failure) => ReplyView::Done(text_of(*failure)),
        }
    }
}

/// What an operation reports of an answer that is not of the kind that its
/// request asks for.
pub open spec fn unexpected() -> Seq<char> {
    "unexpected reply"@
}

/// How an operation goes on: it asks the host for one more thing and waits in
/// the state `M`, or it has finished with the result `T`.
#[derive(Debug)]
pub enum Step<M, T> {
    Ask(M, Request),
    Done(T),
}

/// The mathematical value of a [`Step`], over the values of the state and of
/// the result.
pub enum StepView<M, T> {
    Ask(M, RequestView),
    Done(T),
}

/// A file system, as far as the engines of this library can tell: which
/// directories exist, and which files with what text. It is the model against
/// which the laws of the engines are stated; the library never holds one.
pub struct Disk {
    pub dirs: Set<Seq<char>>,
    pub files: Map<Seq<char>, Seq<char>>,
}

impl Disk {
    /// Whether anything exists at `path`.
    pub open spec fn occupied(self, path: Seq<char>) -> bool {
        self.dirs.contains(path) || self.files.contains_key(path)
    }

    /// Whether this disk and `other` hold the same at `path`.
    pub open spec fn same_at(self, other: Disk, path: Seq<char>) -> bool {
        &&& self.dirs.contains(path) == other.dirs.contains(path)
        &&& self.files.contains_key(path) == other.files.contains_key(path)
        &&& self.files.contains_key(path) ==> self.files[path] == other.files[path]
    }

    /// Whether this disk and `other` hold the same wherever a path is not
    /// `dir` or below it.
    pub open spec fn same_outside(self, other: Disk, dir: Seq<char>) -> bool {
        forall|path: Seq<char>| !(#[trigger] under(path, dir)) ==> self.same_at(other, path)
    }

    /// Whether this disk holds nothing at `dir` nor below it.
    pub open spec fn empty_under(self, dir: Seq<char>) -> bool {
        forall|path: Seq<char>| #[trigger] under(path, dir) ==> !self.occupied(path)
    }

    /// Whether this disk holds nothing that `other` lacks.
    pub open spec fn within(self, other: Disk) -> bool {
        forall|path: Seq<char>|
            #[trigger] self.occupied(path) ==> other.occupied(path) && self.same_at(other, path)
    }
}

/// Whether `suffix` leads from a directory to something below it: it begins
/// with a separator.
pub open spec fn is_suffix(suffix: Seq<char>) -> bool {
    suffix.len() > 1 && suffix[0] == '/'
}

/// The path that `suffix` leads to from the directory `dir`.
pub open spec fn entry_at(dir: Seq<char>, suffix: Seq<char>) -> Seq<char> {
    dir + suffix
}

/// Whether a host that serves `request` faithfully on the disk `before` may
/// answer `reply` and leave the disk `after`.
///
/// Questions leave the disk as it was and are answered truly. A request that
/// changes the disk may fail, and then may have done a part of its work; but
/// it never touches what lies outside the directory that it was given.
pub open spec fn serves(before: Disk, request: RequestView, reply: ReplyView, after: Disk) -> bool {
    match request {
        RequestView::ReadText { path } => after == before && reply == ReplyView::Text(
            if before.files.contains_key(path) {
                Some(before.files[path])
            } else {
                None
            },
        ),
        RequestView::IsFile { path } => after == before && reply == ReplyView::Flag(
            before.files.contains_key(path),
        ),
        RequestView::Exists { path } => after == before && reply == ReplyView::Flag(
            before.occupied(path),
        ),
        RequestView::ListDirs { path } => after == before && (reply matches ReplyView::Names(
            names,
        ) && names.no_duplicates() && forall|name: Seq<char>| #[trigger]
            names.contains(name) <==> is_component(name) && before.dirs.contains(
                joined(path, name),
            )),
        RequestView::CreateDirAll { path } => {
            &&& reply is Done
            &&& after.files == before.files
            &&& forall|dir: Seq<char>| #[trigger]
                before.dirs.contains(dir) ==> after.dirs.contains(dir)
            &&& forall|dir: Seq<char>| #[trigger]
                after.dirs.contains(dir) ==> before.dirs.contains(dir) || under(path, dir)
            &&& reply == ReplyView::Done(None) ==> after.dirs.contains(path)
        },
        RequestView::CopyTree { from, to, skip_exist } => {
            &&& reply is Done
            &&& after.same_outside(before, to)
            &&& reply == ReplyView::Done(None) ==> {
                &&& after.dirs.contains(to)
                &&& forall|suffix: Seq<char>|
                    #![trigger entry_at(to, suffix)]
                    is_suffix(suffix) && before.files.contains_key(entry_at(from, suffix)) ==> {
                        &&& after.files.contains_key(entry_at(to, suffix))
                        &&& after.files[entry_at(to, suffix)] == if skip_exist
                            && before.files.contains_key(entry_at(to, suffix)) {
                            before.files[entry_at(to, suffix)]
                        } else {
                            before.files[entry_at(from, suffix)]
                        }
                    }
            }
        },
        RequestView::RemoveDirAll { path } => {
            &&& reply is Done
            &&& after.same_outside(before, path)
            &&& after.within(before)
            &&& reply == ReplyView::Done(None) ==> after.empty_under(path)
        },
    }
}

} // verus!
