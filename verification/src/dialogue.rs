//! How discovery talks to the platform.
//!
//! Discovery itself touches nothing: it puts one [`Request`] at a time and goes
//! on with the [`Answer`]. What it will ask and what it will conclude is stated
//! for every [`World`] as a [`Script`].

use vstd::prelude::*;

use crate::path::{PathParts, PathView};
use crate::report::{DiscoveryError, DiscoveryErrorView, EntryKind, ErrorKind, GitMarker};

verus! {

/// Something that discovery asks the platform for.
#[derive(Debug, PartialEq, Eq)]
pub enum Request {
    /// The current working directory.
    CurrentDir,
    /// The home directory that the environment names, if it names one.
    HomeDir,
    /// The absolute path of what stands at this path, every symbolic link in
    /// it resolved.
    Canonicalize(PathParts),
    /// Whether a regular file stands at this path.
    IsFile(PathParts),
    /// What stands at this path, a symbolic link not followed.
    Inspect(PathParts),
    /// Show this warning to whoever runs the process.
    Report(String),
}

/// What the platform says to a [`Request`].
#[derive(Debug, PartialEq, Eq)]
pub enum Answer {
    /// To [`Request::CurrentDir`].
    CurrentDir(Result<PathParts, ErrorKind>),
    /// To [`Request::HomeDir`].
    HomeDir(Option<PathParts>),
    /// To [`Request::Canonicalize`].
    Canonical(Result<PathParts, ErrorKind>),
    /// To [`Request::IsFile`].
    IsFile(bool),
    /// To [`Request::Inspect`].
    Entry(Result<EntryKind, ErrorKind>),
    /// To [`Request::Report`].
    Reported,
}

/// What a [`Request`] stands for.
#[verifier::ext_equal]
pub enum RequestView {
    CurrentDir,
    HomeDir,
    Canonicalize(PathView),
    IsFile(PathView),
    Inspect(PathView),
    Report(Seq<char>),
}

/// What an [`Answer`] stands for.
#[verifier::ext_equal]
pub enum AnswerView {
    CurrentDir(Result<PathView, ErrorKind>),
    HomeDir(Option<PathView>),
    Canonical(Result<PathView, ErrorKind>),
    IsFile(bool),
    Entry(Result<EntryKind, ErrorKind>),
    Reported,
}

impl View for Request {
    type V = RequestView;

    open spec fn view(&self) -> RequestView {
        match *self {
            Request::CurrentDir => RequestView::CurrentDir,
            Request::HomeDir => RequestView::HomeDir,
            Request::Canonicalize(path) => RequestView::Canonicalize(path@),
            Request::IsFile(path) => RequestView::IsFile(path@),
            Request::Inspect(path) => RequestView::Inspect(path@),
            Request::Report(text) => RequestView::Report(text@),
        }
    }
}

/// The views of the path or the error that resolving one gave.
pub open spec fn resolved_view(resolved: Result<PathParts, ErrorKind>) -> Result<
    PathView,
    ErrorKind,
> {
    match resolved {
        Ok(path) => Ok(path@),
        Err(kind) => Err(kind),
    }
}

/// The view of a path that may not be there.
pub open spec fn optional_view(path: Option<PathParts>) -> Option<PathView> {
    match path {
        Some(path) => Some(path@),
        None => None,
    }
}

impl View for Answer {
    type V = AnswerView;

    open spec fn view(&self) -> AnswerView {
        match *self {
            Answer::CurrentDir(start) => AnswerView::CurrentDir(resolved_view(start)),
            Answer::HomeDir(home) => AnswerView::HomeDir(optional_view(home)),
            Answer::Canonical(path) => AnswerView::Canonical(resolved_view(path)),
            Answer::IsFile(file) => AnswerView::IsFile(file),
            Answer::Entry(entry) => AnswerView::Entry(entry),
            Answer::Reported => AnswerView::Reported,
        }
    }
}

impl AnswerView {
    /// Whether this is the kind of answer that `request` asks for.
    pub open spec fn fits(self, request: RequestView) -> bool {
        match request {
            RequestView::CurrentDir => self is CurrentDir,
            RequestView::HomeDir => self is HomeDir,
            RequestView::Canonicalize(_) => self is Canonical,
            RequestView::IsFile(_) => self is IsFile,
            RequestView::Inspect(_) => self is Entry,
            RequestView::Report(_) => self is Reported,
        }
    }
}

impl Answer {
    /// Whether this is the kind of answer that `request` asks for.
    pub fn fits(&self, request: &Request) -> (fits: bool)
        ensures
            fits == self@.fits(request@),
    {
        match (request, self) {
            (Request::CurrentDir, Answer::CurrentDir(_)) => true,
            (Request::HomeDir, Answer::HomeDir(_)) => true,
            (Request::Canonicalize(_), Answer::Canonical(_)) => true,
            (Request::IsFile(_), Answer::IsFile(_)) => true,
            (Request::Inspect(_), Answer::Entry(_)) => true,
            (Request::Report(_), Answer::Reported) => true,
            _ => false,
        }
    }
}

/// Everything that discovery can learn of a platform, none of it changing while
/// one search goes on.
pub struct World {
    /// The current working directory.
    pub cwd: Result<PathView, ErrorKind>,
    /// The home directory that the environment names.
    pub home: Option<PathView>,
    /// The resolved form of each path.
    pub canonical: spec_fn(PathView) -> Result<PathView, ErrorKind>,
    /// Where regular files stand, symbolic links followed.
    pub is_file: spec_fn(PathView) -> bool,
    /// What stands at each path, symbolic links not followed.
    pub entry: spec_fn(PathView) -> Result<EntryKind, ErrorKind>,
}

/// The name of the entry that makes a directory a repository root.
pub open spec fn git() -> Seq<u8> {
    vstd::utf8::encode_utf8(".git"@)
}

/// What `entry` says of a repository root, where it is what stands at a `.git`:
/// any entry at all marks one, none does not, and a failure leaves it open.
pub open spec fn marker(entry: Result<EntryKind, ErrorKind>) -> Result<
    Option<GitMarker>,
    ErrorKind,
> {
    match entry {
        Ok(EntryKind::Directory) => Ok(Some(GitMarker::Directory)),
        Ok(_) => Ok(Some(GitMarker::File)),
        Err(ErrorKind::NotFound) => Ok(None),
        Err(kind) => Err(kind),
    }
}

impl World {
    /// What this world says to `request`.
    pub open spec fn answer(self, request: RequestView) -> AnswerView {
        match request {
            RequestView::CurrentDir => AnswerView::CurrentDir(self.cwd),
            RequestView::HomeDir => AnswerView::HomeDir(self.home),
            RequestView::Canonicalize(path) => AnswerView::Canonical((self.canonical)(path)),
            RequestView::IsFile(path) => AnswerView::IsFile((self.is_file)(path)),
            RequestView::Inspect(path) => AnswerView::Entry((self.entry)(path)),
            RequestView::Report(_) => AnswerView::Reported,
        }
    }

    /// The marker that makes `directory` a repository root, if one does.
    pub open spec fn marker(self, directory: PathView) -> Result<
        Option<GitMarker>,
        DiscoveryErrorView,
    > {
        let path = directory.join(git());
        match marker((self.entry)(path)) {
            Ok(found) => Ok(found),
            Err(kind) => Err(DiscoveryErrorView::Unreadable { path, kind }),
        }
    }
}

/// How a piece of discovery goes in one world: what it asks, in this order, and
/// what it concludes.
#[verifier::ext_equal]
pub struct Script<T> {
    pub asks: Seq<RequestView>,
    pub result: Result<T, DiscoveryErrorView>,
}

impl<T> Script<T> {
    /// Asks nothing and concludes `value`.
    pub open spec fn done(value: T) -> Script<T> {
        Script { asks: Seq::empty(), result: Ok(value) }
    }

    /// Asks nothing and fails.
    pub open spec fn fails(error: DiscoveryErrorView) -> Script<T> {
        Script { asks: Seq::empty(), result: Err(error) }
    }

    /// Asks `request`, then goes on as this script does.
    pub open spec fn asking(self, request: RequestView) -> Script<T> {
        Script { asks: seq![request] + self.asks, result: self.result }
    }

    /// Goes on as `next` does from what this script concludes; ends where it
    /// fails.
    pub open spec fn followed_by<U>(self, next: spec_fn(T) -> Script<U>) -> Script<U> {
        match self.result {
            Ok(value) => Script {
                asks: self.asks + next(value).asks,
                result: next(value).result,
            },
            Err(error) => Script { asks: self.asks, result: Err(error) },
        }
    }

    /// To ask and then go on is to go on with what was asked in front.
    pub proof fn asking_then_following<U>(
        self,
        request: RequestView,
        next: spec_fn(T) -> Script<U>,
    )
        ensures
            self.asking(request).followed_by(next) == self.followed_by(next).asking(request),
    {
        assert(self.asking(request).followed_by(next) =~= self.followed_by(next).asking(request));
    }
}

impl<T> Script<Option<T>> {
    /// Concludes what this script concludes, or goes on with `next` where that
    /// is nothing yet; ends where it fails.
    pub open spec fn otherwise(self, next: Script<T>) -> Script<T> {
        match self.result {
            Ok(Some(value)) => Script { asks: self.asks, result: Ok(value) },
            Ok(None) => Script { asks: self.asks + next.asks, result: next.result },
            Err(error) => Script { asks: self.asks, result: Err(error) },
        }
    }
}

/// The error for a path that could not be resolved or inspected.
pub fn unreadable(path: PathParts, kind: ErrorKind) -> (error: DiscoveryError)
    ensures
        error@ == (DiscoveryErrorView::Unreadable { path: path@, kind }),
{
    DiscoveryError::Unreadable { path, kind }
}

/// The `.git` entry in `directory`, if any, from what was found at its path.
///
/// A symbolic link was not followed, so a dangling or symlinked `.git` still
/// marks a boundary. Failures other than absence are errors, so that a probe of
/// a trust boundary cannot fail open.
pub fn git_marker(directory: &PathParts, entry: Result<EntryKind, ErrorKind>) -> (found: Result<
    Option<GitMarker>,
    DiscoveryError,
>)
    ensures
        match marker(entry) {
            Ok(expected) => found == Ok::<Option<GitMarker>, DiscoveryError>(expected),
            Err(kind) => found matches Err(error) && error@ == (DiscoveryErrorView::Unreadable {
                path: directory@.join(git()),
                kind,
            }),
        },
{
    match entry {
        Ok(EntryKind::Directory) => Ok(Some(GitMarker::Directory)),
        Ok(_) => Ok(Some(GitMarker::File)),
        Err(ErrorKind::NotFound) => Ok(None),
        Err(kind) => Err(unreadable(directory.join(".git"), kind)),
    }
}

} // verus!
