//! What discovery reports: the file it located, or why it refused to go on.

use vstd::prelude::*;

use crate::path::{PathParts, PathView};

verus! {

/// Why the platform could not do what it was asked.
///
/// The variants are the named kinds of `std::io::ErrorKind` in Rust 1.78; a later
/// kind, or one without a name, is `Uncategorized`.
#[derive(Clone, Copy, Debug, PartialEq, Eq, Structural)]
pub enum ErrorKind {
    NotFound,
    PermissionDenied,
    ConnectionRefused,
    ConnectionReset,
    ConnectionAborted,
    NotConnected,
    AddrInUse,
    AddrNotAvailable,
    BrokenPipe,
    AlreadyExists,
    WouldBlock,
    InvalidInput,
    InvalidData,
    TimedOut,
    WriteZero,
    Interrupted,
    Unsupported,
    UnexpectedEof,
    OutOfMemory,
    Other,
    Uncategorized,
}

/// What stands at a path, a symbolic link not followed.
#[derive(Clone, Copy, Debug, PartialEq, Eq, Structural)]
pub enum EntryKind {
    Symlink,
    File,
    Directory,
    /// A socket, a pipe, a device.
    Other,
}

/// The `.git` entry that makes a directory a repository root.
#[derive(Clone, Copy, Debug, PartialEq, Eq, Structural)]
pub enum GitMarker {
    /// A directory: an ordinary checkout.
    Directory,
    /// Anything else: the file of a worktree, or a symbolic link.
    File,
}

/// A config file located by walking up from a starting directory.
#[derive(Debug, PartialEq, Eq)]
pub struct Located {
    /// Full path to the config file.
    pub path: PathParts,
    /// Directory the file was found in.
    pub directory: PathParts,
    /// The `.git` entry in that directory, if there is one.
    pub git_marker: Option<GitMarker>,
    /// Whether that directory is a repository root (a `.git` entry beside it).
    pub at_repo_root: bool,
}

/// What a [`Located`] stands for.
#[verifier::ext_equal]
pub struct LocatedView {
    pub path: PathView,
    pub directory: PathView,
    pub git_marker: Option<GitMarker>,
    pub at_repo_root: bool,
}

impl View for Located {
    type V = LocatedView;

    open spec fn view(&self) -> LocatedView {
        LocatedView {
            path: self.path@,
            directory: self.directory@,
            git_marker: self.git_marker,
            at_repo_root: self.at_repo_root,
        }
    }
}

impl LocatedView {
    /// What is said of a file that does not sit at a repository root.
    pub open spec fn misplacement(self, file_name: Seq<char>) -> Seq<char> {
        file_name + " was located at "@ + self.directory.shown()
            + ", which is not a repository root (no .git beside it); it will still be used, but it shadows any copy at the repository root and is probably not the file you meant to edit"@
    }
}

impl Located {
    /// Human-readable explanation of why a non-root location is suspect.
    ///
    /// Returns `None` when the file sits at a repository root, which is the
    /// expected case and needs no explanation.
    #[must_use]
    pub fn misplacement_warning(&self, file_name: &str) -> (warning: Option<String>)
        ensures
            warning is None <==> self.at_repo_root,
            warning matches Some(text) ==> text@ == self@.misplacement(file_name@),
    {
        if self.at_repo_root {
            return None;
        }
        let mut text = file_name.to_owned();
        text.append(" was located at ");
        text.append(self.directory.display().as_str());
        text.append(
            ", which is not a repository root (no .git beside it); it will still be used, but it shadows any copy at the repository root and is probably not the file you meant to edit",
        );
        Some(text)
    }
}

impl Clone for Located {
    fn clone(&self) -> (copy: Located)
        ensures
            copy@ == self@,
    {
        Located {
            path: self.path.clone(),
            directory: self.directory.clone(),
            git_marker: self.git_marker,
            at_repo_root: self.at_repo_root,
        }
    }
}

/// Why discovery refused to continue.
#[derive(Debug, PartialEq, Eq)]
pub enum DiscoveryError {
    /// The name was empty, held a path separator, was `.` or `..`, or started
    /// with a drive where the platform has drives. Only a bare file name is a
    /// config name; anything else would turn discovery into an arbitrary path
    /// probe.
    NotAFileName(String),
    /// A candidate at this path is a symbolic link, which is refused.
    Symlink(PathParts),
    /// A candidate at this path is neither a file nor a symbolic link, and the
    /// caller asked for such a candidate to be refused.
    NotRegular(PathParts),
    /// This path could not be resolved, or what stands at it could not be
    /// inspected for a reason other than absence.
    Unreadable { path: PathParts, kind: ErrorKind },
}

/// What a [`DiscoveryError`] stands for.
#[verifier::ext_equal]
pub enum DiscoveryErrorView {
    NotAFileName(Seq<char>),
    Symlink(PathView),
    NotRegular(PathView),
    Unreadable { path: PathView, kind: ErrorKind },
}

impl View for DiscoveryError {
    type V = DiscoveryErrorView;

    open spec fn view(&self) -> DiscoveryErrorView {
        match *self {
            DiscoveryError::NotAFileName(name) => DiscoveryErrorView::NotAFileName(name@),
            DiscoveryError::Symlink(path) => DiscoveryErrorView::Symlink(path@),
            DiscoveryError::NotRegular(path) => DiscoveryErrorView::NotRegular(path@),
            DiscoveryError::Unreadable { path, kind } => DiscoveryErrorView::Unreadable {
                path: path@,
                kind,
            },
        }
    }
}

impl Clone for DiscoveryError {
    fn clone(&self) -> (copy: DiscoveryError)
        ensures
            copy@ == self@,
    {
        match self {
            DiscoveryError::NotAFileName(name) => DiscoveryError::NotAFileName(name.clone()),
            DiscoveryError::Symlink(path) => DiscoveryError::Symlink(path.clone()),
            DiscoveryError::NotRegular(path) => DiscoveryError::NotRegular(path.clone()),
            DiscoveryError::Unreadable { path, kind } => DiscoveryError::Unreadable {
                path: path.clone(),
                kind: *kind,
            },
        }
    }
}

/// `name` between double quotes, with what a string literal would escape
/// escaped.
pub uninterp spec fn quoted(name: Seq<char>) -> Seq<char>;

/// Whether `name` is printable ASCII, and nothing in it would be escaped.
pub open spec fn plain(name: Seq<char>) -> bool {
    forall|i: int|
        0 <= i < name.len() ==> ' ' <= #[trigger] name[i] <= '~' && name[i] != '"' && name[i]
            != '\\'
}

/// Formats `name` with `str`'s `Debug`. Printable ASCII without a double quote
/// or a backslash comes back between two double quotes; what any other name
/// comes back as is a function of the name.
#[verifier::external_body]
fn quote(name: &str) -> (text: String)
    ensures
        text@ == quoted(name@),
        plain(name@) ==> text@ == seq!['"'] + name@ + seq!['"'],
{
    format!("{name:?}")
}

/// What is said of a name that is not a bare file name, from the name as it is
/// quoted.
pub fn not_a_file_name(quoted_name: &str) -> (text: String)
    ensures
        text@ == quoted_name@ + " is not a bare config file name"@,
{
    let mut text = quoted_name.to_owned();
    text.append(" is not a bare config file name");
    text
}

/// What still has to go to standard error once a warning was handed to a logger,
/// or there was none: nothing where the warning was `sent`, and the warning in
/// one line otherwise. So no warning depends on telemetry being healthy, and
/// none is dropped.
pub fn fallback_line(message: &str, sent: bool) -> (line: Option<String>)
    ensures
        line is None <==> sent,
        line matches Some(text) ==> text@ == "warning: "@ + message@,
{
    if sent {
        return None;
    }
    let mut text = "warning: ".to_owned();
    text.append(message);
    Some(text)
}

impl DiscoveryErrorView {
    /// The error in words.
    pub open spec fn words(self) -> Seq<char> {
        match self {
            DiscoveryErrorView::NotAFileName(name) => quoted(name)
                + " is not a bare config file name"@,
            DiscoveryErrorView::Symlink(path) => "refusing symlinked config at "@
                + path.shown(),
            DiscoveryErrorView::NotRegular(path) => "refusing non-regular config at "@
                + path.shown(),
            DiscoveryErrorView::Unreadable { path, kind } => "cannot inspect config at "@
                + path.shown(),
        }
    }
}

impl DiscoveryError {
    /// The error in words, for a reader.
    pub fn to_message(&self) -> (text: String)
        ensures
            text@ == self@.words(),
            self matches DiscoveryError::NotAFileName(name) ==> (plain(name@) ==> text@ == seq!['"']
                + name@ + seq!['"'] + " is not a bare config file name"@),
    {
        match self {
            DiscoveryError::NotAFileName(name) => not_a_file_name(quote(name.as_str()).as_str()),
            DiscoveryError::Symlink(path) => {
                let mut text = "refusing symlinked config at ".to_owned();
                text.append(path.display().as_str());
                text
            },
            DiscoveryError::NotRegular(path) => {
                let mut text = "refusing non-regular config at ".to_owned();
                text.append(path.display().as_str());
                text
            },
            DiscoveryError::Unreadable { path, kind: _ } => {
                let mut text = "cannot inspect config at ".to_owned();
                text.append(path.display().as_str());
                text
            },
        }
    }
}

} // verus!
