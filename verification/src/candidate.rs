//! What counts as the config file that is looked for.

use vstd::prelude::*;

use crate::dialogue::unreadable;
use crate::path::{PathParts, PathView};
use crate::report::{
    DiscoveryError, DiscoveryErrorView, EntryKind, ErrorKind, GitMarker, Located, LocatedView,
};

verus! {

/// Whether the candidate at `path` is the file that is looked for: a regular
/// file is, nothing at all is not, and a symbolic link or a failure ends the
/// search. Anything else is passed over, or refused where the caller says so.
pub open spec fn verdict(
    path: PathView,
    entry: Result<EntryKind, ErrorKind>,
    refuse_non_regular: bool,
) -> Result<bool, DiscoveryErrorView> {
    match entry {
        Ok(EntryKind::Symlink) => Err(DiscoveryErrorView::Symlink(path)),
        Ok(EntryKind::File) => Ok(true),
        Ok(_) => if refuse_non_regular {
            Err(DiscoveryErrorView::NotRegular(path))
        } else {
            Ok(false)
        },
        Err(ErrorKind::NotFound) => Ok(false),
        Err(kind) => Err(DiscoveryErrorView::Unreadable { path, kind }),
    }
}

/// Whether the candidate at `path` is the file that is looked for, from what
/// was found there.
pub fn judge(
    path: PathParts,
    entry: Result<EntryKind, ErrorKind>,
    refuse_non_regular: bool,
) -> (hit: Result<bool, DiscoveryError>)
    ensures
        match verdict(path@, entry, refuse_non_regular) {
            Ok(expected) => hit == Ok::<bool, DiscoveryError>(expected),
            Err(expected) => hit matches Err(error) && error@ == expected,
        },
{
    match entry {
        Ok(EntryKind::Symlink) => Err(DiscoveryError::Symlink(path)),
        Ok(EntryKind::File) => Ok(true),
        Ok(_) => if refuse_non_regular {
            Err(DiscoveryError::NotRegular(path))
        } else {
            Ok(false)
        },
        Err(ErrorKind::NotFound) => Ok(false),
        Err(kind) => Err(unreadable(path, kind)),
    }
}

impl LocatedView {
    /// The file called `file_name` in `directory`, beside `marker`.
    pub open spec fn found(
        directory: PathView,
        file_name: Seq<char>,
        marker: Option<GitMarker>,
    ) -> LocatedView {
        LocatedView {
            path: directory.join(vstd::utf8::encode_utf8(file_name)),
            directory,
            git_marker: marker,
            at_repo_root: marker is Some,
        }
    }
}

impl Located {
    /// The file called `file_name` in `directory`, beside `marker`.
    pub fn found(directory: &PathParts, file_name: &str, marker: Option<GitMarker>) -> (located:
        Located)
        ensures
            located@ == LocatedView::found(directory@, file_name@, marker),
    {
        Located {
            path: directory.join(file_name),
            directory: directory.clone(),
            git_marker: marker,
            at_repo_root: marker.is_some(),
        }
    }
}

} // verus!
