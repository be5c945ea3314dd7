//! What the parts of a search give: names, paths, candidates, markers and words,
//! each from one call.

use vstd::prelude::*;
use vstd::utf8::*;

use crate::dialogue::{Answer, Request};
use crate::path::{PathParts, PathView};
use crate::report::{DiscoveryError, EntryKind, ErrorKind, GitMarker, Located};

verus! {

/// Which names are bare: exactly those that are not empty, hold no separator, are
/// neither `.` nor `..`, and do not start with a drive where there are drives.
pub proof fn accepted_names(file_name: &str, drives: bool, yes: bool)
    requires
        call_ensures(crate::name::is_bare_file_name, (file_name, drives), yes),
    ensures
        yes <==> {
            let name = file_name@;
            &&& name.len() > 0
            &&& forall|i: int|
                0 <= i < name.len() ==> #[trigger] name[i] != '/' && name[i] != '\\'
            &&& !(name.len() == 1 && name[0] == '.')
            &&& !(name.len() == 2 && name[0] == '.' && name[1] == '.')
            &&& drives ==> !(name.len() >= 2 && name[1] == ':' && ('a' <= name[0] <= 'z' || 'A'
                <= name[0] <= 'Z'))
        },
{
    crate::search_meaning::proper_names(file_name@, drives);
}

/// What is made of a candidate, from what stands at its path: a regular file is
/// the file, whatever the policy; nothing is not, and neither is what is passed
/// over; and everything else is an error that names the path.
pub proof fn judgements(
    path: PathParts,
    entry: Result<EntryKind, ErrorKind>,
    refuse_non_regular: bool,
    hit: Result<bool, DiscoveryError>,
)
    requires
        call_ensures(crate::candidate::judge, (path, entry, refuse_non_regular), hit),
    ensures
        hit == Ok::<bool, DiscoveryError>(true) <==> entry == Ok::<EntryKind, ErrorKind>(
            EntryKind::File,
        ),
        entry == Err::<EntryKind, ErrorKind>(ErrorKind::NotFound) ==> hit == Ok::<
            bool,
            DiscoveryError,
        >(false),
        entry == Ok::<EntryKind, ErrorKind>(EntryKind::Directory) || entry == Ok::<
            EntryKind,
            ErrorKind,
        >(EntryKind::Other) ==> if refuse_non_regular {
            hit matches Err(DiscoveryError::NotRegular(at)) && at.seen() == path.seen()
        } else {
            hit == Ok::<bool, DiscoveryError>(false)
        },
        entry == Ok::<EntryKind, ErrorKind>(EntryKind::Symlink) ==> (hit matches Err(
            DiscoveryError::Symlink(at),
        ) && at.seen() == path.seen()),
        entry is Err && entry->Err_0 != ErrorKind::NotFound ==> (hit matches Err(
            DiscoveryError::Unreadable { path: at, kind },
        ) && at.seen() == path.seen() && kind == entry->Err_0),
{
    crate::run_laws::sight(path);
    if let Err(error) = hit {
        crate::run_laws::errors_are_whole(error);
    }
}

/// What a `.git` says of the directory that holds it.
pub proof fn markings(
    directory: PathParts,
    entry: Result<EntryKind, ErrorKind>,
    found: Result<Option<GitMarker>, DiscoveryError>,
)
    requires
        call_ensures(crate::dialogue::git_marker, (&directory, entry), found),
    ensures
        found == Ok::<Option<GitMarker>, DiscoveryError>(Some(GitMarker::Directory)) <==> entry
            == Ok::<EntryKind, ErrorKind>(EntryKind::Directory),
        found == Ok::<Option<GitMarker>, DiscoveryError>(Some(GitMarker::File)) <==> entry is Ok
            && entry->Ok_0 != EntryKind::Directory,
        found == Ok::<Option<GitMarker>, DiscoveryError>(None) <==> entry == Err::<
            EntryKind,
            ErrorKind,
        >(ErrorKind::NotFound),
        found matches Err(error) ==> {
            error matches DiscoveryError::Unreadable { path, kind } && entry == Err::<
                EntryKind,
                ErrorKind,
            >(kind) && path.seen() == (PathView {
                names: directory.seen().names.push(encode_utf8(".git"@)),
                ..directory.seen()
            })
        },
{
    crate::run_laws::sight(directory);
    if let Err(error) = found {
        crate::run_laws::errors_are_whole(error);
    }
}

/// What is reported of a file that is found: its path, its directory, and the
/// marker beside it as it is.
pub proof fn findings(
    directory: PathParts,
    file_name: &str,
    marker: Option<GitMarker>,
    located: Located,
)
    requires
        call_ensures(Located::found, (&directory, file_name, marker), located),
    ensures
        located.git_marker == marker,
        located.at_repo_root <==> marker is Some,
        located.directory.seen() == directory.seen(),
        located.path.seen() == (PathView {
            names: directory.seen().names.push(encode_utf8(file_name@)),
            ..directory.seen()
        }),
{
    crate::run_laws::sight(directory);
    crate::run_laws::sight(located.directory);
    crate::run_laws::sight(located.path);
}

/// A file is misplaced exactly where it is not at a repository root, and the
/// warning says which file, and in which directory.
pub proof fn misplacements(located: Located, file_name: &str, text: Option<String>)
    requires
        call_ensures(Located::misplacement_warning, (&located, file_name), text),
    ensures
        text is None <==> located.at_repo_root,
        text matches Some(words) ==> words@ == crate::run_laws::warning(
            file_name@,
            located.directory.seen(),
        ),
{
    crate::run_laws::sight(located.directory);
}

/// The text of a path: of the root alone it is the root; one more name adds that
/// name, with a separator before it where it is not the first.
pub proof fn texts_grow_by_names(path: PathView, name: Seq<u8>)
    ensures
        path.names.len() == 0 ==> path.text() == path.root,
        (PathView { names: path.names.push(name), ..path }).text() == if path.names.len() == 0 {
            path.text() + name
        } else {
            path.text() + seq![path.separator] + name
        },
        valid_utf8(path.text()) ==> encode_utf8(path.shown()) == path.text(),
        !valid_utf8(path.text()) ==> path.shown() == crate::path::lossy_text(path.text()),
{
    let longer = PathView { names: path.names.push(name), ..path };
    assert(longer.names.drop_last() =~= path.names);
    assert(path.names.len() == 0 ==> path.text() =~= path.root);
    assert(longer.text() =~= if path.names.len() == 0 {
        path.text() + name
    } else {
        path.text() + seq![path.separator] + name
    });
    if valid_utf8(path.text()) {
        decode_utf8_encode_utf8(path.text());
    }
}

/// What a path is shown as.
pub proof fn displays(path: PathParts, text: String)
    requires
        call_ensures(PathParts::display, (&path,), text),
    ensures
        text@ == path.seen().shown(),
        valid_utf8(path.seen().text()) ==> encode_utf8(text@) == path.seen().text(),
{
    crate::run_laws::sight(path);
    texts_grow_by_names(path.seen(), Seq::empty());
}

/// To go into a directory and back up gives that directory again; only a path that
/// is its root alone has nothing above it; and paths are the same where their
/// roots, names and separators are.
pub proof fn ways(
    path: PathParts,
    name: &str,
    entry: PathParts,
    back: Option<PathParts>,
    above: Option<PathParts>,
    other: PathParts,
    same: bool,
    copy: PathParts,
)
    requires
        call_ensures(PathParts::join, (&path, name), entry),
        call_ensures(PathParts::parent, (&entry,), back),
        call_ensures(PathParts::parent, (&path,), above),
        call_ensures(PathParts::same, (&path, &other), same),
        call_ensures(PathParts::clone, (&path,), copy),
    ensures
        entry.seen() == (PathView {
            names: path.seen().names.push(encode_utf8(name@)),
            ..path.seen()
        }),
        back matches Some(directory) && directory.seen() == path.seen(),
        above is None <==> path.names@.len() == 0,
        above matches Some(directory) ==> directory.seen() == (PathView {
            names: path.seen().names.drop_last(),
            ..path.seen()
        }),
        same <==> path.seen() == other.seen(),
        copy.seen() == path.seen(),
{
    crate::run_laws::sight(path);
    crate::run_laws::sight(entry);
    crate::run_laws::sight(other);
    crate::run_laws::sight(copy);
    let joined = entry@;
    assert(joined.names.drop_last() =~= path@.names);
    if let Some(directory) = back {
        crate::run_laws::sight(directory);
        assert(directory@ =~= path@);
    }
    if let Some(directory) = above {
        crate::run_laws::sight(directory);
        assert(directory@.names =~= path.seen().names.drop_last());
    }
}

/// The errors in words: what is wrong, and with what.
pub proof fn messages(error: DiscoveryError, text: String)
    requires
        call_ensures(DiscoveryError::to_message, (&error,), text),
    ensures
        match error {
            DiscoveryError::NotAFileName(name) => {
                &&& text@ == crate::report::quoted(name@) + " is not a bare config file name"@
                &&& (forall|i: int|
                    0 <= i < name@.len() ==> ' ' <= #[trigger] name@[i] <= '~' && name@[i] != '"'
                        && name@[i] != '\\') ==> text@ == seq!['"'] + name@ + seq!['"']
                    + " is not a bare config file name"@
            },
            DiscoveryError::Symlink(path) => text@ == "refusing symlinked config at "@
                + path.seen().shown(),
            DiscoveryError::NotRegular(path) => text@ == "refusing non-regular config at "@
                + path.seen().shown(),
            DiscoveryError::Unreadable { path, kind } => text@ == "cannot inspect config at "@
                + path.seen().shown(),
        },
{
    match error {
        DiscoveryError::NotAFileName(_) => {},
        DiscoveryError::Symlink(path) | DiscoveryError::NotRegular(path) => {
            crate::run_laws::sight(path);
        },
        DiscoveryError::Unreadable { path, kind } => crate::run_laws::sight(path),
    }
}

/// No warning is dropped: what was not sent is to be printed, in one line that
/// ends with the whole message; what was sent is not.
pub proof fn fallbacks(message: &str, sent: bool, line: Option<String>)
    requires
        call_ensures(crate::report::fallback_line, (message, sent), line),
    ensures
        sent ==> line is None,
        !sent ==> (line matches Some(text) && text@ == "warning: "@ + message@),
{
}

/// An answer fits the request that it is the answer to, and no other.
pub proof fn fitting_answers(answer: Answer, request: Request, fits: bool)
    requires
        call_ensures(Answer::fits, (&answer, &request), fits),
    ensures
        fits <==> match (request, answer) {
            (Request::CurrentDir, Answer::CurrentDir(_)) => true,
            (Request::HomeDir, Answer::HomeDir(_)) => true,
            (Request::Canonicalize(_), Answer::Canonical(_)) => true,
            (Request::IsFile(_), Answer::IsFile(_)) => true,
            (Request::Inspect(_), Answer::Entry(_)) => true,
            (Request::Report(_), Answer::Reported) => true,
            _ => false,
        },
{
}

} // verus!
