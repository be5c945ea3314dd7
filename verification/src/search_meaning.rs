//! What a search means, told by the entries of the file system alone.
//!
//! These laws say what a search gives and asks over what stands at which path,
//! and over the characters of the name, with nothing of how a search goes about
//! it.

use vstd::prelude::*;

use crate::dialogue::{RequestView, World};
use crate::path::PathView;
use crate::report::{DiscoveryErrorView, EntryKind, ErrorKind, GitMarker, LocatedView};
use crate::search::SearchView;

verus! {

/// Whether a walk from `start` goes up `directories`, and no further than `limit`:
/// `start` resolves to the first of them, or to a file in it; each stands right
/// above the one before it; they go up to the root, or are 64; and `limit` is what
/// `bound` resolves to.
pub open spec fn climbs(
    w: World,
    start: PathView,
    bound: Option<PathView>,
    directories: Seq<PathView>,
    limit: Option<PathView>,
) -> bool {
    &&& directories.len() > 0
    &&& (w.canonical)(start) matches Ok(canonical) && if (w.is_file)(canonical)
        && canonical.names.len() > 0 {
        &&& directories[0].root == canonical.root
        &&& directories[0].separator == canonical.separator
        &&& directories[0].names == canonical.names.drop_last()
    } else {
        directories[0] == canonical
    }
    &&& directories.len() == if directories[0].names.len() < 64 {
        directories[0].names.len() + 1
    } else {
        64
    }
    &&& forall|i: int|
        0 <= i < directories.len() ==> {
            &&& (#[trigger] directories[i]).root == directories[0].root
            &&& directories[i].separator == directories[0].separator
            &&& directories[i].names.is_prefix_of(directories[0].names)
            &&& directories[i].names.len() == directories[0].names.len() - i
        }
    &&& match bound {
        Some(given) => (w.canonical)(given) matches Ok(resolved) && limit == Some(resolved),
        None => limit is None,
    }
}

/// Whether a search has no reason to stop in `directory`: nothing that is called
/// `file_name` stands there, or only what may be passed over; no `.git` does; and
/// it is not the limit.
pub open spec fn passed_by(
    w: World,
    file_name: Seq<char>,
    refuse_non_regular: bool,
    limit: Option<PathView>,
    directory: PathView,
) -> bool {
    let candidate = PathView {
        names: directory.names.push(vstd::utf8::encode_utf8(file_name)),
        ..directory
    };
    let git = PathView {
        names: directory.names.push(vstd::utf8::encode_utf8(".git"@)),
        ..directory
    };
    &&& match (w.entry)(candidate) {
        Ok(EntryKind::Directory) | Ok(EntryKind::Other) => !refuse_non_regular,
        Ok(_) => false,
        Err(kind) => kind == ErrorKind::NotFound,
    }
    &&& (w.entry)(git) == Err::<EntryKind, ErrorKind>(ErrorKind::NotFound)
    &&& limit != Some(directory)
}

/// The directories of a climb are those of the walk.
pub(crate) proof fn climb_is_a_walk(
    w: World,
    start: PathView,
    bound: Option<PathView>,
    directories: Seq<PathView>,
    limit: Option<PathView>,
)
    requires
        climbs(w, start, bound, directories, limit),
    ensures
        crate::laws::begins_at(w, start, bound, directories[0], limit),
        directories == directories[0].chain(crate::search::MAX_ANCESTORS as nat),
{
    let canonical = (w.canonical)(start)->Ok_0;
    let directory = directories[0];
    if (w.is_file)(canonical) && canonical.names.len() > 0 {
        assert(canonical.holder() =~= directory);
    }
    let chain = directory.chain(crate::search::MAX_ANCESTORS as nat);
    assert forall|i: int| 0 <= i < directories.len() implies #[trigger] directories[i]
        == chain[i] by {
        assert(directories[i].names =~= directory.names.take(directory.names.len() - i));
        assert(directories[i] =~= chain[i]);
    }
    assert(directories =~= chain);
}

/// What is passed by is what a walk passes.
proof fn passing(search: SearchView, w: World, limit: Option<PathView>, directory: PathView)
    ensures
        passed_by(w, search.file_name, search.refuse_non_regular, limit, directory)
            == crate::laws::passes(search, w, directory, limit),
{
}

/// Every climb is there: where the start and the bound can be resolved, a walk
/// goes up some directories.
pub proof fn climbs_exist(w: World, start: PathView, bound: Option<PathView>) -> (climb: (
    Seq<PathView>,
    Option<PathView>,
))
    requires
        (w.canonical)(start) is Ok,
        bound matches Some(given) ==> (w.canonical)(given) is Ok,
    ensures
        climbs(w, start, bound, climb.0, climb.1),
{
    let canonical = (w.canonical)(start)->Ok_0;
    let directory = if (w.is_file)(canonical) {
        canonical.holder()
    } else {
        canonical
    };
    let directories = directory.chain(64);
    let limit = match bound {
        Some(given) => Some((w.canonical)(given)->Ok_0),
        None => None,
    };
    assert(directories[0] =~= directory);
    assert(canonical.names.len() > 0 ==> canonical.holder().names =~= canonical.names.drop_last());
    assert forall|i: int| 0 <= i < directories.len() implies {
        &&& (#[trigger] directories[i]).names.is_prefix_of(directories[0].names)
        &&& directories[i].names.len() == directories[0].names.len() - i
    } by {}
    (directories, limit)
}

/// A name is refused exactly where it is empty, holds a separator, is `.` or `..`,
/// or starts with a drive on a platform that has drives. Every other name is
/// searched for. So a search fails over its name for no other reason, and over no
/// other name than its own.
pub proof fn refused_names(
    file_name: Seq<char>,
    refuse_non_regular: bool,
    drives: bool,
    w: World,
    start: PathView,
    bound: Option<PathView>,
    named: Seq<char>,
)
    ensures
        ({
            let search = SearchView { file_name, refuse_non_regular, drives };
            let fails = Err::<Option<LocatedView>, DiscoveryErrorView>(
                DiscoveryErrorView::NotAFileName(named),
            );
            let improper = {
                ||| file_name.len() == 0
                ||| exists|i: int|
                    0 <= i < file_name.len() && (#[trigger] file_name[i] == '/' || file_name[i]
                        == '\\')
                ||| file_name.len() == 1 && file_name[0] == '.'
                ||| file_name.len() == 2 && file_name[0] == '.' && file_name[1] == '.'
                ||| drives && file_name.len() >= 2 && file_name[1] == ':' && ('a' <= file_name[0]
                    <= 'z' || 'A' <= file_name[0] <= 'Z')
            };
            &&& search.bounded_script(w, start, bound).result == fails <==> improper && named
                == file_name
            &&& search.bounded_script(w, start, bound).asks.len() == 0 <==> improper
        }),
{
    let search = SearchView { file_name, refuse_non_regular, drives };
    proper_names(file_name, drives);
    if search.has_bare_name() {
        let resolving = crate::resolve::resolve_script(w, start, bound);
        if let Ok((directory, limit)) = resolving.result {
            let directories = directory.chain(crate::search::MAX_ANCESTORS as nat);
            let depth = crate::laws::walk_ends(search, w, directories, limit);
        }
    }
}

/// A name is a bare file name exactly where it is not empty, holds no separator,
/// is neither `.` nor `..`, and does not start with a drive where there are some.
pub proof fn proper_names(name: Seq<char>, drives: bool)
    ensures
        crate::name::bare(name, drives) <==> {
            &&& name.len() > 0
            &&& forall|i: int|
                0 <= i < name.len() ==> #[trigger] name[i] != '/' && name[i] != '\\'
            &&& name.len() == 1 ==> name[0] != '.'
            &&& name.len() == 2 ==> !(name[0] == '.' && name[1] == '.')
            &&& drives && name.len() >= 2 && name[1] == ':' ==> !('a' <= name[0] <= 'z' || 'A'
                <= name[0] <= 'Z')
        },
{
    let dot: Seq<char> = seq!['.'];
    let dots: Seq<char> = seq!['.', '.'];
    assert(name.len() == 1 && name[0] == '.' ==> name =~= dot);
    assert(name.len() == 2 && name[0] == '.' && name[1] == '.' ==> name =~= dots);
    assert(forall|i: int| 0 <= i < name.len() ==> name.contains(#[trigger] name[i]));
}

/// What a search gives, from what stands in the first directory that is not
/// passed by. A symbolic link in place of the file is refused there, and so is
/// what is no regular file where the caller asked for that; what cannot be
/// inspected is an error; a regular file is located, with what marks the directory
/// as a repository root; and otherwise the search ends with nothing. Where every
/// directory is passed by, it ends with nothing as well.
pub proof fn searches_go_by_entries(
    file_name: Seq<char>,
    refuse_non_regular: bool,
    drives: bool,
    w: World,
    start: PathView,
    bound: Option<PathView>,
    directories: Seq<PathView>,
    limit: Option<PathView>,
    depth: int,
)
    requires
        crate::name::bare(file_name, drives),
        climbs(w, start, bound, directories, limit),
        0 <= depth <= directories.len(),
        forall|j: int|
            0 <= j < depth ==> passed_by(
                w,
                file_name,
                refuse_non_regular,
                limit,
                #[trigger] directories[j],
            ),
    ensures
        ({
            let search = SearchView { file_name, refuse_non_regular, drives };
            let result = search.bounded_script(w, start, bound).result;
            let directory = directories[depth];
            let candidate = PathView {
                names: directory.names.push(vstd::utf8::encode_utf8(file_name)),
                ..directory
            };
            let git = PathView {
                names: directory.names.push(vstd::utf8::encode_utf8(".git"@)),
                ..directory
            };
            if depth == directories.len() {
                result == Ok::<Option<LocatedView>, DiscoveryErrorView>(None)
            } else {
                match ((w.entry)(candidate), (w.entry)(git)) {
                    (Ok(EntryKind::Symlink), _) => result == Err::<
                        Option<LocatedView>,
                        DiscoveryErrorView,
                    >(DiscoveryErrorView::Symlink(candidate)),
                    (Ok(kind), _) if refuse_non_regular && kind != EntryKind::File => result
                        == Err::<Option<LocatedView>, DiscoveryErrorView>(
                        DiscoveryErrorView::NotRegular(candidate),
                    ),
                    (Err(kind), _) if kind != ErrorKind::NotFound => result == Err::<
                        Option<LocatedView>,
                        DiscoveryErrorView,
                    >(DiscoveryErrorView::Unreadable { path: candidate, kind }),
                    (_, Err(kind)) if kind != ErrorKind::NotFound => result == Err::<
                        Option<LocatedView>,
                        DiscoveryErrorView,
                    >(DiscoveryErrorView::Unreadable { path: git, kind }),
                    (Ok(EntryKind::File), marker) => result == Ok::<
                        Option<LocatedView>,
                        DiscoveryErrorView,
                    >(
                        Some(
                            LocatedView {
                                path: candidate,
                                directory,
                                git_marker: match marker {
                                    Ok(EntryKind::Directory) => Some(GitMarker::Directory),
                                    Ok(_) => Some(GitMarker::File),
                                    Err(_) => None,
                                },
                                at_repo_root: marker is Ok,
                            },
                        ),
                    ),
                    (_, marker) => marker is Ok || limit == Some(directory) ==> result == Ok::<
                        Option<LocatedView>,
                        DiscoveryErrorView,
                    >(None),
                }
            }
        }),
{
    let search = SearchView { file_name, refuse_non_regular, drives };
    climb_is_a_walk(w, start, bound, directories, limit);
    let end = crate::laws::walk_ends(search, w, directories, limit);
    assert forall|j: int| 0 <= j < depth implies crate::laws::passes(
        search,
        w,
        #[trigger] directories[j],
        limit,
    ) by {
        passing(search, w, limit, directories[j]);
    }
    if depth < directories.len() {
        passing(search, w, limit, directories[depth]);
        if !crate::laws::passes(search, w, directories[depth], limit) {
            assert(crate::laws::ends(search, w, directories, limit, depth));
        }
    } else {
        assert(crate::laws::ends(search, w, directories, limit, depth));
    }
}

/// A regular file is located, whatever the policy: in the first directory that is
/// not passed by, where what stands at the candidate's path is a regular file and
/// the `.git` beside it can be inspected, the search gives that file.
pub proof fn regular_files_are_located(
    file_name: Seq<char>,
    refuse_non_regular: bool,
    drives: bool,
    w: World,
    start: PathView,
    bound: Option<PathView>,
    directories: Seq<PathView>,
    limit: Option<PathView>,
    depth: int,
    candidate: PathView,
    git: PathView,
)
    requires
        crate::name::bare(file_name, drives),
        climbs(w, start, bound, directories, limit),
        0 <= depth < directories.len(),
        forall|j: int|
            0 <= j < depth ==> passed_by(
                w,
                file_name,
                refuse_non_regular,
                limit,
                #[trigger] directories[j],
            ),
        candidate.root == directories[depth].root,
        candidate.separator == directories[depth].separator,
        candidate.names == directories[depth].names.push(vstd::utf8::encode_utf8(file_name)),
        git.root == directories[depth].root,
        git.separator == directories[depth].separator,
        git.names == directories[depth].names.push(vstd::utf8::encode_utf8(".git"@)),
        (w.entry)(candidate) == Ok::<EntryKind, ErrorKind>(EntryKind::File),
        (w.entry)(git) is Ok || (w.entry)(git)->Err_0 == ErrorKind::NotFound,
    ensures
        ({
            let search = SearchView { file_name, refuse_non_regular, drives };
            search.bounded_script(w, start, bound).result matches Ok(Some(located)) && {
                &&& located.path == candidate
                &&& located.directory == directories[depth]
                &&& located.at_repo_root <==> (w.entry)(git) is Ok
            }
        }),
{
    searches_go_by_entries(
        file_name,
        refuse_non_regular,
        drives,
        w,
        start,
        bound,
        directories,
        limit,
        depth,
    );
    let directory = directories[depth];
    assert(candidate =~= PathView {
        names: directory.names.push(vstd::utf8::encode_utf8(file_name)),
        ..directory
    });
    assert(git =~= PathView {
        names: directory.names.push(vstd::utf8::encode_utf8(".git"@)),
        ..directory
    });
}

/// The first directory that is not passed by, or the number of directories where
/// each of them is.
proof fn first_stop(
    search: SearchView,
    w: World,
    start: PathView,
    bound: Option<PathView>,
    directories: Seq<PathView>,
    limit: Option<PathView>,
) -> (depth: int)
    requires
        climbs(w, start, bound, directories, limit),
    ensures
        0 <= depth <= directories.len(),
        forall|j: int|
            0 <= j < depth ==> passed_by(
                w,
                search.file_name,
                search.refuse_non_regular,
                limit,
                #[trigger] directories[j],
            ),
        depth < directories.len() ==> !passed_by(
            w,
            search.file_name,
            search.refuse_non_regular,
            limit,
            directories[depth],
        ),
        search.has_bare_name() ==> search.bounded_script(w, start, bound).result
            == crate::laws::conclusion(search, w, directories, depth),
        crate::laws::ends(search, w, directories, limit, depth),
{
    climb_is_a_walk(w, start, bound, directories, limit);
    let depth = crate::laws::walk_ends(search, w, directories, limit);
    assert forall|j: int| 0 <= j < depth implies passed_by(
        w,
        search.file_name,
        search.refuse_non_regular,
        limit,
        #[trigger] directories[j],
    ) by {
        passing(search, w, limit, directories[j]);
    }
    if depth < directories.len() {
        passing(search, w, limit, directories[depth]);
    }
    depth
}

/// Absence is real. A search that ends with nothing has seen no regular file of
/// the name, and no symbolic link, in any directory up to its end; and it ended at
/// a directory that holds a `.git`, at the limit, or because there was no
/// directory left.
pub proof fn absence_leaves_no_file_behind(
    file_name: Seq<char>,
    refuse_non_regular: bool,
    drives: bool,
    w: World,
    start: PathView,
    bound: Option<PathView>,
    directories: Seq<PathView>,
    limit: Option<PathView>,
) -> (end: int)
    requires
        crate::name::bare(file_name, drives),
        climbs(w, start, bound, directories, limit),
        (SearchView { file_name, refuse_non_regular, drives }).bounded_script(
            w,
            start,
            bound,
        ).result == Ok::<Option<LocatedView>, DiscoveryErrorView>(None),
    ensures
        0 <= end <= directories.len(),
        forall|j: int|
            0 <= j <= end && j < directories.len() ==> {
                let candidate = PathView {
                    names: (#[trigger] directories[j]).names.push(
                        vstd::utf8::encode_utf8(file_name),
                    ),
                    ..directories[j]
                };
                match (w.entry)(candidate) {
                    Ok(EntryKind::File) | Ok(EntryKind::Symlink) => false,
                    Ok(_) => !refuse_non_regular,
                    Err(kind) => kind == ErrorKind::NotFound,
                }
            },
        end < directories.len() ==> {
            let git = PathView {
                names: directories[end].names.push(vstd::utf8::encode_utf8(".git"@)),
                ..directories[end]
            };
            (w.entry)(git) is Ok || limit == Some(directories[end])
        },
        forall|j: int|
            0 <= j < end ==> {
                let git = PathView {
                    names: (#[trigger] directories[j]).names.push(vstd::utf8::encode_utf8(".git"@)),
                    ..directories[j]
                };
                (w.entry)(git) == Err::<EntryKind, ErrorKind>(ErrorKind::NotFound) && limit != Some(
                    directories[j],
                )
            },
{
    let search = SearchView { file_name, refuse_non_regular, drives };
    first_stop(search, w, start, bound, directories, limit)
}

/// What marks the directory of a located file as a repository root is the entry
/// called `.git` in it: a directory makes it an ordinary checkout, any other entry
/// the file of a worktree, and where there is none it is no root.
pub proof fn markers_are_entries(
    file_name: Seq<char>,
    refuse_non_regular: bool,
    drives: bool,
    w: World,
    start: PathView,
    bound: Option<PathView>,
    located: LocatedView,
)
    requires
        (SearchView { file_name, refuse_non_regular, drives }).bounded_script(
            w,
            start,
            bound,
        ).result == Ok::<Option<LocatedView>, DiscoveryErrorView>(Some(located)),
    ensures
        ({
            let git = PathView {
                names: located.directory.names.push(vstd::utf8::encode_utf8(".git"@)),
                ..located.directory
            };
            &&& located.git_marker == Some(GitMarker::Directory) <==> (w.entry)(git) == Ok::<
                EntryKind,
                ErrorKind,
            >(EntryKind::Directory)
            &&& located.git_marker == Some(GitMarker::File) <==> (w.entry)(git) is Ok && (w.entry)(
                git,
            )->Ok_0 != EntryKind::Directory
            &&& located.git_marker is None <==> (w.entry)(git) == Err::<EntryKind, ErrorKind>(
                ErrorKind::NotFound,
            )
            &&& located.at_repo_root <==> (w.entry)(git) is Ok
        }),
        located.path.root == located.directory.root,
        located.path.separator == located.directory.separator,
        located.path.names == located.directory.names.push(vstd::utf8::encode_utf8(file_name)),
        (w.entry)(located.path) == Ok::<EntryKind, ErrorKind>(EntryKind::File),
{
    let search = SearchView { file_name, refuse_non_regular, drives };
    let (directory, limit) = crate::resolve::resolve_script(w, start, bound).result->Ok_0;
    let directories = directory.chain(crate::search::MAX_ANCESTORS as nat);
    let depth = crate::laws::walk_ends(search, w, directories, limit);
}

/// The strict policy concerns only candidates that are neither files nor symbolic
/// links. Where none stands on the way up, the strict search and the default
/// search are asked the same and give the same.
pub proof fn policies_agree_on_regular_candidates(
    file_name: Seq<char>,
    drives: bool,
    w: World,
    start: PathView,
    bound: Option<PathView>,
)
    requires
        forall|path: PathView|
            path.names.len() > 0 && path.names.last() == vstd::utf8::encode_utf8(file_name) ==> !(
            (#[trigger] (w.entry)(path)) == Ok::<EntryKind, ErrorKind>(EntryKind::Directory)) && !(
            (w.entry)(path) == Ok::<EntryKind, ErrorKind>(EntryKind::Other)),
    ensures
        ({
            let strict = SearchView { file_name, refuse_non_regular: true, drives };
            let lenient = SearchView { file_name, refuse_non_regular: false, drives };
            strict.bounded_script(w, start, bound) == lenient.bounded_script(w, start, bound)
        }),
{
    let resolving = crate::resolve::resolve_script(w, start, bound);
    if let Ok((directory, limit)) = resolving.result {
        let directories = directory.chain(crate::search::MAX_ANCESTORS as nat);
        policies_agree_on_a_walk(file_name, drives, w, directories, limit);
    }
}

proof fn policies_agree_on_a_walk(
    file_name: Seq<char>,
    drives: bool,
    w: World,
    directories: Seq<PathView>,
    limit: Option<PathView>,
)
    requires
        forall|path: PathView|
            path.names.len() > 0 && path.names.last() == vstd::utf8::encode_utf8(file_name) ==> !(
            (#[trigger] (w.entry)(path)) == Ok::<EntryKind, ErrorKind>(EntryKind::Directory)) && !(
            (w.entry)(path) == Ok::<EntryKind, ErrorKind>(EntryKind::Other)),
    ensures
        ({
            let strict = SearchView { file_name, refuse_non_regular: true, drives };
            let lenient = SearchView { file_name, refuse_non_regular: false, drives };
            strict.walk_script(w, directories, limit) == lenient.walk_script(w, directories, limit)
        }),
    decreases directories.len(),
{
    if directories.len() > 0 {
        let strict = SearchView { file_name, refuse_non_regular: true, drives };
        let lenient = SearchView { file_name, refuse_non_regular: false, drives };
        let path = lenient.candidate(directories[0]);
        assert(path.names.last() == vstd::utf8::encode_utf8(file_name));
        assert(strict.candidate(directories[0]) == path);
        assert(strict.verdict(w, directories[0]) == lenient.verdict(w, directories[0]));
        policies_agree_on_a_walk(file_name, drives, w, directories.drop_first(), limit);
    }
}

/// A strict search gives what the default search gives, or refuses a candidate
/// that is neither a file nor a symbolic link.
pub proof fn strictness_only_refuses(
    file_name: Seq<char>,
    drives: bool,
    w: World,
    start: PathView,
    bound: Option<PathView>,
)
    ensures
        ({
            let strict = SearchView { file_name, refuse_non_regular: true, drives };
            let lenient = SearchView { file_name, refuse_non_regular: false, drives };
            ||| strict.bounded_script(w, start, bound) == lenient.bounded_script(w, start, bound)
            ||| strict.bounded_script(w, start, bound).result matches Err(
                DiscoveryErrorView::NotRegular(path),
            ) && ((w.entry)(path) == Ok::<EntryKind, ErrorKind>(EntryKind::Directory) || (w.entry)(
                path,
            ) == Ok::<EntryKind, ErrorKind>(EntryKind::Other))
        }),
        !((SearchView { file_name, refuse_non_regular: false, drives }).bounded_script(
            w,
            start,
            bound,
        ).result matches Err(DiscoveryErrorView::NotRegular(_))),
{
    let lenient = SearchView { file_name, refuse_non_regular: false, drives };
    let resolving = crate::resolve::resolve_script(w, start, bound);
    if let Ok((directory, limit)) = resolving.result {
        let directories = directory.chain(crate::search::MAX_ANCESTORS as nat);
        let depth = crate::laws::walk_ends(lenient, w, directories, limit);
        strictness_on_a_walk(file_name, drives, w, directories, limit);
    }
}

proof fn strictness_on_a_walk(
    file_name: Seq<char>,
    drives: bool,
    w: World,
    directories: Seq<PathView>,
    limit: Option<PathView>,
)
    ensures
        ({
            let strict = SearchView { file_name, refuse_non_regular: true, drives };
            let lenient = SearchView { file_name, refuse_non_regular: false, drives };
            ||| strict.walk_script(w, directories, limit) == lenient.walk_script(
                w,
                directories,
                limit,
            )
            ||| strict.walk_script(w, directories, limit).result matches Err(
                DiscoveryErrorView::NotRegular(path),
            ) && ((w.entry)(path) == Ok::<EntryKind, ErrorKind>(EntryKind::Directory) || (w.entry)(
                path,
            ) == Ok::<EntryKind, ErrorKind>(EntryKind::Other))
        }),
    decreases directories.len(),
{
    if directories.len() > 0 {
        strictness_on_a_walk(file_name, drives, w, directories.drop_first(), limit);
    }
}

/// Where the start, or else the bound, cannot be resolved, the search fails, and
/// the error names that path and the reason. Where the working directory cannot
/// be found out, it names `.`.
pub proof fn unresolved_paths_are_named(
    file_name: Seq<char>,
    refuse_non_regular: bool,
    drives: bool,
    w: World,
    start: PathView,
    given: PathView,
)
    requires
        crate::name::bare(file_name, drives),
    ensures
        ({
            let search = SearchView { file_name, refuse_non_regular, drives };
            let outcome = search.bounded_script(w, start, Some(given));
            let unbounded = search.bounded_script(w, start, None);
            match ((w.canonical)(start), (w.canonical)(given)) {
                (Err(kind), _) => {
                    let expected = Err::<Option<LocatedView>, DiscoveryErrorView>(
                        DiscoveryErrorView::Unreadable { path: start, kind },
                    );
                    outcome.result == expected && unbounded.result == expected
                },
                (Ok(_), Err(kind)) => outcome.result == Err::<
                    Option<LocatedView>,
                    DiscoveryErrorView,
                >(DiscoveryErrorView::Unreadable { path: given, kind }),
                _ => true,
            }
        }),
        w.cwd matches Err(kind) ==> {
            let search = SearchView { file_name, refuse_non_regular, drives };
            search.here_script(w).result matches Err(
                DiscoveryErrorView::Unreadable { path, kind: reason },
            ) && reason == kind && path.root.len() == 0 && path.names.len() == 1 && path.names[0]
                == vstd::utf8::encode_utf8("."@) && path.separator == 0x2f
        },
{
}

/// What a search asks: first to resolve the start, whether that is a file, and to
/// resolve the bound where there is one; then, in each directory up to the first
/// that is not passed by, for the candidate and for the `.git`, and for nothing
/// else.
pub proof fn searches_ask_in_order(
    file_name: Seq<char>,
    refuse_non_regular: bool,
    drives: bool,
    w: World,
    start: PathView,
    bound: Option<PathView>,
    directories: Seq<PathView>,
    limit: Option<PathView>,
    depth: int,
)
    requires
        crate::name::bare(file_name, drives),
        climbs(w, start, bound, directories, limit),
        0 <= depth <= directories.len(),
        forall|j: int|
            0 <= j < depth ==> passed_by(
                w,
                file_name,
                refuse_non_regular,
                limit,
                #[trigger] directories[j],
            ),
        depth < directories.len() ==> !passed_by(
            w,
            file_name,
            refuse_non_regular,
            limit,
            directories[depth],
        ),
    ensures
        ({
            let search = SearchView { file_name, refuse_non_regular, drives };
            let asks = search.bounded_script(w, start, bound).asks;
            let first: int = if bound is Some {
                3
            } else {
                2
            };
            &&& first + 2 * depth <= asks.len() <= first + 2 * depth + 2
            &&& depth == directories.len() ==> asks.len() == first + 2 * depth
            &&& depth < directories.len() ==> asks.len() > first + 2 * depth
            &&& asks[0] == RequestView::Canonicalize(start)
            &&& asks[1] == RequestView::IsFile((w.canonical)(start)->Ok_0)
            &&& bound matches Some(given) ==> asks[2] == RequestView::Canonicalize(given)
            &&& forall|j: int|
                0 <= j <= depth && j < directories.len() ==> {
                    let directory = #[trigger] directories[j];
                    &&& asks[first + 2 * j] == RequestView::Inspect(
                        PathView {
                            names: directory.names.push(vstd::utf8::encode_utf8(file_name)),
                            ..directory
                        },
                    )
                    &&& first + 2 * j + 1 < asks.len() ==> asks[first + 2 * j + 1]
                        == RequestView::Inspect(
                        PathView {
                            names: directory.names.push(vstd::utf8::encode_utf8(".git"@)),
                            ..directory
                        },
                    )
                }
        }),
{
    let search = SearchView { file_name, refuse_non_regular, drives };
    climb_is_a_walk(w, start, bound, directories, limit);
    let end = first_stop(search, w, start, bound, directories, limit);
    assert(end == depth) by {
        if end < depth {
            assert(passed_by(w, file_name, refuse_non_regular, limit, directories[end]));
        }
        if depth < end {
            assert(passed_by(w, file_name, refuse_non_regular, limit, directories[depth]));
        }
    }
    walk_asks_in_order(search, w, directories, limit, depth);
    let resolving = crate::resolve::resolve_script(w, start, bound).asks;
    let walking = search.walk_script(w, directories, limit).asks;
    let asks = search.bounded_script(w, start, bound).asks;
    assert(asks =~= resolving + walking);
    let first: int = if bound is Some {
        3
    } else {
        2
    };
    assert(resolving.len() == first);
    assert forall|j: int| 0 <= j <= depth && j < directories.len() implies {
        let directory = #[trigger] directories[j];
        &&& asks[first + 2 * j] == RequestView::Inspect(
            PathView {
                names: directory.names.push(vstd::utf8::encode_utf8(file_name)),
                ..directory
            },
        )
        &&& first + 2 * j + 1 < asks.len() ==> asks[first + 2 * j + 1] == RequestView::Inspect(
            PathView {
                names: directory.names.push(vstd::utf8::encode_utf8(".git"@)),
                ..directory
            },
        )
    } by {
        assert(asks[first + 2 * j] == walking[2 * j]);
        if first + 2 * j + 1 < asks.len() {
            assert(asks[first + 2 * j + 1] == walking[2 * j + 1]);
        }
    }
}

proof fn walk_asks_in_order(
    search: SearchView,
    w: World,
    directories: Seq<PathView>,
    limit: Option<PathView>,
    depth: int,
)
    requires
        crate::laws::ends(search, w, directories, limit, depth),
    ensures
        ({
            let asks = search.walk_script(w, directories, limit).asks;
            &&& 2 * depth <= asks.len() <= 2 * depth + 2
            &&& depth == directories.len() ==> asks.len() == 2 * depth
            &&& depth < directories.len() ==> asks.len() > 2 * depth
            &&& forall|j: int|
                0 <= j <= depth && j < directories.len() ==> {
                    &&& asks[2 * j] == RequestView::Inspect(
                        search.candidate(#[trigger] directories[j]),
                    )
                    &&& 2 * j + 1 < asks.len() ==> asks[2 * j + 1] == RequestView::Inspect(
                        directories[j].join(crate::dialogue::git()),
                    )
                }
        }),
    decreases directories.len(),
{
    if directories.len() > 0 {
        let rest = directories.drop_first();
        let asks = search.walk_script(w, directories, limit).asks;
        if depth > 0 {
            assert(crate::laws::passes(search, w, directories[0], limit));
            assert forall|j: int| 0 <= j < depth - 1 implies crate::laws::passes(
                search,
                w,
                #[trigger] rest[j],
                limit,
            ) by {
                assert(rest[j] == directories[j + 1]);
            }
            walk_asks_in_order(search, w, rest, limit, depth - 1);
            let above = search.walk_script(w, rest, limit).asks;
            let first = search.directory_script(w, directories[0], limit).asks;
            assert(first.len() == 2);
            assert(asks =~= first + above);
            assert forall|j: int| 0 <= j <= depth && j < directories.len() implies {
                &&& asks[2 * j] == RequestView::Inspect(
                    search.candidate(#[trigger] directories[j]),
                )
                &&& 2 * j + 1 < asks.len() ==> asks[2 * j + 1] == RequestView::Inspect(
                    directories[j].join(crate::dialogue::git()),
                )
            } by {
                if j > 0 {
                    assert(rest[j - 1] == directories[j]);
                    assert(asks[2 * j] == above[2 * (j - 1)]);
                    if 2 * j + 1 < asks.len() {
                        assert(asks[2 * j + 1] == above[2 * (j - 1) + 1]);
                    }
                } else {
                    assert(asks[0] == first[0]);
                    assert(asks[1] == first[1]);
                }
            }
        } else {
            assert(!crate::laws::passes(search, w, directories[0], limit));
        }
    }
}

} // verus!
