//! What holds of every search.

use vstd::prelude::*;

use crate::dialogue::{RequestView, Script, World};
use crate::path::PathView;
use crate::report::{DiscoveryErrorView, EntryKind, ErrorKind, GitMarker, LocatedView};
use crate::search::{SearchView, Step, MAX_ANCESTORS};

verus! {

/// Whether a walk goes on above `directory`: the file is not there, and no
/// boundary is.
pub open spec fn passes(
    search: SearchView,
    w: World,
    directory: PathView,
    bound: Option<PathView>,
) -> bool {
    &&& search.verdict(w, directory) == Ok::<bool, DiscoveryErrorView>(false)
    &&& w.marker(directory) is Ok
    &&& w.marker(directory)->Ok_0 is None
    &&& bound != Some(directory)
}

/// Whether a walk over `directories` comes as far as the one at `depth`.
pub open spec fn reaches(
    search: SearchView,
    w: World,
    directories: Seq<PathView>,
    bound: Option<PathView>,
    depth: int,
) -> bool {
    &&& 0 <= depth <= directories.len()
    &&& forall|j: int| 0 <= j < depth ==> passes(search, w, #[trigger] directories[j], bound)
}

/// Whether a walk over `directories` ends at `depth`.
pub open spec fn ends(
    search: SearchView,
    w: World,
    directories: Seq<PathView>,
    bound: Option<PathView>,
    depth: int,
) -> bool {
    &&& reaches(search, w, directories, bound, depth)
    &&& depth < directories.len() ==> !passes(search, w, directories[depth], bound)
}

/// What a walk that ends at `depth` concludes.
pub open spec fn conclusion(
    search: SearchView,
    w: World,
    directories: Seq<PathView>,
    depth: int,
) -> Result<Option<LocatedView>, DiscoveryErrorView> {
    if depth >= directories.len() {
        Ok(None)
    } else {
        let directory = directories[depth];
        match (search.verdict(w, directory), w.marker(directory)) {
            (Err(error), _) => Err(error),
            (Ok(_), Err(error)) => Err(error),
            (Ok(true), Ok(marker)) => Ok(
                Some(LocatedView::found(directory, search.file_name, marker)),
            ),
            (Ok(false), Ok(_)) => Ok(None),
        }
    }
}

/// A walk ends at exactly one depth, and that directory decides.
pub proof fn walk_ends(
    search: SearchView,
    w: World,
    directories: Seq<PathView>,
    bound: Option<PathView>,
) -> (depth: int)
    ensures
        ends(search, w, directories, bound, depth),
        forall|other: int| ends(search, w, directories, bound, other) ==> other == depth,
        search.walk_script(w, directories, bound).result == conclusion(
            search,
            w,
            directories,
            depth,
        ),
    decreases directories.len(),
{
    if directories.len() == 0 {
        0
    } else if passes(search, w, directories[0], bound) {
        let rest = directories.drop_first();
        let depth = walk_ends(search, w, rest, bound) + 1;
        assert forall|j: int| 0 <= j < depth implies passes(
            search,
            w,
            #[trigger] directories[j],
            bound,
        ) by {
            if j > 0 {
                assert(directories[j] == rest[j - 1]);
            }
        }
        assert forall|other: int| ends(search, w, directories, bound, other) implies other
            == depth by {
            if other < depth {
                assert(passes(search, w, directories[other], bound));
            } else if depth < other {
                assert(passes(search, w, directories[depth], bound));
            }
        }
        depth
    } else {
        assert forall|other: int| ends(search, w, directories, bound, other) implies other == 0 by {
            if other > 0 {
                assert(passes(search, w, directories[0], bound));
            }
        }
        0
    }
}

/// Where a search begins: the resolved start, or the directory that holds it
/// where it is a file, and the resolved bound.
pub open spec fn begins_at(
    w: World,
    start: PathView,
    bound: Option<PathView>,
    directory: PathView,
    limit: Option<PathView>,
) -> bool {
    crate::resolve::resolve_script(w, start, bound).result == Ok::<
        (PathView, Option<PathView>),
        DiscoveryErrorView,
    >((directory, limit))
}

/// Nearest wins. A file is located exactly where it is the first one met
/// walking upward: at no directory below it does the file stand, or anything
/// that ends the walk.
pub proof fn nearest_wins(
    search: SearchView,
    w: World,
    start: PathView,
    bound: Option<PathView>,
    directory: PathView,
    limit: Option<PathView>,
    located: LocatedView,
)
    requires
        search.has_bare_name(),
        begins_at(w, start, bound, directory, limit),
    ensures
        ({
            let directories = directory.chain(MAX_ANCESTORS as nat);
            search.bounded_script(w, start, bound).result == Ok::<
                Option<LocatedView>,
                DiscoveryErrorView,
            >(Some(located)) <==> exists|depth: int|
                {
                    &&& #[trigger] reaches(search, w, directories, limit, depth)
                    &&& depth < directories.len()
                    &&& search.verdict(w, directories[depth]) == Ok::<bool, DiscoveryErrorView>(
                        true,
                    )
                    &&& w.marker(directories[depth]) is Ok
                    &&& located == LocatedView::found(
                        directories[depth],
                        search.file_name,
                        w.marker(directories[depth])->Ok_0,
                    )
                }
        }),
{
    let directories = directory.chain(MAX_ANCESTORS as nat);
    let depth = walk_ends(search, w, directories, limit);
    assert(reaches(search, w, directories, limit, depth));
    assert forall|other: int|
        #[trigger] reaches(search, w, directories, limit, other) && other < directories.len()
            && !passes(search, w, directories[other], limit) implies other == depth by {
        assert(ends(search, w, directories, limit, other));
    }
}

/// Only a real absence is no error. A search concludes that the file is absent
/// exactly where every directory up to the end of the walk could be inspected
/// and holds no such file, and the walk ended at a repository root, at the
/// bound, or because nothing was left to search.
pub proof fn absence_is_real(
    search: SearchView,
    w: World,
    start: PathView,
    bound: Option<PathView>,
    directory: PathView,
    limit: Option<PathView>,
)
    requires
        search.has_bare_name(),
        begins_at(w, start, bound, directory, limit),
    ensures
        ({
            let directories = directory.chain(MAX_ANCESTORS as nat);
            search.bounded_script(w, start, bound).result == Ok::<
                Option<LocatedView>,
                DiscoveryErrorView,
            >(None) <==> exists|depth: int|
                {
                    &&& #[trigger] reaches(search, w, directories, limit, depth)
                    &&& depth < directories.len() ==> {
                        &&& search.verdict(w, directories[depth]) == Ok::<
                            bool,
                            DiscoveryErrorView,
                        >(false)
                        &&& w.marker(directories[depth]) is Ok
                        &&& w.marker(directories[depth])->Ok_0 is Some || limit == Some(
                            directories[depth],
                        )
                    }
                }
        }),
{
    let directories = directory.chain(MAX_ANCESTORS as nat);
    let depth = walk_ends(search, w, directories, limit);
    assert(reaches(search, w, directories, limit, depth));
    assert forall|other: int|
        #[trigger] reaches(search, w, directories, limit, other) && (other < directories.len()
            ==> !passes(search, w, directories[other], limit)) implies other == depth by {
        assert(ends(search, w, directories, limit, other));
    }
}

/// A walk fails exactly where the first directory that is more than passed by
/// cannot be trusted: its candidate is refused or cannot be inspected, or the
/// candidate is settled and the marker cannot be inspected.
pub proof fn untrusted_directories_fail(
    search: SearchView,
    w: World,
    start: PathView,
    bound: Option<PathView>,
    directory: PathView,
    limit: Option<PathView>,
    error: DiscoveryErrorView,
)
    requires
        search.has_bare_name(),
        begins_at(w, start, bound, directory, limit),
    ensures
        ({
            let directories = directory.chain(MAX_ANCESTORS as nat);
            search.bounded_script(w, start, bound).result == Err::<
                Option<LocatedView>,
                DiscoveryErrorView,
            >(error) <==> exists|depth: int|
                {
                    &&& #[trigger] reaches(search, w, directories, limit, depth)
                    &&& depth < directories.len()
                    &&& match search.verdict(w, directories[depth]) {
                        Err(refused) => refused == error,
                        Ok(_) => w.marker(directories[depth]) == Err::<
                            Option<GitMarker>,
                            DiscoveryErrorView,
                        >(error),
                    }
                }
        }),
{
    let directories = directory.chain(MAX_ANCESTORS as nat);
    let depth = walk_ends(search, w, directories, limit);
    assert(reaches(search, w, directories, limit, depth));
    assert forall|other: int|
        #[trigger] reaches(search, w, directories, limit, other) && other < directories.len()
            && !passes(search, w, directories[other], limit) implies other == depth by {
        assert(ends(search, w, directories, limit, other));
    }
}

/// Path-resolution failures never pass for a missing config. Where the start or
/// the bound cannot be resolved, the search fails and says which and why; where
/// both can be, the walk begins.
pub proof fn unresolved_paths_fail(
    search: SearchView,
    w: World,
    start: PathView,
    bound: Option<PathView>,
)
    requires
        search.has_bare_name(),
    ensures
        match ((w.canonical)(start), bound) {
            (Err(kind), _) => search.bounded_script(w, start, bound).result == Err::<
                Option<LocatedView>,
                DiscoveryErrorView,
            >(DiscoveryErrorView::Unreadable { path: start, kind }),
            (Ok(canonical), Some(limit)) => match (w.canonical)(limit) {
                Err(kind) => search.bounded_script(w, start, bound).result == Err::<
                    Option<LocatedView>,
                    DiscoveryErrorView,
                >(DiscoveryErrorView::Unreadable { path: limit, kind }),
                Ok(resolved) => begins_at(
                    w,
                    start,
                    bound,
                    if (w.is_file)(canonical) {
                        canonical.holder()
                    } else {
                        canonical
                    },
                    Some(resolved),
                ),
            },
            (Ok(canonical), None) => begins_at(
                w,
                start,
                bound,
                if (w.is_file)(canonical) {
                    canonical.holder()
                } else {
                    canonical
                },
                None,
            ),
        },
{
}

/// A working directory that cannot be resolved fails the search, whatever is
/// searched for.
pub proof fn unresolved_working_directory_fails(search: SearchView, w: World)
    ensures
        w.cwd matches Err(kind) ==> search.here_script(w).result == Err::<
            Option<LocatedView>,
            DiscoveryErrorView,
        >(DiscoveryErrorView::Unreadable { path: crate::search::here(), kind }),
{
}

/// Without an explicit bound the home directory is the bound, where the
/// environment names one; and without an explicit start the working directory is
/// the start.
pub proof fn home_is_the_default_bound(search: SearchView, w: World, start: PathView)
    ensures
        search.from_script(w, start).result == search.bounded_script(w, start, w.home).result,
        search.from_script(w, start).asks == seq![RequestView::HomeDir] + search.bounded_script(
            w,
            start,
            w.home,
        ).asks,
        w.cwd matches Ok(cwd) ==> {
            &&& search.here_script(w).result == search.from_script(w, cwd).result
            &&& search.here_script(w).asks == seq![RequestView::CurrentDir] + search.from_script(
                w,
                cwd,
            ).asks
        },
{
}

/// Only a bare file name is accepted, and any other is rejected before a single
/// path is looked at.
pub proof fn only_bare_names(search: SearchView, w: World, start: PathView, bound: Option<PathView>)
    requires
        !search.has_bare_name(),
    ensures
        search.bounded_script(w, start, bound) == Script::<Option<LocatedView>>::fails(
            DiscoveryErrorView::NotAFileName(search.file_name),
        ),
        search.from_script(w, start).asks == seq![RequestView::HomeDir],
        search.from_script(w, start).result == search.bounded_script(w, start, bound).result,
{
    assert(search.from_script(w, start).asks =~= seq![RequestView::HomeDir]);
}

/// What is asked on a walk: every request inspects the candidate or the marker
/// of a directory that the walk comes to, two requests a directory at most.
pub proof fn walk_asks(
    search: SearchView,
    w: World,
    directories: Seq<PathView>,
    bound: Option<PathView>,
    depth: int,
)
    requires
        ends(search, w, directories, bound, depth),
    ensures
        search.walk_script(w, directories, bound).asks.len() <= 2 * directories.len(),
        forall|i: int|
            0 <= i < search.walk_script(w, directories, bound).asks.len() ==> exists|j: int|
                #![trigger directories[j]]
                0 <= j <= depth && j < directories.len() && {
                    let request = #[trigger] search.walk_script(w, directories, bound).asks[i];
                    ||| request == RequestView::Inspect(search.candidate(directories[j]))
                    ||| request == RequestView::Inspect(
                        directories[j].join(crate::dialogue::git()),
                    )
                },
    decreases directories.len(),
{
    if directories.len() > 0 {
        let first = search.directory_script(w, directories[0], bound).asks;
        let asks = search.walk_script(w, directories, bound).asks;
        let rest = directories.drop_first();
        if passes(search, w, directories[0], bound) {
            assert forall|j: int| 0 <= j < depth - 1 implies passes(
                search,
                w,
                #[trigger] rest[j],
                bound,
            ) by {
                assert(rest[j] == directories[j + 1]);
            }
            if depth == 0 {
                assert(!passes(search, w, directories[0], bound));
            }
            walk_asks(search, w, rest, bound, depth - 1);
            assert forall|i: int| 0 <= i < asks.len() implies exists|j: int|
                #![trigger directories[j]]
                0 <= j <= depth && j < directories.len() && {
                    let request = #[trigger] asks[i];
                    ||| request == RequestView::Inspect(search.candidate(directories[j]))
                    ||| request == RequestView::Inspect(
                        directories[j].join(crate::dialogue::git()),
                    )
                } by {
                if i < 2 {
                    assert(asks[i] == first[i]);
                    assert(directories[0] == directories[0]);
                } else {
                    let above = search.walk_script(w, rest, bound).asks;
                    assert(asks[i] == above[i - 2]);
                    let j = choose|j: int|
                        #![trigger rest[j]]
                        0 <= j <= depth - 1 && j < rest.len() && {
                            let request = above[i - 2];
                            ||| request == RequestView::Inspect(search.candidate(rest[j]))
                            ||| request == RequestView::Inspect(
                                rest[j].join(crate::dialogue::git()),
                            )
                        };
                    assert(directories[j + 1] == rest[j]);
                }
            }
        } else {
            assert(depth == 0) by {
                if depth > 0 {
                    assert(passes(search, w, directories[0], bound));
                }
            }
            assert forall|i: int| 0 <= i < asks.len() implies exists|j: int|
                #![trigger directories[j]]
                0 <= j <= depth && j < directories.len() && {
                    let request = #[trigger] asks[i];
                    ||| request == RequestView::Inspect(search.candidate(directories[j]))
                    ||| request == RequestView::Inspect(
                        directories[j].join(crate::dialogue::git()),
                    )
                } by {
                assert(asks[i] == first[i]);
                assert(directories[0] == directories[0]);
            }
        }
    }
}

/// The walk is bounded. However long the path, no more is asked than what it
/// takes to resolve two paths and to inspect a candidate and a marker in each of
/// [`MAX_ANCESTORS`] directories.
pub proof fn effort_is_bounded(
    search: SearchView,
    w: World,
    start: PathView,
    bound: Option<PathView>,
)
    ensures
        search.bounded_script(w, start, bound).asks.len() <= 3 + 2 * MAX_ANCESTORS,
        search.here_script(w).asks.len() <= 5 + 2 * MAX_ANCESTORS,
{
    bounded_effort(search, w, start, bound);
    if let Ok(cwd) = w.cwd {
        bounded_effort(search, w, cwd, w.home);
    }
}

proof fn bounded_effort(search: SearchView, w: World, start: PathView, bound: Option<PathView>)
    ensures
        search.bounded_script(w, start, bound).asks.len() <= 3 + 2 * MAX_ANCESTORS,
{
    let resolving = crate::resolve::resolve_script(w, start, bound);
    if let Ok((directory, limit)) = resolving.result {
        let directories = directory.chain(MAX_ANCESTORS as nat);
        let depth = walk_ends(search, w, directories, limit);
        walk_asks(search, w, directories, limit, depth);
    }
}

/// The walk never crosses a boundary. Where a directory on the way up holds a
/// `.git` entry of whatever kind, or is the bound, nothing outside it is
/// inspected, and nothing outside it is located.
pub proof fn boundaries_hold(
    search: SearchView,
    w: World,
    start: PathView,
    bound: Option<PathView>,
    directory: PathView,
    limit: Option<PathView>,
    boundary: int,
)
    requires
        begins_at(w, start, bound, directory, limit),
        0 <= boundary < directory.chain(MAX_ANCESTORS as nat).len(),
        ({
            let at = directory.chain(MAX_ANCESTORS as nat)[boundary];
            (w.entry)(at.join(crate::dialogue::git())) is Ok || limit == Some(at)
        }),
    ensures
        ({
            let at = directory.chain(MAX_ANCESTORS as nat)[boundary];
            let script = search.bounded_script(w, start, bound);
            &&& forall|i: int, path: PathView|
                #![trigger script.asks[i], path.below(at)]
                0 <= i < script.asks.len() && script.asks[i] == RequestView::Inspect(path)
                    ==> path.below(at)
            &&& script.result matches Ok(Some(located)) ==> located.path.below(at)
        }),
{
    let directories = directory.chain(MAX_ANCESTORS as nat);
    let at = directories[boundary];
    let script = search.bounded_script(w, start, bound);
    if search.has_bare_name() {
        let depth = walk_ends(search, w, directories, limit);
        assert(depth <= boundary) by {
            if boundary < depth {
                assert(passes(search, w, directories[boundary], limit));
            }
        }
        walk_asks(search, w, directories, limit, depth);
        let resolving = crate::resolve::resolve_script(w, start, bound).asks;
        let walking = search.walk_script(w, directories, limit).asks;
        assert forall|i: int, path: PathView|
            #![trigger script.asks[i], path.below(at)]
            0 <= i < script.asks.len() && script.asks[i] == RequestView::Inspect(
                path,
            ) implies path.below(at) by {
            assert(script.asks == resolving + walking);
            if i >= resolving.len() {
                let k = i - resolving.len();
                assert(script.asks[i] == walking[k]);
                let j = choose|j: int|
                    #![trigger directories[j]]
                    0 <= j <= depth && j < directories.len() && {
                        let request = walking[k];
                        ||| request == RequestView::Inspect(search.candidate(directories[j]))
                        ||| request == RequestView::Inspect(
                            directories[j].join(crate::dialogue::git()),
                        )
                    };
                directory.entry_below(
                    MAX_ANCESTORS as nat,
                    j,
                    boundary,
                    vstd::utf8::encode_utf8(search.file_name),
                );
                directory.entry_below(MAX_ANCESTORS as nat, j, boundary, crate::dialogue::git());
            } else {
                assert(script.asks[i] == resolving[i]);
            }
        }
        if depth < directories.len() {
            directory.entry_below(
                MAX_ANCESTORS as nat,
                depth,
                boundary,
                vstd::utf8::encode_utf8(search.file_name),
            );
        }
    }
}

/// What is located is the file of that name in the directory that is named, and
/// it counts as sitting at a repository root exactly where a marker stands
/// beside it.
pub proof fn located_is_whole(
    search: SearchView,
    w: World,
    start: PathView,
    bound: Option<PathView>,
    located: LocatedView,
)
    requires
        search.bounded_script(w, start, bound).result == Ok::<
            Option<LocatedView>,
            DiscoveryErrorView,
        >(Some(located)),
    ensures
        located.path == search.candidate(located.directory),
        (w.entry)(located.path) == Ok::<EntryKind, ErrorKind>(
            EntryKind::File,
        ),
        located.at_repo_root <==> located.git_marker is Some,
        located.at_repo_root <==> (w.entry)(
            located.directory.join(crate::dialogue::git()),
        ) is Ok,
{
    let (directory, limit) = crate::resolve::resolve_script(w, start, bound).result->Ok_0;
    let directories = directory.chain(MAX_ANCESTORS as nat);
    let depth = walk_ends(search, w, directories, limit);
}

/// A misplaced file is used all the same, and reported. To report changes
/// nothing of what is concluded or asked, but for one warning at the end exactly
/// where the file that was located does not sit at a repository root.
pub proof fn misplaced_files_are_reported(
    script: Script<Option<LocatedView>>,
    file_name: Seq<char>,
)
    ensures
        script.reporting(file_name).result == script.result,
        match script.result {
            Ok(Some(located)) => script.reporting(file_name).asks == if located.at_repo_root {
                script.asks
            } else {
                script.asks.push(RequestView::Report(located.misplacement(file_name)))
            },
            _ => script.reporting(file_name).asks == script.asks,
        },
{
}

/// A symbolic link in place of the file is refused where the walk comes to it,
/// and so is any other entry that is no regular file where the caller asked for
/// that.
pub proof fn unsafe_candidates_are_refused(
    search: SearchView,
    w: World,
    start: PathView,
    bound: Option<PathView>,
    directory: PathView,
    limit: Option<PathView>,
    depth: int,
)
    requires
        search.has_bare_name(),
        begins_at(w, start, bound, directory, limit),
        reaches(search, w, directory.chain(MAX_ANCESTORS as nat), limit, depth),
        depth < directory.chain(MAX_ANCESTORS as nat).len(),
    ensures
        ({
            let path = search.candidate(directory.chain(MAX_ANCESTORS as nat)[depth]);
            let result = search.bounded_script(w, start, bound).result;
            match (w.entry)(path) {
                Ok(EntryKind::Symlink) => result == Err::<
                    Option<LocatedView>,
                    DiscoveryErrorView,
                >(DiscoveryErrorView::Symlink(path)),
                Ok(EntryKind::Directory) | Ok(
                    EntryKind::Other,
                ) => search.refuse_non_regular ==> result == Err::<
                    Option<LocatedView>,
                    DiscoveryErrorView,
                >(DiscoveryErrorView::NotRegular(path)),
                _ => true,
            }
        }),
{
    let directories = directory.chain(MAX_ANCESTORS as nat);
    let end = walk_ends(search, w, directories, limit);
    if !passes(search, w, directories[depth], limit) {
        assert(ends(search, w, directories, limit, depth));
    }
}

/// Whether `plain` is `w` without what stands in place of `file_name` and is
/// neither a file nor a symbolic link.
pub open spec fn without_non_regular(w: World, plain: World, file_name: Seq<char>) -> bool {
    &&& w.cwd == plain.cwd && w.home == plain.home && w.canonical == plain.canonical && w.is_file
        == plain.is_file
    &&& forall|path: PathView|
        {
            ||| #[trigger] (w.entry)(path) == (plain.entry)(path)
            ||| {
                &&& path.names.len() > 0
                &&& path.names.last() == vstd::utf8::encode_utf8(file_name)
                &&& (w.entry)(path) matches Ok(kind) && (kind is Directory || kind is Other)
                &&& (plain.entry)(path) == Err::<EntryKind, ErrorKind>(ErrorKind::NotFound)
            }
        }
}

/// Unless the caller refuses them, entries that bear the name of the file and
/// are neither a file nor a symbolic link make no difference: the search goes as
/// if they were not there. (A search for `.git` itself is another matter: the
/// directory of that name is a boundary.)
pub proof fn non_regular_candidates_are_skipped(
    search: SearchView,
    w: World,
    plain: World,
    start: PathView,
    bound: Option<PathView>,
)
    requires
        !search.refuse_non_regular,
        search.file_name != ".git"@,
        without_non_regular(w, plain, search.file_name),
    ensures
        search.bounded_script(w, start, bound) == search.bounded_script(plain, start, bound),
        search.here_script(w) == search.here_script(plain),
{
    skipped(search, w, plain, start, bound);
    if let Ok(cwd) = w.cwd {
        skipped(search, w, plain, cwd, w.home);
    }
}

proof fn skipped(
    search: SearchView,
    w: World,
    plain: World,
    start: PathView,
    bound: Option<PathView>,
)
    requires
        !search.refuse_non_regular,
        search.file_name != ".git"@,
        without_non_regular(w, plain, search.file_name),
    ensures
        search.bounded_script(w, start, bound) == search.bounded_script(plain, start, bound),
{
    assert(crate::resolve::resolve_script(w, start, bound) == crate::resolve::resolve_script(
        plain,
        start,
        bound,
    ));
    if let Ok((directory, limit)) = crate::resolve::resolve_script(w, start, bound).result {
        skipped_on_walk(search, w, plain, directory.chain(MAX_ANCESTORS as nat), limit);
    }
}

proof fn skipped_on_walk(
    search: SearchView,
    w: World,
    plain: World,
    directories: Seq<PathView>,
    bound: Option<PathView>,
)
    requires
        !search.refuse_non_regular,
        search.file_name != ".git"@,
        without_non_regular(w, plain, search.file_name),
    ensures
        search.walk_script(w, directories, bound) == search.walk_script(plain, directories, bound),
    decreases directories.len(),
{
    if directories.len() > 0 {
        let directory = directories[0];
        let marker = directory.join(crate::dialogue::git());
        assert((w.entry)(marker) == (plain.entry)(marker)) by {
            assert(marker.names.last() == crate::dialogue::git());
            if crate::dialogue::git() == vstd::utf8::encode_utf8(search.file_name) {
                crate::name::same_encoding(search.file_name, ".git"@);
            }
        }
        assert(search.verdict(w, directory) == search.verdict(plain, directory)) by {
            let path = search.candidate(directory);
            assert((w.entry)(path) == (w.entry)(path));
        }
        skipped_on_walk(search, w, plain, directories.drop_first(), bound);
    }
}

/// Whether `after` is what `before` comes to once `w` has answered it.
pub open spec fn follows(w: World, before: Step, after: Step) -> bool {
    &&& before matches Step::Ask(inquiry) && before.script(w) == after.script(w).asking(
        inquiry.pending(),
    )
    &&& after.begins(w)
}

/// A search comes to its end. Answered by one world throughout, it asks what its
/// script holds, in that order; and when as many answers are given as the script
/// holds requests, it is done and concludes what the script concludes.
pub proof fn searches_end(w: World, steps: Seq<Step>)
    requires
        steps.len() > 0,
        steps[0].begins(w),
        forall|k: int| 0 <= k < steps.len() - 1 ==> follows(w, #[trigger] steps[k], steps[k + 1]),
    ensures
        steps.len() <= steps[0].script(w).asks.len() + 1,
        forall|k: int|
            0 <= k < steps.len() ==> match #[trigger] steps[k] {
                Step::Ask(inquiry) => {
                    &&& k < steps[0].script(w).asks.len()
                    &&& inquiry.pending() == steps[0].script(w).asks[k]
                },
                Step::Done(outcome) => {
                    &&& k == steps[0].script(w).asks.len()
                    &&& crate::search::outcome_view(outcome) == steps[0].script(w).result
                },
            },
    decreases steps.len(),
{
    if steps.len() > 1 {
        let rest = steps.drop_first();
        assert(follows(w, steps[0], steps[1]));
        assert forall|k: int| 0 <= k < rest.len() - 1 implies follows(
            w,
            #[trigger] rest[k],
            rest[k + 1],
        ) by {
            assert(follows(w, steps[k + 1], steps[k + 1 + 1]));
        }
        searches_end(w, rest);
        assert forall|k: int| 0 <= k < steps.len() implies match #[trigger] steps[k] {
            Step::Ask(inquiry) => {
                &&& k < steps[0].script(w).asks.len()
                &&& inquiry.pending() == steps[0].script(w).asks[k]
            },
            Step::Done(outcome) => {
                &&& k == steps[0].script(w).asks.len()
                &&& crate::search::outcome_view(outcome) == steps[0].script(w).result
            },
        } by {
            if k > 0 {
                assert(steps[k] == rest[k - 1]);
            }
        }
    }
}

} // verus!
