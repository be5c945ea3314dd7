//! What holds of two searches for the same: from two starts, under two bounds,
//! and in two worlds.

use vstd::prelude::*;

use crate::batch::BatchSearchView;
use crate::dialogue::World;
use crate::path::PathView;
use crate::report::{DiscoveryErrorView, ErrorKind, GitMarker, LocatedView};
use crate::search::{SearchView, MAX_ANCESTORS};

verus! {

/// Whether a walk from `start` begins in `directory`: `start` resolves to it, or
/// to a file in it.
pub open spec fn starts_in(w: World, start: PathView, directory: PathView) -> bool {
    match (w.canonical)(start) {
        Ok(canonical) => directory == if (w.is_file)(canonical) {
            canonical.holder()
        } else {
            canonical
        },
        Err(_) => false,
    }
}

/// Whether `bound` resolves to `directory`.
pub open spec fn bounds(w: World, bound: Option<PathView>, directory: PathView) -> bool {
    bound matches Some(limit) && (w.canonical)(limit) == Ok::<PathView, ErrorKind>(directory)
}

/// Whether there is no boundary at `directory`: no marker stands in it, and it is
/// not the bound.
pub open spec fn open_above(w: World, bound: Option<PathView>, directory: PathView) -> bool {
    &&& w.marker(directory) == Ok::<Option<GitMarker>, DiscoveryErrorView>(None)
    &&& !bounds(w, bound, directory)
}

/// Whether a search goes on above `directory`: the file is not there, and no
/// boundary is.
pub open spec fn goes_on(
    search: SearchView,
    w: World,
    bound: Option<PathView>,
    directory: PathView,
) -> bool {
    &&& search.verdict(w, directory) == Ok::<bool, DiscoveryErrorView>(false)
    &&& open_above(w, bound, directory)
}

/// Whether something ends a search in one of the directories from `levels` above
/// `child` on, before the cap on ancestors does: the file, a failure, or a
/// boundary.
pub open spec fn ends_within_reach(
    search: SearchView,
    w: World,
    bound: Option<PathView>,
    child: PathView,
    levels: int,
) -> bool {
    exists|h: int|
        levels <= h <= child.names.len() && h < MAX_ANCESTORS && !goes_on(
            search,
            w,
            bound,
            #[trigger] child.ancestor(h),
        )
}

/// The same config from whichever subdirectory. A search that starts `levels`
/// below a directory gives what one that starts in that directory gives, where
/// nothing stands in the directories between that would end the walk. The cap on
/// ancestors must not come in between: the path is short enough for the walk to
/// reach its root, or something within reach ends the walk.
pub proof fn same_from_a_subdirectory(
    search: SearchView,
    w: World,
    lower: PathView,
    upper: PathView,
    child: PathView,
    levels: int,
    bound: Option<PathView>,
)
    requires
        0 <= levels <= child.names.len(),
        starts_in(w, lower, child),
        starts_in(w, upper, child.ancestor(levels)),
        forall|j: int| 0 <= j < levels ==> goes_on(search, w, bound, #[trigger] child.ancestor(j)),
        child.names.len() < MAX_ANCESTORS || ends_within_reach(search, w, bound, child, levels),
    ensures
        search.bounded_script(w, lower, bound).result == search.bounded_script(
            w,
            upper,
            bound,
        ).result,
{
    let directory = child.ancestor(levels);
    if search.has_bare_name() {
        let resolving = crate::resolve::bound_script(w, child, bound);
        if let Ok((_, limit)) = resolving.result {
            let near = child.chain(MAX_ANCESTORS as nat);
            let far = directory.chain(MAX_ANCESTORS as nat);
            assert forall|j: int| 0 <= j < near.len() implies crate::laws::passes(
                search,
                w,
                #[trigger] near[j],
                limit,
            ) == goes_on(search, w, bound, child.ancestor(j)) by {}
            let end = crate::laws::walk_ends(search, w, near, limit);
            if child.names.len() >= MAX_ANCESTORS {
                let h = choose|h: int|
                    levels <= h <= child.names.len() && h < MAX_ANCESTORS && !goes_on(
                        search,
                        w,
                        bound,
                        #[trigger] child.ancestor(h),
                    );
                assert(!crate::laws::passes(search, w, near[h], limit));
                assert(end <= h);
            }
            if end < levels && end < near.len() {
                assert(goes_on(search, w, bound, child.ancestor(end)));
                assert(crate::laws::passes(search, w, near[end], limit));
            }
            let depth = end - levels;
            assert forall|j: int| 0 <= j < depth implies crate::laws::passes(
                search,
                w,
                #[trigger] far[j],
                limit,
            ) by {
                child.chain_from(MAX_ANCESTORS as nat, levels, j);
                assert(crate::laws::passes(search, w, near[levels + j], limit));
            }
            if end < near.len() {
                child.chain_from(MAX_ANCESTORS as nat, levels, depth);
            }
            let other = crate::laws::walk_ends(search, w, far, limit);
            assert(crate::laws::ends(search, w, far, limit, depth));
        }
    }
}

/// A start that is a file stands for the directory that holds it, for one name
/// and for a batch.
pub proof fn a_file_stands_for_its_directory(
    search: SearchView,
    batch: BatchSearchView,
    w: World,
    start: PathView,
    file: PathView,
    bound: Option<PathView>,
)
    requires
        (w.canonical)(start) == Ok::<PathView, ErrorKind>(file),
        (w.is_file)(file),
        file.names.len() > 0,
        (w.canonical)(file.ancestor(1)) == Ok::<PathView, ErrorKind>(file.ancestor(1)),
        !(w.is_file)(file.ancestor(1)),
    ensures
        search.bounded_script(w, start, bound).result == search.bounded_script(
            w,
            file.ancestor(1),
            bound,
        ).result,
        batch.bounded_script(w, start, bound).result == batch.bounded_script(
            w,
            file.ancestor(1),
            bound,
        ).result,
{
}

impl World {
    /// Whether resolved paths stay as they are: what resolving gives is resolved,
    /// and so is the directory that holds a file, which is no file itself.
    pub open spec fn settled(self) -> bool {
        forall|path: PathView, canonical: PathView|
            #![trigger (self.canonical)(path), (self.canonical)(canonical)]
            (self.canonical)(path) == Ok::<PathView, ErrorKind>(canonical) ==> {
                &&& (self.canonical)(canonical) == Ok::<PathView, ErrorKind>(canonical)
                &&& (self.is_file)(canonical) && canonical.names.len() > 0 ==> {
                    &&& (self.canonical)(canonical.ancestor(1)) == Ok::<PathView, ErrorKind>(
                        canonical.ancestor(1),
                    )
                    &&& !(self.is_file)(canonical.ancestor(1))
                }
            }
    }
}

/// To resolve what is resolved changes nothing: a walk that begins at a resolved
/// start, under a resolved bound, begins there again.
pub proof fn resolving_again_changes_nothing(
    w: World,
    start: PathView,
    bound: Option<PathView>,
    directory: PathView,
    limit: Option<PathView>,
)
    requires
        w.settled(),
        crate::laws::begins_at(w, start, bound, directory, limit),
    ensures
        starts_in(w, start, directory),
        starts_in(w, directory, directory),
        crate::laws::begins_at(w, directory, bound, directory, limit),
        crate::laws::begins_at(w, directory, limit, directory, limit),
{
    let canonical = (w.canonical)(start)->Ok_0;
    assert((w.canonical)(canonical) == Ok::<PathView, ErrorKind>(canonical));
    if let Some(given) = bound {
        let resolved = (w.canonical)(given)->Ok_0;
        assert((w.canonical)(resolved) == Ok::<PathView, ErrorKind>(resolved));
    }
}

/// Inside a repository the bound plays no part. Where a repository root stands on
/// the way up, two bounds give the same, as long as neither is a directory below
/// that root on the way.
pub proof fn bounds_play_no_part_in_a_repository(
    search: SearchView,
    w: World,
    start: PathView,
    one: Option<PathView>,
    two: Option<PathView>,
    directory: PathView,
    first: Option<PathView>,
    second: Option<PathView>,
    root: int,
)
    requires
        crate::laws::begins_at(w, start, one, directory, first),
        crate::laws::begins_at(w, start, two, directory, second),
        0 <= root < directory.chain(MAX_ANCESTORS as nat).len(),
        (w.entry)(
            directory.chain(MAX_ANCESTORS as nat)[root].join(crate::dialogue::git()),
        ) is Ok,
        forall|j: int|
            0 <= j < root ==> {
                &&& first != Some(#[trigger] directory.chain(MAX_ANCESTORS as nat)[j])
                &&& second != Some(directory.chain(MAX_ANCESTORS as nat)[j])
            },
    ensures
        search.bounded_script(w, start, one).result == search.bounded_script(
            w,
            start,
            two,
        ).result,
{
    let directories = directory.chain(MAX_ANCESTORS as nat);
    let depth = crate::laws::walk_ends(search, w, directories, first);
    assert(depth <= root) by {
        if root < depth {
            assert(crate::laws::passes(search, w, directories[root], first));
        }
    }
    assert forall|j: int| 0 <= j < depth implies crate::laws::passes(
        search,
        w,
        #[trigger] directories[j],
        second,
    ) by {
        assert(crate::laws::passes(search, w, directories[j], first));
    }
    assert(crate::laws::ends(search, w, directories, second, depth));
    let other = crate::laws::walk_ends(search, w, directories, second);
}

/// Whether two worlds differ at most in what stands at their paths, and in where
/// the process runs.
pub open spec fn same_names(w: World, other: World) -> bool {
    &&& w.home == other.home
    &&& w.canonical == other.canonical
    &&& w.is_file == other.is_file
}

/// A walk that ends at `depth` depends on what it inspects up to there alone.
proof fn walk_is_local(
    search: SearchView,
    w: World,
    other: World,
    directories: Seq<PathView>,
    bound: Option<PathView>,
    depth: int,
)
    requires
        crate::laws::ends(search, w, directories, bound, depth),
        forall|j: int|
            0 <= j <= depth && j < directories.len() ==> {
                let directory = #[trigger] directories[j];
                &&& (w.entry)(search.candidate(directory)) == (other.entry)(
                    search.candidate(directory),
                )
                &&& (w.entry)(directory.join(crate::dialogue::git())) == (other.entry)(
                    directory.join(crate::dialogue::git()),
                )
            },
    ensures
        search.walk_script(w, directories, bound) == search.walk_script(other, directories, bound),
    decreases directories.len(),
{
    if directories.len() > 0 {
        let rest = directories.drop_first();
        assert(search.directory_script(w, directories[0], bound) == search.directory_script(
            other,
            directories[0],
            bound,
        ));
        if crate::laws::passes(search, w, directories[0], bound) {
            assert(depth > 0);
            assert forall|j: int| 0 <= j < depth - 1 implies crate::laws::passes(
                search,
                w,
                #[trigger] rest[j],
                bound,
            ) by {
                assert(rest[j] == directories[j + 1]);
            }
            assert forall|j: int| 0 <= j <= depth - 1 && j < rest.len() implies {
                let directory = #[trigger] rest[j];
                &&& (w.entry)(search.candidate(directory)) == (other.entry)(
                    search.candidate(directory),
                )
                &&& (w.entry)(directory.join(crate::dialogue::git())) == (other.entry)(
                    directory.join(crate::dialogue::git()),
                )
            } by {
                assert(rest[j] == directories[j + 1]);
            }
            walk_is_local(search, w, other, rest, bound, depth - 1);
        }
    }
}

/// Once the file is located, nothing outside its directory has any influence: a
/// world that differs only there is asked the same and gives the same.
pub proof fn farther_entries_have_no_influence(
    search: SearchView,
    w: World,
    other: World,
    start: PathView,
    bound: Option<PathView>,
    located: LocatedView,
)
    requires
        search.bounded_script(w, start, bound).result == Ok::<
            Option<LocatedView>,
            DiscoveryErrorView,
        >(Some(located)),
        same_names(w, other),
        forall|path: PathView| #[trigger]
            path.below(located.directory) ==> (w.entry)(path) == (other.entry)(path),
    ensures
        search.bounded_script(w, start, bound) == search.bounded_script(other, start, bound),
{
    let resolving = crate::resolve::resolve_script(w, start, bound);
    assert(resolving == crate::resolve::resolve_script(other, start, bound));
    let (directory, limit) = resolving.result->Ok_0;
    let directories = directory.chain(MAX_ANCESTORS as nat);
    let depth = crate::laws::walk_ends(search, w, directories, limit);
    assert(located.directory == directories[depth]);
    assert forall|j: int| 0 <= j <= depth && j < directories.len() implies {
        let directory = #[trigger] directories[j];
        &&& (w.entry)(search.candidate(directory)) == (other.entry)(search.candidate(directory))
        &&& (w.entry)(directory.join(crate::dialogue::git())) == (other.entry)(
            directory.join(crate::dialogue::git()),
        )
    } by {
        directory.entry_below(
            MAX_ANCESTORS as nat,
            j,
            depth,
            vstd::utf8::encode_utf8(search.file_name),
        );
        directory.entry_below(MAX_ANCESTORS as nat, j, depth, crate::dialogue::git());
    }
    walk_is_local(search, w, other, directories, limit, depth);
}

/// The same config no matter which subdirectory the process runs in. Two
/// processes on the same files, one of them `levels` below the working directory
/// of the other, get the same, on the terms of [`same_from_a_subdirectory`].
pub proof fn same_from_a_working_subdirectory(
    search: SearchView,
    w: World,
    other: World,
    lower: PathView,
    upper: PathView,
    child: PathView,
    levels: int,
)
    requires
        w.cwd == Ok::<PathView, ErrorKind>(lower),
        other == (World { cwd: Ok(upper), ..w }),
        0 <= levels <= child.names.len(),
        starts_in(w, lower, child),
        starts_in(w, upper, child.ancestor(levels)),
        forall|j: int| 0 <= j < levels ==> goes_on(search, w, w.home, #[trigger] child.ancestor(j)),
        child.names.len() < MAX_ANCESTORS || ends_within_reach(search, w, w.home, child, levels),
    ensures
        search.here_script(w).result == search.here_script(other).result,
{
    same_from_a_subdirectory(search, w, lower, upper, child, levels, w.home);
    let resolving = crate::resolve::resolve_script(w, upper, w.home);
    assert(resolving == crate::resolve::resolve_script(other, upper, w.home));
    if let Ok((directory, limit)) = resolving.result {
        let directories = directory.chain(MAX_ANCESTORS as nat);
        let depth = crate::laws::walk_ends(search, w, directories, limit);
        walk_is_local(search, w, other, directories, limit, depth);
    }
}

} // verus!
