//! What holds of two batches for the same: from two starts, under two bounds,
//! and in two worlds.

use vstd::prelude::*;

use crate::batch::{BatchResultView, BatchSearchView};
use crate::dialogue::World;
use crate::path::PathView;
use crate::report::{DiscoveryErrorView, ErrorKind, GitMarker, LocatedView};
use crate::search::{SearchView, MAX_ANCESTORS};

verus! {

/// Whether a batch goes on above `directory` with nothing found: none of the
/// files is there, and no boundary is.
pub open spec fn batch_goes_on(
    batch: BatchSearchView,
    w: World,
    bound: Option<PathView>,
    directory: PathView,
) -> bool {
    &&& forall|i: int|
        0 <= i < batch.file_names.len() ==> (#[trigger] batch.single(i)).verdict(w, directory)
            == Ok::<bool, DiscoveryErrorView>(false)
    &&& crate::start_laws::open_above(w, bound, directory)
}

/// A walk gives the same without the directories at its front that it only
/// passes.
proof fn walk_skips(
    batch: BatchSearchView,
    w: World,
    bound: Option<PathView>,
    limit: Option<PathView>,
    directories: Seq<PathView>,
    levels: int,
)
    requires
        batch.file_names.len() > 0,
        0 <= levels <= directories.len(),
        forall|j: int|
            0 <= j < levels ==> {
                &&& batch_goes_on(batch, w, bound, #[trigger] directories[j])
                &&& limit != Some(directories[j])
            },
    ensures
        ({
            let refuse = batch.refuse_non_regular;
            let results = crate::batch::nothing_found(batch.file_names);
            crate::batch::walk_script(w, refuse, results, directories, limit).result
                == crate::batch::walk_script(
                w,
                refuse,
                results,
                directories.skip(levels),
                limit,
            ).result
        }),
    decreases levels,
{
    let refuse = batch.refuse_non_regular;
    let results = crate::batch::nothing_found(batch.file_names);
    if levels == 0 {
        assert(directories.skip(0) =~= directories);
    } else {
        let directory = directories[0];
        let rest = directories.drop_first();
        assert(batch_goes_on(batch, w, bound, directory));
        crate::batch_laws::row_by_entry(w, refuse, directory, None, results, 0);
        let row = crate::batch::row_script(w, refuse, directory, None, results, 0);
        assert forall|i: int| 0 <= i < results.len() implies (#[trigger] crate::batch::single(
            refuse,
            results,
            i,
        )).verdict(w, directory) == Ok::<bool, DiscoveryErrorView>(false) by {
            assert(batch.single(i).verdict(w, directory) == Ok::<bool, DiscoveryErrorView>(false));
        }
        assert(row.result is Ok);
        assert(row.result->Ok_0 =~= results);
        assert(results[0].located is None);
        assert forall|j: int| 0 <= j < levels - 1 implies {
            &&& batch_goes_on(batch, w, bound, #[trigger] rest[j])
            &&& limit != Some(rest[j])
        } by {
            assert(rest[j] == directories[j + 1]);
        }
        walk_skips(batch, w, bound, limit, rest, levels - 1);
        assert(rest.skip(levels - 1) =~= directories.skip(levels));
    }
}

/// Whether the candidate of a search is refused, or cannot be inspected, in one of
/// the directories from `levels` above `child` on, before anything else ends the
/// search and before the cap on ancestors does.
pub open spec fn fails_within_reach(
    search: SearchView,
    w: World,
    bound: Option<PathView>,
    child: PathView,
    levels: int,
) -> bool {
    exists|h: int|
        {
            &&& levels <= h <= child.names.len() && h < MAX_ANCESTORS
            &&& search.verdict(w, #[trigger] child.ancestor(h)) is Err
            &&& forall|j: int|
                levels <= j < h ==> crate::start_laws::goes_on(
                    search,
                    w,
                    bound,
                    #[trigger] child.ancestor(j),
                )
        }
}

/// Whether something ends a batch in one of the directories from `levels` above
/// `child` on, before the cap on ancestors does: it ends for every name, or it
/// fails for one.
pub open spec fn batch_ends_within_reach(
    batch: BatchSearchView,
    w: World,
    bound: Option<PathView>,
    child: PathView,
    levels: int,
) -> bool {
    ||| forall|i: int|
        0 <= i < batch.file_names.len() ==> crate::start_laws::ends_within_reach(
            #[trigger] batch.single(i),
            w,
            bound,
            child,
            levels,
        )
    ||| exists|i: int|
        0 <= i < batch.file_names.len() && fails_within_reach(
            #[trigger] batch.single(i),
            w,
            bound,
            child,
            levels,
        )
}

/// Whether some directory ends a walk for the name at `index`.
spec fn entry_ends(
    w: World,
    refuse: bool,
    results: Seq<BatchResultView>,
    directories: Seq<PathView>,
    limit: Option<PathView>,
    index: int,
) -> bool {
    exists|h: int|
        0 <= h < directories.len() && !crate::laws::passes(
            crate::batch::single(refuse, results, index),
            w,
            #[trigger] directories[h],
            limit,
        )
}

/// Whether a walk for the name at `index`, which is not found yet, fails at its
/// candidate in some directory.
spec fn entry_fails(
    w: World,
    refuse: bool,
    results: Seq<BatchResultView>,
    directories: Seq<PathView>,
    limit: Option<PathView>,
    index: int,
) -> bool {
    let search = crate::batch::single(refuse, results, index);
    &&& results[index].located is None
    &&& exists|h: int|
        {
            &&& 0 <= h < directories.len()
            &&& search.verdict(w, #[trigger] directories[h]) is Err
            &&& crate::laws::reaches(search, w, directories, limit, h)
        }
}

/// A walk that ends in `near` gives the same with more directories behind those.
proof fn walk_ends_early(
    w: World,
    refuse: bool,
    results: Seq<BatchResultView>,
    near: Seq<PathView>,
    far: Seq<PathView>,
    limit: Option<PathView>,
)
    requires
        !crate::batch::complete(results),
        near.is_prefix_of(far),
        ({
            ||| forall|i: int|
                0 <= i < results.len() && (#[trigger] results[i]).located is None ==> entry_ends(
                    w,
                    refuse,
                    results,
                    near,
                    limit,
                    i,
                )
            ||| exists|i: int|
                0 <= i < results.len() && #[trigger] entry_fails(
                    w,
                    refuse,
                    results,
                    near,
                    limit,
                    i,
                )
        }),
    ensures
        crate::batch::walk_script(w, refuse, results, near, limit) == crate::batch::walk_script(
            w,
            refuse,
            results,
            far,
            limit,
        ),
    decreases near.len(),
{
    let missing = choose|i: int|
        0 <= i < results.len() && !((#[trigger] results[i]).located is Some);
    assert(results[missing].located is None);
    assert(near.len() > 0);
    let directory = near[0];
    assert(far[0] == directory);
    if let Ok(marker) = w.marker(directory) {
        crate::batch_laws::row_by_entry(w, refuse, directory, marker, results, 0);
        let row = crate::batch::row_script(w, refuse, directory, marker, results, 0);
        if let Ok(found) = row.result {
            if !(crate::batch::complete(found) || marker is Some || limit == Some(directory)) {
                let rest = near.drop_first();
                assert forall|i: int|
                    0 <= i < found.len() && (#[trigger] found[i]).located is None implies {
                    &&& found[i] == results[i]
                    &&& crate::laws::passes(
                        crate::batch::single(refuse, results, i),
                        w,
                        directory,
                        limit,
                    )
                } by {
                    assert(results[i].located is None);
                }
                assert forall|i: int|
                    0 <= i < found.len() && (#[trigger] found[i]).located is None && entry_ends(
                        w,
                        refuse,
                        results,
                        near,
                        limit,
                        i,
                    ) implies entry_ends(w, refuse, found, rest, limit, i) by {
                    let search = crate::batch::single(refuse, results, i);
                    let h = choose|h: int|
                        0 <= h < near.len() && !crate::laws::passes(
                            search,
                            w,
                            #[trigger] near[h],
                            limit,
                        );
                    assert(rest[h - 1] == near[h]);
                }
                assert forall|i: int|
                    0 <= i < results.len() && #[trigger] entry_fails(
                        w,
                        refuse,
                        results,
                        near,
                        limit,
                        i,
                    ) implies entry_fails(w, refuse, found, rest, limit, i) by {
                    let search = crate::batch::single(refuse, results, i);
                    let h = choose|h: int|
                        {
                            &&& 0 <= h < near.len()
                            &&& search.verdict(w, #[trigger] near[h]) is Err
                            &&& crate::laws::reaches(search, w, near, limit, h)
                        };
                    assert(h > 0);
                    assert(crate::laws::passes(search, w, near[0], limit));
                    assert(found[i] == results[i]);
                    assert(rest[h - 1] == near[h]);
                    assert forall|j: int| 0 <= j < h - 1 implies crate::laws::passes(
                        search,
                        w,
                        #[trigger] rest[j],
                        limit,
                    ) by {
                        assert(near[j + 1] == rest[j]);
                    }
                }
                assert(rest.is_prefix_of(far.drop_first()));
                walk_ends_early(w, refuse, found, rest, far.drop_first(), limit);
            }
        }
    }
}

/// The same configs from whichever subdirectory. A batch that starts `levels`
/// below a directory gives what one that starts in that directory gives, where
/// nothing stands in the directories between that would end the walk or be
/// found. The cap on ancestors must not come in between: the path is short enough
/// for the walk to reach its root, or something within reach ends the walk.
pub proof fn same_batch_from_a_subdirectory(
    batch: BatchSearchView,
    w: World,
    lower: PathView,
    upper: PathView,
    child: PathView,
    levels: int,
    bound: Option<PathView>,
)
    requires
        0 <= levels <= child.names.len(),
        crate::start_laws::starts_in(w, lower, child),
        crate::start_laws::starts_in(w, upper, child.ancestor(levels)),
        forall|j: int|
            0 <= j < levels ==> batch_goes_on(batch, w, bound, #[trigger] child.ancestor(j)),
        child.names.len() < MAX_ANCESTORS || batch_ends_within_reach(
            batch,
            w,
            bound,
            child,
            levels,
        ),
    ensures
        batch.bounded_script(w, lower, bound).result == batch.bounded_script(
            w,
            upper,
            bound,
        ).result,
{
    let directory = child.ancestor(levels);
    let refuse = batch.refuse_non_regular;
    let results = crate::batch::nothing_found(batch.file_names);
    if batch.file_names.len() > 0 && crate::batch::refused(batch.file_names, batch.drives) is None {
        let resolving = crate::resolve::bound_script(w, child, bound);
        if let Ok((_, limit)) = resolving.result {
            let near = child.chain(MAX_ANCESTORS as nat);
            let far = directory.chain(MAX_ANCESTORS as nat);
            assert(levels <= near.len()) by {
                assert(crate::start_laws::ends_within_reach(
                    batch.single(0),
                    w,
                    bound,
                    child,
                    levels,
                ) ==> levels < MAX_ANCESTORS);
            }
            assert forall|j: int| 0 <= j < levels implies {
                &&& batch_goes_on(batch, w, bound, #[trigger] near[j])
                &&& limit != Some(near[j])
            } by {
                assert(near[j] == child.ancestor(j));
                assert(batch_goes_on(batch, w, bound, child.ancestor(j)));
            }
            walk_skips(batch, w, bound, limit, near, levels);
            let rest = near.skip(levels);
            assert forall|j: int| 0 <= j < rest.len() implies j < far.len() && #[trigger] rest[j]
                == far[j] by {
                child.chain_from(MAX_ANCESTORS as nat, levels, j);
            }
            if child.names.len() < MAX_ANCESTORS {
                assert(rest =~= far);
            } else {
                assert(rest =~= far.take(rest.len() as int));
                assert(results[0].located is None);
                assert forall|i: int, j: int|
                    0 <= i < results.len() && 0 <= j < rest.len() implies crate::laws::passes(
                    crate::batch::single(refuse, results, i),
                    w,
                    #[trigger] rest[j],
                    limit,
                ) == crate::start_laws::goes_on(
                    #[trigger] batch.single(i),
                    w,
                    bound,
                    child.ancestor(levels + j),
                ) by {
                    assert(rest[j] == near[levels + j]);
                }
                assert forall|i: int|
                    0 <= i < results.len() && crate::start_laws::ends_within_reach(
                        #[trigger] batch.single(i),
                        w,
                        bound,
                        child,
                        levels,
                    ) implies entry_ends(w, refuse, results, rest, limit, i) by {
                    let h = choose|h: int|
                        levels <= h <= child.names.len() && h < MAX_ANCESTORS
                            && !crate::start_laws::goes_on(
                            batch.single(i),
                            w,
                            bound,
                            #[trigger] child.ancestor(h),
                        );
                    assert(!crate::laws::passes(
                        crate::batch::single(refuse, results, i),
                        w,
                        rest[h - levels],
                        limit,
                    ));
                }
                assert forall|i: int|
                    0 <= i < results.len() && fails_within_reach(
                        #[trigger] batch.single(i),
                        w,
                        bound,
                        child,
                        levels,
                    ) implies entry_fails(w, refuse, results, rest, limit, i) by {
                    let search = batch.single(i);
                    let h = choose|h: int|
                        {
                            &&& levels <= h <= child.names.len() && h < MAX_ANCESTORS
                            &&& search.verdict(w, #[trigger] child.ancestor(h)) is Err
                            &&& forall|j: int|
                                levels <= j < h ==> crate::start_laws::goes_on(
                                    search,
                                    w,
                                    bound,
                                    #[trigger] child.ancestor(j),
                                )
                        };
                    let single = crate::batch::single(refuse, results, i);
                    assert forall|j: int| 0 <= j < h - levels implies crate::laws::passes(
                        single,
                        w,
                        #[trigger] rest[j],
                        limit,
                    ) by {
                        assert(crate::start_laws::goes_on(
                            search,
                            w,
                            bound,
                            child.ancestor(levels + j),
                        ));
                    }
                    assert(rest[h - levels] == near[h]);
                    assert(single.verdict(w, rest[h - levels]) is Err);
                }
                if forall|i: int|
                    0 <= i < batch.file_names.len() ==> crate::start_laws::ends_within_reach(
                        #[trigger] batch.single(i),
                        w,
                        bound,
                        child,
                        levels,
                    ) {
                    assert forall|i: int|
                        0 <= i < results.len() && (#[trigger] results[i]).located is None
                        implies entry_ends(w, refuse, results, rest, limit, i) by {
                        assert(crate::start_laws::ends_within_reach(
                            batch.single(i),
                            w,
                            bound,
                            child,
                            levels,
                        ));
                    }
                } else {
                    let i = choose|i: int|
                        0 <= i < batch.file_names.len() && fails_within_reach(
                            #[trigger] batch.single(i),
                            w,
                            bound,
                            child,
                            levels,
                        );
                    assert(entry_fails(w, refuse, results, rest, limit, i));
                }
                walk_ends_early(w, refuse, results, rest, far, limit);
            }
        }
    }
}

/// Inside a repository the bound plays no part for a batch either. Where a
/// repository root stands on the way up, two bounds give the same, as long as
/// neither is a directory below that root on the way.
pub proof fn bounds_play_no_part_for_a_batch_in_a_repository(
    batch: BatchSearchView,
    w: World,
    start: PathView,
    one: Option<PathView>,
    two: Option<PathView>,
    directory: PathView,
    first: Option<PathView>,
    second: Option<PathView>,
    root: int,
)
    requires
        crate::laws::begins_at(w, start, one, directory, first),
        crate::laws::begins_at(w, start, two, directory, second),
        0 <= root < directory.chain(MAX_ANCESTORS as nat).len(),
        (w.entry)(
            directory.chain(MAX_ANCESTORS as nat)[root].join(crate::dialogue::git()),
        ) is Ok,
        forall|j: int|
            0 <= j < root ==> {
                &&& first != Some(#[trigger] directory.chain(MAX_ANCESTORS as nat)[j])
                &&& second != Some(directory.chain(MAX_ANCESTORS as nat)[j])
            },
    ensures
        batch.bounded_script(w, start, one).result == batch.bounded_script(w, start, two).result,
{
    bounds_apart(
        w,
        batch.refuse_non_regular,
        crate::batch::nothing_found(batch.file_names),
        directory.chain(MAX_ANCESTORS as nat),
        first,
        second,
        root,
    );
}

proof fn bounds_apart(
    w: World,
    refuse: bool,
    results: Seq<BatchResultView>,
    directories: Seq<PathView>,
    first: Option<PathView>,
    second: Option<PathView>,
    root: int,
)
    requires
        0 <= root < directories.len(),
        (w.entry)(directories[root].join(crate::dialogue::git())) is Ok,
        forall|j: int|
            0 <= j < root ==> first != Some(#[trigger] directories[j]) && second != Some(
                directories[j],
            ),
    ensures
        crate::batch::walk_script(w, refuse, results, directories, first)
            == crate::batch::walk_script(w, refuse, results, directories, second),
    decreases directories.len(),
{
    let directory = directories[0];
    let rest = directories.drop_first();
    if let Ok(marker) = w.marker(directory) {
        let row = crate::batch::row_script(w, refuse, directory, marker, results, 0);
        if let Ok(found) = row.result {
            if marker is None {
                assert(root > 0);
                assert(rest[root - 1] == directories[root]);
                assert forall|j: int| 0 <= j < root - 1 implies first != Some(#[trigger] rest[j])
                    && second != Some(rest[j]) by {
                    assert(rest[j] == directories[j + 1]);
                }
                bounds_apart(w, refuse, found, rest, first, second, root - 1);
            }
        }
    }
}

/// One directory gives the same in two worlds that agree on the candidates that
/// are still looked for there.
proof fn row_is_local(
    w: World,
    other: World,
    refuse: bool,
    directory: PathView,
    marker: Option<GitMarker>,
    results: Seq<BatchResultView>,
    index: nat,
)
    requires
        forall|i: int|
            index <= i < results.len() && (#[trigger] results[i]).located is None ==> {
                let path = crate::batch::single(refuse, results, i).candidate(directory);
                (w.entry)(path) == (other.entry)(path)
            },
    ensures
        crate::batch::row_script(w, refuse, directory, marker, results, index)
            == crate::batch::row_script(other, refuse, directory, marker, results, index),
    decreases results.len() - index,
{
    if index < results.len() {
        let at = index as int;
        if results[at].located is Some {
            row_is_local(w, other, refuse, directory, marker, results, index + 1);
        } else {
            let search = crate::batch::single(refuse, results, at);
            assert(search.verdict(w, directory) == search.verdict(other, directory));
            if let Ok(hit) = search.verdict(w, directory) {
                let next = if hit {
                    crate::batch::with_found(results, at, directory, marker)
                } else {
                    results
                };
                assert forall|i: int|
                    index + 1 <= i < next.len() && (#[trigger] next[i]).located is None implies {
                    let path = crate::batch::single(refuse, next, i).candidate(directory);
                    (w.entry)(path) == (other.entry)(path)
                } by {
                    assert(next[i] == results[i]);
                }
                row_is_local(w, other, refuse, directory, marker, next, index + 1);
            }
        }
    }
}

/// Whether two worlds differ at most in what stands in place of `file_name`, in
/// directories above one that is `depth` names deep.
pub open spec fn same_but_above(
    w: World,
    other: World,
    file_name: Seq<char>,
    depth: nat,
) -> bool {
    forall|path: PathView| #[trigger]
        (w.entry)(path) == (other.entry)(path) || {
            &&& path.names.len() > 0
            &&& path.names.len() <= depth
            &&& path.names.last() == vstd::utf8::encode_utf8(file_name)
        }
}

/// The two worlds agree on every marker.
proof fn same_marker(w: World, other: World, file_name: Seq<char>, depth: nat, directory: PathView)
    requires
        same_but_above(w, other, file_name, depth),
        file_name != ".git"@,
    ensures
        w.marker(directory) == other.marker(directory),
{
    let path = directory.join(crate::dialogue::git());
    assert(path.names.last() == crate::dialogue::git());
    if crate::dialogue::git() == vstd::utf8::encode_utf8(file_name) {
        crate::name::same_encoding(".git"@, file_name);
    }
    assert((w.entry)(path) == (other.entry)(path));
}

/// A walk for which `file_name` is settled gives the same in the two worlds.
proof fn settled_walk(
    w: World,
    other: World,
    file_name: Seq<char>,
    depth: nat,
    refuse: bool,
    results: Seq<BatchResultView>,
    directories: Seq<PathView>,
    bound: Option<PathView>,
)
    requires
        same_but_above(w, other, file_name, depth),
        file_name != ".git"@,
        forall|i: int|
            0 <= i < results.len() && (#[trigger] results[i]).file_name == file_name
                ==> results[i].located is Some,
    ensures
        crate::batch::walk_script(w, refuse, results, directories, bound)
            == crate::batch::walk_script(other, refuse, results, directories, bound),
    decreases directories.len(),
{
    if directories.len() > 0 {
        let directory = directories[0];
        same_marker(w, other, file_name, depth, directory);
        if let Ok(marker) = w.marker(directory) {
            assert forall|i: int|
                0 <= i < results.len() && (#[trigger] results[i]).located is None implies {
                let path = crate::batch::single(refuse, results, i).candidate(directory);
                (w.entry)(path) == (other.entry)(path)
            } by {
                let path = crate::batch::single(refuse, results, i).candidate(directory);
                assert(path.names.last() == vstd::utf8::encode_utf8(results[i].file_name));
                if vstd::utf8::encode_utf8(results[i].file_name) == vstd::utf8::encode_utf8(
                    file_name,
                ) {
                    crate::name::same_encoding(results[i].file_name, file_name);
                }
                assert((w.entry)(path) == (other.entry)(path));
            }
            row_is_local(w, other, refuse, directory, marker, results, 0);
            crate::batch_laws::row_by_entry(w, refuse, directory, marker, results, 0);
            let row = crate::batch::row_script(w, refuse, directory, marker, results, 0);
            if let Ok(found) = row.result {
                assert forall|i: int|
                    0 <= i < found.len() && (#[trigger] found[i]).file_name == file_name
                    implies found[i].located is Some by {
                    assert(results[i].file_name == file_name);
                }
                settled_walk(
                    w,
                    other,
                    file_name,
                    depth,
                    refuse,
                    found,
                    directories.drop_first(),
                    bound,
                );
            }
        }
    }
}

/// A walk on which `file_name` is settled in a directory `depth` names deep, if
/// it comes that far, gives the same in the two worlds.
proof fn settling_walk(
    w: World,
    other: World,
    located: LocatedView,
    refuse: bool,
    results: Seq<BatchResultView>,
    directories: Seq<PathView>,
    bound: Option<PathView>,
    index: int,
)
    requires
        0 <= index < results.len(),
        same_but_above(w, other, results[index].file_name, located.directory.names.len()),
        forall|i: int, j: int|
            0 <= i < j < directories.len() ==> (#[trigger] directories[i]).names.len() > (
            #[trigger] directories[j]).names.len(),
        forall|i: int|
            0 <= i < results.len() && (#[trigger] results[i]).file_name == results[index].file_name
                ==> results[i].located is None,
        crate::batch::single(refuse, results, index).walk_script(w, directories, bound).result
            == Ok::<Option<LocatedView>, DiscoveryErrorView>(Some(located)),
    ensures
        crate::batch::walk_script(w, refuse, results, directories, bound)
            == crate::batch::walk_script(other, refuse, results, directories, bound),
    decreases directories.len(),
{
    let file_name = results[index].file_name;
    let depth = located.directory.names.len();
    assert(results[index].located is None);
    if directories.len() > 0 {
        let directory = directories[0];
        let rest = directories.drop_first();
        let search = crate::batch::single(refuse, results, index);
        let end = crate::laws::walk_ends(search, w, directories, bound);
        assert(end < directories.len() && located.directory == directories[end]);
        assert(directory.names.len() >= depth) by {
            if end > 0 {
                assert(directories[0].names.len() > directories[end].names.len());
            }
        }
        assert(w.marker(directory) == other.marker(directory)) by {
            let path = directory.join(crate::dialogue::git());
            assert((w.entry)(path) == (other.entry)(path));
        }
        assert(w.marker(directory) is Ok) by {
            if end > 0 {
                assert(crate::laws::passes(search, w, directories[0], bound));
            }
        }
        let marker = w.marker(directory)->Ok_0;
        assert forall|i: int|
            0 <= i < results.len() && (#[trigger] results[i]).located is None implies {
            let path = crate::batch::single(refuse, results, i).candidate(directory);
            (w.entry)(path) == (other.entry)(path)
        } by {
            let path = crate::batch::single(refuse, results, i).candidate(directory);
            assert(path.names.len() > depth);
            assert((w.entry)(path) == (other.entry)(path));
        }
        row_is_local(w, other, refuse, directory, marker, results, 0);
        crate::batch_laws::row_by_entry(w, refuse, directory, marker, results, 0);
        let row = crate::batch::row_script(w, refuse, directory, marker, results, 0);
        if let Ok(found) = row.result {
            if !(crate::batch::complete(found) || marker is Some || bound == Some(directory)) {
                assert forall|i: int|
                    0 <= i < found.len() && (#[trigger] found[i]).file_name == file_name
                    implies found[i].located is Some == found[index].located is Some by {
                    assert(results[i].file_name == file_name);
                    assert(results[i].located is None);
                    assert(found[index].located is Some || found[index] == results[index]);
                    assert(crate::batch::single(refuse, results, i) == search);
                }
                if found[index].located is Some {
                    // A file called `.git` would be a marker, and the walk would end.
                    assert(file_name != ".git"@);
                    settled_walk(w, other, file_name, depth, refuse, found, rest, bound);
                } else {
                    assert forall|i: int, j: int| 0 <= i < j < rest.len() implies (
                    #[trigger] rest[i]).names.len() > (#[trigger] rest[j]).names.len() by {
                        assert(directories[i + 1].names.len() > directories[j + 1].names.len());
                    }
                    assert(found[index] == results[index]);
                    settling_walk(w, other, located, refuse, found, rest, bound, index);
                }
            }
        }
    }
}

/// Nearest wins for each name by itself. Where the search for one name of a batch
/// locates it, the candidates of that name farther up have no influence on the
/// batch, whether the batch succeeds or fails over another name: a world that
/// differs only in those is asked the same and gives the same.
pub proof fn farther_candidates_have_no_influence(
    batch: BatchSearchView,
    w: World,
    other: World,
    start: PathView,
    bound: Option<PathView>,
    index: int,
    located: LocatedView,
)
    requires
        0 <= index < batch.file_names.len(),
        batch.single(index).bounded_script(w, start, bound).result == Ok::<
            Option<LocatedView>,
            DiscoveryErrorView,
        >(Some(located)),
        crate::start_laws::same_names(w, other),
        same_but_above(w, other, batch.file_names[index], located.directory.names.len()),
    ensures
        batch.bounded_script(w, start, bound) == batch.bounded_script(other, start, bound),
{
    let resolving = crate::resolve::resolve_script(w, start, bound);
    assert(resolving == crate::resolve::resolve_script(other, start, bound));
    let (directory, limit) = resolving.result->Ok_0;
    let directories = directory.chain(MAX_ANCESTORS as nat);
    crate::batch_laws::walk_without_drives(batch.single(index), false, w, directories, limit);
    settling_walk(
        w,
        other,
        located,
        batch.refuse_non_regular,
        crate::batch::nothing_found(batch.file_names),
        directories,
        limit,
        index,
    );
}

/// A batch walk depends on what stands at paths alone, not on where the process
/// runs.
proof fn walk_by_entries_alone(
    w: World,
    other: World,
    refuse: bool,
    results: Seq<BatchResultView>,
    directories: Seq<PathView>,
    bound: Option<PathView>,
)
    requires
        w.entry == other.entry,
    ensures
        crate::batch::walk_script(w, refuse, results, directories, bound)
            == crate::batch::walk_script(other, refuse, results, directories, bound),
    decreases directories.len(),
{
    if directories.len() > 0 {
        let directory = directories[0];
        assert(w.marker(directory) == other.marker(directory));
        if let Ok(marker) = w.marker(directory) {
            row_is_local(w, other, refuse, directory, marker, results, 0);
            let row = crate::batch::row_script(w, refuse, directory, marker, results, 0);
            if let Ok(found) = row.result {
                walk_by_entries_alone(
                    w,
                    other,
                    refuse,
                    found,
                    directories.drop_first(),
                    bound,
                );
            }
        }
    }
}

/// The same configs no matter which subdirectory the process runs in. Two
/// processes on the same files, one of them `levels` below the working directory
/// of the other, get the same, on the terms of
/// [`same_batch_from_a_subdirectory`].
pub proof fn same_batch_from_a_working_subdirectory(
    batch: BatchSearchView,
    w: World,
    other: World,
    lower: PathView,
    upper: PathView,
    child: PathView,
    levels: int,
)
    requires
        w.cwd == Ok::<PathView, ErrorKind>(lower),
        other == (World { cwd: Ok(upper), ..w }),
        0 <= levels <= child.names.len(),
        crate::start_laws::starts_in(w, lower, child),
        crate::start_laws::starts_in(w, upper, child.ancestor(levels)),
        forall|j: int|
            0 <= j < levels ==> batch_goes_on(batch, w, w.home, #[trigger] child.ancestor(j)),
        child.names.len() < MAX_ANCESTORS || batch_ends_within_reach(
            batch,
            w,
            w.home,
            child,
            levels,
        ),
    ensures
        batch.here_script(w).result == batch.here_script(other).result,
{
    same_batch_from_a_subdirectory(batch, w, lower, upper, child, levels, w.home);
    let resolving = crate::resolve::resolve_script(w, upper, w.home);
    assert(resolving == crate::resolve::resolve_script(other, upper, w.home));
    if let Ok((directory, limit)) = resolving.result {
        walk_by_entries_alone(
            w,
            other,
            batch.refuse_non_regular,
            crate::batch::nothing_found(batch.file_names),
            directory.chain(MAX_ANCESTORS as nat),
            limit,
        );
    }
}

} // verus!
