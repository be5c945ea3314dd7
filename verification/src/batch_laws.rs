//! What holds of every search for several files.

use vstd::prelude::*;

use crate::batch::{BatchResultView, BatchSearchView, BatchStep};
use crate::dialogue::{RequestView, Script, World};
use crate::path::PathView;
use crate::report::{DiscoveryErrorView, GitMarker, LocatedView};
use crate::search::{SearchView, MAX_ANCESTORS};

verus! {

/// What one directory gives: every file from `index` on that is not found yet
/// is found where its candidate is a match, the others stay as they are, and it
/// all fails where one of those candidates does.
pub(crate) proof fn row_by_entry(
    w: World,
    refuse: bool,
    directory: PathView,
    marker: Option<GitMarker>,
    results: Seq<BatchResultView>,
    index: nat,
)
    requires
        index <= results.len(),
    ensures
        ({
            let out = crate::batch::row_script(w, refuse, directory, marker, results, index).result;
            &&& out is Ok <==> forall|i: int|
                index <= i < results.len() && (#[trigger] results[i]).located is None
                    ==> crate::batch::single(refuse, results, i).verdict(w, directory) is Ok
            &&& out matches Ok(found) ==> {
                &&& found.len() == results.len()
                &&& forall|i: int|
                    0 <= i < results.len() ==> (#[trigger] found[i]) == if i >= index
                        && results[i].located is None && crate::batch::single(
                        refuse,
                        results,
                        i,
                    ).verdict(w, directory) == Ok::<bool, DiscoveryErrorView>(true) {
                        BatchResultView {
                            file_name: results[i].file_name,
                            located: Some(
                                LocatedView::found(directory, results[i].file_name, marker),
                            ),
                        }
                    } else {
                        results[i]
                    }
            }
        }),
    decreases results.len() - index,
{
    if index < results.len() {
        let at = index as int;
        if results[at].located is Some {
            row_by_entry(w, refuse, directory, marker, results, index + 1);
        } else {
            match crate::batch::single(refuse, results, at).verdict(w, directory) {
                Ok(hit) => {
                    let next = if hit {
                        crate::batch::with_found(results, at, directory, marker)
                    } else {
                        results
                    };
                    row_by_entry(w, refuse, directory, marker, next, index + 1);
                    let out = crate::batch::row_script(
                        w,
                        refuse,
                        directory,
                        marker,
                        next,
                        index + 1,
                    ).result;
                    assert(out is Ok <==> forall|i: int|
                        index <= i < results.len() && (#[trigger] results[i]).located is None
                            ==> crate::batch::single(refuse, results, i).verdict(
                            w,
                            directory,
                        ) is Ok) by {
                        if out is Ok {
                            assert forall|i: int|
                                index <= i < results.len() && (
                                #[trigger] results[i]).located is None
                                implies crate::batch::single(refuse, results, i).verdict(
                                w,
                                directory,
                            ) is Ok by {
                                if i > at {
                                    assert(next[i] == results[i]);
                                }
                            }
                        } else {
                            let i = choose|i: int|
                                index + 1 <= i < next.len() && (#[trigger] next[i]).located is None
                                    && !(crate::batch::single(refuse, next, i).verdict(
                                    w,
                                    directory,
                                ) is Ok);
                            assert(results[i] == next[i]);
                        }
                    }
                },
                Err(_) => {},
            }
        }
    }
}

/// What a whole walk gives: every file that is not found yet is what a walk for
/// it alone would give, and it all fails where one of those walks would.
proof fn walk_by_entry(
    w: World,
    refuse: bool,
    results: Seq<BatchResultView>,
    directories: Seq<PathView>,
    bound: Option<PathView>,
)
    requires
        !crate::batch::complete(results),
    ensures
        ({
            let out = crate::batch::walk_script(w, refuse, results, directories, bound).result;
            &&& out is Ok <==> forall|i: int|
                0 <= i < results.len() && (#[trigger] results[i]).located is None
                    ==> crate::batch::single(refuse, results, i).walk_script(
                    w,
                    directories,
                    bound,
                ).result is Ok
            &&& out matches Ok(found) ==> {
                &&& found.len() == results.len()
                &&& forall|i: int|
                    0 <= i < results.len() ==> (#[trigger] found[i]) == BatchResultView {
                        file_name: results[i].file_name,
                        located: if results[i].located is Some {
                            results[i].located
                        } else {
                            crate::batch::single(refuse, results, i).walk_script(
                                w,
                                directories,
                                bound,
                            ).result->Ok_0
                        },
                    }
            }
        }),
    decreases directories.len(),
{
    let out = crate::batch::walk_script(w, refuse, results, directories, bound).result;
    let missing = choose|i: int|
        0 <= i < results.len() && !((#[trigger] results[i]).located is Some);
    if directories.len() > 0 {
        let directory = directories[0];
        let rest = directories.drop_first();
        match w.marker(directory) {
            Err(_) => {
                assert(!(crate::batch::single(refuse, results, missing).walk_script(
                    w,
                    directories,
                    bound,
                ).result is Ok));
            },
            Ok(marker) => {
                row_by_entry(w, refuse, directory, marker, results, 0);
                let row = crate::batch::row_script(w, refuse, directory, marker, results, 0);
                match row.result {
                    Err(_) => {
                        let i = choose|i: int|
                            0 <= i < results.len() && (#[trigger] results[i]).located is None
                                && !(crate::batch::single(refuse, results, i).verdict(
                                w,
                                directory,
                            ) is Ok);
                        assert(!(crate::batch::single(refuse, results, i).walk_script(
                            w,
                            directories,
                            bound,
                        ).result is Ok));
                    },
                    Ok(found) => {
                        assert forall|i: int|
                            0 <= i < results.len() && (#[trigger] results[i]).located is None
                            && found[i].located is Some implies crate::batch::single(
                            refuse,
                            results,
                            i,
                        ).walk_script(w, directories, bound).result == Ok::<
                            Option<LocatedView>,
                            DiscoveryErrorView,
                        >(found[i].located) by {}
                        if crate::batch::complete(found) || marker is Some || bound == Some(
                            directory,
                        ) {
                            assert forall|i: int|
                                0 <= i < results.len() && (#[trigger] results[i]).located is None
                                implies crate::batch::single(refuse, results, i).walk_script(
                                w,
                                directories,
                                bound,
                            ).result == Ok::<Option<LocatedView>, DiscoveryErrorView>(
                                found[i].located,
                            ) by {
                                assert(found[i].located is Some || found[i] == results[i]);
                            }
                        } else {
                            walk_by_entry(w, refuse, found, rest, bound);
                            let end = crate::batch::walk_script(
                                w,
                                refuse,
                                found,
                                rest,
                                bound,
                            ).result;
                            assert(out == end);
                            assert forall|i: int|
                                0 <= i < results.len() && (#[trigger] results[i]).located is None
                                && found[i].located is None implies crate::batch::single(
                                refuse,
                                results,
                                i,
                            ).walk_script(w, directories, bound).result == crate::batch::single(
                                refuse,
                                found,
                                i,
                            ).walk_script(w, rest, bound).result by {
                                assert(found[i] == results[i]);
                            }
                            if end is Ok {
                                assert forall|i: int|
                                    0 <= i < results.len() && (
                                    #[trigger] results[i]).located is None
                                    implies crate::batch::single(refuse, results, i).walk_script(
                                    w,
                                    directories,
                                    bound,
                                ).result is Ok by {
                                    assert(found[i].located is Some || found[i].located is None);
                                }
                            } else {
                                let i = choose|i: int|
                                    0 <= i < found.len() && (#[trigger] found[i]).located is None
                                        && !(crate::batch::single(refuse, found, i).walk_script(
                                        w,
                                        rest,
                                        bound,
                                    ).result is Ok);
                                assert(results[i].located is None);
                            }
                        }
                    },
                }
            },
        }
    }
}

/// The first name that is refused is the one that is not bare and stands behind
/// bare names only.
pub proof fn first_refused_name(names: Seq<Seq<char>>, drives: bool, name: Seq<char>)
    ensures
        crate::batch::refused(names, drives) == Some(name) <==> exists|i: int|
            {
                &&& 0 <= i < names.len()
                &&& #[trigger] names[i] == name
                &&& !crate::name::bare(name, drives)
                &&& forall|j: int| 0 <= j < i ==> crate::name::bare(#[trigger] names[j], drives)
            },
        crate::batch::refused(names, drives) is None <==> forall|i: int|
            0 <= i < names.len() ==> crate::name::bare(#[trigger] names[i], drives),
    decreases names.len(),
{
    if names.len() > 0 {
        let rest = names.drop_first();
        first_refused_name(rest, drives, name);
        if crate::name::bare(names[0], drives) {
            if crate::batch::refused(rest, drives) == Some(name) {
                let i = choose|i: int|
                    {
                        &&& 0 <= i < rest.len()
                        &&& #[trigger] rest[i] == name
                        &&& !crate::name::bare(name, drives)
                        &&& forall|j: int|
                            0 <= j < i ==> crate::name::bare(#[trigger] rest[j], drives)
                    };
                assert(names[i + 1] == name);
                assert forall|j: int| 0 <= j < i + 1 implies crate::name::bare(
                    #[trigger] names[j],
                    drives,
                ) by {
                    if j > 0 {
                        assert(rest[j - 1] == names[j]);
                    }
                }
            }
            if exists|i: int|
                {
                    &&& 0 <= i < names.len()
                    &&& #[trigger] names[i] == name
                    &&& !crate::name::bare(name, drives)
                    &&& forall|j: int| 0 <= j < i ==> crate::name::bare(#[trigger] names[j], drives)
                } {
                let i = choose|i: int|
                    {
                        &&& 0 <= i < names.len()
                        &&& #[trigger] names[i] == name
                        &&& !crate::name::bare(name, drives)
                        &&& forall|j: int|
                            0 <= j < i ==> crate::name::bare(#[trigger] names[j], drives)
                    };
                assert(rest[i - 1] == name);
                assert forall|j: int| 0 <= j < i - 1 implies crate::name::bare(
                    #[trigger] rest[j],
                    drives,
                ) by {
                    assert(names[j + 1] == rest[j]);
                }
            }
            if crate::batch::refused(rest, drives) is None {
                assert forall|i: int| 0 <= i < names.len() implies crate::name::bare(
                    #[trigger] names[i],
                    drives,
                ) by {
                    if i > 0 {
                        assert(rest[i - 1] == names[i]);
                    }
                }
            } else if forall|i: int|
                0 <= i < names.len() ==> crate::name::bare(#[trigger] names[i], drives) {
                assert forall|i: int| 0 <= i < rest.len() implies crate::name::bare(
                    #[trigger] rest[i],
                    drives,
                ) by {
                    assert(names[i + 1] == rest[i]);
                }
            }
        } else {
            assert(names[0] == names[0]);
        }
    }
}

/// Once the name is past its check, it makes no difference whether the platform
/// has drives.
pub(crate) proof fn walk_without_drives(
    search: SearchView,
    drives: bool,
    w: World,
    directories: Seq<PathView>,
    bound: Option<PathView>,
)
    ensures
        (SearchView { drives, ..search }).walk_script(w, directories, bound) == search.walk_script(
            w,
            directories,
            bound,
        ),
    decreases directories.len(),
{
    if directories.len() > 0 {
        walk_without_drives(search, drives, w, directories.drop_first(), bound);
    }
}

/// A batch is as good as one search for each name. It succeeds exactly where
/// every one of them would, and then gives, in the order of the names and for
/// each as often as it was asked for, what the search for that name would give.
pub proof fn batch_matches_single_searches(
    batch: BatchSearchView,
    w: World,
    start: PathView,
    bound: Option<PathView>,
)
    ensures
        ({
            let out = batch.bounded_script(w, start, bound).result;
            &&& out is Ok <==> forall|i: int|
                0 <= i < batch.file_names.len() ==> (#[trigger] batch.single(i)).bounded_script(
                    w,
                    start,
                    bound,
                ).result is Ok
            &&& out matches Ok(results) ==> {
                &&& results.len() == batch.file_names.len()
                &&& forall|i: int|
                    0 <= i < results.len() ==> (#[trigger] results[i]) == BatchResultView {
                        file_name: batch.file_names[i],
                        located: batch.single(i).bounded_script(w, start, bound).result->Ok_0,
                    }
            }
        }),
{
    let names = batch.file_names;
    let refuse = batch.refuse_non_regular;
    let drives = batch.drives;
    match crate::batch::refused(names, drives) {
        Some(name) => {
            first_refused_name(names, drives, name);
            let i = choose|i: int|
                {
                    &&& 0 <= i < names.len()
                    &&& #[trigger] names[i] == name
                    &&& !crate::name::bare(name, drives)
                    &&& forall|j: int| 0 <= j < i ==> crate::name::bare(#[trigger] names[j], drives)
                };
            assert(!(batch.single(i).bounded_script(w, start, bound).result is Ok));
        },
        None => {
            first_refused_name(names, drives, Seq::empty());
            if names.len() > 0 {
                assert(crate::name::bare(names[0], drives));
                let resolving = crate::resolve::resolve_script(w, start, bound).result;
                if let Ok((directory, limit)) = resolving {
                    let results = crate::batch::nothing_found(names);
                    let directories = directory.chain(MAX_ANCESTORS as nat);
                    assert(results[0].located is None);
                    walk_by_entry(w, refuse, results, directories, limit);
                    assert forall|i: int| 0 <= i < names.len() implies (
                    #[trigger] batch.single(i)).bounded_script(w, start, bound).result
                        == crate::batch::single(refuse, results, i).walk_script(
                        w,
                        directories,
                        limit,
                    ).result by {
                        assert(crate::name::bare(names[i], drives));
                        walk_without_drives(batch.single(i), false, w, directories, limit);
                    }
                    let out = batch.bounded_script(w, start, bound).result;
                    assert(out == crate::batch::walk_script(
                        w,
                        refuse,
                        results,
                        directories,
                        limit,
                    ).result);
                    if out is Ok {
                        assert forall|i: int| 0 <= i < names.len() implies (
                        #[trigger] batch.single(i)).bounded_script(
                            w,
                            start,
                            bound,
                        ).result is Ok by {
                            assert(results[i].located is None);
                        }
                    } else {
                        let i = choose|i: int|
                            0 <= i < results.len() && (#[trigger] results[i]).located is None && !(
                            crate::batch::single(refuse, results, i).walk_script(
                                w,
                                directories,
                                limit,
                            ).result is Ok);
                        assert(!(batch.single(i).bounded_script(w, start, bound).result is Ok));
                    }
                } else {
                    assert(!(batch.single(0).bounded_script(w, start, bound).result is Ok));
                }
            }
        },
    }
}

/// An empty batch is empty, and nothing is looked at for it.
pub proof fn empty_batch_is_empty(
    batch: BatchSearchView,
    w: World,
    start: PathView,
    bound: Option<PathView>,
)
    requires
        batch.file_names.len() == 0,
    ensures
        batch.bounded_script(w, start, bound) == Script::<Seq<BatchResultView>>::done(Seq::empty()),
{
}

/// A name that is not bare fails the whole batch before a single path is looked
/// at, and the first such name is the one that is reported.
pub proof fn refused_name_fails_the_batch(
    batch: BatchSearchView,
    w: World,
    start: PathView,
    bound: Option<PathView>,
    index: int,
)
    requires
        0 <= index < batch.file_names.len(),
        !crate::name::bare(batch.file_names[index], batch.drives),
        forall|j: int| 0 <= j < index ==> crate::name::bare(
            #[trigger] batch.file_names[j],
            batch.drives,
        ),
    ensures
        batch.bounded_script(w, start, bound) == Script::<Seq<BatchResultView>>::fails(
            DiscoveryErrorView::NotAFileName(batch.file_names[index]),
        ),
{
    first_refused_name(batch.file_names, batch.drives, batch.file_names[index]);
}

/// Path-resolution failures fail a batch as they fail a single search, with the
/// same error.
pub proof fn unresolved_paths_fail_the_batch(
    batch: BatchSearchView,
    search: SearchView,
    w: World,
    start: PathView,
    bound: Option<PathView>,
)
    requires
        crate::batch::refused(batch.file_names, batch.drives) is None,
        batch.file_names.len() > 0,
        search.has_bare_name(),
        (w.canonical)(start) is Err || bound is Some && (w.canonical)(bound->0) is Err,
    ensures
        batch.bounded_script(w, start, bound).result is Err,
        search.bounded_script(w, start, bound).result is Err,
        batch.bounded_script(w, start, bound).result->Err_0 == search.bounded_script(
            w,
            start,
            bound,
        ).result->Err_0,
        batch.bounded_script(w, start, bound).asks == search.bounded_script(w, start, bound).asks,
{
}

/// A working directory that cannot be resolved fails the batch, whatever is
/// searched for.
pub proof fn unresolved_working_directory_fails_the_batch(batch: BatchSearchView, w: World)
    ensures
        w.cwd matches Err(kind) ==> batch.here_script(w).result == Err::<
            Seq<BatchResultView>,
            DiscoveryErrorView,
        >(DiscoveryErrorView::Unreadable { path: crate::search::here(), kind }),
{
}

/// Without an explicit bound the home directory is the bound, where the
/// environment names one; and without an explicit start the working directory is
/// the start.
pub proof fn home_is_the_default_bound_of_a_batch(batch: BatchSearchView, w: World, start: PathView)
    ensures
        batch.from_script(w, start).result == batch.bounded_script(w, start, w.home).result,
        batch.from_script(w, start).asks == seq![RequestView::HomeDir] + batch.bounded_script(
            w,
            start,
            w.home,
        ).asks,
        w.cwd matches Ok(cwd) ==> {
            &&& batch.here_script(w).result == batch.from_script(w, cwd).result
            &&& batch.here_script(w).asks == seq![RequestView::CurrentDir] + batch.from_script(
                w,
                cwd,
            ).asks
        },
{
}

/// What is asked of one directory once its marker is known: the candidates of
/// names that are not found yet, and no more of them than there are names.
pub(crate) proof fn row_asks(
    w: World,
    refuse: bool,
    directory: PathView,
    marker: Option<GitMarker>,
    results: Seq<BatchResultView>,
    index: nat,
)
    requires
        index <= results.len(),
    ensures
        ({
            let asks = crate::batch::row_script(
                w,
                refuse,
                directory,
                marker,
                results,
                index,
            ).asks;
            &&& asks.len() <= results.len() - index
            &&& forall|k: int|
                0 <= k < asks.len() ==> exists|i: int|
                    #![trigger results[i]]
                    index <= i < results.len() && results[i].located is None && #[trigger] asks[k]
                        == RequestView::Inspect(
                        crate::batch::single(refuse, results, i).candidate(directory),
                    )
        }),
    decreases results.len() - index,
{
    if index < results.len() {
        let at = index as int;
        let asks = crate::batch::row_script(w, refuse, directory, marker, results, index).asks;
        if results[at].located is Some {
            row_asks(w, refuse, directory, marker, results, index + 1);
        } else {
            let next = match crate::batch::single(refuse, results, at).verdict(w, directory) {
                Ok(true) => crate::batch::with_found(results, at, directory, marker),
                _ => results,
            };
            row_asks(w, refuse, directory, marker, next, index + 1);
            let rest = crate::batch::row_script(
                w,
                refuse,
                directory,
                marker,
                next,
                index + 1,
            ).asks;
            assert forall|k: int| 0 <= k < asks.len() implies exists|i: int|
                #![trigger results[i]]
                index <= i < results.len() && results[i].located is None && #[trigger] asks[k]
                    == RequestView::Inspect(
                    crate::batch::single(refuse, results, i).candidate(directory),
                ) by {
                if k == 0 {
                    assert(results[at] == results[at]);
                } else {
                    assert(asks[k] == rest[k - 1]);
                    let i = choose|i: int|
                        #![trigger next[i]]
                        index + 1 <= i < next.len() && next[i].located is None && rest[k - 1]
                            == RequestView::Inspect(
                            crate::batch::single(refuse, next, i).candidate(directory),
                        );
                    assert(results[i] == next[i]);
                }
            }
        }
    }
}

/// Whether `path` is what a batch inspects in `directory`: the marker, or one of
/// the candidates.
pub open spec fn inspected_in(
    results: Seq<BatchResultView>,
    directory: PathView,
    path: PathView,
) -> bool {
    ||| path == directory.join(crate::dialogue::git())
    ||| exists|i: int|
        0 <= i < results.len() && path == directory.join(
            vstd::utf8::encode_utf8((#[trigger] results[i]).file_name),
        )
}

/// Whether no file that is looked for is called `.git`.
pub open spec fn no_marker_sought(results: Seq<BatchResultView>) -> bool {
    forall|i: int|
        0 <= i < results.len() ==> vstd::utf8::encode_utf8((#[trigger] results[i]).file_name)
            != crate::dialogue::git()
}

/// What is asked on a walk, over directories each of which lies above the last:
/// whatever is inspected belongs to one of them, later requests never go back to
/// a directory further down, and no marker is inspected twice.
pub(crate) proof fn walk_asks_once(
    w: World,
    refuse: bool,
    results: Seq<BatchResultView>,
    directories: Seq<PathView>,
    bound: Option<PathView>,
)
    requires
        forall|i: int, j: int|
            0 <= i < j < directories.len() ==> (#[trigger] directories[i]).names.len() > (
            #[trigger] directories[j]).names.len(),
    ensures
        ({
            let asks = crate::batch::walk_script(w, refuse, results, directories, bound).asks;
            &&& asks.len() <= directories.len() * (results.len() + 1)
            &&& forall|k: int|
                0 <= k < asks.len() ==> (#[trigger] asks[k]) is Inspect && exists|j: int|
                    0 <= j < directories.len() && inspected_in(
                        results,
                        #[trigger] directories[j],
                        asks[k]->Inspect_0,
                    )
            &&& forall|j: int, k: int|
                0 <= j < k < asks.len() ==> {
                    &&& (#[trigger] asks[j])->Inspect_0.names.len() >= (
                    #[trigger] asks[k])->Inspect_0.names.len()
                    &&& no_marker_sought(results) && asks[j] == asks[k]
                        ==> asks[j]->Inspect_0.names.last() != crate::dialogue::git()
                }
        }),
    decreases directories.len(),
{
    if directories.len() > 0 {
        let directory = directories[0];
        let rest = directories.drop_first();
        let asks = crate::batch::walk_script(w, refuse, results, directories, bound).asks;
        let first = RequestView::Inspect(directory.join(crate::dialogue::git()));
        assert(directories.len() * (results.len() + 1) == (results.len() + 1) + rest.len() * (
        results.len() + 1)) by (nonlinear_arith)
            requires
                directories.len() == rest.len() + 1,
        ;
        assert(rest.len() * (results.len() + 1) >= 0) by (nonlinear_arith);
        assert(asks[0] == first);
        assert(inspected_in(results, directory, directory.join(crate::dialogue::git())));
        if let Ok(marker) = w.marker(directory) {
            row_asks(w, refuse, directory, marker, results, 0);
            row_by_entry(w, refuse, directory, marker, results, 0);
            let row = crate::batch::row_script(w, refuse, directory, marker, results, 0);
            assert forall|k: int| 0 <= k < row.asks.len() implies {
                &&& (#[trigger] row.asks[k]) is Inspect
                &&& row.asks[k]->Inspect_0.names.len() == directory.names.len() + 1
                &&& no_marker_sought(results) ==> row.asks[k]->Inspect_0.names.last()
                    != crate::dialogue::git()
                &&& inspected_in(results, directory, row.asks[k]->Inspect_0)
            } by {
                let i = choose|i: int|
                    #![trigger results[i]]
                    0 <= i < results.len() && row.asks[k] == RequestView::Inspect(
                        crate::batch::single(refuse, results, i).candidate(directory),
                    );
                assert(no_marker_sought(results) ==> vstd::utf8::encode_utf8(results[i].file_name)
                    != crate::dialogue::git());
            }
            let ends_here = match row.result {
                Ok(found) => crate::batch::complete(found) || marker is Some || bound == Some(
                    directory,
                ),
                Err(_) => true,
            };
            if ends_here {
                assert(asks =~= seq![first] + row.asks);
            } else {
                let found = row.result->Ok_0;
                assert(no_marker_sought(results) ==> no_marker_sought(found)) by {
                    assert forall|i: int| 0 <= i < found.len() implies (
                    #[trigger] found[i]).file_name == results[i].file_name by {}
                }
                assert forall|i: int, j: int| 0 <= i < j < rest.len() implies (
                #[trigger] rest[i]).names.len() > (#[trigger] rest[j]).names.len() by {
                    assert(directories[i + 1].names.len() > directories[j + 1].names.len());
                }
                walk_asks_once(w, refuse, found, rest, bound);
                let above = crate::batch::walk_script(w, refuse, found, rest, bound).asks;
                assert(asks =~= seq![first] + row.asks + above);
                assert forall|k: int| 0 <= k < above.len() implies {
                    &&& (#[trigger] above[k]) is Inspect
                    &&& above[k]->Inspect_0.names.len() <= directory.names.len()
                    &&& exists|j: int|
                        0 <= j < directories.len() && inspected_in(
                            results,
                            #[trigger] directories[j],
                            above[k]->Inspect_0,
                        )
                } by {
                    let j = choose|j: int|
                        0 <= j < rest.len() && inspected_in(
                            found,
                            #[trigger] rest[j],
                            above[k]->Inspect_0,
                        );
                    assert(directories[0].names.len() > directories[j + 1].names.len());
                    let path = above[k]->Inspect_0;
                    if path != rest[j].join(crate::dialogue::git()) {
                        let i = choose|i: int|
                            0 <= i < found.len() && path == rest[j].join(
                                vstd::utf8::encode_utf8((#[trigger] found[i]).file_name),
                            );
                        assert(results[i].file_name == found[i].file_name);
                    }
                    assert(inspected_in(results, directories[j + 1], path));
                }
            }
        } else {
            assert(asks =~= seq![first]);
        }
    }
}

/// A walk goes no further than a directory that holds a marker, or whose marker
/// cannot be inspected, or that is the bound.
proof fn walk_stops(
    w: World,
    refuse: bool,
    results: Seq<BatchResultView>,
    directories: Seq<PathView>,
    bound: Option<PathView>,
    boundary: int,
)
    requires
        0 <= boundary < directories.len(),
        w.marker(directories[boundary]) != Ok::<Option<GitMarker>, DiscoveryErrorView>(None)
            || bound == Some(directories[boundary]),
    ensures
        crate::batch::walk_script(w, refuse, results, directories, bound)
            == crate::batch::walk_script(
            w,
            refuse,
            results,
            directories.take(boundary + 1),
            bound,
        ),
    decreases directories.len(),
{
    let near = directories.take(boundary + 1);
    let directory = directories[0];
    assert(near[0] == directory);
    if let Ok(marker) = w.marker(directory) {
        let row = crate::batch::row_script(w, refuse, directory, marker, results, 0);
        if let Ok(found) = row.result {
            if marker is None && bound != Some(directory) {
                assert(directories.drop_first()[boundary - 1] == directories[boundary]);
                walk_stops(w, refuse, found, directories.drop_first(), bound, boundary - 1);
                assert(near.drop_first() =~= directories.drop_first().take(boundary));
            }
        }
    }
}

/// The requests of a batch that passed its checks: those that resolve the two
/// paths, and then those of the walk.
pub(crate) proof fn batch_asks(
    batch: BatchSearchView,
    w: World,
    start: PathView,
    bound: Option<PathView>,
    directory: PathView,
    limit: Option<PathView>,
)
    requires
        crate::laws::begins_at(w, start, bound, directory, limit),
    ensures
        ({
            let asks = batch.bounded_script(w, start, bound).asks;
            let resolving = crate::resolve::resolve_script(w, start, bound).asks;
            let walking = crate::batch::walk_script(
                w,
                batch.refuse_non_regular,
                crate::batch::nothing_found(batch.file_names),
                directory.chain(MAX_ANCESTORS as nat),
                limit,
            ).asks;
            &&& asks.len() == 0 || asks == resolving + walking
            &&& resolving.len() <= 3
            &&& forall|i: int| 0 <= i < resolving.len() ==> !((#[trigger] resolving[i]) is Inspect)
        }),
{
}

/// One walk. Once a batch has inspected something in a directory, it never
/// inspects anything further down again. In each directory it looks for the
/// marker once, unless `.git` itself is among the names that are asked for.
pub proof fn batch_walks_once(
    batch: BatchSearchView,
    w: World,
    start: PathView,
    bound: Option<PathView>,
    earlier: int,
    later: int,
)
    requires
        0 <= earlier < later < batch.bounded_script(w, start, bound).asks.len(),
        batch.bounded_script(w, start, bound).asks[earlier] is Inspect,
        batch.bounded_script(w, start, bound).asks[later] is Inspect,
    ensures
        ({
            let asks = batch.bounded_script(w, start, bound).asks;
            let before = asks[earlier]->Inspect_0;
            let after = asks[later]->Inspect_0;
            &&& before.names.len() >= after.names.len()
            &&& before == after && before.names.last() == crate::dialogue::git()
                ==> batch.file_names.contains(".git"@)
        }),
{
    let asks = batch.bounded_script(w, start, bound).asks;
    let resolving = crate::resolve::resolve_script(w, start, bound);
    let results = crate::batch::nothing_found(batch.file_names);
    if let Ok((directory, limit)) = resolving.result {
        batch_asks(batch, w, start, bound, directory, limit);
        let directories = directory.chain(MAX_ANCESTORS as nat);
        walk_asks_once(w, batch.refuse_non_regular, results, directories, limit);
        let walking = crate::batch::walk_script(
            w,
            batch.refuse_non_regular,
            results,
            directories,
            limit,
        ).asks;
        let skipped = resolving.asks.len() as int;
        assert(earlier >= skipped) by {
            if earlier < skipped {
                assert(asks[earlier] == resolving.asks[earlier]);
            }
        }
        assert(asks[earlier] == walking[earlier - skipped]);
        assert(asks[later] == walking[later - skipped]);
        if !no_marker_sought(results) {
            let i = choose|i: int|
                0 <= i < results.len() && vstd::utf8::encode_utf8(
                    (#[trigger] results[i]).file_name,
                ) == crate::dialogue::git();
            crate::name::same_encoding(results[i].file_name, ".git"@);
            assert(batch.file_names[i] == ".git"@);
        }
    } else {
        assert(asks.len() == 0 || asks == resolving.asks);
        assert(asks[earlier] == resolving.asks[earlier]);
    }
}

/// Unresolved entries never cross a boundary. Where a directory on the way up
/// holds a `.git` entry of whatever kind, or is the bound, nothing outside it is
/// inspected for any of the names.
pub proof fn batch_boundaries_hold(
    batch: BatchSearchView,
    w: World,
    start: PathView,
    bound: Option<PathView>,
    directory: PathView,
    limit: Option<PathView>,
    boundary: int,
)
    requires
        crate::laws::begins_at(w, start, bound, directory, limit),
        0 <= boundary < directory.chain(MAX_ANCESTORS as nat).len(),
        ({
            let at = directory.chain(MAX_ANCESTORS as nat)[boundary];
            (w.entry)(at.join(crate::dialogue::git())) is Ok || limit == Some(at)
        }),
    ensures
        ({
            let at = directory.chain(MAX_ANCESTORS as nat)[boundary];
            let asks = batch.bounded_script(w, start, bound).asks;
            forall|i: int, path: PathView|
                #![trigger asks[i], path.below(at)]
                0 <= i < asks.len() && asks[i] == RequestView::Inspect(path) ==> path.below(at)
        }),
{
    let directories = directory.chain(MAX_ANCESTORS as nat);
    let at = directories[boundary];
    let near = directories.take(boundary + 1);
    let asks = batch.bounded_script(w, start, bound).asks;
    let results = crate::batch::nothing_found(batch.file_names);
    let resolving = crate::resolve::resolve_script(w, start, bound).asks;
    batch_asks(batch, w, start, bound, directory, limit);
    walk_stops(w, batch.refuse_non_regular, results, directories, limit, boundary);
    walk_asks_once(w, batch.refuse_non_regular, results, near, limit);
    let walking = crate::batch::walk_script(
        w,
        batch.refuse_non_regular,
        results,
        near,
        limit,
    ).asks;
    assert forall|i: int, path: PathView|
        #![trigger asks[i], path.below(at)]
        0 <= i < asks.len() && asks[i] == RequestView::Inspect(path) implies path.below(at) by {
        if i < resolving.len() {
            assert(asks[i] == resolving[i]);
        } else {
            assert(asks[i] == walking[i - resolving.len()]);
            let j = choose|j: int|
                0 <= j < near.len() && inspected_in(results, #[trigger] near[j], path);
            assert(near[j] == directories[j]);
            if path == near[j].join(crate::dialogue::git()) {
                directory.entry_below(MAX_ANCESTORS as nat, j, boundary, crate::dialogue::git());
            } else {
                let n = choose|n: int|
                    0 <= n < results.len() && path == near[j].join(
                        vstd::utf8::encode_utf8((#[trigger] results[n]).file_name),
                    );
                directory.entry_below(
                    MAX_ANCESTORS as nat,
                    j,
                    boundary,
                    vstd::utf8::encode_utf8(results[n].file_name),
                );
            }
        }
    }
}

/// The walk of a batch is bounded too: in each of [`MAX_ANCESTORS`] directories
/// it looks for the marker and once for each name, and no more.
pub proof fn batch_effort_is_bounded(
    batch: BatchSearchView,
    w: World,
    start: PathView,
    bound: Option<PathView>,
)
    ensures
        batch.bounded_script(w, start, bound).asks.len() <= 3 + MAX_ANCESTORS * (
        batch.file_names.len() + 1),
{
    let resolving = crate::resolve::resolve_script(w, start, bound);
    let results = crate::batch::nothing_found(batch.file_names);
    assert(MAX_ANCESTORS * (batch.file_names.len() + 1) >= 0) by (nonlinear_arith);
    if let Ok((directory, limit)) = resolving.result {
        batch_asks(batch, w, start, bound, directory, limit);
        let directories = directory.chain(MAX_ANCESTORS as nat);
        walk_asks_once(w, batch.refuse_non_regular, results, directories, limit);
        assert(directories.len() * (results.len() + 1) <= MAX_ANCESTORS * (batch.file_names.len()
            + 1)) by (nonlinear_arith)
            requires
                directories.len() <= MAX_ANCESTORS,
                results.len() == batch.file_names.len(),
        ;
    }
}

/// Whether `after` is what `before` comes to once `w` has answered it.
pub open spec fn follows(w: World, before: BatchStep, after: BatchStep) -> bool {
    &&& before matches BatchStep::Ask(inquiry) && before.script(w) == after.script(w).asking(
        inquiry.pending(),
    )
    &&& after.begins(w)
}

/// A batch comes to its end. Answered by one world throughout, it asks what its
/// script holds, in that order; and when as many answers are given as the script
/// holds requests, it is done and concludes what the script concludes.
pub proof fn batches_end(w: World, steps: Seq<BatchStep>)
    requires
        steps.len() > 0,
        steps[0].begins(w),
        forall|k: int| 0 <= k < steps.len() - 1 ==> follows(w, #[trigger] steps[k], steps[k + 1]),
    ensures
        steps.len() <= steps[0].script(w).asks.len() + 1,
        forall|k: int|
            0 <= k < steps.len() ==> match #[trigger] steps[k] {
                BatchStep::Ask(inquiry) => {
                    &&& k < steps[0].script(w).asks.len()
                    &&& inquiry.pending() == steps[0].script(w).asks[k]
                },
                BatchStep::Done(outcome) => {
                    &&& k == steps[0].script(w).asks.len()
                    &&& crate::batch::outcome_view(outcome) == steps[0].script(w).result
                },
            },
    decreases steps.len(),
{
    if steps.len() > 1 {
        let rest = steps.drop_first();
        assert(follows(w, steps[0], steps[1]));
        assert forall|k: int| 0 <= k < rest.len() - 1 implies follows(
            w,
            #[trigger] rest[k],
            rest[k + 1],
        ) by {
            assert(follows(w, steps[k + 1], steps[k + 1 + 1]));
        }
        batches_end(w, rest);
        assert forall|k: int| 0 <= k < steps.len() implies match #[trigger] steps[k] {
            BatchStep::Ask(inquiry) => {
                &&& k < steps[0].script(w).asks.len()
                &&& inquiry.pending() == steps[0].script(w).asks[k]
            },
            BatchStep::Done(outcome) => {
                &&& k == steps[0].script(w).asks.len()
                &&& crate::batch::outcome_view(outcome) == steps[0].script(w).result
            },
        } by {
            if k > 0 {
                assert(steps[k] == rest[k - 1]);
            }
        }
    }
}

} // verus!
