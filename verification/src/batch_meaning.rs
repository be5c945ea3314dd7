//! What a batch means, told by the names that the caller hands in and by the
//! entries of the file system.

use vstd::prelude::*;

use crate::batch::{BatchResultView, BatchSearch, BatchSearchView};
use crate::dialogue::{RequestView, World};
use crate::path::PathView;
use crate::report::{DiscoveryErrorView, EntryKind, ErrorKind, GitMarker};
use crate::search::SearchView;

verus! {

/// One result for each name that the caller hands in, in the order of the slice,
/// duplicates included: a batch that succeeds gives as many results as there are
/// names, and the one at each place bears the name at that place and what a
/// default search for it gives. It succeeds exactly where each of those searches
/// does.
pub proof fn slices_are_answered_in_order(
    file_names: Seq<&str>,
    drives: bool,
    w: World,
    start: PathView,
    bound: Option<PathView>,
)
    ensures
        ({
            let batch = BatchSearchView::named(crate::batch::names_view(file_names), drives);
            let out = batch.bounded_script(w, start, bound).result;
            &&& out matches Ok(results) ==> {
                &&& results.len() == file_names.len()
                &&& forall|i: int|
                    0 <= i < file_names.len() ==> {
                        let alone = SearchView {
                            file_name: (#[trigger] file_names[i])@,
                            refuse_non_regular: false,
                            drives,
                        };
                        &&& results[i].file_name == file_names[i]@
                        &&& alone.bounded_script(w, start, bound).result == Ok::<
                            Option<crate::report::LocatedView>,
                            DiscoveryErrorView,
                        >(results[i].located)
                    }
            }
            &&& out is Ok <==> forall|i: int|
                0 <= i < file_names.len() ==> (SearchView {
                    file_name: (#[trigger] file_names[i])@,
                    refuse_non_regular: false,
                    drives,
                }).bounded_script(w, start, bound).result is Ok
        }),
{
    let names = crate::batch::names_view(file_names);
    let batch = BatchSearchView::named(names, drives);
    crate::batch_laws::batch_matches_single_searches(batch, w, start, bound);
    assert forall|i: int| 0 <= i < file_names.len() implies batch.single(i) == (SearchView {
        file_name: (#[trigger] file_names[i])@,
        refuse_non_regular: false,
        drives,
    }) by {}
    let out = batch.bounded_script(w, start, bound).result;
    if forall|i: int|
        0 <= i < file_names.len() ==> (SearchView {
            file_name: (#[trigger] file_names[i])@,
            refuse_non_regular: false,
            drives,
        }).bounded_script(w, start, bound).result is Ok {
        assert forall|i: int| 0 <= i < batch.file_names.len() implies (
        #[trigger] batch.single(i)).bounded_script(w, start, bound).result is Ok by {
            let name = file_names[i];
        }
    }
    if out is Ok {
        assert forall|i: int| 0 <= i < file_names.len() implies (SearchView {
            file_name: (#[trigger] file_names[i])@,
            refuse_non_regular: false,
            drives,
        }).bounded_script(w, start, bound).result is Ok by {
            assert(batch.single(i).bounded_script(w, start, bound).result is Ok);
        }
    }
}

/// The same of a batch with its policy, over the names that it holds.
pub proof fn batches_answer_in_order(
    batch: BatchSearch,
    w: World,
    start: PathView,
    bound: Option<PathView>,
)
    ensures
        ({
            let out = batch@.bounded_script(w, start, bound).result;
            &&& out matches Ok(results) ==> {
                &&& results.len() == batch.file_names@.len()
                &&& forall|i: int|
                    0 <= i < batch.file_names@.len() ==> {
                        let alone = SearchView {
                            file_name: (#[trigger] batch.file_names@[i])@,
                            refuse_non_regular: batch.refuse_non_regular,
                            drives: batch.drives,
                        };
                        &&& results[i].file_name == batch.file_names@[i]@
                        &&& alone.bounded_script(w, start, bound).result == Ok::<
                            Option<crate::report::LocatedView>,
                            DiscoveryErrorView,
                        >(results[i].located)
                    }
            }
            &&& out is Ok <==> forall|i: int|
                0 <= i < batch.file_names@.len() ==> (SearchView {
                    file_name: (#[trigger] batch.file_names@[i])@,
                    refuse_non_regular: batch.refuse_non_regular,
                    drives: batch.drives,
                }).bounded_script(w, start, bound).result is Ok
        }),
{
    crate::batch_laws::batch_matches_single_searches(batch@, w, start, bound);
    assert forall|i: int| 0 <= i < batch.file_names@.len() implies batch@.single(i) == (SearchView {
        file_name: (#[trigger] batch.file_names@[i])@,
        refuse_non_regular: batch.refuse_non_regular,
        drives: batch.drives,
    }) by {}
    let out = batch@.bounded_script(w, start, bound).result;
    if forall|i: int|
        0 <= i < batch.file_names@.len() ==> (SearchView {
            file_name: (#[trigger] batch.file_names@[i])@,
            refuse_non_regular: batch.refuse_non_regular,
            drives: batch.drives,
        }).bounded_script(w, start, bound).result is Ok {
        assert forall|i: int| 0 <= i < batch@.file_names.len() implies (
        #[trigger] batch@.single(i)).bounded_script(w, start, bound).result is Ok by {
            let name = batch.file_names@[i];
        }
    }
    if out is Ok {
        assert forall|i: int| 0 <= i < batch.file_names@.len() implies (SearchView {
            file_name: (#[trigger] batch.file_names@[i])@,
            refuse_non_regular: batch.refuse_non_regular,
            drives: batch.drives,
        }).bounded_script(w, start, bound).result is Ok by {
            assert(batch@.single(i).bounded_script(w, start, bound).result is Ok);
        }
    }
}

/// What marks the directory of a located file as a repository root is the entry
/// called `.git` in it, for each result of a batch.
pub proof fn batch_markers_are_entries(
    file_names: Seq<Seq<char>>,
    refuse_non_regular: bool,
    drives: bool,
    w: World,
    start: PathView,
    bound: Option<PathView>,
    results: Seq<BatchResultView>,
    index: int,
)
    requires
        (BatchSearchView { file_names, refuse_non_regular, drives }).bounded_script(
            w,
            start,
            bound,
        ).result == Ok::<Seq<BatchResultView>, DiscoveryErrorView>(results),
        0 <= index < results.len(),
        results[index].located is Some,
    ensures
        ({
            let located = results[index].located->0;
            let git = PathView {
                names: located.directory.names.push(vstd::utf8::encode_utf8(".git"@)),
                ..located.directory
            };
            &&& located.git_marker == Some(GitMarker::Directory) <==> (w.entry)(git) == Ok::<
                EntryKind,
                ErrorKind,
            >(EntryKind::Directory)
            &&& located.git_marker == Some(GitMarker::File) <==> (w.entry)(git) is Ok && (w.entry)(
                git,
            )->Ok_0 != EntryKind::Directory
            &&& located.git_marker is None <==> (w.entry)(git) == Err::<EntryKind, ErrorKind>(
                ErrorKind::NotFound,
            )
            &&& located.at_repo_root <==> (w.entry)(git) is Ok
            &&& located.path.root == located.directory.root
            &&& located.path.separator == located.directory.separator
            &&& located.path.names == located.directory.names.push(
                vstd::utf8::encode_utf8(file_names[index]),
            )
            &&& (w.entry)(located.path) == Ok::<EntryKind, ErrorKind>(EntryKind::File)
        }),
{
    let batch = BatchSearchView { file_names, refuse_non_regular, drives };
    crate::batch_laws::batch_matches_single_searches(batch, w, start, bound);
    assert(batch.single(index).bounded_script(w, start, bound).result is Ok);
    assert(results[index].located == batch.single(index).bounded_script(
        w,
        start,
        bound,
    ).result->Ok_0);
    crate::search_meaning::markers_are_entries(
        file_names[index],
        refuse_non_regular,
        drives,
        w,
        start,
        bound,
        results[index].located->0,
    );
}

/// A batch fails over a name exactly where one of its names is empty, holds a
/// separator, is `.` or `..`, or starts with a drive on a platform that has
/// drives; it is the first of those that is named. Where there is none and there
/// is a name at all, the batch goes on to ask.
pub proof fn refused_names_of_a_batch(
    file_names: Seq<Seq<char>>,
    refuse_non_regular: bool,
    drives: bool,
    w: World,
    start: PathView,
    bound: Option<PathView>,
    named: Seq<char>,
)
    ensures
        ({
            let batch = BatchSearchView { file_names, refuse_non_regular, drives };
            let improper = |name: Seq<char>|
                {
                    ||| name.len() == 0
                    ||| exists|i: int|
                        0 <= i < name.len() && (#[trigger] name[i] == '/' || name[i] == '\\')
                    ||| name.len() == 1 && name[0] == '.'
                    ||| name.len() == 2 && name[0] == '.' && name[1] == '.'
                    ||| drives && name.len() >= 2 && name[1] == ':' && ('a' <= name[0] <= 'z' || 'A'
                        <= name[0] <= 'Z')
                };
            let script = batch.bounded_script(w, start, bound);
            &&& script.result == Err::<Seq<BatchResultView>, DiscoveryErrorView>(
                DiscoveryErrorView::NotAFileName(named),
            ) <==> exists|i: int|
                {
                    &&& 0 <= i < file_names.len()
                    &&& #[trigger] file_names[i] == named
                    &&& improper(named)
                    &&& forall|j: int| 0 <= j < i ==> !improper(#[trigger] file_names[j])
                }
            &&& script.asks.len() == 0 <==> file_names.len() == 0 || exists|i: int|
                0 <= i < file_names.len() && improper(#[trigger] file_names[i])
        }),
{
    let batch = BatchSearchView { file_names, refuse_non_regular, drives };
    let improper = |name: Seq<char>|
        {
            ||| name.len() == 0
            ||| exists|i: int|
                0 <= i < name.len() && (#[trigger] name[i] == '/' || name[i] == '\\')
            ||| name.len() == 1 && name[0] == '.'
            ||| name.len() == 2 && name[0] == '.' && name[1] == '.'
            ||| drives && name.len() >= 2 && name[1] == ':' && ('a' <= name[0] <= 'z' || 'A'
                <= name[0] <= 'Z')
        };
    assert forall|name: Seq<char>| #[trigger]
        crate::name::bare(name, drives) == !improper(name) by {
        crate::search_meaning::proper_names(name, drives);
    }
    crate::batch_laws::first_refused_name(file_names, drives, named);
    let script = batch.bounded_script(w, start, bound);
    match crate::batch::refused(file_names, drives) {
        Some(name) => {
            crate::batch_laws::first_refused_name(file_names, drives, name);
            let i = choose|i: int|
                {
                    &&& 0 <= i < file_names.len()
                    &&& #[trigger] file_names[i] == name
                    &&& !crate::name::bare(name, drives)
                    &&& forall|j: int|
                        0 <= j < i ==> crate::name::bare(#[trigger] file_names[j], drives)
                };
            assert(improper(file_names[i]));
            if named == name {
                assert forall|j: int| 0 <= j < i implies !improper(#[trigger] file_names[j]) by {
                    assert(crate::name::bare(file_names[j], drives));
                }
            } else if exists|i: int|
                {
                    &&& 0 <= i < file_names.len()
                    &&& #[trigger] file_names[i] == named
                    &&& improper(named)
                    &&& forall|j: int| 0 <= j < i ==> !improper(#[trigger] file_names[j])
                } {
                let k = choose|i: int|
                    {
                        &&& 0 <= i < file_names.len()
                        &&& #[trigger] file_names[i] == named
                        &&& improper(named)
                        &&& forall|j: int| 0 <= j < i ==> !improper(#[trigger] file_names[j])
                    };
                if i < k {
                    assert(!improper(file_names[i]));
                } else if k < i {
                    assert(crate::name::bare(file_names[k], drives));
                }
            }
        },
        None => {
            assert forall|i: int| 0 <= i < file_names.len() implies !improper(
                #[trigger] file_names[i],
            ) by {
                assert(crate::name::bare(file_names[i], drives));
            }
            let resolving = crate::resolve::resolve_script(w, start, bound);
            if let Ok((directory, limit)) = resolving.result {
                crate::batch_laws::batch_asks(batch, w, start, bound, directory, limit);
                if file_names.len() > 0 {
                    walks_fail_over_no_name(
                        w,
                        refuse_non_regular,
                        crate::batch::nothing_found(file_names),
                        directory.chain(crate::search::MAX_ANCESTORS as nat),
                        limit,
                    );
                }
            }
        },
    }
}

/// Names are checked before a walk begins.
proof fn walks_fail_over_no_name(
    w: World,
    refuse: bool,
    results: Seq<BatchResultView>,
    directories: Seq<PathView>,
    limit: Option<PathView>,
)
    ensures
        !(crate::batch::walk_script(w, refuse, results, directories, limit).result matches Err(
            DiscoveryErrorView::NotAFileName(_),
        )),
    decreases directories.len(),
{
    if directories.len() > 0 {
        let directory = directories[0];
        if let Ok(marker) = w.marker(directory) {
            rows_fail_over_no_name(w, refuse, directory, marker, results, 0);
            let row = crate::batch::row_script(w, refuse, directory, marker, results, 0);
            if let Ok(found) = row.result {
                walks_fail_over_no_name(w, refuse, found, directories.drop_first(), limit);
            }
        }
    }
}

proof fn rows_fail_over_no_name(
    w: World,
    refuse: bool,
    directory: PathView,
    marker: Option<GitMarker>,
    results: Seq<BatchResultView>,
    index: nat,
)
    ensures
        !(crate::batch::row_script(w, refuse, directory, marker, results, index).result matches Err(
            DiscoveryErrorView::NotAFileName(_),
        )),
    decreases results.len() - index,
{
    if index < results.len() {
        let at = index as int;
        if results[at].located is Some {
            rows_fail_over_no_name(w, refuse, directory, marker, results, index + 1);
        } else {
            let next = match crate::batch::single(refuse, results, at).verdict(w, directory) {
                Ok(true) => crate::batch::with_found(results, at, directory, marker),
                _ => results,
            };
            rows_fail_over_no_name(w, refuse, directory, marker, next, index + 1);
        }
    }
}

/// What stands in place of `name` in `directory`.
pub open spec fn stands(w: World, directory: PathView, name: Seq<char>) -> Result<
    EntryKind,
    ErrorKind,
> {
    (w.entry)(
        PathView { names: directory.names.push(vstd::utf8::encode_utf8(name)), ..directory },
    )
}

/// Why a candidate that `entry` says stands at `path` ends a batch: it is a
/// symbolic link, it is no regular file and the caller refuses those, or it cannot
/// be inspected.
pub open spec fn objection(
    path: PathView,
    entry: Result<EntryKind, ErrorKind>,
    refuse_non_regular: bool,
) -> Option<DiscoveryErrorView> {
    match entry {
        Ok(EntryKind::Symlink) => Some(DiscoveryErrorView::Symlink(path)),
        Ok(EntryKind::File) => None,
        Ok(_) => if refuse_non_regular {
            Some(DiscoveryErrorView::NotRegular(path))
        } else {
            None
        },
        Err(ErrorKind::NotFound) => None,
        Err(kind) => Some(DiscoveryErrorView::Unreadable { path, kind }),
    }
}

/// Whether the file called `name` stands in none of the first `depth` of
/// `directories`.
pub open spec fn sought(
    w: World,
    directories: Seq<PathView>,
    depth: int,
    name: Seq<char>,
) -> bool {
    forall|h: int|
        0 <= h < depth ==> stands(w, #[trigger] directories[h], name) != Ok::<EntryKind, ErrorKind>(
            EntryKind::File,
        )
}

/// The first objection fails a batch. A batch comes to the directory at `depth`
/// where none below holds a `.git` or is the limit, no name that is still sought
/// meets an objection there, and a name is sought to the end. If the `.git` of
/// that directory cannot be inspected, the batch fails over that; and otherwise it
/// fails over the first name that is still sought and meets an objection.
pub proof fn first_objection_fails_the_batch(
    file_names: Seq<Seq<char>>,
    refuse_non_regular: bool,
    drives: bool,
    w: World,
    start: PathView,
    bound: Option<PathView>,
    directories: Seq<PathView>,
    limit: Option<PathView>,
    depth: int,
    sought_to_the_end: int,
    index: int,
)
    requires
        forall|i: int|
            0 <= i < file_names.len() ==> crate::name::bare(#[trigger] file_names[i], drives),
        crate::search_meaning::climbs(w, start, bound, directories, limit),
        0 <= depth < directories.len(),
        forall|j: int|
            0 <= j < depth ==> {
                &&& stands(w, #[trigger] directories[j], ".git"@) == Err::<EntryKind, ErrorKind>(
                    ErrorKind::NotFound,
                )
                &&& limit != Some(directories[j])
            },
        forall|i: int, j: int|
            0 <= i < file_names.len() && 0 <= j < depth && sought(w, directories, j, file_names[i])
                ==> objection(
                directories[j],
                stands(w, #[trigger] directories[j], #[trigger] file_names[i]),
                refuse_non_regular,
            ) is None,
        0 <= sought_to_the_end < file_names.len(),
        sought(w, directories, depth, file_names[sought_to_the_end]),
        0 <= index < file_names.len(),
    ensures
        ({
            let batch = BatchSearchView { file_names, refuse_non_regular, drives };
            let result = batch.bounded_script(w, start, bound).result;
            let directory = directories[depth];
            let git = PathView {
                names: directory.names.push(vstd::utf8::encode_utf8(".git"@)),
                ..directory
            };
            let path = PathView {
                names: directory.names.push(vstd::utf8::encode_utf8(file_names[index])),
                ..directory
            };
            let first_to_object = {
                &&& sought(w, directories, depth, file_names[index])
                &&& objection(path, (w.entry)(path), refuse_non_regular) is Some
                &&& forall|i: int|
                    0 <= i < index && sought(w, directories, depth, #[trigger] file_names[i])
                        ==> objection(
                        directory,
                        stands(w, directory, file_names[i]),
                        refuse_non_regular,
                    ) is None
            };
            match (w.entry)(git) {
                Err(kind) if kind != ErrorKind::NotFound => result == Err::<
                    Seq<BatchResultView>,
                    DiscoveryErrorView,
                >(DiscoveryErrorView::Unreadable { path: git, kind }),
                _ => first_to_object ==> result == Err::<Seq<BatchResultView>, DiscoveryErrorView>(
                    objection(path, (w.entry)(path), refuse_non_regular)->0,
                ),
            }
        }),
{
    let batch = BatchSearchView { file_names, refuse_non_regular, drives };
    let results = crate::batch::nothing_found(file_names);
    crate::search_meaning::climb_is_a_walk(w, start, bound, directories, limit);
    crate::batch_laws::first_refused_name(file_names, drives, Seq::empty());
    assert forall|i: int, j: int|
        0 <= i < file_names.len() && 0 <= j < directories.len() implies crate::batch::single(
        refuse_non_regular,
        results,
        i,
    ).verdict(w, #[trigger] directories[j]) == verdict_of(
        w,
        directories[j],
        #[trigger] file_names[i],
        refuse_non_regular,
    ) by {}
    assert forall|j: int| 0 <= j < directories.len() implies w.marker(#[trigger] directories[j])
        == match stands(w, directories[j], ".git"@) {
        Ok(EntryKind::Directory) => Ok(Some(GitMarker::Directory)),
        Ok(_) => Ok(Some(GitMarker::File)),
        Err(ErrorKind::NotFound) => Ok(None),
        Err(kind) => Err(
            DiscoveryErrorView::Unreadable {
                path: PathView {
                    names: directories[j].names.push(vstd::utf8::encode_utf8(".git"@)),
                    ..directories[j]
                },
                kind,
            },
        ),
    } by {}
    let directory = directories[depth];
    let path = PathView {
        names: directory.names.push(vstd::utf8::encode_utf8(file_names[index])),
        ..directory
    };
    match w.marker(directory) {
        Err(error) => {
            walk_meets_objection(
                w,
                refuse_non_regular,
                results,
                directories,
                limit,
                depth,
                sought_to_the_end,
                index,
                error,
            );
        },
        Ok(marker) => {
            let first_to_object = {
                &&& sought(w, directories, depth, file_names[index])
                &&& objection(path, (w.entry)(path), refuse_non_regular) is Some
                &&& forall|i: int|
                    0 <= i < index && sought(w, directories, depth, #[trigger] file_names[i])
                        ==> objection(
                        directory,
                        stands(w, directory, file_names[i]),
                        refuse_non_regular,
                    ) is None
            };
            if first_to_object {
                walk_meets_objection(
                    w,
                    refuse_non_regular,
                    results,
                    directories,
                    limit,
                    depth,
                    sought_to_the_end,
                    index,
                    objection(path, (w.entry)(path), refuse_non_regular)->0,
                );
            }
        },
    }
}

/// What is made of what stands in place of `name` in `directory`.
spec fn verdict_of(
    w: World,
    directory: PathView,
    name: Seq<char>,
    refuse: bool,
) -> Result<bool, DiscoveryErrorView> {
    let path = PathView {
        names: directory.names.push(vstd::utf8::encode_utf8(name)),
        ..directory
    };
    match objection(path, (w.entry)(path), refuse) {
        Some(error) => Err(error),
        None => Ok((w.entry)(path) == Ok::<EntryKind, ErrorKind>(EntryKind::File)),
    }
}

/// The first candidate that ends a row fails it.
proof fn row_meets_objection(
    w: World,
    refuse: bool,
    directory: PathView,
    marker: Option<GitMarker>,
    results: Seq<BatchResultView>,
    from: nat,
    index: int,
    error: DiscoveryErrorView,
)
    requires
        from <= index < results.len(),
        results[index].located is None,
        crate::batch::single(refuse, results, index).verdict(w, directory) == Err::<
            bool,
            DiscoveryErrorView,
        >(error),
        forall|i: int|
            from <= i < index && (#[trigger] results[i]).located is None ==> crate::batch::single(
                refuse,
                results,
                i,
            ).verdict(w, directory) is Ok,
    ensures
        crate::batch::row_script(w, refuse, directory, marker, results, from).result == Err::<
            Seq<BatchResultView>,
            DiscoveryErrorView,
        >(error),
    decreases results.len() - from,
{
    if from < index {
        let at = from as int;
        let next = if results[at].located is None && crate::batch::single(
            refuse,
            results,
            at,
        ).verdict(w, directory) == Ok::<bool, DiscoveryErrorView>(true) {
            crate::batch::with_found(results, at, directory, marker)
        } else {
            results
        };
        assert(results[at].located is None ==> crate::batch::single(refuse, results, at).verdict(
            w,
            directory,
        ) is Ok);
        assert forall|i: int|
            from + 1 <= i < index && (#[trigger] next[i]).located is None
            implies crate::batch::single(refuse, next, i).verdict(w, directory) is Ok by {
            assert(next[i] == results[i]);
        }
        assert(next[index] == results[index]);
        row_meets_objection(w, refuse, directory, marker, next, from + 1, index, error);
    }
}

/// Whether the file at `index` is not found in the first `depth` directories.
spec fn unfound(
    w: World,
    results: Seq<BatchResultView>,
    directories: Seq<PathView>,
    depth: int,
    index: int,
) -> bool {
    &&& results[index].located is None
    &&& sought(w, directories, depth, results[index].file_name)
}

/// The same of a walk for which some files are found already.
proof fn walk_meets_objection(
    w: World,
    refuse: bool,
    results: Seq<BatchResultView>,
    directories: Seq<PathView>,
    limit: Option<PathView>,
    depth: int,
    missing: int,
    index: int,
    error: DiscoveryErrorView,
)
    requires
        0 <= depth < directories.len(),
        forall|i: int, j: int|
            0 <= i < results.len() && 0 <= j < directories.len() ==> crate::batch::single(
                refuse,
                results,
                i,
            ).verdict(w, #[trigger] directories[j]) == verdict_of(
                w,
                directories[j],
                (#[trigger] results[i]).file_name,
                refuse,
            ),
        forall|j: int|
            0 <= j < depth ==> w.marker(#[trigger] directories[j]) == Ok::<
                Option<GitMarker>,
                DiscoveryErrorView,
            >(None) && limit != Some(directories[j]),
        forall|i: int, j: int|
            0 <= i < results.len() && 0 <= j < depth && unfound(
                w,
                results,
                directories,
                j,
                i,
            ) ==> verdict_of(
                w,
                #[trigger] directories[j],
                (#[trigger] results[i]).file_name,
                refuse,
            ) is Ok,
        0 <= missing < results.len(),
        unfound(w, results, directories, depth, missing),
        w.marker(directories[depth]) == Err::<Option<GitMarker>, DiscoveryErrorView>(error) || {
            &&& w.marker(directories[depth]) is Ok
            &&& 0 <= index < results.len()
            &&& unfound(w, results, directories, depth, index)
            &&& verdict_of(w, directories[depth], results[index].file_name, refuse) == Err::<
                bool,
                DiscoveryErrorView,
            >(error)
            &&& forall|i: int|
                0 <= i < index && #[trigger] unfound(w, results, directories, depth, i)
                    ==> verdict_of(w, directories[depth], results[i].file_name, refuse) is Ok
        },
    ensures
        crate::batch::walk_script(w, refuse, results, directories, limit).result == Err::<
            Seq<BatchResultView>,
            DiscoveryErrorView,
        >(error),
    decreases directories.len(),
{
    let directory = directories[0];
    if depth == 0 {
        if let Ok(marker) = w.marker(directory) {
            assert forall|i: int|
                0 <= i < index && (#[trigger] results[i]).located is None
                implies crate::batch::single(refuse, results, i).verdict(w, directory) is Ok by {
                assert(unfound(w, results, directories, 0, i));
            }
            assert(results[index].file_name == results[index].file_name);
            row_meets_objection(w, refuse, directory, marker, results, 0, index, error);
        }
    } else {
        let rest = directories.drop_first();
        crate::batch_laws::row_by_entry(w, refuse, directory, None, results, 0);
        let row = crate::batch::row_script(w, refuse, directory, None, results, 0);
        assert forall|i: int|
            0 <= i < results.len() && (#[trigger] results[i]).located is None
            implies crate::batch::single(refuse, results, i).verdict(w, directory) is Ok by {
            assert(unfound(w, results, directories, 0, i));
            assert(verdict_of(w, directories[0], results[i].file_name, refuse) is Ok);
        }
        let found = row.result->Ok_0;
        assert forall|i: int| 0 <= i < results.len() implies (#[trigger] found[i]).file_name
            == results[i].file_name by {}
        assert forall|i: int, j: int|
            0 <= i < results.len() && 0 <= j < depth implies unfound(
            w,
            found,
            rest,
            j,
            i,
        ) == #[trigger] unfound(w, results, directories, j + 1, i) by {
            unfound_above(w, results, found, directories, j, i);
        }
        unfound_above(w, results, found, directories, depth - 1, missing);
        assert(unfound(w, found, rest, depth - 1, missing));
        assert(rest[depth - 1] == directories[depth]);
        assert forall|i: int, j: int|
            0 <= i < found.len() && 0 <= j < rest.len() implies crate::batch::single(
            refuse,
            found,
            i,
        ).verdict(w, #[trigger] rest[j]) == verdict_of(
            w,
            rest[j],
            (#[trigger] found[i]).file_name,
            refuse,
        ) by {
            assert(rest[j] == directories[j + 1]);
            assert(crate::batch::single(refuse, found, i) == crate::batch::single(
                refuse,
                results,
                i,
            ));
            let name = results[i].file_name;
        }
        assert forall|j: int| 0 <= j < depth - 1 implies w.marker(#[trigger] rest[j]) == Ok::<
            Option<GitMarker>,
            DiscoveryErrorView,
        >(None) && limit != Some(rest[j]) by {
            assert(rest[j] == directories[j + 1]);
        }
        assert forall|i: int, j: int|
            0 <= i < found.len() && 0 <= j < depth - 1 && unfound(w, found, rest, j, i)
            implies verdict_of(
            w,
            #[trigger] rest[j],
            (#[trigger] found[i]).file_name,
            refuse,
        ) is Ok by {
            assert(rest[j] == directories[j + 1]);
            unfound_above(w, results, found, directories, j, i);
            let name = results[i].file_name;
        }
        if w.marker(directories[depth]) is Ok {
            unfound_above(w, results, found, directories, depth - 1, index);
            assert forall|i: int|
                0 <= i < index && #[trigger] unfound(w, found, rest, depth - 1, i)
                implies verdict_of(
                w,
                rest[depth - 1],
                found[i].file_name,
                refuse,
            ) is Ok by {
                unfound_above(w, results, found, directories, depth - 1, i);
                assert(unfound(w, results, directories, depth, i));
            }
        }
        assert(!crate::batch::complete(found)) by {
            assert(found[missing].located is None);
        }
        walk_meets_objection(
            w,
            refuse,
            found,
            rest,
            limit,
            depth - 1,
            missing,
            index,
            error,
        );
    }
}

/// What is found in the first directory is what is not sought above it any more.
proof fn unfound_above(
    w: World,
    results: Seq<BatchResultView>,
    found: Seq<BatchResultView>,
    directories: Seq<PathView>,
    depth: int,
    index: int,
)
    requires
        0 <= depth < directories.len(),
        0 <= index < results.len(),
        found.len() == results.len(),
        found[index].file_name == results[index].file_name,
        found[index].located is None <==> results[index].located is None && stands(
            w,
            directories[0],
            results[index].file_name,
        ) != Ok::<EntryKind, ErrorKind>(EntryKind::File),
    ensures
        unfound(w, found, directories.drop_first(), depth, index) == unfound(
            w,
            results,
            directories,
            depth + 1,
            index,
        ),
{
    let rest = directories.drop_first();
    let name = results[index].file_name;
    if sought(w, directories, depth + 1, name) {
        assert(stands(w, directories[0], name) != Ok::<EntryKind, ErrorKind>(EntryKind::File));
        assert forall|h: int| 0 <= h < depth implies stands(w, #[trigger] rest[h], name) != Ok::<
            EntryKind,
            ErrorKind,
        >(EntryKind::File) by {
            assert(rest[h] == directories[h + 1]);
        }
    }
    if sought(w, rest, depth, name) && stands(w, directories[0], name) != Ok::<
        EntryKind,
        ErrorKind,
    >(EntryKind::File) {
        assert forall|h: int| 0 <= h < depth + 1 implies stands(
            w,
            #[trigger] directories[h],
            name,
        ) != Ok::<EntryKind, ErrorKind>(EntryKind::File) by {
            if h > 0 {
                assert(directories[h] == rest[h - 1]);
            }
        }
    }
}

/// What a batch asks: to resolve the start, whether that is a file, and to resolve
/// the bound; and then for nothing but the `.git` and the candidates of the names
/// in the directories on its way up.
pub proof fn batches_ask_nothing_else(
    file_names: Seq<Seq<char>>,
    refuse_non_regular: bool,
    drives: bool,
    w: World,
    start: PathView,
    bound: Option<PathView>,
    directories: Seq<PathView>,
    limit: Option<PathView>,
    k: int,
)
    requires
        crate::search_meaning::climbs(w, start, bound, directories, limit),
        0 <= k < (BatchSearchView { file_names, refuse_non_regular, drives }).bounded_script(
            w,
            start,
            bound,
        ).asks.len(),
    ensures
        ({
            let batch = BatchSearchView { file_names, refuse_non_regular, drives };
            let request = batch.bounded_script(w, start, bound).asks[k];
            let first: int = if bound is Some {
                3
            } else {
                2
            };
            if k == 0 {
                request == RequestView::Canonicalize(start)
            } else if k == 1 {
                request == RequestView::IsFile((w.canonical)(start)->Ok_0)
            } else if k < first {
                request == RequestView::Canonicalize(bound->0)
            } else if k == first {
                request == RequestView::Inspect(
                    PathView {
                        names: directories[0].names.push(vstd::utf8::encode_utf8(".git"@)),
                        ..directories[0]
                    },
                )
            } else {
                request matches RequestView::Inspect(path) && exists|j: int|
                    {
                        &&& 0 <= j < directories.len()
                        &&& path.root == (#[trigger] directories[j]).root
                        &&& path.separator == directories[j].separator
                        &&& path.names.len() == directories[j].names.len() + 1
                        &&& path.names.drop_last() == directories[j].names
                        &&& path.names.last() == vstd::utf8::encode_utf8(".git"@) || exists|i: int|
                            0 <= i < file_names.len() && path.names.last()
                                == vstd::utf8::encode_utf8(#[trigger] file_names[i])
                    }
            }
        }),
{
    let batch = BatchSearchView { file_names, refuse_non_regular, drives };
    let results = crate::batch::nothing_found(file_names);
    crate::search_meaning::climb_is_a_walk(w, start, bound, directories, limit);
    crate::batch_laws::batch_asks(batch, w, start, bound, directories[0], limit);
    crate::batch_laws::walk_asks_once(w, refuse_non_regular, results, directories, limit);
    let asks = batch.bounded_script(w, start, bound).asks;
    let resolving = crate::resolve::resolve_script(w, start, bound).asks;
    let walking = crate::batch::walk_script(
        w,
        refuse_non_regular,
        results,
        directories,
        limit,
    ).asks;
    assert(asks == resolving + walking);
    let first: int = if bound is Some {
        3
    } else {
        2
    };
    assert(resolving.len() == first);
    if k < first {
        assert(asks[k] == resolving[k]);
    } else {
        assert(asks[k] == walking[k - first]);
        if k > first {
            let path = asks[k]->Inspect_0;
            let j = choose|j: int|
                0 <= j < directories.len() && crate::batch_laws::inspected_in(
                    results,
                    #[trigger] directories[j],
                    path,
                );
            assert(path.names.drop_last() =~= directories[j].names);
            if path != directories[j].join(crate::dialogue::git()) {
                let i = choose|i: int|
                    0 <= i < results.len() && path == directories[j].join(
                        vstd::utf8::encode_utf8((#[trigger] results[i]).file_name),
                    );
                assert(path.names.last() == vstd::utf8::encode_utf8(file_names[i]));
            }
        }
    }
}

} // verus!
