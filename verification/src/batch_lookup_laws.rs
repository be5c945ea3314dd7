//! What a batch looks up for each of its names.

use vstd::prelude::*;

use crate::batch::{BatchResultView, BatchSearchView};
use crate::dialogue::{RequestView, World};
use crate::path::PathView;
use crate::report::{DiscoveryErrorView, GitMarker, LocatedView};
use crate::search::{SearchView, MAX_ANCESTORS};

verus! {

/// How often `request` is among `asks`.
pub open spec fn times_asked(asks: Seq<RequestView>, request: RequestView) -> nat {
    asks.to_multiset().count(request)
}

/// How often `name` is among `names`.
pub open spec fn times_named(names: Seq<Seq<char>>, name: Seq<char>) -> nat {
    names.to_multiset().count(name)
}

/// The names that are looked for.
spec fn names_of(results: Seq<BatchResultView>) -> Seq<Seq<char>> {
    results.map_values(|result: BatchResultView| result.file_name)
}

/// One more request at the front counts for itself.
proof fn asked_once_more(first: RequestView, rest: Seq<RequestView>, request: RequestView)
    ensures
        times_asked(seq![first] + rest, request) == times_asked(rest, request) + if first
            == request {
            1nat
        } else {
            0nat
        },
{
    broadcast use vstd::multiset::group_multiset_axioms;

    vstd::seq_lib::lemma_multiset_commutative(seq![first], rest);
    assert(seq![first] =~= Seq::empty().push(first));
    vstd::seq_lib::to_multiset_build(Seq::empty(), first);
    vstd::seq_lib::to_multiset_contains(Seq::<RequestView>::empty(), request);
}

/// What is asked in two parts counts in both.
proof fn asked_in_two_parts(
    first: Seq<RequestView>,
    second: Seq<RequestView>,
    request: RequestView,
)
    ensures
        times_asked(first + second, request) == times_asked(first, request) + times_asked(
            second,
            request,
        ),
{
    broadcast use vstd::multiset::group_multiset_axioms;

    vstd::seq_lib::lemma_multiset_commutative(first, second);
}

/// What is nowhere among the requests is asked no time.
proof fn never_asked(asks: Seq<RequestView>, request: RequestView)
    requires
        forall|k: int| 0 <= k < asks.len() ==> #[trigger] asks[k] != request,
    ensures
        times_asked(asks, request) == 0,
{
    vstd::seq_lib::to_multiset_contains(asks, request);
}

/// The first of some names counts for itself.
proof fn named_once_more(names: Seq<Seq<char>>, name: Seq<char>)
    requires
        names.len() > 0,
    ensures
        times_named(names, name) == times_named(names.drop_first(), name) + if names[0] == name {
            1nat
        } else {
            0nat
        },
{
    broadcast use vstd::multiset::group_multiset_axioms;

    let first = seq![names[0]];
    vstd::seq_lib::lemma_multiset_commutative(first, names.drop_first());
    assert(names =~= first + names.drop_first());
    assert(first =~= Seq::empty().push(names[0]));
    vstd::seq_lib::to_multiset_build(Seq::empty(), names[0]);
    vstd::seq_lib::to_multiset_contains(Seq::<Seq<char>>::empty(), name);
}

/// Two entries are the same only in the same directory and under the same name.
proof fn same_entry(one: PathView, two: PathView, name: Seq<u8>, other: Seq<u8>)
    ensures
        one.join(name) == two.join(other) <==> one == two && name == other,
{
    if one.join(name) == two.join(other) {
        assert(one.join(name).names.drop_last() =~= one.names);
        assert(two.join(other).names.drop_last() =~= two.names);
        assert(one.join(name).names.last() == name);
        assert(two.join(other).names.last() == other);
        assert(one =~= two);
    }
}

/// In one directory each name is looked up no more often than it is asked for.
proof fn row_looks_once(
    w: World,
    refuse: bool,
    directory: PathView,
    marker: Option<GitMarker>,
    results: Seq<BatchResultView>,
    index: nat,
    name: Seq<char>,
)
    requires
        index <= results.len(),
    ensures
        times_asked(
            crate::batch::row_script(w, refuse, directory, marker, results, index).asks,
            RequestView::Inspect(directory.join(vstd::utf8::encode_utf8(name))),
        ) <= times_named(names_of(results).skip(index as int), name),
    decreases results.len() - index,
{
    let request = RequestView::Inspect(directory.join(vstd::utf8::encode_utf8(name)));
    let names = names_of(results).skip(index as int);
    let asks = crate::batch::row_script(w, refuse, directory, marker, results, index).asks;
    if index < results.len() {
        let at = index as int;
        named_once_more(names, name);
        assert(names.drop_first() =~= names_of(results).skip(at + 1));
        if results[at].located is Some {
            row_looks_once(w, refuse, directory, marker, results, index + 1, name);
        } else {
            let search = crate::batch::single(refuse, results, at);
            let first = RequestView::Inspect(search.candidate(directory));
            same_entry(
                directory,
                directory,
                vstd::utf8::encode_utf8(search.file_name),
                vstd::utf8::encode_utf8(name),
            );
            if first == request {
                crate::name::same_encoding(search.file_name, name);
            }
            match search.verdict(w, directory) {
                Ok(hit) => {
                    let next = if hit {
                        crate::batch::with_found(results, at, directory, marker)
                    } else {
                        results
                    };
                    assert(names_of(next) =~= names_of(results));
                    row_looks_once(w, refuse, directory, marker, next, index + 1, name);
                    let rest = crate::batch::row_script(
                        w,
                        refuse,
                        directory,
                        marker,
                        next,
                        index + 1,
                    ).asks;
                    asked_once_more(first, rest, request);
                },
                Err(_) => {
                    asked_once_more(first, Seq::empty(), request);
                    never_asked(Seq::empty(), request);
                },
            }
        }
    } else {
        never_asked(asks, request);
    }
}

/// On a walk over directories each of which lies above the last, each name is
/// looked up in each of them no more often than it is asked for; the marker of a
/// repository root counts once more.
proof fn walk_looks_once(
    w: World,
    refuse: bool,
    results: Seq<BatchResultView>,
    directories: Seq<PathView>,
    bound: Option<PathView>,
    directory: PathView,
    name: Seq<char>,
)
    requires
        forall|i: int, j: int|
            0 <= i < j < directories.len() ==> (#[trigger] directories[i]).names.len() > (
            #[trigger] directories[j]).names.len(),
    ensures
        times_asked(
            crate::batch::walk_script(w, refuse, results, directories, bound).asks,
            RequestView::Inspect(directory.join(vstd::utf8::encode_utf8(name))),
        ) <= times_named(names_of(results), name) + if name == ".git"@ {
            1nat
        } else {
            0nat
        },
    decreases directories.len(),
{
    let encoded = vstd::utf8::encode_utf8(name);
    let request = RequestView::Inspect(directory.join(encoded));
    let asks = crate::batch::walk_script(w, refuse, results, directories, bound).asks;
    if directories.len() == 0 {
        never_asked(asks, request);
    } else {
        let at = directories[0];
        let rest = directories.drop_first();
        let first = RequestView::Inspect(at.join(crate::dialogue::git()));
        same_entry(at, directory, crate::dialogue::git(), encoded);
        if first == request {
            crate::name::same_encoding(".git"@, name);
        }
        match w.marker(at) {
            Err(_) => {
                asked_once_more(first, Seq::empty(), request);
                never_asked(Seq::empty(), request);
            },
            Ok(marker) => {
                let row = crate::batch::row_script(w, refuse, at, marker, results, 0);
                crate::batch_laws::row_by_entry(w, refuse, at, marker, results, 0);
                if at == directory {
                    row_looks_once(w, refuse, at, marker, results, 0, name);
                    assert(names_of(results).skip(0) =~= names_of(results));
                } else {
                    crate::batch_laws::row_asks(w, refuse, at, marker, results, 0);
                    assert forall|k: int| 0 <= k < row.asks.len() implies #[trigger] row.asks[k]
                        != request by {
                        let i = choose|i: int|
                            #![trigger results[i]]
                            0 <= i < results.len() && results[i].located is None && row.asks[k]
                                == RequestView::Inspect(
                                crate::batch::single(refuse, results, i).candidate(at),
                            );
                        same_entry(
                            at,
                            directory,
                            vstd::utf8::encode_utf8(results[i].file_name),
                            encoded,
                        );
                    }
                    never_asked(row.asks, request);
                }
                let onward = crate::batch::onward_script(w, refuse, at, marker, row, rest, bound);
                asked_once_more(first, onward.asks, request);
                if let Ok(found) = row.result {
                    if !(crate::batch::complete(found) || marker is Some || bound == Some(at)) {
                        assert forall|i: int, j: int| 0 <= i < j < rest.len() implies (
                        #[trigger] rest[i]).names.len() > (#[trigger] rest[j]).names.len() by {
                            assert(directories[i + 1].names.len() > directories[j + 1].names.len());
                        }
                        let above = crate::batch::walk_script(w, refuse, found, rest, bound).asks;
                        asked_in_two_parts(row.asks, above, request);
                        if at == directory {
                            crate::batch_laws::walk_asks_once(w, refuse, found, rest, bound);
                            assert forall|k: int| 0 <= k < above.len() implies #[trigger] above[k]
                                != request by {
                                let j = choose|j: int|
                                    0 <= j < rest.len() && crate::batch_laws::inspected_in(
                                        found,
                                        #[trigger] rest[j],
                                        above[k]->Inspect_0,
                                    );
                                assert(rest[j] == directories[j + 1]);
                                assert(at.names.len() > rest[j].names.len());
                                let path = above[k]->Inspect_0;
                                assert(path.names.len() == rest[j].names.len() + 1);
                            }
                            never_asked(above, request);
                        } else {
                            assert(names_of(found) =~= names_of(results));
                            walk_looks_once(w, refuse, found, rest, bound, directory, name);
                        }
                    }
                }
            },
        }
    }
}

/// In each directory a batch looks for each of its names once. However often a
/// name is asked for, its candidate in a directory is inspected no more often than
/// that; `.git` is inspected once more, as the marker of a repository root.
pub proof fn each_entry_is_looked_up_once(
    batch: BatchSearchView,
    w: World,
    start: PathView,
    bound: Option<PathView>,
    directory: PathView,
    name: Seq<char>,
)
    ensures
        times_asked(
            batch.bounded_script(w, start, bound).asks,
            RequestView::Inspect(directory.join(vstd::utf8::encode_utf8(name))),
        ) <= times_named(batch.file_names, name) + if name == ".git"@ {
            1nat
        } else {
            0nat
        },
{
    let request = RequestView::Inspect(directory.join(vstd::utf8::encode_utf8(name)));
    let asks = batch.bounded_script(w, start, bound).asks;
    let resolving = crate::resolve::resolve_script(w, start, bound);
    if asks.len() == 0 {
        never_asked(asks, request);
    } else if let Ok((beginning, limit)) = resolving.result {
        let results = crate::batch::nothing_found(batch.file_names);
        let directories = beginning.chain(MAX_ANCESTORS as nat);
        crate::batch_laws::batch_asks(batch, w, start, bound, beginning, limit);
        let walking = crate::batch::walk_script(
            w,
            batch.refuse_non_regular,
            results,
            directories,
            limit,
        ).asks;
        asked_in_two_parts(resolving.asks, walking, request);
        never_asked(resolving.asks, request);
        walk_looks_once(w, batch.refuse_non_regular, results, directories, limit, directory, name);
        assert(names_of(results) =~= batch.file_names);
    } else {
        assert(asks =~= resolving.asks);
        never_asked(asks, request);
    }
}

/// Whether `request` looks up an entry called `name` in a directory above one that
/// is `depth` names deep.
pub open spec fn looks_above(request: RequestView, name: Seq<char>, depth: nat) -> bool {
    &&& request matches RequestView::Inspect(path)
    &&& 0 < path.names.len() <= depth
    &&& path.names.last() == vstd::utf8::encode_utf8(name)
}

/// A walk for which `name` is settled does not look it up any more.
proof fn settled_names_rest(
    w: World,
    refuse: bool,
    results: Seq<BatchResultView>,
    directories: Seq<PathView>,
    bound: Option<PathView>,
    name: Seq<char>,
    depth: nat,
    k: int,
)
    requires
        name != ".git"@,
        forall|i: int|
            0 <= i < results.len() && (#[trigger] results[i]).file_name == name
                ==> results[i].located is Some,
        0 <= k < crate::batch::walk_script(w, refuse, results, directories, bound).asks.len(),
    ensures
        !looks_above(
            crate::batch::walk_script(w, refuse, results, directories, bound).asks[k],
            name,
            depth,
        ),
    decreases directories.len(),
{
    let directory = directories[0];
    let rest = directories.drop_first();
    if k == 0 {
        if crate::dialogue::git() == vstd::utf8::encode_utf8(name) {
            crate::name::same_encoding(".git"@, name);
        }
    } else {
        let marker = w.marker(directory)->Ok_0;
        let row = crate::batch::row_script(w, refuse, directory, marker, results, 0);
        crate::batch_laws::row_by_entry(w, refuse, directory, marker, results, 0);
        if k <= row.asks.len() {
            crate::batch_laws::row_asks(w, refuse, directory, marker, results, 0);
            let asked = row.asks[k - 1];
            let i = choose|i: int|
                #![trigger results[i]]
                0 <= i < results.len() && results[i].located is None && asked
                    == RequestView::Inspect(
                    crate::batch::single(refuse, results, i).candidate(directory),
                );
            if vstd::utf8::encode_utf8(results[i].file_name) == vstd::utf8::encode_utf8(name) {
                crate::name::same_encoding(results[i].file_name, name);
            }
        } else {
            let found = row.result->Ok_0;
            assert forall|i: int|
                0 <= i < found.len() && (#[trigger] found[i]).file_name == name
                implies found[i].located is Some by {
                assert(results[i].file_name == name);
            }
            settled_names_rest(
                w,
                refuse,
                found,
                rest,
                bound,
                name,
                depth,
                k - 1 - row.asks.len(),
            );
        }
    }
}

/// A walk does not look up a name above the directory in which a walk for that
/// name alone locates it.
proof fn located_names_rest(
    w: World,
    refuse: bool,
    results: Seq<BatchResultView>,
    directories: Seq<PathView>,
    bound: Option<PathView>,
    index: int,
    located: LocatedView,
    k: int,
)
    requires
        0 <= index < results.len(),
        forall|i: int, j: int|
            0 <= i < j < directories.len() ==> (#[trigger] directories[i]).names.len() > (
            #[trigger] directories[j]).names.len(),
        forall|i: int|
            0 <= i < results.len() && (#[trigger] results[i]).file_name == results[index].file_name
                ==> results[i].located is None,
        crate::batch::single(refuse, results, index).walk_script(w, directories, bound).result
            == Ok::<Option<LocatedView>, DiscoveryErrorView>(Some(located)),
        0 <= k < crate::batch::walk_script(w, refuse, results, directories, bound).asks.len(),
    ensures
        !looks_above(
            crate::batch::walk_script(w, refuse, results, directories, bound).asks[k],
            results[index].file_name,
            located.directory.names.len(),
        ),
    decreases directories.len(),
{
    let name = results[index].file_name;
    let depth = located.directory.names.len();
    let directory = directories[0];
    let rest = directories.drop_first();
    let search = crate::batch::single(refuse, results, index);
    let end = crate::laws::walk_ends(search, w, directories, bound);
    assert(end < directories.len() && located.directory == directories[end]);
    assert(directory.names.len() >= depth) by {
        if end > 0 {
            assert(directories[0].names.len() > directories[end].names.len());
        }
    }
    assert(results[index].located is None);
    if k > 0 {
        let marker = w.marker(directory)->Ok_0;
        let row = crate::batch::row_script(w, refuse, directory, marker, results, 0);
        crate::batch_laws::row_by_entry(w, refuse, directory, marker, results, 0);
        if k <= row.asks.len() {
            crate::batch_laws::row_asks(w, refuse, directory, marker, results, 0);
            let asked = row.asks[k - 1];
            assert(asked is Inspect && asked->Inspect_0.names.len() == directory.names.len() + 1);
        } else {
            let found = row.result->Ok_0;
            assert forall|i: int|
                0 <= i < found.len() && (#[trigger] found[i]).file_name == name
                implies found[i].located is Some == found[index].located is Some by {
                assert(results[i].file_name == name);
                assert(results[i].located is None);
                assert(found[index].located is Some || found[index] == results[index]);
                assert(crate::batch::single(refuse, results, i) == search);
            }
            let above = k - 1 - row.asks.len();
            if found[index].located is Some {
                // A file called `.git` would be a marker, and the walk would end.
                assert(name != ".git"@);
                settled_names_rest(w, refuse, found, rest, bound, name, depth, above);
            } else {
                assert forall|i: int, j: int| 0 <= i < j < rest.len() implies (
                #[trigger] rest[i]).names.len() > (#[trigger] rest[j]).names.len() by {
                    assert(directories[i + 1].names.len() > directories[j + 1].names.len());
                }
                assert(found[index] == results[index]);
                located_names_rest(w, refuse, found, rest, bound, index, located, above);
            }
        }
    }
}

/// Above its match a name is not looked up any more, even where other names keep
/// the walk going.
pub proof fn nothing_is_looked_up_above_its_match(
    batch: BatchSearchView,
    w: World,
    start: PathView,
    bound: Option<PathView>,
    index: int,
    located: LocatedView,
    k: int,
)
    requires
        0 <= index < batch.file_names.len(),
        batch.single(index).bounded_script(w, start, bound).result == Ok::<
            Option<LocatedView>,
            DiscoveryErrorView,
        >(Some(located)),
        0 <= k < batch.bounded_script(w, start, bound).asks.len(),
    ensures
        !looks_above(
            batch.bounded_script(w, start, bound).asks[k],
            batch.file_names[index],
            located.directory.names.len(),
        ),
{
    let asks = batch.bounded_script(w, start, bound).asks;
    let resolving = crate::resolve::resolve_script(w, start, bound);
    let (directory, limit) = resolving.result->Ok_0;
    let directories = directory.chain(MAX_ANCESTORS as nat);
    crate::batch_laws::batch_asks(batch, w, start, bound, directory, limit);
    crate::batch_laws::walk_without_drives(batch.single(index), false, w, directories, limit);
    if k < resolving.asks.len() {
        assert(asks[k] == resolving.asks[k]);
    } else {
        located_names_rest(
            w,
            batch.refuse_non_regular,
            crate::batch::nothing_found(batch.file_names),
            directories,
            limit,
            index,
            located,
            k - resolving.asks.len(),
        );
    }
}

/// Whether the walk for the file at `index` alone, which is not found yet, locates
/// it in a directory at least `depth` names deep.
spec fn located_within(
    w: World,
    refuse: bool,
    results: Seq<BatchResultView>,
    directories: Seq<PathView>,
    bound: Option<PathView>,
    depth: nat,
    index: int,
) -> bool {
    crate::batch::single(refuse, results, index).walk_script(
        w,
        directories,
        bound,
    ).result matches Ok(Some(located)) && located.directory.names.len() >= depth
}

/// A walk inspects nothing above the last directory in which a name is located.
proof fn finished_walks_rest(
    w: World,
    refuse: bool,
    results: Seq<BatchResultView>,
    directories: Seq<PathView>,
    bound: Option<PathView>,
    depth: nat,
    k: int,
)
    requires
        !crate::batch::complete(results),
        forall|i: int, j: int|
            0 <= i < j < directories.len() ==> (#[trigger] directories[i]).names.len() > (
            #[trigger] directories[j]).names.len(),
        forall|i: int|
            0 <= i < results.len() && (#[trigger] results[i]).located is None ==> located_within(
                w,
                refuse,
                results,
                directories,
                bound,
                depth,
                i,
            ),
        0 <= k < crate::batch::walk_script(w, refuse, results, directories, bound).asks.len(),
    ensures
        crate::batch::walk_script(
            w,
            refuse,
            results,
            directories,
            bound,
        ).asks[k] matches RequestView::Inspect(path) && path.names.len() > depth,
    decreases directories.len(),
{
    let directory = directories[0];
    let rest = directories.drop_first();
    let missing = choose|i: int|
        0 <= i < results.len() && !((#[trigger] results[i]).located is Some);
    assert(results[missing].located is None);
    assert(directory.names.len() >= depth) by {
        let search = crate::batch::single(refuse, results, missing);
        let end = crate::laws::walk_ends(search, w, directories, bound);
        if end > 0 {
            assert(directories[0].names.len() > directories[end].names.len());
        }
    }
    if k > 0 {
        let marker = w.marker(directory)->Ok_0;
        let row = crate::batch::row_script(w, refuse, directory, marker, results, 0);
        crate::batch_laws::row_by_entry(w, refuse, directory, marker, results, 0);
        if k <= row.asks.len() {
            crate::batch_laws::row_asks(w, refuse, directory, marker, results, 0);
            let asked = row.asks[k - 1];
            assert(asked is Inspect && asked->Inspect_0.names.len() == directory.names.len() + 1);
        } else {
            let found = row.result->Ok_0;
            assert forall|i: int|
                0 <= i < found.len() && (#[trigger] found[i]).located is None
                implies located_within(w, refuse, found, rest, bound, depth, i) by {
                assert(results[i].located is None);
                assert(found[i] == results[i]);
                assert(located_within(w, refuse, results, directories, bound, depth, i));
            }
            assert forall|i: int, j: int| 0 <= i < j < rest.len() implies (
            #[trigger] rest[i]).names.len() > (#[trigger] rest[j]).names.len() by {
                assert(directories[i + 1].names.len() > directories[j + 1].names.len());
            }
            finished_walks_rest(
                w,
                refuse,
                found,
                rest,
                bound,
                depth,
                k - 1 - row.asks.len(),
            );
        }
    }
}

/// Once every name is located, nothing more is inspected: where each search alone
/// locates its file in a directory at least `depth` names deep, the batch inspects
/// nothing outside directories that deep, not even for a `.git`.
pub proof fn finished_batches_inspect_no_more(
    batch: BatchSearchView,
    w: World,
    start: PathView,
    bound: Option<PathView>,
    depth: nat,
    k: int,
)
    requires
        forall|i: int|
            0 <= i < batch.file_names.len() ==> ((SearchView {
                file_name: #[trigger] batch.file_names[i],
                refuse_non_regular: batch.refuse_non_regular,
                drives: batch.drives,
            }).bounded_script(w, start, bound).result matches Ok(Some(located))
                && located.directory.names.len() >= depth),
        0 <= k < batch.bounded_script(w, start, bound).asks.len(),
    ensures
        batch.bounded_script(w, start, bound).asks[k] matches RequestView::Inspect(path)
            ==> path.names.len() > depth,
{
    let asks = batch.bounded_script(w, start, bound).asks;
    let resolving = crate::resolve::resolve_script(w, start, bound);
    if k < resolving.asks.len() {
        assert(asks[k] == resolving.asks[k]);
    } else {
        let (directory, limit) = resolving.result->Ok_0;
        let directories = directory.chain(MAX_ANCESTORS as nat);
        let results = crate::batch::nothing_found(batch.file_names);
        crate::batch_laws::batch_asks(batch, w, start, bound, directory, limit);
        assert forall|i: int|
            0 <= i < results.len() && (#[trigger] results[i]).located is None
            implies located_within(
            w,
            batch.refuse_non_regular,
            results,
            directories,
            limit,
            depth,
            i,
        ) by {
            let search = SearchView {
                file_name: batch.file_names[i],
                refuse_non_regular: batch.refuse_non_regular,
                drives: batch.drives,
            };
            crate::batch_laws::walk_without_drives(search, false, w, directories, limit);
        }
        assert(results[0].located is None);
        finished_walks_rest(
            w,
            batch.refuse_non_regular,
            results,
            directories,
            limit,
            depth,
            k - resolving.asks.len(),
        );
    }
}

} // verus!
