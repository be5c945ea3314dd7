//! What whole runs of a batch come to: from the first call to the last answer.

use vstd::prelude::*;

use crate::batch::{
    BatchInquiry, BatchResult, BatchResultView, BatchSearch, BatchSearchView, BatchStep,
};
use crate::dialogue::{Answer, Request, World};
use crate::path::{PathParts, PathView};
use crate::report::{DiscoveryError, DiscoveryErrorView};
use crate::search::SearchView;

verus! {

/// Whether `steps` are a run of a batch: each asks `requests`, gets a true answer
/// to it, and goes on with that; and the last is done.
pub open spec fn batch_runs(
    w: World,
    steps: Seq<BatchStep>,
    requests: Seq<Request>,
    answers: Seq<Answer>,
) -> bool {
    &&& steps.len() == requests.len() + 1
    &&& steps.len() == answers.len() + 1
    &&& forall|k: int|
        0 <= k < requests.len() ==> {
            &&& (#[trigger] steps[k]) is Ask
            &&& call_ensures(BatchInquiry::request, (&steps[k]->Ask_0,), requests[k])
            &&& crate::run_laws::true_answer(w, requests[k], answers[k])
            &&& call_ensures(BatchInquiry::resume, (steps[k]->Ask_0, answers[k]), steps[k + 1])
        }
    &&& steps.last() is Done
}

/// The characters of each name of a slice.
pub open spec fn characters(file_names: Seq<&str>) -> Seq<Seq<char>> {
    Seq::new(file_names.len(), |i: int| file_names[i]@)
}

/// Whether `outcome` is what the caller of a batch is owed. Where the search for
/// each name alone succeeds, it is one result for each name, in the order of
/// `names`, under that name and with what that search gives. Otherwise it is an
/// error, the one that the batch fails with.
pub open spec fn owed(
    names: Seq<Seq<char>>,
    refuse_non_regular: bool,
    drives: bool,
    w: World,
    start: PathView,
    bound: Option<PathView>,
    outcome: Result<Vec<BatchResult>, DiscoveryError>,
) -> bool {
    &&& outcome is Ok <==> forall|i: int|
        0 <= i < names.len() ==> (SearchView {
            file_name: #[trigger] names[i],
            refuse_non_regular,
            drives,
        }).bounded_script(w, start, bound).result is Ok
    &&& outcome matches Ok(results) ==> {
        &&& results@.len() == names.len()
        &&& forall|i: int|
            0 <= i < names.len() ==> {
                let alone = SearchView {
                    file_name: #[trigger] names[i],
                    refuse_non_regular,
                    drives,
                };
                &&& results@[i].file_name@ == names[i]
                &&& crate::run_laws::whole(
                    results@[i].located,
                    alone.bounded_script(w, start, bound).result->Ok_0,
                )
            }
    }
    &&& outcome matches Err(error) ==> {
        let batch = BatchSearchView { file_names: names, refuse_non_regular, drives };
        batch.bounded_script(w, start, bound).result matches Err(expected)
            && crate::run_laws::complained(error, expected)
    }
}

/// Whether `outcome` is what `view` stands for.
pub open spec fn gave(
    outcome: Result<Vec<BatchResult>, DiscoveryError>,
    view: Result<Seq<BatchResultView>, DiscoveryErrorView>,
) -> bool {
    match (outcome, view) {
        (Ok(results), Ok(expected)) => {
            &&& results@.len() == expected.len()
            &&& forall|i: int|
                0 <= i < expected.len() ==> {
                    &&& (#[trigger] results@[i]).file_name@ == expected[i].file_name
                    &&& crate::run_laws::whole(results@[i].located, expected[i].located)
                }
        },
        (Err(error), Err(expected)) => crate::run_laws::complained(error, expected),
        _ => false,
    }
}

/// A run concludes what its first step promised, and asks that in its order.
proof fn batch_keeps_its_promise(
    w: World,
    steps: Seq<BatchStep>,
    requests: Seq<Request>,
    answers: Seq<Answer>,
)
    requires
        batch_runs(w, steps, requests, answers),
        steps[0].begins(w),
    ensures
        gave(steps.last()->Done_0, steps[0].script(w).result),
        requests.len() == steps[0].script(w).asks.len(),
        forall|k: int|
            0 <= k < requests.len() ==> crate::run_laws::requested(
                #[trigger] requests[k],
                steps[0].script(w).asks[k],
            ),
{
    assert forall|k: int| 0 <= k < steps.len() - 1 implies crate::batch_laws::follows(
        w,
        #[trigger] steps[k],
        steps[k + 1],
    ) by {
        let inquiry = steps[k]->Ask_0;
        crate::run_laws::truth_is_answered(w, requests[k], answers[k]);
        assert(requests[k]@ == inquiry.pending());
        assert(inquiry.script(w) == steps[k + 1].script(w).asking(inquiry.pending()));
    }
    crate::batch_laws::batches_end(w, steps);
    assert forall|k: int| 0 <= k < requests.len() implies crate::run_laws::requested(
        #[trigger] requests[k],
        steps[0].script(w).asks[k],
    ) by {
        crate::run_laws::requests_are_whole(requests[k]);
        assert(steps[k] is Ask);
    }
    let expected = steps[0].script(w).result;
    match steps[steps.len() - 1]->Done_0 {
        Ok(results) => {
            assert forall|i: int| 0 <= i < expected->Ok_0.len() implies {
                &&& (#[trigger] results@[i]).file_name@ == expected->Ok_0[i].file_name
                &&& crate::run_laws::whole(results@[i].located, expected->Ok_0[i].located)
            } by {
                assert(expected->Ok_0[i] == results@[i]@);
                if let Some(located) = results@[i].located {
                    crate::run_laws::sight(located.path);
                    crate::run_laws::sight(located.directory);
                }
            }
        },
        Err(error) => crate::run_laws::errors_are_whole(error),
    }
}

/// What the script of a batch promises is what its caller is owed.
proof fn promise_is_owed(
    batch: BatchSearchView,
    w: World,
    start: PathView,
    bound: Option<PathView>,
    outcome: Result<Vec<BatchResult>, DiscoveryError>,
)
    requires
        gave(outcome, batch.bounded_script(w, start, bound).result),
    ensures
        owed(
            batch.file_names,
            batch.refuse_non_regular,
            batch.drives,
            w,
            start,
            bound,
            outcome,
        ),
{
    let names = batch.file_names;
    crate::batch_laws::batch_matches_single_searches(batch, w, start, bound);
    assert forall|i: int| 0 <= i < names.len() implies batch.single(i) == (SearchView {
        file_name: #[trigger] names[i],
        refuse_non_regular: batch.refuse_non_regular,
        drives: batch.drives,
    }) by {}
    if outcome is Ok {
        assert forall|i: int| 0 <= i < names.len() implies (SearchView {
            file_name: #[trigger] names[i],
            refuse_non_regular: batch.refuse_non_regular,
            drives: batch.drives,
        }).bounded_script(w, start, bound).result is Ok by {
            assert(batch.single(i).bounded_script(w, start, bound).result is Ok);
        }
        let results = outcome->Ok_0;
        assert forall|i: int| 0 <= i < names.len() implies {
            let alone = SearchView {
                file_name: #[trigger] names[i],
                refuse_non_regular: batch.refuse_non_regular,
                drives: batch.drives,
            };
            &&& results@[i].file_name@ == names[i]
            &&& crate::run_laws::whole(
                results@[i].located,
                alone.bounded_script(w, start, bound).result->Ok_0,
            )
        } by {
            let name = results@[i].file_name;
            let expected = batch.bounded_script(w, start, bound).result->Ok_0[i];
        }
    } else {
        let i = choose|i: int|
            0 <= i < names.len() && !((#[trigger] batch.single(i)).bounded_script(
                w,
                start,
                bound,
            ).result is Ok);
        let name = names[i];
    }
}

/// What [`crate::discover_many_bounded`] comes to.
pub proof fn runs_of_discover_many_bounded(
    start: PathParts,
    file_names: &[&str],
    bound: Option<&PathParts>,
    drives: bool,
    w: World,
    steps: Seq<BatchStep>,
    requests: Seq<Request>,
    answers: Seq<Answer>,
)
    requires
        batch_runs(w, steps, requests, answers),
        call_ensures(
            crate::batch::discover_many_bounded,
            (&start, file_names, bound, drives),
            steps[0],
        ),
    ensures
        owed(
            characters(file_names@),
            false,
            drives,
            w,
            start.seen(),
            crate::run_laws::seen_limit(bound),
            steps.last()->Done_0,
        ),
        ({
            let batch = BatchSearchView {
                file_names: characters(file_names@),
                refuse_non_regular: false,
                drives,
            };
            let asks = batch.bounded_script(
                w,
                start.seen(),
                crate::run_laws::seen_limit(bound),
            ).asks;
            &&& requests.len() == asks.len()
            &&& forall|k: int|
                0 <= k < requests.len() ==> crate::run_laws::requested(
                    #[trigger] requests[k],
                    asks[k],
                )
        }),
{
    let batch = BatchSearchView {
        file_names: characters(file_names@),
        refuse_non_regular: false,
        drives,
    };
    assert(steps[0].begins(w));
    crate::run_laws::sight(start);
    if let Some(path) = bound {
        crate::run_laws::sight(*path);
    }
    assert(characters(file_names@) =~= crate::batch::names_view(file_names@));
    batch_keeps_its_promise(w, steps, requests, answers);
    promise_is_owed(
        batch,
        w,
        start@,
        crate::run_laws::seen_limit(bound),
        steps.last()->Done_0,
    );
}

/// What [`crate::discover_many_from`] comes to: the same with the home directory
/// for a bound.
pub proof fn runs_of_discover_many_from(
    start: PathParts,
    file_names: &[&str],
    drives: bool,
    w: World,
    steps: Seq<BatchStep>,
    requests: Seq<Request>,
    answers: Seq<Answer>,
)
    requires
        batch_runs(w, steps, requests, answers),
        call_ensures(crate::batch::discover_many_from, (&start, file_names, drives), steps[0]),
    ensures
        owed(
            characters(file_names@),
            false,
            drives,
            w,
            start.seen(),
            w.home,
            steps.last()->Done_0,
        ),
{
    let batch = BatchSearchView {
        file_names: characters(file_names@),
        refuse_non_regular: false,
        drives,
    };
    assert(steps[0].begins(w));
    crate::run_laws::sight(start);
    assert(characters(file_names@) =~= crate::batch::names_view(file_names@));
    batch_keeps_its_promise(w, steps, requests, answers);
    assert(steps[0].script(w) == batch.from_script(w, start@));
    promise_is_owed(batch, w, start@, w.home, steps.last()->Done_0);
}

/// What [`crate::discover_many`] comes to: the same from the working directory, and
/// an error at `.` where that cannot be found out.
pub proof fn runs_of_discover_many(
    file_names: &[&str],
    drives: bool,
    w: World,
    steps: Seq<BatchStep>,
    requests: Seq<Request>,
    answers: Seq<Answer>,
)
    requires
        batch_runs(w, steps, requests, answers),
        call_ensures(crate::batch::discover_many, (file_names, drives), steps[0]),
    ensures
        match w.cwd {
            Ok(start) => owed(
                characters(file_names@),
                false,
                drives,
                w,
                start,
                w.home,
                steps.last()->Done_0,
            ),
            Err(reason) => steps.last()->Done_0 matches Err(
                DiscoveryError::Unreadable { path, kind },
            ) && kind == reason && path.root@.len() == 0 && path.names@.len() == 1
                && path.names@[0]@ == vstd::utf8::encode_utf8("."@),
        },
{
    let batch = BatchSearchView {
        file_names: characters(file_names@),
        refuse_non_regular: false,
        drives,
    };
    assert(steps[0].begins(w));
    assert(characters(file_names@) =~= crate::batch::names_view(file_names@));
    batch_keeps_its_promise(w, steps, requests, answers);
    assert(steps[0].script(w) == batch.here_script(w));
    match w.cwd {
        Ok(start) => promise_is_owed(batch, w, start, w.home, steps.last()->Done_0),
        Err(reason) => {
            if let Err(DiscoveryError::Unreadable { path, kind }) = steps.last()->Done_0 {
                assert(path.seen().names.len() == path.names@.len());
                assert(path.seen().names[0] == path.names@[0]@);
            }
        },
    }
}

/// What a [`BatchSearch`] with a policy comes to: one result for each name of the
/// slice that it was made with, under that policy, from each of its three
/// beginnings.
pub proof fn runs_of_a_batch_search(
    file_names: &[&str],
    drives: bool,
    refuse: bool,
    fresh: BatchSearch,
    search: BatchSearch,
    start: PathParts,
    bound: Option<&PathParts>,
    w: World,
    steps: Seq<BatchStep>,
    requests: Seq<Request>,
    answers: Seq<Answer>,
)
    requires
        call_ensures(BatchSearch::new, (file_names, drives), fresh),
        call_ensures(BatchSearch::refuse_non_regular, (fresh, refuse), search),
        batch_runs(w, steps, requests, answers),
    ensures
        call_ensures(BatchSearch::within, (search, &start, bound), steps[0]) ==> owed(
            characters(file_names@),
            refuse,
            drives,
            w,
            start.seen(),
            crate::run_laws::seen_limit(bound),
            steps.last()->Done_0,
        ),
        call_ensures(BatchSearch::from, (search, &start), steps[0]) ==> owed(
            characters(file_names@),
            refuse,
            drives,
            w,
            start.seen(),
            w.home,
            steps.last()->Done_0,
        ),
        call_ensures(BatchSearch::here, (search,), steps[0]) && w.cwd is Ok ==> owed(
            characters(file_names@),
            refuse,
            drives,
            w,
            w.cwd->Ok_0,
            w.home,
            steps.last()->Done_0,
        ),
        call_ensures(BatchSearch::within, (fresh, &start, bound), steps[0]) ==> owed(
            characters(file_names@),
            false,
            drives,
            w,
            start.seen(),
            crate::run_laws::seen_limit(bound),
            steps.last()->Done_0,
        ),
{
    let names = characters(file_names@);
    let outcome = steps.last()->Done_0;
    let limit = crate::run_laws::seen_limit(bound);
    crate::run_laws::sight(start);
    if let Some(path) = bound {
        crate::run_laws::sight(*path);
    }
    assert(names =~= crate::batch::names_view(file_names@));
    let batch = BatchSearchView { file_names: names, refuse_non_regular: refuse, drives };
    let default = BatchSearchView { file_names: names, refuse_non_regular: false, drives };
    if call_ensures(BatchSearch::within, (search, &start, bound), steps[0]) {
        assert(steps[0].begins(w));
        batch_keeps_its_promise(w, steps, requests, answers);
        promise_is_owed(batch, w, start@, limit, outcome);
    }
    if call_ensures(BatchSearch::from, (search, &start), steps[0]) {
        assert(steps[0].begins(w));
        batch_keeps_its_promise(w, steps, requests, answers);
        assert(steps[0].script(w) == batch.from_script(w, start@));
        promise_is_owed(batch, w, start@, w.home, outcome);
    }
    if call_ensures(BatchSearch::here, (search,), steps[0]) && w.cwd is Ok {
        assert(steps[0].begins(w));
        batch_keeps_its_promise(w, steps, requests, answers);
        assert(steps[0].script(w) == batch.here_script(w));
        promise_is_owed(batch, w, w.cwd->Ok_0, w.home, outcome);
    }
    if call_ensures(BatchSearch::within, (fresh, &start, bound), steps[0]) {
        assert(steps[0].begins(w));
        batch_keeps_its_promise(w, steps, requests, answers);
        promise_is_owed(default, w, start@, limit, outcome);
    }
}

/// An answer of another kind than was asked for changes nothing of a batch: the
/// same is asked again.
pub proof fn misfits_change_nothing_of_a_batch(
    inquiry: BatchInquiry,
    request: Request,
    answer: Answer,
    next: BatchStep,
)
    requires
        call_ensures(BatchInquiry::request, (&inquiry,), request),
        call_ensures(BatchInquiry::resume, (inquiry, answer), next),
        !match (request, answer) {
            (Request::CurrentDir, Answer::CurrentDir(_)) => true,
            (Request::HomeDir, Answer::HomeDir(_)) => true,
            (Request::Canonicalize(_), Answer::Canonical(_)) => true,
            (Request::IsFile(_), Answer::IsFile(_)) => true,
            (Request::Inspect(_), Answer::Entry(_)) => true,
            (Request::Report(_), Answer::Reported) => true,
            _ => false,
        },
    ensures
        next == BatchStep::Ask(inquiry),
{
}

} // verus!
