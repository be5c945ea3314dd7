//! What whole runs come to: from the first call to the last answer.

use vstd::prelude::*;

use crate::dialogue::{Answer, Request, RequestView, World};
use crate::path::{PathParts, PathView};
use crate::report::{DiscoveryError, DiscoveryErrorView, ErrorKind, Located, LocatedView};
use crate::search::{Inquiry, Search, SearchView, Step};

verus! {

impl PathParts {
    /// The path that this is: its root, its names and its separator.
    pub open spec fn seen(self) -> PathView {
        PathView {
            root: self.root@,
            names: Seq::new(self.names@.len(), |i: int| self.names@[i]@),
            separator: self.separator,
        }
    }
}

/// Whether `answer` is what `w` holds of what `request` asks for.
pub open spec fn true_answer(w: World, request: Request, answer: Answer) -> bool {
    match (request, answer) {
        (Request::CurrentDir, Answer::CurrentDir(Ok(path))) => w.cwd == Ok::<PathView, ErrorKind>(
            path.seen(),
        ),
        (Request::CurrentDir, Answer::CurrentDir(Err(kind))) => w.cwd == Err::<PathView, ErrorKind>(
            kind,
        ),
        (Request::HomeDir, Answer::HomeDir(Some(path))) => w.home == Some(path.seen()),
        (Request::HomeDir, Answer::HomeDir(None)) => w.home is None,
        (Request::Canonicalize(at), Answer::Canonical(Ok(path))) => (w.canonical)(at.seen())
            == Ok::<PathView, ErrorKind>(path.seen()),
        (Request::Canonicalize(at), Answer::Canonical(Err(kind))) => (w.canonical)(at.seen())
            == Err::<PathView, ErrorKind>(kind),
        (Request::IsFile(at), Answer::IsFile(yes)) => (w.is_file)(at.seen()) == yes,
        (Request::Inspect(at), Answer::Entry(entry)) => (w.entry)(at.seen()) == entry,
        (Request::Report(_), Answer::Reported) => true,
        _ => false,
    }
}

/// Whether `steps` are a run of a search: each asks `requests`, gets a true answer
/// to it, and goes on with that; and the last is done.
pub open spec fn runs(
    w: World,
    steps: Seq<Step>,
    requests: Seq<Request>,
    answers: Seq<Answer>,
) -> bool {
    &&& steps.len() == requests.len() + 1
    &&& steps.len() == answers.len() + 1
    &&& forall|k: int|
        0 <= k < requests.len() ==> {
            &&& (#[trigger] steps[k]) is Ask
            &&& call_ensures(Inquiry::request, (&steps[k]->Ask_0,), requests[k])
            &&& true_answer(w, requests[k], answers[k])
            &&& call_ensures(Inquiry::resume, (steps[k]->Ask_0, answers[k]), steps[k + 1])
        }
    &&& steps.last() is Done
}

/// Whether `request` is what `view` stands for.
pub open spec fn requested(request: Request, view: RequestView) -> bool {
    match (request, view) {
        (Request::CurrentDir, RequestView::CurrentDir) => true,
        (Request::HomeDir, RequestView::HomeDir) => true,
        (Request::Canonicalize(path), RequestView::Canonicalize(at)) => path.seen() == at,
        (Request::IsFile(path), RequestView::IsFile(at)) => path.seen() == at,
        (Request::Inspect(path), RequestView::Inspect(at)) => path.seen() == at,
        (Request::Report(text), RequestView::Report(words)) => text@ == words,
        _ => false,
    }
}

/// Whether `error` is what `view` stands for.
pub open spec fn complained(error: DiscoveryError, view: DiscoveryErrorView) -> bool {
    match (error, view) {
        (DiscoveryError::NotAFileName(name), DiscoveryErrorView::NotAFileName(text)) => name@
            == text,
        (DiscoveryError::Symlink(path), DiscoveryErrorView::Symlink(at)) => path.seen() == at,
        (DiscoveryError::NotRegular(path), DiscoveryErrorView::NotRegular(at)) => path.seen() == at,
        (
            DiscoveryError::Unreadable { path, kind },
            DiscoveryErrorView::Unreadable { path: at, kind: reason },
        ) => path.seen() == at && kind == reason,
        _ => false,
    }
}

/// Whether `located` is what `view` stands for.
pub open spec fn whole(located: Option<Located>, view: Option<LocatedView>) -> bool {
    match (located, view) {
        (None, None) => true,
        (Some(located), Some(view)) => {
            &&& located.path.seen() == view.path
            &&& located.directory.seen() == view.directory
            &&& located.git_marker == view.git_marker
            &&& located.at_repo_root == view.at_repo_root
        },
        _ => false,
    }
}

/// Whether `outcome` is what `view` stands for.
pub open spec fn concluded(
    outcome: Result<Option<Located>, DiscoveryError>,
    view: Result<Option<LocatedView>, DiscoveryErrorView>,
) -> bool {
    match (outcome, view) {
        (Ok(located), Ok(expected)) => whole(located, expected),
        (Err(error), Err(expected)) => complained(error, expected),
        _ => false,
    }
}

/// The path that a limit is, where there is one.
pub open spec fn seen_limit(bound: Option<&PathParts>) -> Option<PathView> {
    match bound {
        Some(path) => Some(path.seen()),
        None => None,
    }
}

/// A path is seen as it is.
pub(crate) proof fn sight(path: PathParts)
    ensures
        path@ == path.seen(),
{
    assert(path@ =~= path.seen());
}

/// Requests are seen as they are.
pub(crate) proof fn requests_are_whole(request: Request)
    ensures
        requested(request, request@),
{
    match request {
        Request::Canonicalize(path) | Request::IsFile(path) | Request::Inspect(path) => sight(path),
        _ => {},
    }
}

/// Errors are seen as they are.
pub(crate) proof fn errors_are_whole(error: DiscoveryError)
    ensures
        complained(error, error@),
{
    match error {
        DiscoveryError::NotAFileName(_) => {},
        DiscoveryError::Symlink(path) | DiscoveryError::NotRegular(path) => sight(path),
        DiscoveryError::Unreadable { path, kind } => sight(path),
    }
}

/// A true answer is the answer of the world.
pub(crate) proof fn truth_is_answered(w: World, request: Request, answer: Answer)
    requires
        true_answer(w, request, answer),
    ensures
        w.answer(request@) == answer@,
{
    requests_are_whole(request);
    match answer {
        Answer::CurrentDir(Ok(path)) | Answer::Canonical(Ok(path)) => sight(path),
        Answer::HomeDir(Some(path)) => sight(path),
        _ => {},
    }
}

/// A run concludes what its first step promised, and asks that in its order.
proof fn run_keeps_its_promise(
    w: World,
    steps: Seq<Step>,
    requests: Seq<Request>,
    answers: Seq<Answer>,
)
    requires
        runs(w, steps, requests, answers),
        steps[0].begins(w),
    ensures
        concluded(steps.last()->Done_0, steps[0].script(w).result),
        requests.len() == steps[0].script(w).asks.len(),
        forall|k: int|
            0 <= k < requests.len() ==> requested(
                #[trigger] requests[k],
                steps[0].script(w).asks[k],
            ),
{
    assert forall|k: int| 0 <= k < steps.len() - 1 implies crate::laws::follows(
        w,
        #[trigger] steps[k],
        steps[k + 1],
    ) by {
        let inquiry = steps[k]->Ask_0;
        truth_is_answered(w, requests[k], answers[k]);
        assert(requests[k]@ == inquiry.pending());
        assert(inquiry.script(w) == steps[k + 1].script(w).asking(inquiry.pending()));
    }
    crate::laws::searches_end(w, steps);
    assert forall|k: int| 0 <= k < requests.len() implies requested(
        #[trigger] requests[k],
        steps[0].script(w).asks[k],
    ) by {
        requests_are_whole(requests[k]);
        assert(steps[k] is Ask);
    }
    match steps[steps.len() - 1]->Done_0 {
        Ok(Some(located)) => {
            sight(located.path);
            sight(located.directory);
        },
        Ok(None) => {},
        Err(error) => errors_are_whole(error),
    }
}

/// What [`crate::locate_bounded`] comes to: the search for that name from that
/// start under that bound, passing over what is neither a file nor a symbolic
/// link.
pub proof fn runs_of_locate_bounded(
    start: PathParts,
    file_name: &str,
    bound: Option<&PathParts>,
    drives: bool,
    w: World,
    steps: Seq<Step>,
    requests: Seq<Request>,
    answers: Seq<Answer>,
)
    requires
        runs(w, steps, requests, answers),
        call_ensures(crate::search::locate_bounded, (&start, file_name, bound, drives), steps[0]),
    ensures
        ({
            let search = SearchView { file_name: file_name@, refuse_non_regular: false, drives };
            let script = search.bounded_script(w, start.seen(), seen_limit(bound));
            &&& concluded(steps.last()->Done_0, script.result)
            &&& requests.len() == script.asks.len()
            &&& forall|k: int|
                0 <= k < requests.len() ==> requested(#[trigger] requests[k], script.asks[k])
        }),
{
    assert(steps[0].begins(w));
    sight(start);
    if let Some(path) = bound {
        sight(*path);
    }
    run_keeps_its_promise(w, steps, requests, answers);
}

/// What [`crate::locate_from`] comes to: the same with the home directory for a
/// bound.
pub proof fn runs_of_locate_from(
    start: PathParts,
    file_name: &str,
    drives: bool,
    w: World,
    steps: Seq<Step>,
    requests: Seq<Request>,
    answers: Seq<Answer>,
)
    requires
        runs(w, steps, requests, answers),
        call_ensures(crate::search::locate_from, (&start, file_name, drives), steps[0]),
    ensures
        ({
            let search = SearchView { file_name: file_name@, refuse_non_regular: false, drives };
            concluded(steps.last()->Done_0, search.bounded_script(w, start.seen(), w.home).result)
        }),
{
    assert(steps[0].begins(w));
    sight(start);
    run_keeps_its_promise(w, steps, requests, answers);
}

/// What [`crate::locate`] comes to: the same from the working directory, and an
/// error at `.` where that cannot be found out.
pub proof fn runs_of_locate(
    file_name: &str,
    drives: bool,
    w: World,
    steps: Seq<Step>,
    requests: Seq<Request>,
    answers: Seq<Answer>,
)
    requires
        runs(w, steps, requests, answers),
        call_ensures(crate::search::locate, (file_name, drives), steps[0]),
    ensures
        ({
            let search = SearchView { file_name: file_name@, refuse_non_regular: false, drives };
            match w.cwd {
                Ok(start) => concluded(
                    steps.last()->Done_0,
                    search.bounded_script(w, start, w.home).result,
                ),
                Err(reason) => steps.last()->Done_0 matches Err(
                    DiscoveryError::Unreadable { path, kind },
                ) && kind == reason && path.root@.len() == 0 && path.names@.len() == 1
                    && path.names@[0]@ == vstd::utf8::encode_utf8("."@),
            }
        }),
{
    let search = SearchView { file_name: file_name@, refuse_non_regular: false, drives };
    assert(steps[0].begins(w));
    run_keeps_its_promise(w, steps, requests, answers);
    assert(steps[0].script(w) == search.here_script(w));
    if let Err(reason) = w.cwd {
        nowhere_is_a_dot(steps.last()->Done_0, reason);
    }
}

/// The error over the working directory names `.`.
proof fn nowhere_is_a_dot(outcome: Result<Option<Located>, DiscoveryError>, reason: ErrorKind)
    requires
        concluded(
            outcome,
            Err(DiscoveryErrorView::Unreadable { path: crate::search::here(), kind: reason }),
        ),
    ensures
        outcome matches Err(DiscoveryError::Unreadable { path, kind }) && kind == reason
            && path.root@.len() == 0 && path.names@.len() == 1 && path.names@[0]@
            == vstd::utf8::encode_utf8("."@),
{
    if let Err(DiscoveryError::Unreadable { path, kind }) = outcome {
        assert(path.seen().names.len() == path.names@.len());
        assert(path.seen().names[0] == path.names@[0]@);
    }
}

/// A search shows no warning by itself.
proof fn searches_are_silent(
    search: SearchView,
    w: World,
    start: PathView,
    bound: Option<PathView>,
    k: int,
)
    requires
        0 <= k < search.bounded_script(w, start, bound).asks.len(),
    ensures
        !(search.bounded_script(w, start, bound).asks[k] is Report),
{
    let resolving = crate::resolve::resolve_script(w, start, bound);
    let asks = search.bounded_script(w, start, bound).asks;
    if k < resolving.asks.len() {
        assert(asks[k] == resolving.asks[k]);
    } else {
        let (directory, limit) = resolving.result->Ok_0;
        let directories = directory.chain(crate::search::MAX_ANCESTORS as nat);
        let depth = crate::laws::walk_ends(search, w, directories, limit);
        crate::laws::walk_asks(search, w, directories, limit, depth);
        let walking = search.walk_script(w, directories, limit).asks;
        assert(asks[k] == walking[k - resolving.asks.len()]);
    }
}

/// What is said of a file that was located in `directory`, which is no repository
/// root.
pub open spec fn warning(file_name: Seq<char>, directory: PathView) -> Seq<char> {
    file_name + " was located at "@ + directory.shown()
        + ", which is not a repository root (no .git beside it); it will still be used, but it shadows any copy at the repository root and is probably not the file you meant to edit"@
}

/// Whether `requests` hold a warning exactly where `outcome` is a file that is not
/// at a repository root: it is the last request, there is no other, and it says
/// where the file was located.
pub open spec fn warned(
    file_name: Seq<char>,
    outcome: Result<Option<Located>, DiscoveryError>,
    requests: Seq<Request>,
) -> bool {
    &&& forall|k: int|
        0 <= k < requests.len() - 1 ==> !((#[trigger] requests[k]) is Report)
    &&& match outcome {
        Ok(Some(located)) if !located.at_repo_root => {
            &&& requests.len() > 0
            &&& requests.last() matches Request::Report(text) && text@ == warning(
                file_name,
                located.directory.seen(),
            )
        },
        _ => requests.len() > 0 ==> !(requests.last() is Report),
    }
}

/// What [`crate::locate_and_report_from`] comes to: what [`crate::locate_from`]
/// does, and one warning at the end exactly where the file that was located is not
/// at a repository root.
pub proof fn runs_of_locate_and_report_from(
    start: PathParts,
    file_name: &str,
    drives: bool,
    w: World,
    steps: Seq<Step>,
    requests: Seq<Request>,
    answers: Seq<Answer>,
)
    requires
        runs(w, steps, requests, answers),
        call_ensures(crate::search::locate_and_report_from, (&start, file_name, drives), steps[0]),
    ensures
        ({
            let search = SearchView { file_name: file_name@, refuse_non_regular: false, drives };
            concluded(steps.last()->Done_0, search.bounded_script(w, start.seen(), w.home).result)
        }),
        warned(file_name@, steps.last()->Done_0, requests),
{
    let search = SearchView { file_name: file_name@, refuse_non_regular: false, drives };
    assert(steps[0].begins(w));
    sight(start);
    run_keeps_its_promise(w, steps, requests, answers);
    let silent = search.bounded_script(w, start@, w.home);
    let script = steps[0].script(w);
    assert forall|k: int|
        0 <= k < silent.asks.len() + 1 implies script.asks[k] == search.from_script(
        w,
        start@,
    ).asks[k] && !((#[trigger] requests[k]) is Report) by {
        assert(search.from_script(w, start@).asks[k] == if k == 0 {
            RequestView::HomeDir
        } else {
            silent.asks[k - 1]
        });
        if k > 0 {
            searches_are_silent(search, w, start@, w.home, k - 1);
        }
        assert(requested(requests[k], script.asks[k]));
    }
    let last = requests.len() - 1;
    assert(requested(requests[last], script.asks[last]));
}

/// What [`crate::locate_and_report`] comes to: what [`crate::locate`] does, and the
/// warning.
pub proof fn runs_of_locate_and_report(
    file_name: &str,
    drives: bool,
    w: World,
    steps: Seq<Step>,
    requests: Seq<Request>,
    answers: Seq<Answer>,
)
    requires
        runs(w, steps, requests, answers),
        call_ensures(crate::search::locate_and_report, (file_name, drives), steps[0]),
    ensures
        ({
            let search = SearchView { file_name: file_name@, refuse_non_regular: false, drives };
            match w.cwd {
                Ok(start) => concluded(
                    steps.last()->Done_0,
                    search.bounded_script(w, start, w.home).result,
                ),
                Err(reason) => steps.last()->Done_0 matches Err(
                    DiscoveryError::Unreadable { path, kind },
                ) && kind == reason && path.root@.len() == 0 && path.names@.len() == 1
                    && path.names@[0]@ == vstd::utf8::encode_utf8("."@),
            }
        }),
        warned(file_name@, steps.last()->Done_0, requests),
{
    let search = SearchView { file_name: file_name@, refuse_non_regular: false, drives };
    assert(steps[0].begins(w));
    run_keeps_its_promise(w, steps, requests, answers);
    let script = steps[0].script(w);
    let here = search.here_script(w);
    assert(script == here.reporting(file_name@));
    let last = requests.len() - 1;
    assert(requested(requests[last], script.asks[last]));
    match w.cwd {
        Ok(start) => {
            let silent = search.bounded_script(w, start, w.home);
            assert forall|k: int|
                0 <= k < silent.asks.len() + 2 implies script.asks[k] == here.asks[k] && !((
            #[trigger] requests[k]) is Report) by {
                assert(here.asks[k] == if k == 0 {
                    RequestView::CurrentDir
                } else if k == 1 {
                    RequestView::HomeDir
                } else {
                    silent.asks[k - 2]
                });
                if k > 1 {
                    searches_are_silent(search, w, start, w.home, k - 2);
                }
                assert(requested(requests[k], script.asks[k]));
            }
        },
        Err(reason) => {
            nowhere_is_a_dot(steps.last()->Done_0, reason);
        },
    }
}

/// What a [`Search`] with a policy comes to: the search for the name that it was
/// made with, under that policy, from each of its three beginnings.
pub proof fn runs_of_a_search(
    file_name: &str,
    drives: bool,
    refuse: bool,
    fresh: Search,
    search: Search,
    start: PathParts,
    bound: Option<&PathParts>,
    w: World,
    steps: Seq<Step>,
    requests: Seq<Request>,
    answers: Seq<Answer>,
)
    requires
        call_ensures(Search::new, (file_name, drives), fresh),
        call_ensures(Search::refuse_non_regular, (fresh, refuse), search),
        runs(w, steps, requests, answers),
    ensures
        ({
            let meant = SearchView { file_name: file_name@, refuse_non_regular: refuse, drives };
            &&& call_ensures(Search::within, (search, &start, bound), steps[0]) ==> concluded(
                steps.last()->Done_0,
                meant.bounded_script(w, start.seen(), seen_limit(bound)).result,
            )
            &&& call_ensures(Search::from, (search, &start), steps[0]) ==> concluded(
                steps.last()->Done_0,
                meant.bounded_script(w, start.seen(), w.home).result,
            )
            &&& call_ensures(Search::here, (search,), steps[0]) && w.cwd is Ok ==> concluded(
                steps.last()->Done_0,
                meant.bounded_script(w, w.cwd->Ok_0, w.home).result,
            )
            &&& call_ensures(Search::within, (fresh, &start, bound), steps[0]) ==> concluded(
                steps.last()->Done_0,
                (SearchView { refuse_non_regular: false, ..meant }).bounded_script(
                    w,
                    start.seen(),
                    seen_limit(bound),
                ).result,
            )
        }),
{
    sight(start);
    if let Some(path) = bound {
        sight(*path);
    }
    if call_ensures(Search::within, (search, &start, bound), steps[0]) || call_ensures(
        Search::from,
        (search, &start),
        steps[0],
    ) || call_ensures(Search::here, (search,), steps[0]) || call_ensures(
        Search::within,
        (fresh, &start, bound),
        steps[0],
    ) {
        assert(steps[0].begins(w));
        run_keeps_its_promise(w, steps, requests, answers);
    }
}

/// An answer of another kind than was asked for changes nothing: the same is asked
/// again.
pub proof fn misfits_change_nothing(
    inquiry: Inquiry,
    request: Request,
    answer: Answer,
    next: Step,
)
    requires
        call_ensures(Inquiry::request, (&inquiry,), request),
        call_ensures(Inquiry::resume, (inquiry, answer), next),
        !match (request, answer) {
            (Request::CurrentDir, Answer::CurrentDir(_)) => true,
            (Request::HomeDir, Answer::HomeDir(_)) => true,
            (Request::Canonicalize(_), Answer::Canonical(_)) => true,
            (Request::IsFile(_), Answer::IsFile(_)) => true,
            (Request::Inspect(_), Answer::Entry(_)) => true,
            (Request::Report(_), Answer::Reported) => true,
            _ => false,
        },
    ensures
        next == Step::Ask(inquiry),
{
}

} // verus!
