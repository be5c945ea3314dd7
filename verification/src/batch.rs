//! The search for several config files in one walk.

use vstd::prelude::*;

use crate::candidate::judge;
use crate::dialogue::{git_marker, unreadable, Answer, Request, RequestView, Script, World};
use crate::name::is_bare_file_name;
use crate::path::{PathParts, PathView};
use crate::report::{
    DiscoveryError, DiscoveryErrorView, EntryKind, ErrorKind, GitMarker, Located, LocatedView,
};
use crate::resolve::{Resolution, Resolver};
use crate::search::{current_directory, SearchView, MAX_ANCESTORS};

verus! {

/// One requested filename and the nearest config found for it, if any.
#[derive(Debug, PartialEq, Eq)]
#[non_exhaustive]
pub struct BatchResult {
    /// The exact bare filename requested by the caller.
    pub file_name: String,
    /// The nearest matching config, or `None` when none exists before the
    /// applicable Git/home/filesystem boundary.
    pub located: Option<Located>,
}

/// What a [`BatchResult`] stands for.
#[verifier::ext_equal]
pub struct BatchResultView {
    pub file_name: Seq<char>,
    pub located: Option<LocatedView>,
}

impl View for BatchResult {
    type V = BatchResultView;

    open spec fn view(&self) -> BatchResultView {
        BatchResultView {
            file_name: self.file_name@,
            located: match self.located {
                Some(located) => Some(located@),
                None => None,
            },
        }
    }
}

impl Clone for BatchResult {
    fn clone(&self) -> (copy: BatchResult)
        ensures
            copy@ == self@,
    {
        BatchResult {
            file_name: self.file_name.clone(),
            located: match &self.located {
                Some(located) => Some(located.clone()),
                None => None,
            },
        }
    }
}

/// What is searched for in one walk.
#[derive(Debug, PartialEq, Eq)]
pub struct BatchSearch {
    /// The bare names of the config files.
    pub file_names: Vec<String>,
    /// Whether a candidate that is neither a file nor a symbolic link is an
    /// error. Such a candidate is passed over otherwise.
    pub refuse_non_regular: bool,
    /// Whether the platform has drives, so that a name can start with one.
    pub drives: bool,
}

/// What a [`BatchSearch`] stands for.
#[verifier::ext_equal]
pub struct BatchSearchView {
    pub file_names: Seq<Seq<char>>,
    pub refuse_non_regular: bool,
    pub drives: bool,
}

/// What each of some texts stands for.
pub open spec fn texts(strings: Seq<String>) -> Seq<Seq<char>> {
    Seq::new(strings.len(), |i: int| strings[i]@)
}

/// What each of some results stands for.
pub open spec fn result_views(results: Seq<BatchResult>) -> Seq<BatchResultView> {
    Seq::new(results.len(), |i: int| results[i]@)
}

impl View for BatchSearch {
    type V = BatchSearchView;

    open spec fn view(&self) -> BatchSearchView {
        BatchSearchView {
            file_names: texts(self.file_names@),
            refuse_non_regular: self.refuse_non_regular,
            drives: self.drives,
        }
    }
}

/// The first of `names` that is not a bare file name.
pub open spec fn refused(names: Seq<Seq<char>>, drives: bool) -> Option<Seq<char>>
    decreases names.len(),
{
    if names.len() == 0 {
        None
    } else if !crate::name::bare(names[0], drives) {
        Some(names[0])
    } else {
        refused(names.drop_first(), drives)
    }
}

/// Nothing found yet for any of `names`.
pub open spec fn nothing_found(names: Seq<Seq<char>>) -> Seq<BatchResultView> {
    Seq::new(names.len(), |i: int| BatchResultView { file_name: names[i], located: None })
}

/// Whether everything is found.
pub open spec fn complete(results: Seq<BatchResultView>) -> bool {
    forall|i: int| 0 <= i < results.len() ==> (#[trigger] results[i]).located is Some
}

/// `results` with the file found in `directory` at `index`.
pub open spec fn with_found(
    results: Seq<BatchResultView>,
    index: int,
    directory: PathView,
    marker: Option<GitMarker>,
) -> Seq<BatchResultView> {
    let file_name = results[index].file_name;
    results.update(
        index,
        BatchResultView {
            file_name,
            located: Some(LocatedView::found(directory, file_name, marker)),
        },
    )
}

/// The search for the one file at `index`. Its name is past its check, so that
/// drives play no part any more.
pub open spec fn single(
    refuse_non_regular: bool,
    results: Seq<BatchResultView>,
    index: int,
) -> SearchView {
    SearchView { file_name: results[index].file_name, refuse_non_regular, drives: false }
}

/// Looks in `directory` for each file from `index` on that is not found yet.
pub open spec fn row_script(
    w: World,
    refuse_non_regular: bool,
    directory: PathView,
    marker: Option<GitMarker>,
    results: Seq<BatchResultView>,
    index: nat,
) -> Script<Seq<BatchResultView>>
    decreases results.len() - index,
{
    if index >= results.len() {
        Script::done(results)
    } else if results[index as int].located is Some {
        row_script(w, refuse_non_regular, directory, marker, results, index + 1)
    } else {
        let search = single(refuse_non_regular, results, index as int);
        let rest = match search.verdict(w, directory) {
            Ok(hit) => {
                let next = if hit {
                    with_found(results, index as int, directory, marker)
                } else {
                    results
                };
                row_script(w, refuse_non_regular, directory, marker, next, index + 1)
            },
            Err(error) => Script::fails(error),
        };
        rest.asking(RequestView::Inspect(search.candidate(directory)))
    }
}

/// Goes on with `directories` after what was found in the one below them, or
/// ends: where everything is found, and at a boundary.
pub open spec fn onward_script(
    w: World,
    refuse_non_regular: bool,
    below: PathView,
    marker: Option<GitMarker>,
    row: Script<Seq<BatchResultView>>,
    directories: Seq<PathView>,
    bound: Option<PathView>,
) -> Script<Seq<BatchResultView>>
    decreases directories.len(), 1nat,
{
    match row.result {
        Ok(results) => if complete(results) || marker is Some || bound == Some(below) {
            row
        } else {
            let rest = walk_script(w, refuse_non_regular, results, directories, bound);
            Script { asks: row.asks + rest.asks, result: rest.result }
        },
        Err(_) => row,
    }
}

/// Searches `directories` in their order, up to the first that ends the walk.
pub open spec fn walk_script(
    w: World,
    refuse_non_regular: bool,
    results: Seq<BatchResultView>,
    directories: Seq<PathView>,
    bound: Option<PathView>,
) -> Script<Seq<BatchResultView>>
    decreases directories.len(), 0nat,
{
    if directories.len() == 0 {
        Script::done(results)
    } else {
        let directory = directories[0];
        let rest = match w.marker(directory) {
            Ok(marker) => onward_script(
                w,
                refuse_non_regular,
                directory,
                marker,
                row_script(w, refuse_non_regular, directory, marker, results, 0),
                directories.drop_first(),
                bound,
            ),
            Err(error) => Script::fails(error),
        };
        rest.asking(RequestView::Inspect(directory.join(crate::dialogue::git())))
    }
}

impl BatchSearchView {
    /// The search for `file_names` as it goes unless told otherwise.
    pub open spec fn named(file_names: Seq<Seq<char>>, drives: bool) -> BatchSearchView {
        BatchSearchView { file_names, refuse_non_regular: false, drives }
    }

    /// The search for the name at `index` alone.
    pub open spec fn single(self, index: int) -> SearchView {
        SearchView {
            file_name: self.file_names[index],
            refuse_non_regular: self.refuse_non_regular,
            drives: self.drives,
        }
    }

    /// Searches from `start` upward, outside any repository no further than
    /// `bound`.
    pub open spec fn bounded_script(
        self,
        w: World,
        start: PathView,
        bound: Option<PathView>,
    ) -> Script<Seq<BatchResultView>> {
        match refused(self.file_names, self.drives) {
            Some(name) => Script::fails(DiscoveryErrorView::NotAFileName(name)),
            None => if self.file_names.len() == 0 {
                Script::done(Seq::empty())
            } else {
                crate::resolve::resolve_script(w, start, bound).followed_by(
                    |resolved: (PathView, Option<PathView>)|
                        walk_script(
                            w,
                            self.refuse_non_regular,
                            nothing_found(self.file_names),
                            resolved.0.chain(MAX_ANCESTORS as nat),
                            resolved.1,
                        ),
                )
            },
        }
    }

    /// Searches from `start` upward, outside any repository no further than the
    /// home directory.
    pub open spec fn from_script(self, w: World, start: PathView) -> Script<Seq<BatchResultView>> {
        self.bounded_script(w, start, w.home).asking(RequestView::HomeDir)
    }

    /// Searches from the current working directory upward.
    pub open spec fn here_script(self, w: World) -> Script<Seq<BatchResultView>> {
        let rest = match w.cwd {
            Ok(start) => self.from_script(w, start),
            Err(kind) => Script::fails(
                DiscoveryErrorView::Unreadable { path: crate::search::here(), kind },
            ),
        };
        rest.asking(RequestView::CurrentDir)
    }
}

/// How far a search has come.
enum Stage {
    /// The current working directory is to be found out.
    Cwd,
    /// The home directory is to be found out.
    Home { start: PathParts },
    /// The start and the limit are being resolved.
    Resolving(Resolver),
    /// The marker is looked for in `directory`; `above` more may follow.
    Marker { directory: PathParts, bound: Option<PathParts>, above: usize },
    /// The file at `index` is looked for in `directory`.
    Candidate {
        directory: PathParts,
        bound: Option<PathParts>,
        above: usize,
        marker: Option<GitMarker>,
        index: usize,
    },
}

/// A search for several files that waits for an answer.
pub struct BatchInquiry {
    search: BatchSearch,
    results: Vec<BatchResult>,
    stage: Stage,
}

/// A search for several files that has come to its end, or that waits for an
/// answer.
pub enum BatchStep {
    /// What was found, in the order in which it was asked for, or the reason
    /// why discovery refused to go on.
    Done(Result<Vec<BatchResult>, DiscoveryError>),
    /// Answer [`BatchInquiry::request`] through [`BatchInquiry::resume`].
    Ask(BatchInquiry),
}

/// The views of what a search for several files concludes.
pub open spec fn outcome_view(outcome: Result<Vec<BatchResult>, DiscoveryError>) -> Result<
    Seq<BatchResultView>,
    DiscoveryErrorView,
> {
    match outcome {
        Ok(results) => Ok(result_views(results@)),
        Err(error) => Err(error@),
    }
}

impl BatchStep {
    /// How the search goes on in `w`.
    pub open spec fn script(self, w: World) -> Script<Seq<BatchResultView>> {
        match self {
            BatchStep::Done(outcome) => Script {
                asks: Seq::empty(),
                result: outcome_view(outcome),
            },
            BatchStep::Ask(inquiry) => inquiry.script(w),
        }
    }

    /// Whether what is asked now, if anything is, is what comes first in `w`.
    pub open spec fn begins(self, w: World) -> bool {
        match self {
            BatchStep::Done(_) => true,
            BatchStep::Ask(inquiry) => {
                &&& inquiry.script(w).asks.len() > 0
                &&& inquiry.script(w).asks[0] == inquiry.pending()
            },
        }
    }

    /// A step asks now what it asks first, in every world. So one with nothing
    /// left to ask is done.
    pub proof fn always_begins(self)
        requires
            self matches BatchStep::Ask(inquiry) ==> inquiry.consistent(),
        ensures
            forall|w: World| #[trigger] self.begins(w),
    {
        if let BatchStep::Ask(inquiry) = self {
            assert forall|w: World| #[trigger] self.begins(w) by {
                inquiry.pending_is_first(w);
            }
        }
    }
}

impl BatchInquiry {
    /// The file that is looked for is one of those asked for, and it is not
    /// found yet.
    #[verifier::type_invariant]
    pub closed spec fn consistent(self) -> bool {
        self.stage matches Stage::Candidate { index, .. } ==> {
            &&& index < self.results@.len()
            &&& self.results@[index as int].located is None
        }
    }

    /// What the search asks.
    pub closed spec fn pending(self) -> RequestView {
        match self.stage {
            Stage::Cwd => RequestView::CurrentDir,
            Stage::Home { start } => RequestView::HomeDir,
            Stage::Resolving(resolver) => resolver.pending(),
            Stage::Marker { directory, bound, above } => RequestView::Inspect(
                directory@.join(crate::dialogue::git()),
            ),
            Stage::Candidate { directory, bound, above, marker, index } => RequestView::Inspect(
                single(
                    self.search.refuse_non_regular,
                    result_views(self.results@),
                    index as int,
                ).candidate(directory@),
            ),
        }
    }

    /// The directories above `directory` that are still to be searched.
    spec fn remaining(directory: PathView, above: nat) -> Seq<PathView> {
        directory.chain(above + 1).drop_first()
    }

    /// How the search goes on in `w`: what it asks from here on, beginning with
    /// what is pending, and what it concludes.
    pub closed spec fn script(self, w: World) -> Script<Seq<BatchResultView>> {
        let refuse = self.search.refuse_non_regular;
        let results = result_views(self.results@);
        match self.stage {
            Stage::Cwd => self.search@.here_script(w),
            Stage::Home { start } => self.search@.from_script(w, start@),
            Stage::Resolving(resolver) => resolver.script(w).followed_by(
                |resolved: (PathView, Option<PathView>)|
                    walk_script(
                        w,
                        refuse,
                        results,
                        resolved.0.chain(MAX_ANCESTORS as nat),
                        resolved.1,
                    ),
            ),
            Stage::Marker { directory, bound, above } => walk_script(
                w,
                refuse,
                results,
                directory@.chain(above as nat + 1),
                crate::dialogue::optional_view(bound),
            ),
            Stage::Candidate { directory, bound, above, marker, index } => onward_script(
                w,
                refuse,
                directory@,
                marker,
                row_script(w, refuse, directory@, marker, results, index as nat),
                Self::remaining(directory@, above as nat),
                crate::dialogue::optional_view(bound),
            ),
        }
    }

    /// What is pending is what the search asks first, in every world.
    pub proof fn pending_is_first(self, w: World)
        requires
            self.consistent(),
        ensures
            self.script(w).asks.len() > 0,
            self.script(w).asks[0] == self.pending(),
    {
        if let Stage::Marker { directory, bound, above } = self.stage {
            directory@.chain_above(above as nat + 1);
        }
    }

    /// What the search asks.
    pub fn request(&self) -> (request: Request)
        ensures
            request@ == self.pending(),
    {
        proof {
            use_type_invariant(self);
        }
        match &self.stage {
            Stage::Cwd => Request::CurrentDir,
            Stage::Home { start: _ } => Request::HomeDir,
            Stage::Resolving(resolver) => resolver.request(),
            Stage::Marker { directory, bound: _, above: _ } => Request::Inspect(
                directory.join(".git"),
            ),
            Stage::Candidate { directory, bound: _, above: _, marker: _, index } => {
                Request::Inspect(directory.join(self.results[*index].file_name.as_str()))
            },
        }
    }

    /// Begins a search whose start is known.
    fn begin(search: BatchSearch, start: PathParts, bound: Option<PathParts>) -> (step: BatchStep)
        ensures
            forall|w: World| #[trigger]
                step.script(w) == search@.bounded_script(
                    w,
                    start@,
                    crate::dialogue::optional_view(bound),
                ),
    {
        if let Some(name) = first_refused(&search.file_names, search.drives) {
            return BatchStep::Done(Err(DiscoveryError::NotAFileName(name)));
        }
        let results = empty_results(&search.file_names);
        if search.file_names.len() == 0 {
            assert(result_views(results@) =~= Seq::<BatchResultView>::empty());
            return BatchStep::Done(Ok(results));
        }
        let stage = Stage::Resolving(Resolver::Start { start, bound });
        BatchStep::Ask(BatchInquiry { search, results, stage })
    }

    /// Goes on once the start and the limit are resolved.
    fn resolved(search: BatchSearch, results: Vec<BatchResult>, resolution: Resolution) -> (step:
        BatchStep)
        ensures
            forall|w: World| #[trigger]
                step.script(w) == resolution.script(w).followed_by(
                    |resolved: (PathView, Option<PathView>)|
                        walk_script(
                            w,
                            search.refuse_non_regular,
                            result_views(results@),
                            resolved.0.chain(MAX_ANCESTORS as nat),
                            resolved.1,
                        ),
                ),
    {
        match resolution {
            Resolution::Resolving(resolver) => {
                let stage = Stage::Resolving(resolver);
                BatchStep::Ask(BatchInquiry { search, results, stage })
            },
            Resolution::Resolved(directory, bound) => {
                let stage = Stage::Marker { directory, bound, above: MAX_ANCESTORS - 1 };
                let step = BatchStep::Ask(BatchInquiry { search, results, stage });
                assert forall|w: World| #[trigger]
                    step.script(w) == resolution.script(w).followed_by(
                        |resolved: (PathView, Option<PathView>)|
                            walk_script(
                                w,
                                search.refuse_non_regular,
                                result_views(results@),
                                resolved.0.chain(MAX_ANCESTORS as nat),
                                resolved.1,
                            ),
                    ) by {
                    let walk = walk_script(
                        w,
                        search.refuse_non_regular,
                        result_views(results@),
                        directory@.chain(MAX_ANCESTORS as nat),
                        crate::dialogue::optional_view(bound),
                    );
                    assert(Seq::<RequestView>::empty() + walk.asks =~= walk.asks);
                }
                step
            },
            Resolution::Failed(error) => BatchStep::Done(Err(error)),
        }
    }

    /// Goes on above `directory`, or ends where nothing is left to search.
    fn ascend(
        search: BatchSearch,
        results: Vec<BatchResult>,
        directory: PathParts,
        bound: Option<PathParts>,
        above: usize,
    ) -> (step: BatchStep)
        ensures
            forall|w: World| #[trigger]
                step.script(w) == walk_script(
                    w,
                    search.refuse_non_regular,
                    result_views(results@),
                    Self::remaining(directory@, above as nat),
                    crate::dialogue::optional_view(bound),
                ),
    {
        proof {
            directory@.chain_above(above as nat + 1);
        }
        if above == 0 {
            return BatchStep::Done(Ok(results));
        }
        match directory.parent() {
            Some(parent) => {
                let stage = Stage::Marker { directory: parent, bound, above: above - 1 };
                BatchStep::Ask(BatchInquiry { search, results, stage })
            },
            None => BatchStep::Done(Ok(results)),
        }
    }

    /// Goes on to the next file from `from` on that is not found yet, and from
    /// the last of them to the directories above.
    fn advance(
        search: BatchSearch,
        results: Vec<BatchResult>,
        directory: PathParts,
        bound: Option<PathParts>,
        above: usize,
        marker: Option<GitMarker>,
        from: usize,
    ) -> (step: BatchStep)
        ensures
            forall|w: World| #[trigger]
                step.script(w) == onward_script(
                    w,
                    search.refuse_non_regular,
                    directory@,
                    marker,
                    row_script(
                        w,
                        search.refuse_non_regular,
                        directory@,
                        marker,
                        result_views(results@),
                        from as nat,
                    ),
                    Self::remaining(directory@, above as nat),
                    crate::dialogue::optional_view(bound),
                ),
    {
        let ghost views = result_views(results@);
        let ghost refuse = search.refuse_non_regular;
        let mut index: usize = from;
        while index < results.len() && results[index].located.is_some()
            invariant
                from <= index,
                index <= results.len() || index == from,
                views == result_views(results@),
                forall|w: World| #[trigger]
                    row_script(w, refuse, directory@, marker, views, from as nat) == row_script(
                        w,
                        refuse,
                        directory@,
                        marker,
                        views,
                        index as nat,
                    ),
            decreases results.len() - index,
        {
            index += 1;
        }
        if index < results.len() {
            let stage = Stage::Candidate { directory, bound, above, marker, index };
            return BatchStep::Ask(BatchInquiry { search, results, stage });
        }
        let at_bound = match &bound {
            Some(limit) => directory.same(limit),
            None => false,
        };
        if all_located(&results) || marker.is_some() || at_bound {
            return BatchStep::Done(Ok(results));
        }
        let step = Self::ascend(search, results, directory, bound, above);
        assert forall|w: World| #[trigger] step.script(w) == onward_script(
            w,
            refuse,
            directory@,
            marker,
            row_script(w, refuse, directory@, marker, views, from as nat),
            Self::remaining(directory@, above as nat),
            crate::dialogue::optional_view(bound),
        ) by {
            assert(Seq::<RequestView>::empty() + step.script(w).asks =~= step.script(w).asks);
        }
        step
    }

    /// Goes on with what was found in place of the file at `index`.
    fn judged(
        search: BatchSearch,
        results: Vec<BatchResult>,
        directory: PathParts,
        bound: Option<PathParts>,
        above: usize,
        marker: Option<GitMarker>,
        index: usize,
        entry: Result<EntryKind, ErrorKind>,
    ) -> (step: BatchStep)
        requires
            index < results@.len(),
            results@[index as int].located is None,
        ensures
            forall|w: World|
                #![trigger step.script(w)]
                ({
                    let refuse = search.refuse_non_regular;
                    let views = result_views(results@);
                    let path = single(refuse, views, index as int).candidate(directory@);
                    (w.entry)(path) == entry ==> onward_script(
                        w,
                        refuse,
                        directory@,
                        marker,
                        row_script(w, refuse, directory@, marker, views, index as nat),
                        Self::remaining(directory@, above as nat),
                        crate::dialogue::optional_view(bound),
                    ) == step.script(w).asking(RequestView::Inspect(path))
                }),
    {
        let ghost refuse = search.refuse_non_regular;
        let ghost views = result_views(results@);
        let ghost query = single(refuse, views, index as int);
        let ghost request = RequestView::Inspect(query.candidate(directory@));
        let ghost limit = crate::dialogue::optional_view(bound);
        let ghost above_it = Self::remaining(directory@, above as nat);
        let mut results = results;
        let path = directory.join(results[index].file_name.as_str());
        match judge(path, entry, search.refuse_non_regular) {
            Ok(hit) => {
                if hit {
                    let file_name = results[index].file_name.clone();
                    let located = Some(Located::found(&directory, file_name.as_str(), marker));
                    results.set(index, BatchResult { file_name, located });
                    assert(result_views(results@) =~= with_found(
                        views,
                        index as int,
                        directory@,
                        marker,
                    ));
                }
                let ghost next = result_views(results@);
                assert(index < results.len());
                let step = Self::advance(
                    search,
                    results,
                    directory,
                    bound,
                    above,
                    marker,
                    index + 1,
                );
                assert forall|w: World|
                    #![trigger step.script(w)]
                    (w.entry)(query.candidate(directory@)) == entry implies onward_script(
                    w,
                    refuse,
                    directory@,
                    marker,
                    row_script(w, refuse, directory@, marker, views, index as nat),
                    above_it,
                    limit,
                ) == step.script(w).asking(request) by {
                    let row = row_script(w, refuse, directory@, marker, next, index as nat + 1);
                    assert(row_script(w, refuse, directory@, marker, views, index as nat)
                        == row.asking(request));
                    asking_then_onward(
                        w,
                        refuse,
                        directory@,
                        marker,
                        row,
                        above_it,
                        limit,
                        request,
                    );
                }
                step
            },
            Err(error) => BatchStep::Done(Err(error)),
        }
    }

    /// Goes on with what was found in place of the marker.
    fn marked(
        search: BatchSearch,
        results: Vec<BatchResult>,
        directory: PathParts,
        bound: Option<PathParts>,
        above: usize,
        entry: Result<EntryKind, ErrorKind>,
    ) -> (step: BatchStep)
        ensures
            forall|w: World|
                #![trigger step.script(w)]
                (w.entry)(directory@.join(crate::dialogue::git())) == entry ==> walk_script(
                    w,
                    search.refuse_non_regular,
                    result_views(results@),
                    directory@.chain(above as nat + 1),
                    crate::dialogue::optional_view(bound),
                ) == step.script(w).asking(
                    RequestView::Inspect(directory@.join(crate::dialogue::git())),
                ),
    {
        proof {
            directory@.chain_above(above as nat + 1);
        }
        match git_marker(&directory, entry) {
            Ok(marker) => Self::advance(search, results, directory, bound, above, marker, 0),
            Err(error) => BatchStep::Done(Err(error)),
        }
    }

    /// Goes on with the answer to [`Self::request`]. An answer of another kind
    /// is passed over, and the same is asked again.
    pub fn resume(self, answer: Answer) -> (step: BatchStep)
        ensures
            !answer@.fits(self.pending()) ==> step == BatchStep::Ask(self),
            forall|w: World|
                #![trigger self.script(w)]
                #![trigger step.script(w)]
                w.answer(self.pending()) == answer@ ==> self.script(w) == step.script(w).asking(
                    self.pending(),
                ) && step.begins(w),
    {
        let step = self.next(answer);
        step.certify();
        step
    }

    /// Goes on with the answer to [`Self::request`].
    fn next(self, answer: Answer) -> (step: BatchStep)
        ensures
            !answer@.fits(self.pending()) ==> step == BatchStep::Ask(self),
            forall|w: World|
                #![trigger self.script(w)]
                #![trigger step.script(w)]
                w.answer(self.pending()) == answer@ ==> self.script(w) == step.script(w).asking(
                    self.pending(),
                ),
    {
        if !answer.fits(&self.request()) {
            return BatchStep::Ask(self);
        }
        proof {
            use_type_invariant(&self);
        }
        let ghost before = self;
        let BatchInquiry { search, results, stage } = self;
        match (stage, answer) {
            (Stage::Cwd, Answer::CurrentDir(Ok(start))) => {
                let stage = Stage::Home { start };
                BatchStep::Ask(BatchInquiry { search, results, stage })
            },
            (Stage::Cwd, Answer::CurrentDir(Err(kind))) => {
                BatchStep::Done(Err(unreadable(current_directory(), kind)))
            },
            (Stage::Home { start }, Answer::HomeDir(home)) => Self::begin(search, start, home),
            (Stage::Resolving(resolver), answer) => {
                let ghost given = answer@;
                let resolution = resolver.resume(answer);
                let step = Self::resolved(search, results, resolution);
                proof {
                    assert forall|w: World| w.answer(before.pending()) == given implies (
                    #[trigger] before.script(w)) == step.script(w).asking(before.pending()) by {
                        let next = |resolved: (PathView, Option<PathView>)|
                            walk_script(
                                w,
                                search.refuse_non_regular,
                                result_views(results@),
                                resolved.0.chain(MAX_ANCESTORS as nat),
                                resolved.1,
                            );
                        assert(resolver.script(w) == resolution.script(w).asking(
                            before.pending(),
                        ));
                        resolution.script(w).asking_then_following(before.pending(), next);
                    }
                }
                step
            },
            (Stage::Marker { directory, bound, above }, Answer::Entry(entry)) => {
                Self::marked(search, results, directory, bound, above, entry)
            },
            (
                Stage::Candidate { directory, bound, above, marker, index },
                Answer::Entry(entry),
            ) => Self::judged(search, results, directory, bound, above, marker, index, entry),
            (stage, _) => {
                // The answer fits, so it is none of those above.
                assert(false);
                BatchStep::Ask(BatchInquiry { search, results, stage })
            },
        }
    }
}

impl BatchStep {
    /// Establishes that this step asks now what it asks first.
    fn certify(&self)
        ensures
            forall|w: World| #[trigger] self.begins(w),
    {
        match self {
            BatchStep::Ask(inquiry) => {
                proof {
                    use_type_invariant(inquiry);
                }
            },
            BatchStep::Done(_) => {},
        }
        proof {
            self.always_begins();
        }
    }
}

/// A request in front of a directory's share is one in front of the walk.
proof fn asking_then_onward(
    w: World,
    refuse_non_regular: bool,
    below: PathView,
    marker: Option<GitMarker>,
    row: Script<Seq<BatchResultView>>,
    directories: Seq<PathView>,
    bound: Option<PathView>,
    request: RequestView,
)
    ensures
        onward_script(
            w,
            refuse_non_regular,
            below,
            marker,
            row.asking(request),
            directories,
            bound,
        ) == onward_script(
            w,
            refuse_non_regular,
            below,
            marker,
            row,
            directories,
            bound,
        ).asking(request),
{
    assert(onward_script(
        w,
        refuse_non_regular,
        below,
        marker,
        row.asking(request),
        directories,
        bound,
    ) =~= onward_script(
        w,
        refuse_non_regular,
        below,
        marker,
        row,
        directories,
        bound,
    ).asking(request));
}

/// Nothing found yet for any of `file_names`.
fn empty_results(file_names: &Vec<String>) -> (results: Vec<BatchResult>)
    ensures
        result_views(results@) == nothing_found(texts(file_names@)),
{
    let mut results: Vec<BatchResult> = Vec::new();
    let mut i: usize = 0;
    while i < file_names.len()
        invariant
            i <= file_names.len(),
            results.len() == i,
            forall|j: int|
                0 <= j < i ==> (#[trigger] results@[j])@ == (BatchResultView {
                    file_name: file_names@[j]@,
                    located: None,
                }),
        decreases file_names.len() - i,
    {
        results.push(BatchResult { file_name: file_names[i].clone(), located: None });
        i += 1;
    }
    assert(result_views(results@) =~= nothing_found(texts(file_names@)));
    results
}

/// Whether everything is found.
fn all_located(results: &Vec<BatchResult>) -> (all: bool)
    ensures
        all == complete(result_views(results@)),
{
    let mut i: usize = 0;
    while i < results.len()
        invariant
            i <= results.len(),
            forall|j: int| 0 <= j < i ==> (#[trigger] results@[j]).located is Some,
        decreases results.len() - i,
    {
        if results[i].located.is_none() {
            assert(result_views(results@)[i as int].located is None);
            return false;
        }
        i += 1;
    }
    true
}

/// The first of `file_names` that is not a bare file name.
fn first_refused(file_names: &Vec<String>, drives: bool) -> (name: Option<String>)
    ensures
        match name {
            Some(name) => refused(texts(file_names@), drives) == Some(name@),
            None => refused(texts(file_names@), drives) is None,
        },
{
    let ghost all = texts(file_names@);
    let mut i: usize = 0;
    assert(all.skip(0) =~= all);
    while i < file_names.len()
        invariant
            i <= file_names.len(),
            all == texts(file_names@),
            refused(all, drives) == refused(all.skip(i as int), drives),
        decreases file_names.len() - i,
    {
        assert(all.skip(i as int).drop_first() =~= all.skip(i + 1));
        if !is_bare_file_name(file_names[i].as_str(), drives) {
            return Some(file_names[i].clone());
        }
        i += 1;
    }
    None
}

/// What each of some texts stands for.
pub open spec fn names_view(file_names: Seq<&str>) -> Seq<Seq<char>> {
    Seq::new(file_names.len(), |i: int| file_names[i]@)
}

impl BatchSearch {
    /// The search for the nearest of each of `file_names`, on a platform that
    /// has `drives` or on one that has not.
    pub fn new(file_names: &[&str], drives: bool) -> (search: BatchSearch)
        ensures
            search@ == BatchSearchView::named(names_view(file_names@), drives),
    {
        let mut names: Vec<String> = Vec::new();
        let mut i: usize = 0;
        while i < file_names.len()
            invariant
                i <= file_names.len(),
                names.len() == i,
                forall|j: int| 0 <= j < i ==> (#[trigger] names@[j])@ == file_names@[j]@,
            decreases file_names.len() - i,
        {
            names.push(file_names[i].to_owned());
            i += 1;
        }
        assert(texts(names@) =~= names_view(file_names@));
        BatchSearch { file_names: names, refuse_non_regular: false, drives }
    }

    /// Says whether a candidate that is neither a file nor a symbolic link is
    /// an error rather than passed over.
    pub fn refuse_non_regular(self, refuse: bool) -> (search: BatchSearch)
        ensures
            search@ == (BatchSearchView { refuse_non_regular: refuse, ..self@ }),
    {
        BatchSearch { refuse_non_regular: refuse, ..self }
    }

    /// Begins the search at the current working directory. Outside any
    /// repository it goes no further than the home directory.
    pub fn here(self) -> (step: BatchStep)
        ensures
            forall|w: World| #[trigger]
                step.script(w) == self@.here_script(w) && step.begins(w),
    {
        let results: Vec<BatchResult> = Vec::new();
        let step = BatchStep::Ask(BatchInquiry { search: self, results, stage: Stage::Cwd });
        step.certify();
        step
    }

    /// Begins the search at `start`. Outside any repository it goes no further
    /// than the home directory.
    pub fn from(self, start: &PathParts) -> (step: BatchStep)
        ensures
            forall|w: World| #[trigger]
                step.script(w) == self@.from_script(w, start@) && step.begins(w),
    {
        let results: Vec<BatchResult> = Vec::new();
        let stage = Stage::Home { start: start.clone() };
        let step = BatchStep::Ask(BatchInquiry { search: self, results, stage });
        step.certify();
        step
    }

    /// Begins the search at `start`. Outside any repository it goes no further
    /// than `bound`, and with `None` as far as the root of the file system.
    pub fn within(self, start: &PathParts, bound: Option<&PathParts>) -> (step: BatchStep)
        ensures
            forall|w: World| #[trigger]
                step.script(w) == self@.bounded_script(
                    w,
                    start@,
                    crate::search::limit_view(bound),
                ) && step.begins(w),
    {
        let bound = match bound {
            Some(limit) => Some(limit.clone()),
            None => None,
        };
        let step = BatchInquiry::begin(self, start.clone(), bound);
        step.certify();
        step
    }
}

/// Locates several config filenames in one ancestor walk from the current
/// working directory, bounded by the home directory outside any repository.
///
/// The output preserves the input order. The batch is fail-fast: an unsafe or
/// unreadable candidate for any requested filename fails the entire call.
///
/// Prefer the single-file [`crate::Search`] / [`crate::locate`] for normal
/// library code. The batch is probably more complicated to use because one
/// caller now owns missing/error policy for several independent config concerns;
/// use it mainly for inventory-style callers that truly benefit from one walk.
///
/// `drives` says whether the platform has drives, so that a name can start with
/// one.
pub fn discover_many(file_names: &[&str], drives: bool) -> (step: BatchStep)
    ensures
        forall|w: World| #[trigger]
            step.script(w) == BatchSearchView::named(names_view(file_names@), drives).here_script(w)
                && step.begins(w),
{
    BatchSearch::new(file_names, drives).here()
}

/// [`discover_many`] from an explicit starting path.
///
/// The walk is bounded at the home directory when the environment names one,
/// matching [`crate::locate_from`].
pub fn discover_many_from(start: &PathParts, file_names: &[&str], drives: bool) -> (step: BatchStep)
    ensures
        forall|w: World| #[trigger]
            step.script(w) == BatchSearchView::named(names_view(file_names@), drives).from_script(
                w,
                start@,
            ) && step.begins(w),
{
    BatchSearch::new(file_names, drives).from(start)
}

/// Batch discovery with an explicit fallback bound. `None` walks toward the
/// filesystem root, still capped at [`MAX_ANCESTORS`].
///
/// The bound directory itself is searched; its parents are not.
pub fn discover_many_bounded(
    start: &PathParts,
    file_names: &[&str],
    bound: Option<&PathParts>,
    drives: bool,
) -> (step: BatchStep)
    ensures
        forall|w: World| #[trigger]
            step.script(w) == BatchSearchView::named(
                names_view(file_names@),
                drives,
            ).bounded_script(w, start@, crate::search::limit_view(bound)) && step.begins(w),
{
    BatchSearch::new(file_names, drives).within(start, bound)
}

} // verus!
