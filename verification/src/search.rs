//! The search for one config file.

use vstd::prelude::*;

use crate::candidate::judge;
use crate::dialogue::{git_marker, unreadable, Answer, Request, RequestView, Script, World};
use crate::name::is_bare_file_name;
use crate::path::{PathParts, PathView};
use crate::report::{
    DiscoveryError, DiscoveryErrorView, EntryKind, ErrorKind, GitMarker, Located, LocatedView,
};
use crate::resolve::{Resolution, Resolver};

verus! {

/// Ancestors examined before giving up, so a pathological path cannot turn
/// discovery into an unbounded scan.
pub const MAX_ANCESTORS: usize = 64;

/// What is searched for.
#[derive(Debug, PartialEq, Eq)]
pub struct Search {
    /// The bare name of the config file.
    pub file_name: String,
    /// Whether a candidate that is neither a file nor a symbolic link is an
    /// error. Such a candidate is passed over otherwise.
    pub refuse_non_regular: bool,
    /// Whether the platform has drives, so that a name can start with one.
    pub drives: bool,
}

/// What a [`Search`] stands for.
#[verifier::ext_equal]
pub struct SearchView {
    pub file_name: Seq<char>,
    pub refuse_non_regular: bool,
    pub drives: bool,
}

impl View for Search {
    type V = SearchView;

    open spec fn view(&self) -> SearchView {
        SearchView {
            file_name: self.file_name@,
            refuse_non_regular: self.refuse_non_regular,
            drives: self.drives,
        }
    }
}

/// The path that stands for the current working directory.
pub open spec fn here() -> PathView {
    PathView {
        root: Seq::empty(),
        names: seq![vstd::utf8::encode_utf8("."@)],
        separator: 0x2f,
    }
}

impl SearchView {
    /// The search for `file_name` as it goes unless told otherwise.
    pub open spec fn named(file_name: Seq<char>, drives: bool) -> SearchView {
        SearchView { file_name, refuse_non_regular: false, drives }
    }

    /// Whether the name that is searched for is a bare file name.
    pub open spec fn has_bare_name(self) -> bool {
        crate::name::bare(self.file_name, self.drives)
    }

    /// Where the file would be in `directory`.
    pub open spec fn candidate(self, directory: PathView) -> PathView {
        directory.join(vstd::utf8::encode_utf8(self.file_name))
    }

    /// Whether the file stands in `directory`.
    pub open spec fn verdict(self, w: World, directory: PathView) -> Result<
        bool,
        DiscoveryErrorView,
    > {
        let path = self.candidate(directory);
        crate::candidate::verdict(path, (w.entry)(path), self.refuse_non_regular)
    }

    /// What is made of `directory` once it is known what stands in it: the file
    /// if it is there, the end of the walk at a boundary, nothing yet otherwise.
    pub open spec fn conclusion(
        self,
        directory: PathView,
        bound: Option<PathView>,
        hit: bool,
        marker: Option<GitMarker>,
    ) -> Option<Option<LocatedView>> {
        if hit {
            Some(Some(LocatedView::found(directory, self.file_name, marker)))
        } else if marker is Some || bound == Some(directory) {
            Some(None)
        } else {
            None
        }
    }

    /// Looks for the marker of a repository root in `directory`.
    pub open spec fn marker_script(
        self,
        w: World,
        directory: PathView,
        bound: Option<PathView>,
        hit: bool,
    ) -> Script<Option<Option<LocatedView>>> {
        let rest = match w.marker(directory) {
            Ok(marker) => Script::done(self.conclusion(directory, bound, hit, marker)),
            Err(error) => Script::fails(error),
        };
        rest.asking(RequestView::Inspect(directory.join(crate::dialogue::git())))
    }

    /// Looks for the file in `directory`, then for the marker.
    pub open spec fn directory_script(
        self,
        w: World,
        directory: PathView,
        bound: Option<PathView>,
    ) -> Script<Option<Option<LocatedView>>> {
        let rest = match self.verdict(w, directory) {
            Ok(hit) => self.marker_script(w, directory, bound, hit),
            Err(error) => Script::fails(error),
        };
        rest.asking(RequestView::Inspect(self.candidate(directory)))
    }

    /// Searches `directories` in their order, up to the first that ends the
    /// walk.
    pub open spec fn walk_script(
        self,
        w: World,
        directories: Seq<PathView>,
        bound: Option<PathView>,
    ) -> Script<Option<LocatedView>>
        decreases directories.len(),
    {
        if directories.len() == 0 {
            Script::done(None)
        } else {
            self.directory_script(w, directories[0], bound).otherwise(
                self.walk_script(w, directories.drop_first(), bound),
            )
        }
    }

    /// Searches from `start` upward, outside any repository no further than
    /// `bound`.
    pub open spec fn bounded_script(
        self,
        w: World,
        start: PathView,
        bound: Option<PathView>,
    ) -> Script<Option<LocatedView>> {
        if self.has_bare_name() {
            crate::resolve::resolve_script(w, start, bound).followed_by(
                |resolved: (PathView, Option<PathView>)|
                    self.walk_script(w, resolved.0.chain(MAX_ANCESTORS as nat), resolved.1),
            )
        } else {
            Script::fails(DiscoveryErrorView::NotAFileName(self.file_name))
        }
    }

    /// Searches from `start` upward, outside any repository no further than the
    /// home directory.
    pub open spec fn from_script(self, w: World, start: PathView) -> Script<Option<LocatedView>> {
        self.bounded_script(w, start, w.home).asking(RequestView::HomeDir)
    }

    /// Searches from the current working directory upward.
    pub open spec fn here_script(self, w: World) -> Script<Option<LocatedView>> {
        let rest = match w.cwd {
            Ok(start) => self.from_script(w, start),
            Err(kind) => Script::fails(DiscoveryErrorView::Unreadable { path: here(), kind }),
        };
        rest.asking(RequestView::CurrentDir)
    }
}

impl Script<Option<LocatedView>> {
    /// The same, with a warning at the end where the file that was located does
    /// not sit at a repository root.
    pub open spec fn reporting(self, file_name: Seq<char>) -> Script<Option<LocatedView>> {
        match self.result {
            Ok(Some(located)) if !located.at_repo_root => Script {
                asks: self.asks.push(RequestView::Report(located.misplacement(file_name))),
                result: self.result,
            },
            _ => self,
        }
    }

    /// [`Self::reporting`] where `report` says so.
    pub open spec fn reporting_if(self, report: bool, file_name: Seq<char>) -> Script<
        Option<LocatedView>,
    > {
        if report {
            self.reporting(file_name)
        } else {
            self
        }
    }

    /// A request at the front and a warning at the end do not touch.
    pub proof fn asking_then_reporting(
        self,
        request: RequestView,
        report: bool,
        file_name: Seq<char>,
    )
        ensures
            self.asking(request).reporting_if(report, file_name) == self.reporting_if(
                report,
                file_name,
            ).asking(request),
    {
        assert(self.asking(request).reporting_if(report, file_name) =~= self.reporting_if(
            report,
            file_name,
        ).asking(request));
    }
}

/// How far a search has come.
enum Stage {
    /// The current working directory is to be found out.
    Cwd,
    /// The home directory is to be found out.
    Home { start: PathParts },
    /// The start and the limit are being resolved.
    Resolving(Resolver),
    /// The file is looked for in `directory`, and then in `above` more.
    Candidate { directory: PathParts, bound: Option<PathParts>, above: usize },
    /// The marker is looked for in `directory`.
    Marker { directory: PathParts, bound: Option<PathParts>, above: usize, hit: bool },
    /// The file was located, and a warning about it is to be shown.
    Report { located: Located, warning: String },
}

/// A search that waits for an answer.
pub struct Inquiry {
    search: Search,
    report: bool,
    stage: Stage,
}

/// A search that has come to its end, or that waits for an answer.
pub enum Step {
    /// The file, `None` where it is absent, or the reason why discovery refused
    /// to go on.
    Done(Result<Option<Located>, DiscoveryError>),
    /// Answer [`Inquiry::request`] through [`Inquiry::resume`].
    Ask(Inquiry),
}

/// The views of what a search concludes.
pub open spec fn outcome_view(outcome: Result<Option<Located>, DiscoveryError>) -> Result<
    Option<LocatedView>,
    DiscoveryErrorView,
> {
    match outcome {
        Ok(Some(located)) => Ok(Some(located@)),
        Ok(None) => Ok(None),
        Err(error) => Err(error@),
    }
}

impl Step {
    /// How the search goes on in `w`.
    pub open spec fn script(self, w: World) -> Script<Option<LocatedView>> {
        match self {
            Step::Done(outcome) => Script { asks: Seq::empty(), result: outcome_view(outcome) },
            Step::Ask(inquiry) => inquiry.script(w),
        }
    }

    /// Whether what is asked now, if anything is, is what comes first in `w`.
    pub open spec fn begins(self, w: World) -> bool {
        match self {
            Step::Done(_) => true,
            Step::Ask(inquiry) => {
                &&& inquiry.script(w).asks.len() > 0
                &&& inquiry.script(w).asks[0] == inquiry.pending()
            },
        }
    }

    /// A step asks now what it asks first, in every world. So one with nothing
    /// left to ask is done.
    pub proof fn always_begins(self)
        ensures
            forall|w: World| #[trigger] self.begins(w),
    {
        if let Step::Ask(inquiry) = self {
            assert forall|w: World| #[trigger] self.begins(w) by {
                inquiry.pending_is_first(w);
            }
        }
    }
}

impl Inquiry {
    /// What the search asks.
    pub closed spec fn pending(self) -> RequestView {
        match self.stage {
            Stage::Cwd => RequestView::CurrentDir,
            Stage::Home { start } => RequestView::HomeDir,
            Stage::Resolving(resolver) => resolver.pending(),
            Stage::Candidate { directory, bound, above } => RequestView::Inspect(
                self.search@.candidate(directory@),
            ),
            Stage::Marker { directory, bound, above, hit } => RequestView::Inspect(
                directory@.join(crate::dialogue::git()),
            ),
            Stage::Report { located, warning } => RequestView::Report(warning@),
        }
    }

    /// The directories above `directory` that are still to be searched.
    spec fn remaining(directory: PathView, above: nat) -> Seq<PathView> {
        directory.chain(above + 1).drop_first()
    }

    /// How the search goes on in `w`, the warning left aside.
    spec fn silent_script(self, w: World) -> Script<Option<LocatedView>> {
        let search = self.search@;
        match self.stage {
            Stage::Cwd => search.here_script(w),
            Stage::Home { start } => search.from_script(w, start@),
            Stage::Resolving(resolver) => resolver.script(w).followed_by(
                |resolved: (PathView, Option<PathView>)|
                    search.walk_script(w, resolved.0.chain(MAX_ANCESTORS as nat), resolved.1),
            ),
            Stage::Candidate { directory, bound, above } => {
                let bound = crate::dialogue::optional_view(bound);
                search.walk_script(w, directory@.chain(above as nat + 1), bound)
            },
            Stage::Marker { directory, bound, above, hit } => {
                let bound = crate::dialogue::optional_view(bound);
                search.marker_script(w, directory@, bound, hit).otherwise(
                    search.walk_script(w, Self::remaining(directory@, above as nat), bound),
                )
            },
            Stage::Report { located, warning } => Script::done(Some(located@)),
        }
    }

    /// How the search goes on in `w`: what it asks from here on, beginning with
    /// what is pending, and what it concludes.
    pub closed spec fn script(self, w: World) -> Script<Option<LocatedView>> {
        if self.stage is Report {
            self.silent_script(w).asking(self.pending())
        } else {
            self.silent_script(w).reporting_if(self.report, self.search@.file_name)
        }
    }

    /// What the search asks.
    pub fn request(&self) -> (request: Request)
        ensures
            request@ == self.pending(),
    {
        match &self.stage {
            Stage::Cwd => Request::CurrentDir,
            Stage::Home { start: _ } => Request::HomeDir,
            Stage::Resolving(resolver) => resolver.request(),
            Stage::Candidate { directory, bound: _, above: _ } => Request::Inspect(
                directory.join(self.search.file_name.as_str()),
            ),
            Stage::Marker { directory, bound: _, above: _, hit: _ } => Request::Inspect(
                directory.join(".git"),
            ),
            Stage::Report { located: _, warning } => Request::Report(warning.clone()),
        }
    }

    /// What is pending is what the search asks first, in every world.
    pub proof fn pending_is_first(self, w: World)
        ensures
            self.script(w).asks.len() > 0,
            self.script(w).asks[0] == self.pending(),
    {
        if let Stage::Candidate { directory, bound, above } = self.stage {
            directory@.chain_above(above as nat + 1);
        }
    }

    /// Ends the search with the file that was located.
    fn conclude(search: Search, report: bool, located: Located) -> (step: Step)
        ensures
            forall|w: World| #[trigger]
                step.script(w) == Script::done(Some(located@)).reporting_if(
                    report,
                    search@.file_name,
                ),
    {
        if report {
            match located.misplacement_warning(search.file_name.as_str()) {
                Some(warning) => {
                    let step = Step::Ask(
                        Inquiry { search, report, stage: Stage::Report { located, warning } },
                    );
                    assert forall|w: World| #[trigger]
                        step.script(w) == Script::done(Some(located@)).reporting_if(
                            report,
                            search@.file_name,
                        ) by {
                        assert(step.script(w) =~= Script::done(Some(located@)).reporting_if(
                            report,
                            search@.file_name,
                        ));
                    }
                    return step;
                },
                None => {},
            }
        }
        Step::Done(Ok(Some(located)))
    }

    /// Begins a search whose start is known.
    fn begin(search: Search, report: bool, start: PathParts, bound: Option<PathParts>) -> (step:
        Step)
        ensures
            forall|w: World| #[trigger]
                step.script(w) == search@.bounded_script(
                    w,
                    start@,
                    crate::dialogue::optional_view(bound),
                ).reporting_if(report, search@.file_name),
    {
        if !is_bare_file_name(search.file_name.as_str(), search.drives) {
            return Step::Done(Err(DiscoveryError::NotAFileName(search.file_name)));
        }
        Step::Ask(
            Inquiry {
                search,
                report,
                stage: Stage::Resolving(Resolver::Start { start, bound }),
            },
        )
    }

    /// Goes on once the start and the limit are resolved.
    fn resolved(search: Search, report: bool, resolution: Resolution) -> (step: Step)
        ensures
            forall|w: World| #[trigger]
                step.script(w) == resolution.script(w).followed_by(
                    |resolved: (PathView, Option<PathView>)|
                        search@.walk_script(w, resolved.0.chain(MAX_ANCESTORS as nat), resolved.1),
                ).reporting_if(report, search@.file_name),
    {
        match resolution {
            Resolution::Resolving(resolver) => Step::Ask(
                Inquiry { search, report, stage: Stage::Resolving(resolver) },
            ),
            Resolution::Resolved(directory, bound) => {
                let stage = Stage::Candidate { directory, bound, above: MAX_ANCESTORS - 1 };
                let step = Step::Ask(Inquiry { search, report, stage });
                assert forall|w: World| #[trigger]
                    step.script(w) == resolution.script(w).followed_by(
                        |resolved: (PathView, Option<PathView>)|
                            search@.walk_script(
                                w,
                                resolved.0.chain(MAX_ANCESTORS as nat),
                                resolved.1,
                            ),
                    ).reporting_if(report, search@.file_name) by {
                    let walk = search@.walk_script(
                        w,
                        directory@.chain(MAX_ANCESTORS as nat),
                        crate::dialogue::optional_view(bound),
                    );
                    assert(Seq::<RequestView>::empty() + walk.asks =~= walk.asks);
                }
                step
            },
            Resolution::Failed(error) => Step::Done(Err(error)),
        }
    }

    /// Goes on above `directory`, or ends where nothing is left to search.
    fn ascend(
        search: Search,
        report: bool,
        directory: PathParts,
        bound: Option<PathParts>,
        above: usize,
    ) -> (step: Step)
        ensures
            forall|w: World| #[trigger]
                step.script(w) == search@.walk_script(
                    w,
                    Self::remaining(directory@, above as nat),
                    crate::dialogue::optional_view(bound),
                ).reporting_if(report, search@.file_name),
    {
        proof {
            directory@.chain_above(above as nat + 1);
        }
        if above == 0 {
            return Step::Done(Ok(None));
        }
        match directory.parent() {
            Some(parent) => {
                let stage = Stage::Candidate { directory: parent, bound, above: above - 1 };
                Step::Ask(Inquiry { search, report, stage })
            },
            None => Step::Done(Ok(None)),
        }
    }

    /// Goes on with what was found in place of the file.
    fn judged(
        search: Search,
        report: bool,
        directory: PathParts,
        bound: Option<PathParts>,
        above: usize,
        entry: Result<EntryKind, ErrorKind>,
    ) -> (step: Step)
        ensures
            forall|w: World|
                #![trigger step.script(w)]
                (w.entry)(search@.candidate(directory@)) == entry ==> search@.walk_script(
                    w,
                    directory@.chain(above as nat + 1),
                    crate::dialogue::optional_view(bound),
                ).reporting_if(report, search@.file_name) == step.script(w).asking(
                    RequestView::Inspect(search@.candidate(directory@)),
                ),
    {
        let path = directory.join(search.file_name.as_str());
        let ghost limit = crate::dialogue::optional_view(bound);
        let ghost request = RequestView::Inspect(search@.candidate(directory@));
        let ghost name = search@.file_name;
        proof {
            directory@.chain_above(above as nat + 1);
        }
        match judge(path, entry, search.refuse_non_regular) {
            Ok(hit) => {
                let stage = Stage::Marker { directory, bound, above, hit };
                let step = Step::Ask(Inquiry { search, report, stage });
                assert forall|w: World|
                    #![trigger step.script(w)]
                    (w.entry)(search@.candidate(directory@)) == entry implies search@.walk_script(
                    w,
                    directory@.chain(above as nat + 1),
                    limit,
                ).reporting_if(report, name) == step.script(w).asking(request) by {
                    let rest = search@.marker_script(w, directory@, limit, hit);
                    let next = search@.walk_script(
                        w,
                        Self::remaining(directory@, above as nat),
                        limit,
                    );
                    assert(rest.asking(request).otherwise(next) =~= rest.otherwise(next).asking(
                        request,
                    ));
                    rest.otherwise(next).asking_then_reporting(request, report, name);
                }
                step
            },
            Err(error) => Step::Done(Err(error)),
        }
    }

    /// Goes on with what was found in place of the marker.
    fn marked(
        search: Search,
        report: bool,
        directory: PathParts,
        bound: Option<PathParts>,
        above: usize,
        hit: bool,
        entry: Result<EntryKind, ErrorKind>,
    ) -> (step: Step)
        ensures
            forall|w: World|
                #![trigger step.script(w)]
                (w.entry)(directory@.join(crate::dialogue::git())) == entry
                    ==> search@.marker_script(
                    w,
                    directory@,
                    crate::dialogue::optional_view(bound),
                    hit,
                ).otherwise(
                    search@.walk_script(
                        w,
                        Self::remaining(directory@, above as nat),
                        crate::dialogue::optional_view(bound),
                    ),
                ).reporting_if(report, search@.file_name) == step.script(w).asking(
                    RequestView::Inspect(directory@.join(crate::dialogue::git())),
                ),
    {
        let ghost limit = crate::dialogue::optional_view(bound);
        let ghost request = RequestView::Inspect(directory@.join(crate::dialogue::git()));
        let ghost name = search@.file_name;
        let ghost query = search@;
        let marker = match git_marker(&directory, entry) {
            Ok(marker) => marker,
            Err(error) => return Step::Done(Err(error)),
        };
        let step = if hit {
            let located = Located::found(&directory, search.file_name.as_str(), marker);
            Self::conclude(search, report, located)
        } else {
            let at_bound = match &bound {
                Some(limit) => directory.same(limit),
                None => false,
            };
            if marker.is_some() || at_bound {
                Step::Done(Ok(None))
            } else {
                Self::ascend(search, report, directory, bound, above)
            }
        };
        assert forall|w: World|
            #![trigger step.script(w)]
            (w.entry)(directory@.join(crate::dialogue::git())) == entry
                implies query.marker_script(w, directory@, limit, hit).otherwise(
            query.walk_script(w, Self::remaining(directory@, above as nat), limit),
        ).reporting_if(report, name) == step.script(w).asking(request) by {
            let next = query.walk_script(w, Self::remaining(directory@, above as nat), limit);
            let rest = Script::done(query.conclusion(directory@, limit, hit, marker));
            assert(rest.asking(request).otherwise(next) =~= rest.otherwise(next).asking(request));
            rest.otherwise(next).asking_then_reporting(request, report, name);
            assert(rest.otherwise(next).reporting_if(report, name) =~= step.script(w));
        }
        step
    }

    /// Goes on with the answer to [`Self::request`]. An answer of another kind
    /// is passed over, and the same is asked again.
    pub fn resume(self, answer: Answer) -> (step: Step)
        ensures
            !answer@.fits(self.pending()) ==> step == Step::Ask(self),
            forall|w: World|
                #![trigger self.script(w)]
                #![trigger step.script(w)]
                w.answer(self.pending()) == answer@ ==> self.script(w) == step.script(w).asking(
                    self.pending(),
                ) && step.begins(w),
    {
        let step = self.next(answer);
        proof {
            step.always_begins();
        }
        step
    }

    /// Goes on with the answer to [`Self::request`].
    fn next(self, answer: Answer) -> (step: Step)
        ensures
            !answer@.fits(self.pending()) ==> step == Step::Ask(self),
            forall|w: World|
                #![trigger self.script(w)]
                #![trigger step.script(w)]
                w.answer(self.pending()) == answer@ ==> self.script(w) == step.script(w).asking(
                    self.pending(),
                ),
    {
        if !answer.fits(&self.request()) {
            return Step::Ask(self);
        }
        let ghost before = self;
        let ghost name = self.search@.file_name;
        let Inquiry { search, report, stage } = self;
        match (stage, answer) {
            (Stage::Cwd, Answer::CurrentDir(Ok(start))) => {
                let step = Step::Ask(Inquiry { search, report, stage: Stage::Home { start } });
                proof {
                    assert forall|w: World| w.answer(before.pending()) == answer@ implies (
                    #[trigger] before.script(w)) == step.script(w).asking(before.pending()) by {
                        search@.from_script(w, start@).asking_then_reporting(
                            before.pending(),
                            report,
                            name,
                        );
                    }
                }
                step
            },
            (Stage::Cwd, Answer::CurrentDir(Err(kind))) => {
                Step::Done(Err(unreadable(current_directory(), kind)))
            },
            (Stage::Home { start }, Answer::HomeDir(home)) => {
                let step = Self::begin(search, report, start, home);
                proof {
                    assert forall|w: World| w.answer(before.pending()) == answer@ implies (
                    #[trigger] before.script(w)) == step.script(w).asking(before.pending()) by {
                        search@.bounded_script(w, start@, w.home).asking_then_reporting(
                            before.pending(),
                            report,
                            name,
                        );
                    }
                }
                step
            },
            (Stage::Resolving(resolver), answer) => {
                let ghost given = answer@;
                let resolution = resolver.resume(answer);
                let step = Self::resolved(search, report, resolution);
                proof {
                    assert forall|w: World| w.answer(before.pending()) == given implies (
                    #[trigger] before.script(w)) == step.script(w).asking(before.pending()) by {
                        let next = |resolved: (PathView, Option<PathView>)|
                            search@.walk_script(
                                w,
                                resolved.0.chain(MAX_ANCESTORS as nat),
                                resolved.1,
                            );
                        assert(resolver.script(w) == resolution.script(w).asking(
                            before.pending(),
                        ));
                        resolution.script(w).asking_then_following(before.pending(), next);
                        resolution.script(w).followed_by(next).asking_then_reporting(
                            before.pending(),
                            report,
                            name,
                        );
                    }
                }
                step
            },
            (Stage::Candidate { directory, bound, above }, Answer::Entry(entry)) => {
                Self::judged(search, report, directory, bound, above, entry)
            },
            (Stage::Marker { directory, bound, above, hit }, Answer::Entry(entry)) => {
                Self::marked(search, report, directory, bound, above, hit, entry)
            },
            (Stage::Report { located, warning: _ }, Answer::Reported) => {
                Step::Done(Ok(Some(located)))
            },
            (stage, _) => {
                // The answer fits, so it is none of those above.
                assert(false);
                Step::Ask(Inquiry { search, report, stage })
            },
        }
    }
}

/// The path that stands for the current working directory.
pub fn current_directory() -> (path: PathParts)
    ensures
        path@ == here(),
{
    let nowhere = PathParts { root: Vec::new(), names: Vec::new(), separator: 0x2f };
    let path = nowhere.join(".");
    assert(path@ =~= here());
    path
}

/// The view of a limit that may not be there.
pub open spec fn limit_view(bound: Option<&PathParts>) -> Option<PathView> {
    match bound {
        Some(limit) => Some(limit@),
        None => None,
    }
}

impl Search {
    /// The search for the nearest `file_name`, on a platform that has `drives`
    /// or on one that has not.
    pub fn new(file_name: &str, drives: bool) -> (search: Search)
        ensures
            search@ == SearchView::named(file_name@, drives),
    {
        Search { file_name: file_name.to_owned(), refuse_non_regular: false, drives }
    }

    /// Says whether a candidate that is neither a file nor a symbolic link is
    /// an error rather than passed over.
    pub fn refuse_non_regular(self, refuse: bool) -> (search: Search)
        ensures
            search@ == (SearchView { refuse_non_regular: refuse, ..self@ }),
    {
        Search { refuse_non_regular: refuse, ..self }
    }

    /// Begins the search at the current working directory. Outside any
    /// repository it goes no further than the home directory.
    pub fn here(self) -> (step: Step)
        ensures
            forall|w: World| #[trigger] step.script(w) == self@.here_script(w) && step.begins(w),
    {
        let step = Step::Ask(Inquiry { search: self, report: false, stage: Stage::Cwd });
        proof {
            step.always_begins();
        }
        step
    }

    /// Begins the search at `start`. Outside any repository it goes no further
    /// than the home directory.
    pub fn from(self, start: &PathParts) -> (step: Step)
        ensures
            forall|w: World| #[trigger]
                step.script(w) == self@.from_script(w, start@) && step.begins(w),
    {
        let start = start.clone();
        let step = Step::Ask(Inquiry { search: self, report: false, stage: Stage::Home { start } });
        proof {
            step.always_begins();
        }
        step
    }

    /// Begins the search at `start`. Outside any repository it goes no further
    /// than `bound`, and with `None` as far as the root of the file system.
    pub fn within(self, start: &PathParts, bound: Option<&PathParts>) -> (step: Step)
        ensures
            forall|w: World| #[trigger]
                step.script(w) == self@.bounded_script(w, start@, limit_view(bound))
                    && step.begins(w),
    {
        let bound = match bound {
            Some(limit) => Some(limit.clone()),
            None => None,
        };
        let step = Inquiry::begin(self, false, start.clone(), bound);
        proof {
            step.always_begins();
        }
        step
    }
}

/// Locates the nearest `file_name`, starting at the current working directory.
///
/// A config that is simply absent is `Ok(None)`, because absence is a normal
/// state that callers resolve with defaults. It is an error when the name is
/// not a bare file name, when the working directory, the start or the limit
/// cannot be resolved, and when a candidate is a symbolic link or cannot be
/// inspected. `drives` says whether the platform has drives, so that a name can
/// start with one.
pub fn locate(file_name: &str, drives: bool) -> (step: Step)
    ensures
        forall|w: World| #[trigger]
            step.script(w) == SearchView::named(file_name@, drives).here_script(w)
                && step.begins(w),
{
    Search::new(file_name, drives).here()
}

/// Locates the nearest `file_name` at or above `start`.
///
/// The first match wins. The walk stops after searching the first repository
/// root it meets, or the home directory when no repository root is met first.
pub fn locate_from(start: &PathParts, file_name: &str, drives: bool) -> (step: Step)
    ensures
        forall|w: World| #[trigger]
            step.script(w) == SearchView::named(file_name@, drives).from_script(w, start@)
                && step.begins(w),
{
    Search::new(file_name, drives).from(start)
}

/// [`locate_from`] with an explicit fallback bound instead of the home
/// directory.
///
/// A repository root still ends the walk first when one is met; `bound` only
/// applies outside any repository. Passing `None` walks to the filesystem root
/// (still capped at [`MAX_ANCESTORS`]).
pub fn locate_bounded(
    start: &PathParts,
    file_name: &str,
    bound: Option<&PathParts>,
    drives: bool,
) -> (step: Step)
    ensures
        forall|w: World| #[trigger]
            step.script(w) == SearchView::named(file_name@, drives).bounded_script(
                w,
                start@,
                limit_view(bound),
            ) && step.begins(w),
{
    Search::new(file_name, drives).within(start, bound)
}

/// Locates the nearest `file_name` and reports a misplaced one.
///
/// This is what a library should call: it behaves exactly like [`locate`], and
/// additionally asks for a warning to be shown when the file was not found at a
/// repository root.
pub fn locate_and_report(file_name: &str, drives: bool) -> (step: Step)
    ensures
        forall|w: World| #[trigger]
            step.script(w) == SearchView::named(file_name@, drives).here_script(w).reporting(
                file_name@,
            ) && step.begins(w),
{
    let search = Search::new(file_name, drives);
    let step = Step::Ask(Inquiry { search, report: true, stage: Stage::Cwd });
    proof {
        step.always_begins();
    }
    step
}

/// [`locate_and_report`] from an explicit starting directory.
pub fn locate_and_report_from(start: &PathParts, file_name: &str, drives: bool) -> (step: Step)
    ensures
        forall|w: World| #[trigger]
            step.script(w) == SearchView::named(file_name@, drives).from_script(
                w,
                start@,
            ).reporting(file_name@) && step.begins(w),
{
    let stage = Stage::Home { start: start.clone() };
    let step = Step::Ask(Inquiry { search: Search::new(file_name, drives), report: true, stage });
    proof {
        step.always_begins();
    }
    step
}

} // verus!
