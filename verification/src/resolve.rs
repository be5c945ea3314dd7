//! Where a walk starts, and where it has to end.
//!
//! Both directories are resolved first, so that the walk follows the real
//! hierarchy and the two can be compared. A path that cannot be resolved is an
//! error and is never taken as it was written: that could move the boundary the
//! caller believes in, and let an unrelated config govern the process.

use vstd::prelude::*;

use crate::dialogue::{unreadable, Answer, Request, RequestView, Script, World};
use crate::path::{PathParts, PathView};
use crate::report::{DiscoveryError, DiscoveryErrorView};

verus! {

/// Resolves the limit of a walk, where there is one.
pub open spec fn bound_script(w: World, directory: PathView, bound: Option<PathView>) -> Script<
    (PathView, Option<PathView>),
> {
    match bound {
        None => Script::done((directory, None)),
        Some(limit) => {
            let rest = match (w.canonical)(limit) {
                Ok(canonical) => Script::done((directory, Some(canonical))),
                Err(kind) => Script::fails(DiscoveryErrorView::Unreadable { path: limit, kind }),
            };
            rest.asking(RequestView::Canonicalize(limit))
        },
    }
}

/// Takes the directory that holds `canonical` in place of a file.
pub open spec fn kind_script(w: World, canonical: PathView, bound: Option<PathView>) -> Script<
    (PathView, Option<PathView>),
> {
    let directory = if (w.is_file)(canonical) {
        canonical.holder()
    } else {
        canonical
    };
    bound_script(w, directory, bound).asking(RequestView::IsFile(canonical))
}

/// Resolves the start of a walk and then its limit; concludes the directory to
/// start from and the limit.
pub open spec fn resolve_script(w: World, start: PathView, bound: Option<PathView>) -> Script<
    (PathView, Option<PathView>),
> {
    let rest = match (w.canonical)(start) {
        Ok(canonical) => kind_script(w, canonical, bound),
        Err(kind) => Script::fails(DiscoveryErrorView::Unreadable { path: start, kind }),
    };
    rest.asking(RequestView::Canonicalize(start))
}

/// The start and the limit of a walk, while they are being resolved.
pub enum Resolver {
    /// The start is to be resolved.
    Start { start: PathParts, bound: Option<PathParts> },
    /// The start is resolved; it may be a file.
    Kind { canonical: PathParts, bound: Option<PathParts> },
    /// The starting directory is known; the limit is to be resolved.
    Bound { directory: PathParts, limit: PathParts },
}

/// How far a [`Resolver`] has come.
pub enum Resolution {
    /// There is more to ask.
    Resolving(Resolver),
    /// The directory to start from, and the limit.
    Resolved(PathParts, Option<PathParts>),
    /// One of them could not be resolved.
    Failed(DiscoveryError),
}

impl Resolver {
    /// What is asked next.
    pub open spec fn pending(self) -> RequestView {
        match self {
            Resolver::Start { start, bound } => RequestView::Canonicalize(start@),
            Resolver::Kind { canonical, bound } => RequestView::IsFile(canonical@),
            Resolver::Bound { directory, limit } => RequestView::Canonicalize(limit@),
        }
    }

    /// What is left to do.
    pub open spec fn script(self, w: World) -> Script<(PathView, Option<PathView>)> {
        match self {
            Resolver::Start { start, bound } => resolve_script(
                w,
                start@,
                crate::dialogue::optional_view(bound),
            ),
            Resolver::Kind { canonical, bound } => kind_script(
                w,
                canonical@,
                crate::dialogue::optional_view(bound),
            ),
            Resolver::Bound { directory, limit } => bound_script(w, directory@, Some(limit@)),
        }
    }

    /// What is asked next.
    pub(crate) fn request(&self) -> (request: Request)
        ensures
            request@ == self.pending(),
    {
        match self {
            Resolver::Start { start, bound: _ } => Request::Canonicalize(start.clone()),
            Resolver::Kind { canonical, bound: _ } => Request::IsFile(canonical.clone()),
            Resolver::Bound { directory: _, limit } => Request::Canonicalize(limit.clone()),
        }
    }

    /// Goes on with the answer to what was asked.
    pub(crate) fn resume(self, answer: Answer) -> (resolution: Resolution)
        requires
            answer@.fits(self.pending()),
        ensures
            forall|w: World|
                #![trigger self.script(w)]
                #![trigger resolution.script(w)]
                w.answer(self.pending()) == answer@ ==> self.script(w) == resolution.script(
                    w,
                ).asking(self.pending()),
    {
        match (self, answer) {
            (Resolver::Start { start, bound }, Answer::Canonical(Ok(canonical))) => {
                Resolution::Resolving(Resolver::Kind { canonical, bound })
            },
            (Resolver::Start { start, bound: _ }, Answer::Canonical(Err(kind))) => {
                Resolution::Failed(unreadable(start, kind))
            },
            (Resolver::Kind { canonical, bound }, Answer::IsFile(is_file)) => {
                let directory = if is_file {
                    match canonical.parent() {
                        Some(parent) => parent,
                        None => canonical,
                    }
                } else {
                    canonical
                };
                match bound {
                    Some(limit) => Resolution::Resolving(Resolver::Bound { directory, limit }),
                    None => Resolution::Resolved(directory, None),
                }
            },
            (Resolver::Bound { directory, limit: _ }, Answer::Canonical(Ok(canonical))) => {
                Resolution::Resolved(directory, Some(canonical))
            },
            (Resolver::Bound { directory: _, limit }, Answer::Canonical(Err(kind))) => {
                Resolution::Failed(unreadable(limit, kind))
            },
            (resolver, _) => {
                // The answer fits, so it is none of those above.
                assert(false);
                Resolution::Resolving(resolver)
            },
        }
    }
}

impl Resolution {
    /// What is left to do.
    pub open spec fn script(self, w: World) -> Script<(PathView, Option<PathView>)> {
        match self {
            Resolution::Resolving(resolver) => resolver.script(w),
            Resolution::Resolved(directory, bound) => Script::done(
                (directory@, crate::dialogue::optional_view(bound)),
            ),
            Resolution::Failed(error) => Script::fails(error@),
        }
    }
}

} // verus!
