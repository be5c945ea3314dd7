//! Whole searches, run against a tree of files held in memory.

use ores_config_discovery::{
    discover_many, discover_many_bounded, discover_many_from, locate, locate_and_report,
    locate_and_report_from, locate_bounded, locate_from, Answer, BatchResult, BatchSearch,
    BatchStep, DiscoveryError, EntryKind, ErrorKind, GitMarker, Located, PathParts, Request, Search,
    Step, MAX_ANCESTORS,
};
use std::collections::BTreeMap;

#[derive(Clone, Debug)]
enum Node {
    Dir,
    File,
    Socket,
    Link(String),
    /// There, but not to be inspected.
    Locked(ErrorKind),
}

/// A tree of files, with the paths of its entries as they are written.
struct Tree {
    nodes: BTreeMap<String, Node>,
    cwd: Result<String, ErrorKind>,
    home: Option<String>,
}

const ROOT: &str = "/tmp/tree";

fn parts(text: &str) -> PathParts {
    let root: Vec<u8> = if text.starts_with('/') {
        b"/".to_vec()
    } else {
        Vec::new()
    };
    let names: Vec<Vec<u8>> = text
        .split('/')
        .filter(|name| !name.is_empty())
        .map(|name| name.as_bytes().to_vec())
        .collect();
    PathParts {
        root,
        names,
        separator: b'/',
    }
}

fn text(path: &PathParts) -> String {
    path.display()
}

impl Tree {
    fn new() -> Self {
        let mut tree = Tree {
            nodes: BTreeMap::new(),
            cwd: Ok(ROOT.to_owned()),
            home: None,
        };
        tree.nodes.insert("/".to_owned(), Node::Dir);
        tree.dir("");
        tree
    }

    fn full(&self, relative: &str) -> String {
        if relative.is_empty() {
            ROOT.to_owned()
        } else {
            format!("{ROOT}/{relative}")
        }
    }

    fn dir(&mut self, relative: &str) -> PathParts {
        let path = self.full(relative);
        let mut at = String::new();
        for name in path.split('/').filter(|name| !name.is_empty()) {
            at = format!("{at}/{name}");
            self.nodes.entry(at.clone()).or_insert(Node::Dir);
        }
        parts(&path)
    }

    fn put(&mut self, relative: &str, node: Node) -> PathParts {
        let path = self.full(relative);
        if let Some(at) = relative.rfind('/') {
            self.dir(&relative[..at]);
        }
        self.nodes.insert(path.clone(), node);
        parts(&path)
    }

    fn file(&mut self, relative: &str) -> PathParts {
        self.put(relative, Node::File)
    }

    fn link(&mut self, relative: &str, target: &str) -> PathParts {
        let target = self.full(target);
        self.put(relative, Node::Link(target))
    }

    fn canonical(&self, path: &PathParts) -> Result<String, ErrorKind> {
        let mut at = String::new();
        for name in &path.names {
            at = format!("{at}/{}", String::from_utf8_lossy(name));
            match self.nodes.get(&at) {
                Some(Node::Link(target)) => at = target.clone(),
                Some(Node::Locked(kind)) => return Err(*kind),
                Some(_) => {}
                None => return Err(ErrorKind::NotFound),
            }
        }
        if at.is_empty() {
            at = "/".to_owned();
        }
        match self.nodes.get(&at) {
            Some(_) => Ok(at),
            None => Err(ErrorKind::NotFound),
        }
    }

    fn answer(&self, request: &Request) -> Answer {
        match request {
            Request::CurrentDir => Answer::CurrentDir(match &self.cwd {
                Ok(path) => Ok(parts(path)),
                Err(kind) => Err(*kind),
            }),
            Request::HomeDir => Answer::HomeDir(self.home.as_ref().map(|home| parts(home))),
            Request::Canonicalize(path) => {
                Answer::Canonical(self.canonical(path).map(|path| parts(&path)))
            }
            Request::IsFile(path) => {
                Answer::IsFile(matches!(self.nodes.get(&text(path)), Some(Node::File)))
            }
            Request::Inspect(path) => Answer::Entry(match self.nodes.get(&text(path)) {
                Some(Node::Dir) => Ok(EntryKind::Directory),
                Some(Node::File) => Ok(EntryKind::File),
                Some(Node::Socket) => Ok(EntryKind::Other),
                Some(Node::Link(_)) => Ok(EntryKind::Symlink),
                Some(Node::Locked(kind)) => Err(*kind),
                None => Err(ErrorKind::NotFound),
            }),
            Request::Report(_) => Answer::Reported,
        }
    }

    fn run(&self, step: Step) -> (Result<Option<Located>, DiscoveryError>, Vec<Request>) {
        let mut step = step;
        let mut asked: Vec<Request> = Vec::new();
        loop {
            match step {
                Step::Done(outcome) => return (outcome, asked),
                Step::Ask(inquiry) => {
                    let request = inquiry.request();
                    let answer = self.answer(&request);
                    asked.push(request);
                    step = inquiry.resume(answer);
                }
            }
        }
    }

    fn run_batch(
        &self,
        step: BatchStep,
    ) -> (Result<Vec<BatchResult>, DiscoveryError>, Vec<Request>) {
        let mut step = step;
        let mut asked: Vec<Request> = Vec::new();
        loop {
            match step {
                BatchStep::Done(outcome) => return (outcome, asked),
                BatchStep::Ask(inquiry) => {
                    let request = inquiry.request();
                    let answer = self.answer(&request);
                    asked.push(request);
                    step = inquiry.resume(answer);
                }
            }
        }
    }

    fn locate_bounded(
        &self,
        start: &PathParts,
        name: &str,
        bound: Option<&PathParts>,
    ) -> Result<Option<Located>, DiscoveryError> {
        self.run(locate_bounded(start, name, bound, false)).0
    }

    fn search(&self, start: &PathParts, name: &str) -> Option<Located> {
        self.locate_bounded(start, name, None).expect("no discovery error")
    }

    fn discover_many_bounded(
        &self,
        start: &PathParts,
        names: &[&str],
        bound: Option<&PathParts>,
    ) -> Result<Vec<BatchResult>, DiscoveryError> {
        self.run_batch(discover_many_bounded(start, names, bound, false)).0
    }
}

fn inspected(asked: &[Request]) -> Vec<String> {
    asked
        .iter()
        .filter_map(|request| match request {
            Request::Inspect(path) => Some(text(path)),
            _ => None,
        })
        .collect()
}

#[test]
fn locates_a_config_at_the_repository_root_from_a_nested_directory() {
    let mut tree = Tree::new();
    tree.file(".git/HEAD");
    let config = tree.file(".ores-mw.toml");
    let deep = tree.dir("crates/server/src");

    let found = tree.search(&deep, ".ores-mw.toml").expect("config is located");
    assert_eq!(found.path, config);
    assert!(found.at_repo_root, "a .git beside it makes it a root");
    assert!(found.misplacement_warning(".ores-mw.toml").is_none());
    assert_eq!(found.git_marker, Some(GitMarker::Directory));
}

#[test]
fn the_nearest_config_wins() {
    let mut tree = Tree::new();
    tree.file(".git/HEAD");
    tree.file(".ores-rl.toml");
    let nested = tree.file("service/.ores-rl.toml");
    let start = tree.dir("service/src");

    let found = tree.search(&start, ".ores-rl.toml").expect("config is located");
    assert_eq!(found.path, nested, "a nested override takes precedence");
}

#[test]
fn a_config_outside_a_repository_root_is_reported() {
    let mut tree = Tree::new();
    tree.file(".git/HEAD");
    tree.file("service/.ores-lru.toml");
    let start = tree.dir("service/src");

    let found = tree.search(&start, ".ores-lru.toml").expect("config is located");
    assert!(!found.at_repo_root, "no .git beside it");
    let warning = found
        .misplacement_warning(".ores-lru.toml")
        .expect("a misplaced config warns");
    assert!(warning.contains("not a repository root"));
    assert!(
        warning.contains("will still be used"),
        "the warning must say the file is honoured, or a reader will assume it was ignored"
    );
}

#[test]
fn a_missing_config_is_absent_rather_than_an_error() {
    let mut tree = Tree::new();
    let start = tree.dir("a/b");
    assert!(tree.search(&start, ".auth-shared.toml").is_none());
}

#[test]
fn a_directory_named_like_the_config_is_not_a_match() {
    let mut tree = Tree::new();
    tree.file(".git/HEAD");
    tree.dir(".opto-sync.toml");
    let start = tree.dir("sub");
    assert!(
        tree.search(&start, ".opto-sync.toml").is_none(),
        "only a regular file counts"
    );
}

#[test]
fn a_worktree_git_file_still_counts_as_a_root() {
    let mut tree = Tree::new();
    tree.file(".git");
    tree.file(".ores-otel.toml");
    let start = tree.dir("src");
    let found = tree.search(&start, ".ores-otel.toml").expect("config is located");
    assert!(found.at_repo_root, "a .git file marks a worktree root");
    assert_eq!(found.git_marker, Some(GitMarker::File));
}

#[test]
fn the_walk_never_crosses_a_repository_boundary() {
    let mut tree = Tree::new();
    tree.file(".git/HEAD");
    tree.file(".ores-compose.yaml");
    tree.file("vendor/inner/.git/HEAD");
    let start = tree.dir("vendor/inner/src");
    assert!(tree.search(&start, ".ores-compose.yaml").is_none());

    let (_, asked) = tree.run(locate_bounded(&start, ".ores-compose.yaml", None, false));
    for path in inspected(&asked) {
        assert!(path.starts_with("/tmp/tree/vendor/inner/"), "{path}");
    }
}

#[test]
fn outside_any_repository_the_walk_stops_at_the_bound() {
    let mut tree = Tree::new();
    tree.file(".ores-compose.yaml");
    let home = tree.dir("home/user");
    let project = tree.dir("home/user/proj");

    assert_eq!(
        tree.locate_bounded(&project, ".ores-compose.yaml", Some(&home)),
        Ok(None)
    );
    tree.file("home/user/.ores-compose.yaml");
    assert!(tree
        .locate_bounded(&project, ".ores-compose.yaml", Some(&home))
        .expect("no discovery error")
        .is_some());
}

#[test]
fn a_path_is_not_a_config_name() {
    let mut tree = Tree::new();
    tree.file(".git/HEAD");
    tree.file("secret/.ores-mw.toml");
    let root = tree.dir("");
    for bad in ["secret/.ores-mw.toml", "../.ores-mw.toml", ""] {
        assert!(matches!(
            tree.locate_bounded(&root, bad, None),
            Err(DiscoveryError::NotAFileName(_))
        ));
        let (_, asked) = tree.run(locate_bounded(&root, bad, None, false));
        assert_eq!(asked, vec![], "nothing is looked at for a name that is refused");
    }
}

#[test]
fn a_symlinked_home_still_bounds_the_walk() {
    let mut tree = Tree::new();
    tree.file(".ores-rl.toml");
    let project = tree.dir("realhome/proj");
    let link = tree.link("homelink", "realhome");
    assert_eq!(
        tree.locate_bounded(&project, ".ores-rl.toml", Some(&link)),
        Ok(None)
    );
}

#[test]
fn a_symlinked_config_is_refused() {
    let mut tree = Tree::new();
    tree.file(".git/HEAD");
    tree.file("elsewhere/real.toml");
    let link = tree.link(".ores-rl.toml", "elsewhere/real.toml");
    let start = tree.dir("src");
    assert!(matches!(
        tree.locate_bounded(&start, ".ores-rl.toml", None),
        Err(DiscoveryError::Symlink(_))
    ));
    assert_eq!(
        tree.locate_bounded(&start, ".ores-rl.toml", None),
        Err(DiscoveryError::Symlink(link))
    );
}

#[test]
fn batch_matches_repeated_single_discovery_and_preserves_order() {
    let mut tree = Tree::new();
    tree.file(".git/HEAD");
    tree.file(".ores-otel.toml");
    tree.file("service/.ores-rl.toml");
    let start = tree.dir("service/src/deep");
    let names = [".ores-rl.toml", ".ores-otel.toml", ".missing.toml"];

    let batch = tree
        .discover_many_bounded(&start, &names, None)
        .expect("batch succeeds");
    assert_eq!(batch.len(), names.len());

    for (entry, name) in batch.iter().zip(names) {
        assert_eq!(entry.file_name, name);
        assert_eq!(
            entry.located,
            tree.locate_bounded(&start, name, None)
                .expect("single discovery succeeds"),
            "batch semantics must match repeated single-file discovery"
        );
    }
}

#[test]
fn unresolved_entries_do_not_cross_a_git_boundary() {
    let mut tree = Tree::new();
    tree.file(".ores-compose.yaml");
    tree.file("vendor/inner/.git/HEAD");
    let start = tree.dir("vendor/inner/src");

    let batch = tree
        .discover_many_bounded(&start, &[".ores-compose.yaml"], None)
        .expect("batch succeeds");
    assert_eq!(batch[0].located, None);
}

#[test]
fn invalid_name_fails_the_batch_before_traversal() {
    let mut tree = Tree::new();
    let root = tree.dir("");
    let step = discover_many_bounded(&root, &[".ores-otel.toml", "../secret.toml"], None, false);
    let (outcome, asked) = tree.run_batch(step);
    assert!(matches!(
        outcome,
        Err(DiscoveryError::NotAFileName(name)) if name == "../secret.toml"
    ));
    assert_eq!(asked, vec![]);
}

#[test]
fn empty_batch_is_empty() {
    let mut tree = Tree::new();
    let root = tree.dir("");
    assert_eq!(
        tree.discover_many_bounded(&root, &[], None)
            .expect("empty batch succeeds"),
        Vec::<BatchResult>::new()
    );
}

#[test]
fn a_symlinked_candidate_fails_the_entire_batch() {
    let mut tree = Tree::new();
    tree.file(".git/HEAD");
    tree.file(".ores-otel.toml");
    tree.file("elsewhere/real.toml");
    tree.link(".ores-rl.toml", "elsewhere/real.toml");
    let start = tree.dir("src");

    assert!(matches!(
        tree.discover_many_bounded(&start, &[".ores-otel.toml", ".ores-rl.toml"], None),
        Err(DiscoveryError::Symlink(_))
    ));
}

#[test]
fn requests_come_in_order_and_no_more_than_needed() {
    let mut tree = Tree::new();
    tree.file(".git/HEAD");
    tree.file("a/x.toml");
    let start = tree.dir("a/b");
    let bound = tree.dir("");
    let (outcome, asked) = tree.run(locate_bounded(&start, "x.toml", Some(&bound), false));
    assert_eq!(
        asked,
        vec![
            Request::Canonicalize(parts("/tmp/tree/a/b")),
            Request::IsFile(parts("/tmp/tree/a/b")),
            Request::Canonicalize(parts("/tmp/tree")),
            Request::Inspect(parts("/tmp/tree/a/b/x.toml")),
            Request::Inspect(parts("/tmp/tree/a/b/.git")),
            Request::Inspect(parts("/tmp/tree/a/x.toml")),
            Request::Inspect(parts("/tmp/tree/a/.git")),
        ]
    );
    assert_eq!(
        outcome,
        Ok(Some(Located {
            path: parts("/tmp/tree/a/x.toml"),
            directory: parts("/tmp/tree/a"),
            git_marker: None,
            at_repo_root: false,
        }))
    );
}

#[test]
fn a_batch_probes_each_marker_once_and_walks_once() {
    let mut tree = Tree::new();
    tree.file(".git/HEAD");
    tree.file("a/x.toml");
    tree.file("y.toml");
    let start = tree.dir("a/b");
    let names = ["y.toml", "x.toml", "y.toml"];
    let (outcome, asked) = tree.run_batch(discover_many_bounded(&start, &names, None, false));
    assert_eq!(
        inspected(&asked),
        vec![
            "/tmp/tree/a/b/.git",
            "/tmp/tree/a/b/y.toml",
            "/tmp/tree/a/b/x.toml",
            "/tmp/tree/a/b/y.toml",
            "/tmp/tree/a/.git",
            "/tmp/tree/a/y.toml",
            "/tmp/tree/a/x.toml",
            "/tmp/tree/a/y.toml",
            "/tmp/tree/.git",
            "/tmp/tree/y.toml",
            "/tmp/tree/y.toml",
        ]
    );
    let results = outcome.expect("batch succeeds");
    let paths: Vec<String> = results
        .iter()
        .map(|entry| text(&entry.located.as_ref().expect("located").path))
        .collect();
    assert_eq!(
        paths,
        vec!["/tmp/tree/y.toml", "/tmp/tree/a/x.toml", "/tmp/tree/y.toml"]
    );
}

#[test]
fn a_batch_ends_once_everything_is_found() {
    let mut tree = Tree::new();
    tree.file("a/x.toml");
    let start = tree.dir("a");
    let (_, asked) = tree.run_batch(discover_many_bounded(&start, &["x.toml"], None, false));
    assert_eq!(
        inspected(&asked),
        vec!["/tmp/tree/a/.git", "/tmp/tree/a/x.toml"]
    );
}

#[test]
fn the_working_directory_and_the_home_directory_frame_a_search() {
    let mut tree = Tree::new();
    tree.file("x.toml");
    tree.dir("home/user/proj");
    tree.cwd = Ok("/tmp/tree/home/user/proj".to_owned());
    tree.home = Some("/tmp/tree/home/user".to_owned());
    let (outcome, asked) = tree.run(locate("x.toml", false));
    assert_eq!(outcome, Ok(None));
    assert_eq!(asked[0], Request::CurrentDir);
    assert_eq!(asked[1], Request::HomeDir);

    tree.home = None;
    let (outcome, _) = tree.run(locate("x.toml", false));
    assert_eq!(
        outcome.expect("no discovery error").expect("located").path,
        parts("/tmp/tree/x.toml")
    );
}

#[test]
fn an_unresolvable_working_directory_is_an_error() {
    let mut tree = Tree::new();
    tree.cwd = Err(ErrorKind::PermissionDenied);
    let expected = DiscoveryError::Unreadable {
        path: parts("."),
        kind: ErrorKind::PermissionDenied,
    };
    assert_eq!(tree.run(locate("x.toml", false)).0, Err(expected.clone()));
    assert_eq!(tree.run_batch(discover_many(&["x.toml"], false)).0, Err(expected));
}

#[test]
fn an_unresolvable_start_is_an_error() {
    let tree = Tree::new();
    let start = parts("/tmp/tree/nowhere");
    let expected = DiscoveryError::Unreadable {
        path: start.clone(),
        kind: ErrorKind::NotFound,
    };
    assert_eq!(tree.run(locate_from(&start, "x.toml", false)).0, Err(expected.clone()));
    assert_eq!(
        tree.run_batch(discover_many_from(&start, &["x.toml"], false)).0,
        Err(expected)
    );
}

#[test]
fn an_unresolvable_bound_is_an_error() {
    let mut tree = Tree::new();
    tree.file("x.toml");
    tree.home = Some("/gone".to_owned());
    let start = tree.dir("");
    let expected = DiscoveryError::Unreadable {
        path: parts("/gone"),
        kind: ErrorKind::NotFound,
    };
    assert_eq!(tree.run(locate("x.toml", false)).0, Err(expected.clone()));
    assert_eq!(
        tree.discover_many_bounded(&start, &["x.toml"], Some(&parts("/gone"))),
        Err(expected)
    );
}

#[test]
fn an_unreadable_candidate_is_an_error() {
    let mut tree = Tree::new();
    let path = tree.put("x.toml", Node::Locked(ErrorKind::PermissionDenied));
    let start = tree.dir("a");
    let expected = DiscoveryError::Unreadable {
        path,
        kind: ErrorKind::PermissionDenied,
    };
    assert_eq!(
        tree.locate_bounded(&start, "x.toml", None),
        Err(expected.clone())
    );
    assert_eq!(
        tree.discover_many_bounded(&start, &["x.toml"], None),
        Err(expected)
    );
}

#[test]
fn an_unreadable_marker_is_an_error() {
    let mut tree = Tree::new();
    tree.file("x.toml");
    let path = tree.put(".git", Node::Locked(ErrorKind::InvalidInput));
    let start = tree.dir("a");
    let expected = DiscoveryError::Unreadable {
        path,
        kind: ErrorKind::InvalidInput,
    };
    assert_eq!(
        tree.locate_bounded(&start, "x.toml", None),
        Err(expected.clone())
    );
    assert_eq!(
        tree.discover_many_bounded(&start, &["x.toml"], None),
        Err(expected)
    );
}

#[test]
fn a_dangling_git_link_is_a_boundary() {
    let mut tree = Tree::new();
    tree.file("x.toml");
    tree.link("inner/.git", "nowhere");
    let start = tree.dir("inner/src");
    assert_eq!(tree.locate_bounded(&start, "x.toml", None), Ok(None));
    tree.file("inner/x.toml");
    let found = tree.search(&start, "x.toml").expect("located");
    assert_eq!(found.git_marker, Some(GitMarker::File));
    assert!(found.at_repo_root);
}

#[test]
fn a_start_that_is_a_file_stands_for_its_directory() {
    let mut tree = Tree::new();
    let config = tree.file("a/x.toml");
    let start = tree.file("a/main.rs");
    assert_eq!(tree.search(&start, "x.toml").expect("located").path, config);
    let batch = tree
        .discover_many_bounded(&start, &["x.toml"], None)
        .expect("batch succeeds");
    assert_eq!(batch[0].located.as_ref().expect("located").path, config);
}

#[test]
fn non_regular_candidates_are_the_callers_policy() {
    let mut tree = Tree::new();
    let config = tree.file("x.toml");
    let odd = tree.put("a/x.toml", Node::Socket);
    let start = tree.dir("a/b");
    assert_eq!(tree.search(&start, "x.toml").expect("located").path, config);

    let strict = Search::new("x.toml", false).refuse_non_regular(true);
    assert_eq!(
        tree.run(strict.within(&start, None)).0,
        Err(DiscoveryError::NotRegular(odd.clone()))
    );
    let strict = BatchSearch::new(&["x.toml"], false).refuse_non_regular(true);
    assert_eq!(
        tree.run_batch(strict.from(&start)).0,
        Err(DiscoveryError::NotRegular(odd))
    );
}

#[test]
fn a_misplaced_config_is_reported_and_used() {
    let mut tree = Tree::new();
    tree.file(".git/HEAD");
    let config = tree.file("service/x.toml");
    let start = tree.dir("service/src");
    let (outcome, asked) = tree.run(locate_and_report_from(&start, "x.toml", false));
    assert_eq!(
        outcome.expect("no discovery error").expect("located").path,
        config
    );
    assert_eq!(
        asked.last(),
        Some(&Request::Report(
            "x.toml was located at /tmp/tree/service, which is not a repository root (no .git \
             beside it); it will still be used, but it shadows any copy at the repository root \
             and is probably not the file you meant to edit"
                .to_owned()
        ))
    );
    let (silent, asked_silently) = tree.run(locate_from(&start, "x.toml", false));
    assert!(silent.is_ok());
    assert_eq!(asked_silently.len() + 1, asked.len());
}

#[test]
fn a_config_in_its_place_is_not_reported() {
    let mut tree = Tree::new();
    tree.file(".git/HEAD");
    tree.file("x.toml");
    let (outcome, asked) = tree.run(locate_and_report("x.toml", false));
    assert!(outcome.expect("no discovery error").expect("located").at_repo_root);
    assert!(!asked.iter().any(|request| matches!(request, Request::Report(_))));
}

#[test]
fn the_walk_is_bounded() {
    let mut tree = Tree::new();
    let far = MAX_ANCESTORS;
    let near = MAX_ANCESTORS - 1;
    tree.file("x.toml");
    let deep: Vec<String> = (0..far).map(|level| format!("d{level}")).collect();
    let start = tree.dir(&deep.join("/"));
    assert_eq!(tree.locate_bounded(&start, "x.toml", None), Ok(None));
    let (_, asked) = tree.run(locate_bounded(&start, "x.toml", None, false));
    assert_eq!(inspected(&asked).len(), 2 * MAX_ANCESTORS);

    let start = tree.dir(&deep[..near].join("/"));
    assert_eq!(
        tree.search(&start, "x.toml").expect("located").path,
        parts("/tmp/tree/x.toml")
    );
}

#[test]
fn the_walk_ends_at_the_filesystem_root() {
    let mut tree = Tree::new();
    let start = tree.dir("");
    let (outcome, asked) = tree.run(locate_bounded(&start, "x.toml", None, false));
    assert_eq!(outcome, Ok(None));
    assert_eq!(
        inspected(&asked).last().map(String::as_str),
        Some("/.git")
    );
}

#[test]
fn an_answer_of_another_kind_is_passed_over() {
    let start = parts("/tmp/tree");
    let Step::Ask(inquiry) = locate_bounded(&start, "x.toml", None, false) else {
        panic!("the start is to be resolved");
    };
    let Step::Ask(inquiry) = inquiry.resume(Answer::IsFile(true)) else {
        panic!("the start is still to be resolved");
    };
    assert_eq!(inquiry.request(), Request::Canonicalize(start.clone()));

    let BatchStep::Ask(inquiry) = discover_many_bounded(&start, &["x.toml"], None, false) else {
        panic!("the start is to be resolved");
    };
    let BatchStep::Ask(inquiry) = inquiry.resume(Answer::Reported) else {
        panic!("the start is still to be resolved");
    };
    assert_eq!(inquiry.request(), Request::Canonicalize(start));
}

#[test]
fn searches_without_a_bound_here() {
    let mut tree = Tree::new();
    tree.file("x.toml");
    let (single, _) = tree.run(Search::new("x.toml", false).here());
    let (batch, _) = tree.run_batch(BatchSearch::new(&["x.toml"], false).here());
    let single = single.expect("no discovery error");
    assert!(single.is_some());
    assert_eq!(batch.expect("batch succeeds")[0].located, single);
    let (from, _) = tree.run(Search::new("x.toml", false).from(&parts("/tmp/tree")));
    assert_eq!(from, Ok(single.clone()));
    let within = BatchSearch::new(&["x.toml"], false).within(&parts("/tmp/tree"), None);
    assert_eq!(
        tree.run_batch(within).0.expect("batch succeeds")[0].located,
        single
    );
}

#[test]
fn the_same_config_from_whichever_subdirectory() {
    let mut tree = Tree::new();
    tree.file(".git/HEAD");
    let config = tree.file("x.toml");
    tree.put("a/x.toml", Node::Socket);
    let names = ["x.toml", "y.toml"];
    let root = tree.dir("");
    let expected = tree.locate_bounded(&root, "x.toml", None);
    let expected_batch = tree.discover_many_bounded(&root, &names, None);
    assert_eq!(
        expected.clone().expect("no discovery error").expect("located").path,
        config
    );
    for below in ["a", "a/b", "a/b/c", "d/e/f/g"] {
        let start = tree.dir(below);
        assert_eq!(tree.locate_bounded(&start, "x.toml", None), expected);
        assert_eq!(tree.discover_many_bounded(&start, &names, None), expected_batch);

        tree.cwd = Ok(text(&start));
        assert_eq!(tree.run(locate("x.toml", false)).0, expected);
        assert_eq!(tree.run_batch(discover_many(&names, false)).0, expected_batch);
    }
}

#[test]
fn inside_a_repository_the_bound_plays_no_part() {
    let mut tree = Tree::new();
    tree.file("repo/.git/HEAD");
    let config = tree.file("repo/x.toml");
    let start = tree.dir("repo/src");
    let outside = tree.dir("elsewhere");
    let above = tree.dir("");
    for bound in [None, Some(&outside), Some(&above)] {
        let found = tree.locate_bounded(&start, "x.toml", bound);
        assert_eq!(found.expect("no discovery error").expect("located").path, config);
        let batch = tree.discover_many_bounded(&start, &["x.toml"], bound);
        assert!(batch.expect("batch succeeds")[0].located.is_some());
    }
}

#[test]
fn farther_candidates_have_no_influence() {
    let mut tree = Tree::new();
    tree.file(".git/HEAD");
    tree.file("a/x.toml");
    tree.file("y.toml");
    let start = tree.dir("a/b");
    let names = ["x.toml", "y.toml"];
    let single = tree.locate_bounded(&start, "x.toml", None);
    let batch = tree.discover_many_bounded(&start, &names, None);
    assert!(batch.is_ok());

    tree.link("x.toml", "nowhere");
    assert_eq!(tree.locate_bounded(&start, "x.toml", None), single);
    assert_eq!(tree.discover_many_bounded(&start, &names, None), batch);
}

#[test]
fn a_resolved_start_resolves_to_itself() {
    let mut tree = Tree::new();
    tree.file("real/x.toml");
    let link = tree.link("alias", "real");
    let (_, asked) = tree.run(locate_bounded(&link, "x.toml", None, false));
    assert_eq!(asked[0], Request::Canonicalize(link));
    let resolved = parts("/tmp/tree/real");
    assert_eq!(asked[1], Request::IsFile(resolved.clone()));
    let (_, asked) = tree.run(locate_bounded(&resolved, "x.toml", None, false));
    assert_eq!(asked[0], Request::Canonicalize(resolved.clone()));
    assert_eq!(asked[1], Request::IsFile(resolved));
}

#[test]
fn drive_like_names_are_searched_for_where_there_are_no_drives() {
    let mut tree = Tree::new();
    let config = tree.file("c:settings");
    let start = tree.dir("a");
    assert_eq!(tree.search(&start, "c:settings").expect("located").path, config);
    let batch = tree.discover_many_bounded(&start, &["c:settings"], None);
    assert!(batch.expect("batch succeeds")[0].located.is_some());

    let expected = DiscoveryError::NotAFileName("c:settings".to_owned());
    let (outcome, asked) = tree.run(locate_bounded(&start, "c:settings", None, true));
    assert_eq!(outcome, Err(expected.clone()));
    assert_eq!(asked, vec![]);
    let names = ["x.toml", "c:settings"];
    let (outcome, _) = tree.run_batch(discover_many_bounded(&start, &names, None, true));
    assert_eq!(outcome, Err(expected));
}

#[test]
fn farther_candidates_have_no_influence_on_a_batch_that_fails() {
    let mut tree = Tree::new();
    tree.file(".git/HEAD");
    tree.file("a/x.toml");
    let refused = tree.link("y.toml", "nowhere");
    let start = tree.dir("a/b");
    let names = ["x.toml", "y.toml"];
    let before = tree.run_batch(discover_many_bounded(&start, &names, None, false));
    assert_eq!(before.0, Err(DiscoveryError::Symlink(refused)));

    tree.link("x.toml", "nowhere");
    let after = tree.run_batch(discover_many_bounded(&start, &names, None, false));
    assert_eq!(after, before);
}

#[test]
fn each_name_is_looked_up_once_in_a_directory_and_not_above_its_match() {
    let mut tree = Tree::new();
    tree.file(".git/HEAD");
    let matched = tree.file("a/x.toml");
    let above = tree.file("x.toml");
    let start = tree.dir("a/b");
    let names = ["x.toml", "y.toml", "x.toml", ".git"];
    let (outcome, asked) = tree.run_batch(discover_many_bounded(&start, &names, None, false));
    let results = outcome.expect("batch succeeds");
    assert_eq!(results[0].located, results[2].located);

    let times = |path: &PathParts| {
        asked
            .iter()
            .filter(|request| **request == Request::Inspect(path.clone()))
            .count()
    };
    for directory in ["a/b", "a", ""] {
        let directory = tree.dir(directory);
        assert_eq!(times(&directory.join("y.toml")), 1);
        assert_eq!(times(&directory.join(".git")), 2);
    }
    assert_eq!(times(&start.join("x.toml")), 2);
    assert_eq!(times(&matched), 2);
    assert_eq!(times(&above), 0);
}

#[test]
fn a_batch_that_ends_within_reach_is_the_same_from_below() {
    let mut tree = Tree::new();
    let deep = vec!["d"; MAX_ANCESTORS + 6].join("/");
    let upper = tree.dir(&deep);
    tree.file(&format!("{deep}/x.toml"));
    tree.file(&format!("{deep}/y.toml"));
    let lower = tree.dir(&format!("{deep}/e/f"));
    let names = ["x.toml", "y.toml"];
    let expected = tree.discover_many_bounded(&upper, &names, None);
    assert!(expected.clone().expect("batch succeeds")[1].located.is_some());
    assert_eq!(tree.discover_many_bounded(&lower, &names, None), expected);
}
