//! Names, paths and messages.

use ores_config_discovery::candidate::judge;
use ores_config_discovery::dialogue::{git_marker, unreadable};
use ores_config_discovery::name::is_bare_file_name;
use ores_config_discovery::report::{fallback_line, not_a_file_name};
use ores_config_discovery::search::current_directory;
use ores_config_discovery::{
    Answer, DiscoveryError, EntryKind, ErrorKind, GitMarker, Located, PathParts, Request,
};

fn path(root: &str, names: &[&str]) -> PathParts {
    PathParts {
        root: root.as_bytes().to_vec(),
        names: names.iter().map(|name| name.as_bytes().to_vec()).collect(),
        separator: b'/',
    }
}

#[test]
fn bare_file_names() {
    for drives in [false, true] {
        for good in [".ores-mw.toml", "a", "...", ".git", "ab:c", "1:2", "\u{e9}t\u{e9}", "a b"] {
            assert!(is_bare_file_name(good, drives), "{good}");
        }
        for bad in ["", ".", "..", "/", "a/b", "a/", "/a", "a\\b", "..\\a"] {
            assert!(!is_bare_file_name(bad, drives), "{bad}");
        }
    }
}

#[test]
fn drives_count_where_the_platform_has_them() {
    for name in ["C:", "c:settings", "Z:a", "a:b"] {
        assert!(!is_bare_file_name(name, true), "{name}");
        assert!(is_bare_file_name(name, false), "{name}");
    }
}

#[test]
fn joins_and_parents() {
    let directory = path("/", &["a", "b"]);
    assert_eq!(directory.join("c"), path("/", &["a", "b", "c"]));
    assert_eq!(directory.join("\u{e9}").names[2], vec![0xc3u8, 0xa9]);
    assert_eq!(directory.parent(), Some(path("/", &["a"])));
    assert_eq!(path("/", &["a"]).parent(), Some(path("/", &[])));
    assert_eq!(path("/", &[]).parent(), None);
    assert_eq!(directory.clone(), directory);
}

#[test]
fn paths_are_the_same_by_root_and_names() {
    let directory = path("/", &["a", "b"]);
    assert!(directory.same(&path("/", &["a", "b"])));
    assert!(!directory.same(&path("/", &["a", "c"])));
    assert!(!directory.same(&path("/", &["a"])));
    assert!(!directory.same(&path("", &["a", "b"])));
    assert!(!directory.same(&path("/", &["a", "bb"])));
    let other = PathParts {
        separator: b'\\',
        ..directory.clone()
    };
    assert!(!directory.same(&other));
}

#[test]
fn paths_as_text() {
    assert_eq!(path("/", &["a", "b"]).display(), "/a/b");
    assert_eq!(path("/", &[]).display(), "/");
    assert_eq!(path("", &["a", "b"]).display(), "a/b");
    let windows = |root: &str, names: &[&str]| PathParts {
        separator: b'\\',
        ..path(root, names)
    };
    assert_eq!(
        windows("\\\\?\\C:\\", &["a", "b"]).display(),
        "\\\\?\\C:\\a\\b"
    );
    assert_eq!(windows("", &["a", "b"]).display(), "a\\b");
    assert_eq!(windows("C:", &["a", "b"]).display(), "C:a\\b");
    let odd = PathParts {
        root: b"/".to_vec(),
        names: vec![vec![0x66, 0xff, 0x67]],
        separator: b'/',
    };
    assert_eq!(odd.display(), "/f\u{fffd}g");
}

#[test]
fn errors_in_words() {
    let at = path("/", &["a", "x.toml"]);
    assert_eq!(
        DiscoveryError::NotAFileName("a/\"b\"\n".to_owned()).to_message(),
        "\"a/\\\"b\\\"\\n\" is not a bare config file name"
    );
    assert_eq!(
        DiscoveryError::NotAFileName("../x.toml".to_owned()).to_message(),
        "\"../x.toml\" is not a bare config file name"
    );
    assert_eq!(
        not_a_file_name("\"..\""),
        "\"..\" is not a bare config file name"
    );
    assert_eq!(
        DiscoveryError::Symlink(at.clone()).to_message(),
        "refusing symlinked config at /a/x.toml"
    );
    assert_eq!(
        DiscoveryError::NotRegular(at.clone()).to_message(),
        "refusing non-regular config at /a/x.toml"
    );
    assert_eq!(
        unreadable(at, ErrorKind::PermissionDenied).to_message(),
        "cannot inspect config at /a/x.toml"
    );
}

#[test]
fn warnings() {
    let directory = path("/", &["srv"]);
    let stray = Located::found(&directory, "x.toml", None);
    assert_eq!(stray.path, path("/", &["srv", "x.toml"]));
    assert_eq!(
        stray.misplacement_warning("x.toml").as_deref(),
        Some(
            "x.toml was located at /srv, which is not a repository root (no .git beside it); \
             it will still be used, but it shadows any copy at the repository root and is \
             probably not the file you meant to edit"
        )
    );
    let rooted = Located::found(&directory, "x.toml", Some(GitMarker::File));
    assert!(rooted.at_repo_root);
    assert_eq!(rooted.misplacement_warning("x.toml"), None);
    assert_eq!(rooted.clone(), rooted);
}

#[test]
fn a_warning_that_was_not_sent_goes_to_standard_error() {
    assert_eq!(
        fallback_line("x.toml is misplaced", false).as_deref(),
        Some("warning: x.toml is misplaced")
    );
    assert_eq!(fallback_line("x.toml is misplaced", true), None);
}

#[test]
fn markers() {
    let directory = path("/", &["a"]);
    assert_eq!(
        git_marker(&directory, Ok(EntryKind::Directory)),
        Ok(Some(GitMarker::Directory))
    );
    for kind in [EntryKind::File, EntryKind::Symlink, EntryKind::Other] {
        assert_eq!(git_marker(&directory, Ok(kind)), Ok(Some(GitMarker::File)));
    }
    assert_eq!(git_marker(&directory, Err(ErrorKind::NotFound)), Ok(None));
    assert_eq!(
        git_marker(&directory, Err(ErrorKind::TimedOut)),
        Err(DiscoveryError::Unreadable {
            path: path("/", &["a", ".git"]),
            kind: ErrorKind::TimedOut,
        })
    );
}

#[test]
fn candidates() {
    let at = path("/", &["x.toml"]);
    assert_eq!(judge(at.clone(), Ok(EntryKind::File), true), Ok(true));
    assert_eq!(judge(at.clone(), Err(ErrorKind::NotFound), true), Ok(false));
    assert_eq!(judge(at.clone(), Ok(EntryKind::Directory), false), Ok(false));
    assert_eq!(judge(at.clone(), Ok(EntryKind::Other), false), Ok(false));
    assert_eq!(
        judge(at.clone(), Ok(EntryKind::Directory), true),
        Err(DiscoveryError::NotRegular(at.clone()))
    );
    assert_eq!(
        judge(at.clone(), Ok(EntryKind::Symlink), false),
        Err(DiscoveryError::Symlink(at.clone()))
    );
    assert_eq!(
        judge(at.clone(), Err(ErrorKind::Other), false),
        Err(unreadable(at, ErrorKind::Other))
    );
}

#[test]
fn answers_fit_their_requests() {
    let at = path("/", &["a"]);
    assert!(Answer::IsFile(true).fits(&Request::IsFile(at.clone())));
    assert!(!Answer::IsFile(true).fits(&Request::Inspect(at.clone())));
    assert!(Answer::Entry(Ok(EntryKind::File)).fits(&Request::Inspect(at.clone())));
    assert!(Answer::Canonical(Ok(at.clone())).fits(&Request::Canonicalize(at.clone())));
    assert!(!Answer::CurrentDir(Ok(at.clone())).fits(&Request::Canonicalize(at)));
    assert!(Answer::CurrentDir(Err(ErrorKind::NotFound)).fits(&Request::CurrentDir));
    assert!(Answer::HomeDir(None).fits(&Request::HomeDir));
    assert!(Answer::Reported.fits(&Request::Report("careful".to_owned())));
}

#[test]
fn the_current_directory_is_a_dot() {
    assert_eq!(current_directory(), path("", &["."]));
}
