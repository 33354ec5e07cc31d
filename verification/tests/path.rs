use baidupan_cli::path::LocalPath;
use std::path::Path;

const PATHS: &[&str] = &[
    "", "/", "//", ".", "./", "..", "../", "a", "a/", "a/.", "./a", "/a", "/a/", "//a//b//", "a/b/../c",
    "a/./b", "a//b", ".hidden", ".hidden.txt", "a.tar.gz", "a.", "a..", "...", "/a/..", "/.", "/./a/.",
    "./.", "a/./", "é/ü.txt", "x.y/z",
];

fn text(path: &Path) -> Option<String> {
    path.to_str().map(str::to_string)
}

#[test]
fn names_and_parents_are_those_of_std() {
    for path in PATHS {
        let ours = LocalPath::from_text(path);
        let theirs = Path::new(path);
        assert_eq!(
            ours.file_name(),
            theirs.file_name().and_then(|name| name.to_str()).map(str::to_string),
            "{path}"
        );
        assert_eq!(
            ours.parent().map(|parent| parent.display()),
            theirs.parent().and_then(text),
            "{path}"
        );
    }
}

#[test]
fn joins_and_extensions_are_those_of_std() {
    for path in PATHS {
        let ours = LocalPath::from_text(path);
        let theirs = Path::new(path);
        for tail in ["x", "x/y", "/x", ".x"] {
            assert_eq!(Some(ours.join(tail).display()), text(&theirs.join(tail)), "{path}");
        }
        assert_eq!(
            Some(ours.with_extension("json.tmp").display()),
            text(&theirs.with_extension("json.tmp")),
            "{path}"
        );
    }
}

#[test]
fn paths_are_the_same_as_in_std() {
    for a in PATHS {
        for b in PATHS {
            assert_eq!(
                LocalPath::from_text(a).same(&LocalPath::from_text(b)),
                Path::new(a) == Path::new(b),
                "{a} {b}"
            );
        }
    }
}

#[test]
fn names_that_are_not_text_are_left_out() {
    let path = LocalPath { bytes: b"/a/\xff".to_vec() };
    assert_eq!(path.file_name(), None);
    assert_eq!(path.display(), "/a/\u{fffd}");
    assert_eq!(path.parent(), Some(LocalPath::from_text("/a")));
}
