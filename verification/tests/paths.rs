//! Unix paths, held against those of the standard library.

use std::path::Path;

use iced_webview::path::UnixPath;

const TEXTS: [&str; 32] = [
    "",
    "/",
    "//",
    "///a",
    ".",
    "./",
    "./a",
    "a/.",
    "a/./b",
    "a//b",
    "a/b/",
    "a/b//",
    "a/b/.",
    "..",
    "../a",
    "a/..",
    "/..",
    "/.",
    "/./a",
    "/a",
    "/a/",
    "/a/b",
    "/usr/bin/app",
    "/usr//bin/./app",
    "bin/app",
    "app",
    ".hidden",
    "...",
    "a b/c d",
    "/ä/ö",
    "./libpdfium.so",
    "/usr/lib/cef",
];

fn text(path: &UnixPath) -> String {
    String::from_utf8(path.as_bytes().to_vec()).unwrap()
}

#[test]
fn file_names_agree_with_std() {
    for t in TEXTS {
        let ours = UnixPath::from_text(t)
            .file_name()
            .map(|n| String::from_utf8(n).unwrap());
        let theirs = Path::new(t)
            .file_name()
            .map(|n| n.to_str().unwrap().to_owned());
        assert_eq!(ours, theirs, "file name of {t:?}");
    }
}

#[test]
fn parents_agree_with_std() {
    for t in TEXTS {
        let ours = UnixPath::from_text(t).parent().map(|p| text(&p));
        let theirs = Path::new(t)
            .parent()
            .map(|p| p.to_str().unwrap().to_owned());
        assert_eq!(ours, theirs, "parent of {t:?}");
    }
}

#[test]
fn joins_agree_with_std() {
    for base in TEXTS {
        for tail in ["x", "x/y", "/x", "", "./x", "lib/cef"] {
            let ours = text(&UnixPath::from_text(base).join(tail.as_bytes()));
            let theirs = Path::new(base).join(tail);
            assert_eq!(ours, theirs.to_str().unwrap(), "{base:?} with {tail:?}");
        }
    }
}

#[test]
fn equality_agrees_with_std() {
    for a in TEXTS {
        for b in TEXTS {
            let ours = UnixPath::from_text(a) == UnixPath::from_text(b);
            let theirs = Path::new(a) == Path::new(b);
            assert_eq!(ours, theirs, "{a:?} and {b:?}");
        }
    }
}

#[test]
fn absoluteness_agrees_with_std() {
    for t in TEXTS {
        assert_eq!(
            UnixPath::from_text(t).is_absolute(),
            Path::new(t).is_absolute(),
            "{t:?}"
        );
    }
}

#[test]
fn a_joined_name_is_the_file_name() {
    let joined = UnixPath::from_text("/usr/lib").join(b"cef");
    assert_eq!(joined.as_bytes(), b"/usr/lib/cef");
    assert_eq!(joined.file_name(), Some(b"cef".to_vec()));
    assert_eq!(joined.parent(), Some(UnixPath::from_text("/usr/lib")));
}

#[test]
fn a_parent_has_one_component_less() {
    let path = UnixPath::from_text("/a/b/c");
    let parent = path.parent().unwrap();
    assert_eq!(parent.components().len() + 1, path.components().len());
    assert!(path.duplicate() == path);
    assert!(UnixPath::new(b"").is_empty());
}
