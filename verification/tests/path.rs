use bot_harness::path::{is_absolute, join_path, normalize, resolve};
use std::path::{Component, Path, PathBuf};

/// What the components of a path come to.
fn by_components(path: &Path) -> PathBuf {
    let mut out = PathBuf::new();
    for c in path.components() {
        match c {
            Component::ParentDir => {
                out.pop();
            }
            Component::CurDir => {}
            other => out.push(other),
        }
    }
    out
}

const PATHS: [&str; 16] = [
    "", "/", "//", ".", "..", "a", "a/", "/a//b/./c", "/a/../b", "/../..", "a/../../b", "./a",
    "/a/b/../../..", "/a/...", "é/../ü", "/a b/c",
];

#[test]
fn paths_are_normalized_by_component() {
    for p in PATHS {
        let n = normalize(p);
        assert_eq!(Path::new(&n.to_text()), by_components(Path::new(p)), "{p:?}");
        let again = normalize(&n.to_text());
        assert_eq!(again.to_text(), n.to_text());
        assert_eq!(is_absolute(p), Path::new(p).is_absolute());
        for cwd in ["/", "/w/r", "/w/../r/"] {
            let want = by_components(&Path::new(cwd).join(p));
            assert_eq!(Path::new(&resolve(cwd, p).to_text()), want, "{cwd:?} {p:?}");
        }
    }
}

#[test]
fn directories_hold_what_is_under_them() {
    for a in PATHS {
        for b in PATHS {
            let under = by_components(Path::new(a)).starts_with(by_components(Path::new(b)));
            assert_eq!(normalize(a).starts_with(&normalize(b)), under, "{a:?} {b:?}");
        }
    }
    assert!(!normalize("/ab").starts_with(&normalize("/a")));
}

#[test]
fn names_are_put_in_directories() {
    for dir in ["/", "/a", "/a/", "a", ""] {
        let want = Path::new(dir).join("x/y");
        assert_eq!(join_path(dir, "x/y"), want.to_str().unwrap());
    }
}
