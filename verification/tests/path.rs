use proton_drive::path::{components, join, same_path, starts_with, PathPart};
use proton_drive::webview_storage::persistent_webview_data_dir;
use std::path::{Component, Path};

fn name(text: &str) -> PathPart {
    PathPart::Normal(text.as_bytes().to_vec())
}

const PATHS: [&str; 22] = [
    "", "/", "//", ".", "./", "..", "a", "a/", "/a", "a/b", "a//b", "a/./b", "./a", "./.", "/./a",
    "/..", "../a", "a/..", "a/../b", ".a", "...", "/a/b/c/",
];

#[test]
fn parts_of_paths() {
    assert_eq!(components(b""), vec![]);
    assert_eq!(components(b"/"), vec![PathPart::RootDir]);
    assert_eq!(
        components(b"/a//b/./c/"),
        vec![PathPart::RootDir, name("a"), name("b"), name("c")]
    );
    assert_eq!(
        components(b"./a/../b"),
        vec![PathPart::CurDir, name("a"), PathPart::ParentDir, name("b")]
    );
}

#[test]
fn parts_are_those_of_the_system() {
    for path in PATHS {
        let expected: Vec<PathPart> = Path::new(path)
            .components()
            .map(|part| match part {
                Component::RootDir => PathPart::RootDir,
                Component::CurDir => PathPart::CurDir,
                Component::ParentDir => PathPart::ParentDir,
                Component::Normal(text) => name(text.to_str().unwrap()),
                Component::Prefix(_) => unreachable!(),
            })
            .collect();
        assert_eq!(components(path.as_bytes()), expected, "{path:?}");
    }
}

#[test]
fn joins_are_those_of_the_system() {
    for base in PATHS {
        for path in PATHS {
            assert_eq!(
                join(base.as_bytes(), path.as_bytes()),
                Path::new(base).join(path).to_str().unwrap().as_bytes(),
                "{base:?} {path:?}"
            );
        }
    }
}

#[test]
fn comparisons_are_those_of_the_system() {
    for a in PATHS {
        for b in PATHS {
            assert_eq!(
                starts_with(a.as_bytes(), b.as_bytes()),
                Path::new(a).starts_with(b),
                "{a:?} {b:?}"
            );
            assert_eq!(
                same_path(a.as_bytes(), b.as_bytes()),
                Path::new(a) == Path::new(b),
                "{a:?} {b:?}"
            );
        }
    }
}

#[test]
fn starting_with_goes_by_whole_names() {
    assert!(starts_with(b"/home/u/Sync", b"/home/u"));
    assert!(!starts_with(b"/home/user", b"/home/u"));
}

#[test]
fn webview_data_lies_under_the_app_data() {
    assert_eq!(persistent_webview_data_dir(b"/data/app"), b"/data/app/webview");
    assert_eq!(persistent_webview_data_dir(b"/data/app/"), b"/data/app/webview");
    assert_eq!(persistent_webview_data_dir(b""), b"webview");
}
