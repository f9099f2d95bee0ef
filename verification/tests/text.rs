//! Texts and paths.
use aw_watcher_agent::paths::{project_name_from_dir, project_name_from_file_name};
use aw_watcher_agent::text::text_at_most;
use std::path::Path;

#[test]
fn texts_are_ordered_as_strings_are() {
    let texts = ["", "a", "aa", "ab", "b", "B", "z", "\u{7f}", "\u{80}", "\u{d7ff}", "\u{e000}",
        "\u{ffff}", "\u{10000}", "a\u{10000}", "a\u{ffff}"];
    for a in texts {
        for b in texts {
            assert_eq!(text_at_most(a, b), a <= b, "{:?} {:?}", a, b);
        }
    }
}

fn expected_name(project_dir: &str) -> String {
    let project_dir = project_dir.trim_end_matches(['/', '\\']);
    if project_dir.is_empty() {
        return "root".to_string();
    }
    Path::new(project_dir)
        .file_name()
        .and_then(|s| s.to_str())
        .filter(|s| !s.is_empty())
        .unwrap_or(project_dir)
        .to_string()
}

#[test]
fn a_project_has_the_name_of_its_directory() {
    for dir in [
        "", "/", "//", "\\", "/\\/", ".", "..", "/.", "/..", "a", "a/", "/a", "/a/b", "a/b/",
        "a/b//", "a//b", "a/.", "a/./", "a/./.", "a/..", "/a/../..", "a/b/.", "./a", "./.",
        "/./", "//.", "a/b\\", "C:\\work\\demo", "C:\\work\\demo\\", "/tmp/example-project",
        "/tmp/example-project///", "/home/\u{fc}ser/\u{9879}\u{76ee}", "a/.b", "a/b.", "a/...",
        "/...", "a/. ", " ", "a/ /", "../..", "a\\.", "/x/.\\", "./..", ".//.",
    ] {
        assert_eq!(project_name_from_dir(dir), expected_name(dir), "{:?}", dir);
    }
    // These mean the same on every system.
    assert_eq!(project_name_from_dir("/tmp/example-project/"), "example-project");
    assert_eq!(project_name_from_dir("/tmp/example-project\\"), "example-project");
    assert_eq!(project_name_from_dir("work/./demo/."), "demo");
    assert_eq!(project_name_from_dir("///"), "root");
    assert_eq!(project_name_from_dir(""), "root");
    assert_eq!(project_name_from_dir("/a/.."), "/a/..");
}

#[test]
fn a_project_without_a_name_has_that_of_its_path() {
    let name = |dir: &str, file_name: Option<&str>| {
        project_name_from_file_name(dir, file_name.map(str::to_string))
    };
    assert_eq!(name("C:\\work\\demo\\", Some("demo")), "demo");
    assert_eq!(name("C:\\work\\..\\", None), "C:\\work\\..");
    assert_eq!(name("/a/b/", Some("")), "/a/b");
    assert_eq!(name("\\/", Some("demo")), "root");
}
