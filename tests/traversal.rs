use seafile_share::entry::{DirEntry, Timestamp};
use seafile_share::traversal::{Recursive, Step, Traversal};

fn file(path: &str) -> DirEntry {
    DirEntry::File {
        name: path.rsplit('/').next().unwrap().to_string(),
        path: path.to_string(),
        size: 1,
        last_modified: None,
        download_url: format!("https://h/d/t/files/?p={path}&dl=1"),
        view_url: format!("https://h/d/t/files/?p={path}"),
    }
}

fn dir(path: &str) -> DirEntry {
    DirEntry::Directory {
        name: path.rsplit('/').next().unwrap().to_string(),
        path: path.to_string(),
        last_modified: Timestamp { seconds: 0, nanos: 0 },
        view_url: format!("https://h/d/t/?p={path}"),
    }
}

/// The listing of each directory of a small fixed tree.
fn children(path: &str) -> Vec<DirEntry> {
    match path {
        "/A" => vec![file("/A/1"), dir("/A/2")],
        "/A/2" => vec![file("/A/2/x")],
        "/B" => vec![dir("/B/1"), file("/B/2")],
        "/B/1" => vec![file("/B/1/y")],
        _ => Vec::new(),
    }
}

/// Runs a walk from `root` and records every step as (kind, name).
fn walk(root: &str, mode: Recursive, excludes: &[&str]) -> Vec<(&'static str, String)> {
    let mut t = Traversal::new(mode, excludes.iter().map(|s| s.to_string()).collect(), children(root));
    let mut seen = Vec::new();
    while let Some(step) = t.next_step() {
        match step {
            Step::Transfer(e) => seen.push(("file", e.name().to_string())),
            Step::Expand(e) => {
                seen.push(("dir", e.name().to_string()));
                t.expand(children(e.path()));
            }
            Step::Skipped(e) => seen.push(("skipped", e.name().to_string())),
            Step::Excluded(e) => seen.push(("excluded", e.name().to_string())),
        }
    }
    assert!(t.is_done());
    seen
}

fn names(steps: &[(&'static str, String)]) -> Vec<String> {
    steps.iter().filter(|(k, _)| *k == "file" || *k == "dir").map(|(_, n)| n.clone()).collect()
}

#[test]
fn depth_first_visits_in_order() {
    assert_eq!(names(&walk("/A", Recursive::Dfs, &[])), vec!["1", "2", "x"]);
    assert_eq!(names(&walk("/B", Recursive::Dfs, &[])), vec!["1", "y", "2"]);
}

#[test]
fn breadth_first_visits_level_by_level() {
    let a = names(&walk("/A", Recursive::Bfs, &[]));
    assert_eq!(a, vec!["1", "2", "x"]);
    let pos = |n: &str| a.iter().position(|m| m == n).unwrap();
    assert!(pos("1") < pos("x") && pos("2") < pos("x"));
    assert_eq!(names(&walk("/B", Recursive::Bfs, &[])), vec!["1", "2", "y"]);
}

#[test]
fn no_descent_skips_directories() {
    let steps = walk("/A", Recursive::Off, &[]);
    assert_eq!(steps, vec![("file", "1".to_string()), ("skipped", "2".to_string())]);
}

#[test]
fn excluded_directory_is_not_expanded() {
    let steps = walk("/A", Recursive::Dfs, &["/A/2"]);
    assert_eq!(steps, vec![("file", "1".to_string()), ("excluded", "2".to_string())]);
    let globbed = walk("/B", Recursive::Bfs, &["/B/*/y", "/nothing/**"]);
    assert_eq!(
        globbed,
        vec![("dir", "1".to_string()), ("file", "2".to_string()), ("excluded", "y".to_string())]
    );
}

#[test]
fn excluded_file_is_dropped() {
    let steps = walk("/A", Recursive::Dfs, &["/A/?"]);
    assert_eq!(steps, vec![("excluded", "1".to_string()), ("excluded", "2".to_string())]);
}

#[test]
fn empty_walk_ends_at_once() {
    let mut t = Traversal::new(Recursive::Dfs, Vec::new(), Vec::new());
    assert!(t.is_done());
    assert!(t.next_step().is_none());
}

#[test]
fn listing_of_excluded_directory_is_refused() {
    let mut t = Traversal::new(Recursive::Dfs, vec!["/A/2".to_string()], vec![dir("/A/2")]);
    assert!(matches!(t.next_step(), Some(Step::Excluded(_))));
    t.expand(children("/A/2"));
    assert!(t.is_done());
    assert!(t.next_step().is_none());
}

#[test]
fn listing_is_taken_once_per_expanded_directory() {
    let mut t = Traversal::new(Recursive::Bfs, Vec::new(), vec![dir("/A/2"), file("/A/1")]);
    assert!(matches!(t.next_step(), Some(Step::Expand(_))));
    t.expand(children("/A/2"));
    t.expand(children("/A/2"));
    assert!(matches!(t.next_step(), Some(Step::Transfer(e)) if e.path() == "/A/1"));
    t.expand(children("/A"));
    assert!(matches!(t.next_step(), Some(Step::Transfer(e)) if e.path() == "/A/2/x"));
    assert!(t.next_step().is_none());
}
