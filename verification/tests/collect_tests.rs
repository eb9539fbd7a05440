use sub_searcher::video::{collect_step, FsEntry, ListOutcome};

fn file(path: &str, has_sub: bool) -> FsEntry {
    FsEntry {
        path: path.to_string(),
        is_dir: false,
        has_sub_sibling: has_sub,
    }
}

fn dir(path: &str) -> FsEntry {
    FsEntry {
        path: path.to_string(),
        is_dir: true,
        has_sub_sibling: false,
    }
}

#[test]
fn test_collect_step_classifies_entries() {
    let exts = vec!["avi".to_string(), "mkv".to_string()];
    let mut pending: Vec<String> = Vec::new();
    let mut visited: Vec<String> = Vec::new();
    let mut found = Vec::new();
    let listing = ListOutcome::Listed(vec![
        file("/r/Movie.mkv", false),
        dir("/r/season2"),
        file("/r/notes.txt", false),
        file("/r/Old.avi", true),
    ]);
    collect_step(&mut pending, &mut visited, &mut found, "/r".to_string(), listing, &exts);
    assert_eq!(vec!["/r/season2".to_string()], pending);
    assert_eq!(vec!["/r".to_string()], visited);
    assert_eq!(2, found.len());
    assert_eq!("/r/Movie.mkv", found[0].path());
    assert!(!found[0].has_subs());
    assert_eq!("Old.avi", found[1].name());
    assert!(found[1].has_subs());
}

#[test]
fn test_collect_step_cycle_guard() {
    let exts = vec!["mkv".to_string()];
    let mut pending: Vec<String> = Vec::new();
    let mut visited: Vec<String> = Vec::new();
    let mut found = Vec::new();
    let first = ListOutcome::Listed(vec![file("/r/One.mkv", false), dir("/r/loop")]);
    collect_step(&mut pending, &mut visited, &mut found, "/r".to_string(), first, &exts);
    assert_eq!(1, found.len());
    assert_eq!(1, pending.len());
    // /r/loop resolves to the canonical path already folded in: nothing
    // is queued or collected again
    let again = ListOutcome::Listed(vec![file("/r/One.mkv", false), dir("/r/loop")]);
    collect_step(&mut pending, &mut visited, &mut found, "/r".to_string(), again, &exts);
    assert_eq!(1, found.len());
    assert_eq!(1, pending.len());
    assert_eq!(1, visited.len());
}

#[test]
fn test_traversal_skips_unreadable_subtree() {
    // A tree whose subdirectory `bad` cannot be listed: every video
    // reachable through readable directories is still reported.
    let exts = vec!["mkv".to_string()];
    let mut pending: Vec<String> = vec!["/r".to_string()];
    let mut visited: Vec<String> = Vec::new();
    let mut found = Vec::new();
    while let Some(d) = pending.pop() {
        let outcome = match d.as_str() {
            "/r" => ListOutcome::Listed(vec![
                dir("/r/bad"),
                dir("/r/good"),
                file("/r/Top.mkv", false),
            ]),
            "/r/bad" => ListOutcome::Unreadable,
            "/r/good" => ListOutcome::Listed(vec![file("/r/good/Reach.mkv", true)]),
            _ => ListOutcome::Listed(Vec::new()),
        };
        collect_step(&mut pending, &mut visited, &mut found, d.clone(), outcome, &exts);
    }
    let mut names: Vec<String> = found.iter().map(|v| v.name()).collect();
    names.sort();
    assert_eq!(vec!["Reach.mkv".to_string(), "Top.mkv".to_string()], names);
}
