use woodhouse::scanner::{scan_listing, select_task_files, DirEntry, DirListing};

fn entry(path: &str, is_file: bool) -> DirEntry {
    DirEntry { path: path.to_string(), is_file }
}

#[test]
fn test_list_task_files() {
    let entries = vec![
        entry("tasks/b.toml", true),
        entry("tasks/a.toml", true),
        entry("tasks/readme.txt", true),
        entry("tasks/sub.toml", false),
    ];
    let files = select_task_files(&entries);
    assert!(!files.is_empty());
    assert_eq!(files, vec!["tasks/a.toml".to_string(), "tasks/b.toml".to_string()]);
}

#[test]
fn matching_files_are_all_returned_sorted() {
    let entries = vec![
        entry("tasks/zeta.toml", true),
        entry("tasks/notes.md", true),
        entry("tasks/Alpha.TOML", true),
        entry("tasks/middle.Toml", true),
        entry("tasks/folder.toml", false),
        entry("tasks/plain", true),
    ];
    let files = select_task_files(&entries);
    assert_eq!(files.len(), 3);
    assert_eq!(
        files,
        vec![
            "tasks/Alpha.TOML".to_string(),
            "tasks/middle.Toml".to_string(),
            "tasks/zeta.toml".to_string(),
        ]
    );
    for w in files.windows(2) {
        assert!(w[0] <= w[1]);
    }
}

#[test]
fn extension_requires_a_stem() {
    // A base name that is nothing but the extension has no extension at all.
    let entries = vec![entry("tasks/.toml", true), entry("tasks/a.toml", true)];
    let files = select_task_files(&entries);
    assert_eq!(files, vec!["tasks/a.toml".to_string()]);
}

#[test]
fn empty_listing_selects_nothing() {
    let files = select_task_files(&Vec::new());
    assert!(files.is_empty());
}

#[test]
fn missing_directory_scans_empty() {
    let r = scan_listing(&DirListing::Missing);
    assert!(r.expect("missing directory is not an error").is_empty());
}

#[test]
fn failed_listing_is_fatal() {
    let r = scan_listing(&DirListing::Failed("permission denied".to_string()));
    match r {
        Err(e) => assert_eq!(e.message, "permission denied"),
        Ok(_) => panic!("a failed listing must surface an error"),
    }
}

#[test]
fn listed_directory_scans_to_selected_files() {
    let listing = DirListing::Entries(vec![
        entry("tasks/two.toml", true),
        entry("tasks/one.toml", true),
    ]);
    let r = scan_listing(&listing).expect("listing succeeds");
    assert_eq!(r, vec!["tasks/one.toml".to_string(), "tasks/two.toml".to_string()]);
}
