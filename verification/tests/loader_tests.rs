use woodhouse::loader::{load_summary, load_task_definitions};
use woodhouse::parser::ReadError;
use woodhouse::scanner::{scan_listing, DirListing};

#[test]
fn test_load_tasks_from_directory() {
    let files = vec!["tasks/good.toml".to_string(), "tasks/bad.toml".to_string()];
    let reads: Vec<Result<String, ReadError>> = vec![
        Ok("name = \"Good\"\ncommand = \"echo\"".to_string()),
        Ok("name = ".to_string()),
    ];
    let tasks = load_task_definitions(&files, &reads);
    assert!(!tasks.is_empty(), "expected at least one task file");

    for td in &tasks {
        if td.is_valid() {
            assert!(td.file_contents.is_some(), "valid task missing contents");
            assert!(td.task.is_some(), "valid task missing parsed task");
            assert!(td.errors.is_empty(), "valid task has unexpected errors");
        } else {
            assert!(td.task.is_none(), "invalid task unexpectedly parsed");
            assert!(!td.errors.is_empty(), "invalid task missing errors");
        }
    }
}

#[test]
fn test_load_tasks_from_nonexistent_directory() {
    let files = scan_listing(&DirListing::Missing).expect("missing directory is not fatal");
    let reads: Vec<Result<String, ReadError>> = Vec::new();
    let tasks = load_task_definitions(&files, &reads);
    assert!(tasks.is_empty());
}

#[test]
fn one_valid_one_malformed_loads_both() {
    let files = vec!["tasks/good.toml".to_string(), "tasks/bad.toml".to_string()];
    let reads: Vec<Result<String, ReadError>> = vec![
        Ok("name = \"Good\"\ncommand = \"echo\"".to_string()),
        Ok("name = ".to_string()),
    ];
    let tasks = load_task_definitions(&files, &reads);
    assert_eq!(tasks.len(), 2);
    assert!(tasks[0].is_valid());
    assert!(!tasks[1].is_valid());
    let (success, failed) = load_summary(&tasks);
    assert_eq!(success, 1);
    assert_eq!(failed, 1);
}

#[test]
fn outcomes_keep_scan_order() {
    let files = vec![
        "tasks/a.toml".to_string(),
        "tasks/b.toml".to_string(),
        "tasks/c.toml".to_string(),
    ];
    let reads: Vec<Result<String, ReadError>> = vec![
        Ok("name = \"A\"\ncommand = \"a\"".to_string()),
        Err(ReadError::NotFound),
        Ok("name = \"C\"\ncommand = \"c\"".to_string()),
    ];
    let tasks = load_task_definitions(&files, &reads);
    assert_eq!(tasks.len(), 3);
    assert_eq!(tasks[0].file_path, "tasks/a.toml");
    assert_eq!(tasks[1].file_path, "tasks/b.toml");
    assert_eq!(tasks[2].file_path, "tasks/c.toml");
    let (success, failed) = load_summary(&tasks);
    assert_eq!(success, 2);
    assert_eq!(failed, 1);
}

#[test]
fn summary_of_empty_collection_is_zero() {
    let (success, failed) = load_summary(&Vec::new());
    assert_eq!(success, 0);
    assert_eq!(failed, 0);
}
