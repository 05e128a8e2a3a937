use woodhouse::adapter::sort_for_display;
use woodhouse::app_config::{parse_u16, AppConfig, APP_PORT};
use woodhouse::task::{Task, TaskDefinition, TaskError, TaskRuntimeStatus};

fn task_named(name: &str) -> Task {
    Task {
        name: name.to_string(),
        env: None,
        command: "echo".to_string(),
        args: None,
        environment: None,
        schedule: Some("*/5 * * * *".to_string()),
        description: Some("a task".to_string()),
    }
}

fn valid_outcome(path: &str, name: &str) -> TaskDefinition {
    TaskDefinition {
        file_path: path.to_string(),
        file_contents: Some(String::new()),
        task: Some(task_named(name)),
        errors: Vec::new(),
    }
}

fn invalid_outcome(path: &str, errors: Vec<TaskError>) -> TaskDefinition {
    TaskDefinition {
        file_path: path.to_string(),
        file_contents: None,
        task: None,
        errors,
    }
}

#[test]
fn validity_matches_task_and_errors() {
    let good = valid_outcome("tasks/a.toml", "A");
    assert!(good.is_valid());
    assert!(good.task.is_some() && good.errors.is_empty());

    let bad = invalid_outcome(
        "tasks/b.toml",
        vec![TaskError::InvalidToml("boom".to_string())],
    );
    assert!(!bad.is_valid());
    assert!(bad.task.is_none() && !bad.errors.is_empty());
}

#[test]
fn display_name_prefers_task_name() {
    let td = valid_outcome("tasks/a.toml", "Nightly backup");
    assert_eq!(td.get_name(), "Nightly backup");
}

#[test]
fn display_name_falls_back_to_file_stem() {
    let td = invalid_outcome("tasks/broken.toml", Vec::new());
    assert_eq!(td.get_name(), "broken");
    let no_name = invalid_outcome("tasks/", Vec::new());
    assert_eq!(no_name.get_name(), "unknown");
}

#[test]
fn status_label_counts_errors() {
    let good = valid_outcome("tasks/a.toml", "A");
    assert_eq!(good.status_label(), "Valid");

    let one = invalid_outcome(
        "tasks/b.toml",
        vec![TaskError::InvalidToml("x".to_string())],
    );
    assert_eq!(one.status_label(), "Invalid (1 errors)");

    let twelve = invalid_outcome(
        "tasks/c.toml",
        (0..12).map(|i| TaskError::MissingField(format!("f{i}"))).collect(),
    );
    assert_eq!(twelve.status_label(), "Invalid (12 errors)");
}

#[test]
fn file_basename_strips_directories() {
    let td = valid_outcome("tasks/sub/a.toml", "A");
    assert_eq!(td.file_basename(), "a.toml");
    let bare = valid_outcome("plain.toml", "A");
    assert_eq!(bare.file_basename(), "plain.toml");
    let empty = valid_outcome("tasks/", "A");
    assert_eq!(empty.file_basename(), "unknown");
}

#[test]
fn optional_getters_come_from_the_task() {
    let td = valid_outcome("tasks/a.toml", "A");
    assert_eq!(td.schedule().as_deref(), Some("*/5 * * * *"));
    assert_eq!(td.environment_label(), None);
    assert_eq!(td.description().as_deref(), Some("a task"));

    let bad = invalid_outcome("tasks/b.toml", Vec::new());
    assert_eq!(bad.schedule(), None);
    assert_eq!(bad.environment_label(), None);
    assert_eq!(bad.description(), None);
}

#[test]
fn error_messages_render_each_kind() {
    assert_eq!(
        TaskError::FileNotFound("a.toml".to_string()).message(),
        "File not found: a.toml"
    );
    assert_eq!(
        TaskError::FileReadError("denied".to_string()).message(),
        "Failed to read file: denied"
    );
    assert_eq!(
        TaskError::InvalidToml("bad".to_string()).message(),
        "Invalid TOML: bad"
    );
    assert_eq!(
        TaskError::InvalidCron("* *".to_string()).message(),
        "Invalid cron expression: * *"
    );
    assert_eq!(
        TaskError::MissingField("name".to_string()).message(),
        "Missing required field: name"
    );
    assert_eq!(
        TaskError::InvalidCommand("rm".to_string()).message(),
        "Invalid command: rm"
    );
}

#[test]
fn runtime_status_defaults_to_idle() {
    let s = TaskRuntimeStatus::default();
    assert!(s.last_run.is_none());
    assert!(s.next_run.is_none());
    assert!(!s.is_running);
}

#[test]
fn display_sort_puts_valid_first_then_by_name() {
    let tasks = vec![
        invalid_outcome("tasks/zz.toml", vec![TaskError::InvalidToml("x".to_string())]),
        valid_outcome("tasks/b.toml", "beta"),
        invalid_outcome("tasks/aa.toml", vec![TaskError::InvalidToml("x".to_string())]),
        valid_outcome("tasks/a.toml", "alpha"),
    ];
    let sorted = sort_for_display(tasks);
    let names: Vec<String> = sorted.iter().map(|t| t.get_name()).collect();
    assert_eq!(names, vec!["alpha", "beta", "aa", "zz"]);
    assert!(sorted[0].is_valid() && sorted[1].is_valid());
    assert!(!sorted[2].is_valid() && !sorted[3].is_valid());
}

#[test]
fn display_sort_is_stable_on_ties() {
    // Equal validity and equal display name: the stored order must be kept.
    let first = TaskDefinition {
        file_path: "tasks/one.toml".to_string(),
        file_contents: Some(String::new()),
        task: Some(task_named("same")),
        errors: Vec::new(),
    };
    let mut second_task = task_named("same");
    second_task.schedule = Some("@daily".to_string());
    let second = TaskDefinition {
        file_path: "tasks/two.toml".to_string(),
        file_contents: Some(String::new()),
        task: Some(second_task),
        errors: Vec::new(),
    };
    let sorted = sort_for_display(vec![
        valid_outcome("tasks/z.toml", "zeta"),
        first,
        second,
    ]);
    assert_eq!(sorted[0].file_path, "tasks/one.toml");
    assert_eq!(sorted[1].file_path, "tasks/two.toml");
    assert_eq!(sorted[2].file_path, "tasks/z.toml");
}

#[test]
fn config_resolution_uses_defaults() {
    let cfg = AppConfig::resolve(None, None);
    assert_eq!(cfg.app_name, "Woodhouse");
    assert_eq!(cfg.port, APP_PORT);
    assert_eq!(cfg.tasks_directory, "tasks");
}

#[test]
fn config_resolution_reads_overrides() {
    let cfg = AppConfig::resolve(Some("8080".to_string()), Some("jobs".to_string()));
    assert_eq!(cfg.port, 8080);
    assert_eq!(cfg.tasks_directory, "jobs");

    let fallback = AppConfig::resolve(Some("not a port".to_string()), None);
    assert_eq!(fallback.port, APP_PORT);
}

#[test]
fn port_parsing_matches_decimal_rules() {
    assert_eq!(parse_u16("0"), Some(0));
    assert_eq!(parse_u16("4242"), Some(4242));
    assert_eq!(parse_u16("+123"), Some(123));
    assert_eq!(parse_u16("65535"), Some(65535));
    assert_eq!(parse_u16("65536"), None);
    assert_eq!(parse_u16(""), None);
    assert_eq!(parse_u16("+"), None);
    assert_eq!(parse_u16("-1"), None);
    assert_eq!(parse_u16("12a"), None);
    assert_eq!(parse_u16(" 12"), None);
}
