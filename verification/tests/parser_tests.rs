use woodhouse::parser::{deserialize_task, parse_task_file, ReadError};
use woodhouse::task::TaskError;

const VALID: &str = r#"name = "Test task"
env = "test"
command = "echo"
args = ["Hello, World!"]
schedule = "*/5 * * *""#;

#[test]
fn parse_valid_inline() {
    let task = deserialize_task(VALID).expect("should parse");
    assert_eq!(task.name, "Test task");
}

#[test]
fn missing_file_error() {
    let td = parse_task_file("tasks/does_not_exist.toml", &Err(ReadError::NotFound));
    assert!(!td.is_valid());
    assert!(
        td.errors
            .iter()
            .any(|e| matches!(e, TaskError::FileNotFound(_)))
    );
}

#[test]
fn invalid_toml_error() {
    let bad = "name = ";
    let res = deserialize_task(bad);
    assert!(matches!(res, Err(TaskError::InvalidToml(_))));
}

#[test]
fn full_valid_file_parses_to_valid_outcome() {
    let content = r#"name = "Test task"
env = "test"
command = "echo"
args = ["Hello, World!"]
schedule = "*/5 * * * *""#;
    let td = parse_task_file("tasks/full.toml", &Ok(content.to_string()));
    assert!(td.is_valid());
    assert_eq!(td.file_contents.as_deref(), Some(content));
    let task = td.task.as_ref().expect("task present");
    assert_eq!(task.name, "Test task");
    assert_eq!(task.command, "echo");
    assert_eq!(task.args.as_deref(), Some(&["Hello, World!".to_string()][..]));
    assert_eq!(task.schedule.as_deref(), Some("*/5 * * * *"));
    assert_eq!(task.env.as_deref(), Some("test"));
    assert!(td.errors.is_empty());
}

#[test]
fn truncated_value_is_one_invalid_toml_failure() {
    let td = parse_task_file("tasks/bad.toml", &Ok("name = ".to_string()));
    assert!(!td.is_valid());
    assert!(td.task.is_none());
    assert_eq!(td.errors.len(), 1);
    assert!(matches!(td.errors[0], TaskError::InvalidToml(_)));
    assert_eq!(td.file_contents.as_deref(), Some("name = "));
}

#[test]
fn missing_file_outcome_has_no_contents() {
    let td = parse_task_file("tasks/absent.toml", &Err(ReadError::NotFound));
    assert!(td.file_contents.is_none());
    assert!(td.task.is_none());
    assert_eq!(td.errors.len(), 1);
    assert!(matches!(td.errors[0], TaskError::FileNotFound(_)));
}

#[test]
fn unreadable_file_outcome_records_read_error() {
    let td = parse_task_file(
        "tasks/locked.toml",
        &Err(ReadError::Other("permission denied".to_string())),
    );
    assert!(!td.is_valid());
    assert_eq!(td.errors.len(), 1);
    match &td.errors[0] {
        TaskError::FileReadError(m) => {
            assert_eq!(m, "tasks/locked.toml: permission denied");
        }
        other => panic!("unexpected failure kind: {:?}", other),
    }
}

#[test]
fn repeated_parses_agree() {
    for content in ["name = \"a\"\ncommand = \"b\"", "name = ", "command = \"only\""] {
        let td1 = parse_task_file("tasks/same.toml", &Ok(content.to_string()));
        let td2 = parse_task_file("tasks/same.toml", &Ok(content.to_string()));
        assert_eq!(td1.is_valid(), td2.is_valid());
        assert_eq!(td1.get_name(), td2.get_name());
        assert_eq!(td1.status_label(), td2.status_label());
        assert_eq!(td1.file_contents, td2.file_contents);
        assert_eq!(td1.errors.len(), td2.errors.len());
    }
}

#[test]
fn missing_required_fields_are_rejected() {
    let no_name = parse_task_file("a.toml", &Ok("command = \"echo\"".to_string()));
    assert!(!no_name.is_valid());
    assert!(matches!(no_name.errors[0], TaskError::InvalidToml(_)));

    let no_command = parse_task_file("a.toml", &Ok("name = \"x\"".to_string()));
    assert!(!no_command.is_valid());
    assert!(matches!(no_command.errors[0], TaskError::InvalidToml(_)));
}

#[test]
fn wrong_field_types_are_rejected() {
    let bad_args = deserialize_task("name = \"x\"\ncommand = \"y\"\nargs = [1, 2]");
    assert!(matches!(bad_args, Err(TaskError::InvalidToml(_))));

    let bad_env = deserialize_task("name = \"x\"\ncommand = \"y\"\nenv = 3");
    assert!(matches!(bad_env, Err(TaskError::InvalidToml(_))));
}

#[test]
fn environment_table_pairs_are_all_carried() {
    let content = "name = \"x\"\ncommand = \"y\"\n[environment]\nB = \"2\"\nA = \"1\"";
    let task = deserialize_task(content).expect("should parse");
    let env = task.environment.expect("environment present");
    let mut pairs = env.clone();
    pairs.sort();
    assert_eq!(
        pairs,
        vec![("A".to_string(), "1".to_string()), ("B".to_string(), "2".to_string())]
    );
}

#[test]
fn empty_name_is_a_missing_field() {
    let res = deserialize_task("name = \"\"\ncommand = \"echo\"");
    match res {
        Err(TaskError::MissingField(f)) => assert_eq!(f, "name"),
        other => panic!("unexpected outcome: {:?}", other),
    }
}

#[test]
fn empty_command_is_an_invalid_command() {
    let res = deserialize_task("name = \"x\"\ncommand = \"\"");
    assert!(matches!(res, Err(TaskError::InvalidCommand(_))));
    let td = parse_task_file("tasks/empty_cmd.toml", &Ok("name = \"x\"\ncommand = \"\"".to_string()));
    assert!(!td.is_valid());
    assert_eq!(td.errors.len(), 1);
}

#[test]
fn parsed_tasks_have_nonempty_name_and_command() {
    for content in [
        "name = \"a\"\ncommand = \"b\"",
        "name = \"\"\ncommand = \"b\"",
        "name = \"a\"\ncommand = \"\"",
    ] {
        if let Ok(task) = deserialize_task(content) {
            assert!(!task.name.is_empty());
            assert!(!task.command.is_empty());
        }
    }
}

#[test]
fn optional_fields_absent_stay_absent() {
    let task = deserialize_task("name = \"x\"\ncommand = \"y\"").expect("should parse");
    assert!(task.env.is_none());
    assert!(task.args.is_none());
    assert!(task.environment.is_none());
    assert!(task.schedule.is_none());
    assert!(task.description.is_none());
}
