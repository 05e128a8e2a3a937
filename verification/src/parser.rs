use vstd::prelude::*;

use crate::task::{
    Task, TaskDefinition, TaskDefinitionView, TaskError, TaskErrorView, TaskView, is_valid_view,
    task_well_formed,
};
use crate::toml_text::{
    FieldModel, fm_list, fm_pairs, fm_str, parse_toml_table, table_get_str, table_get_str_list,
    table_get_str_pairs, toml_table_of,
};

verus! {

// ---------------------------------------------------------------------------
// The parser: one file's text in, one load outcome out.
//
// All failure modes are captured inside the outcome; nothing is propagated.
// The schema is permissive: `name` and `command` must be present as
// non-empty strings, every other field is optional, and unknown entries are
// ignored.
// ---------------------------------------------------------------------------

/// The schema rules, applied to the contents of a parsed document table.
pub open spec fn spec_task_of_doc(doc: Map<Seq<char>, FieldModel>) -> Result<
    TaskView,
    TaskErrorView,
> {
    if !doc.contains_key("name"@) {
        Err(TaskErrorView::InvalidToml("missing required field `name`"@))
    } else if !(doc["name"@] is Str) {
        Err(TaskErrorView::InvalidToml("field `name` must be a string"@))
    } else if fm_str(doc["name"@]).len() == 0 {
        Err(TaskErrorView::MissingField("name"@))
    } else if !doc.contains_key("command"@) {
        Err(TaskErrorView::InvalidToml("missing required field `command`"@))
    } else if !(doc["command"@] is Str) {
        Err(TaskErrorView::InvalidToml("field `command` must be a string"@))
    } else if fm_str(doc["command"@]).len() == 0 {
        Err(TaskErrorView::InvalidCommand("command must not be empty"@))
    } else if doc.contains_key("env"@) && !(doc["env"@] is Str) {
        Err(TaskErrorView::InvalidToml("field `env` must be a string"@))
    } else if doc.contains_key("args"@) && !(doc["args"@] is StrList) {
        Err(TaskErrorView::InvalidToml("field `args` must be an array of strings"@))
    } else if doc.contains_key("environment"@) && !(doc["environment"@] is StrPairs) {
        Err(TaskErrorView::InvalidToml("field `environment` must be a table of string values"@))
    } else if doc.contains_key("schedule"@) && !(doc["schedule"@] is Str) {
        Err(TaskErrorView::InvalidToml("field `schedule` must be a string"@))
    } else if doc.contains_key("description"@) && !(doc["description"@] is Str) {
        Err(TaskErrorView::InvalidToml("field `description` must be a string"@))
    } else {
        Ok(
            TaskView {
                name: fm_str(doc["name"@]),
                env: if doc.contains_key("env"@) {
                    Some(fm_str(doc["env"@]))
                } else {
                    None
                },
                command: fm_str(doc["command"@]),
                args: if doc.contains_key("args"@) {
                    Some(fm_list(doc["args"@]))
                } else {
                    None
                },
                environment: if doc.contains_key("environment"@) {
                    Some(fm_pairs(doc["environment"@]))
                } else {
                    None
                },
                schedule: if doc.contains_key("schedule"@) {
                    Some(fm_str(doc["schedule"@]))
                } else {
                    None
                },
                description: if doc.contains_key("description"@) {
                    Some(fm_str(doc["description"@]))
                } else {
                    None
                },
            },
        )
    }
}

/// What deserializing one file's text yields: a task, or the failure
/// recorded for it. A function of the text alone.
pub open spec fn spec_deserialize(s: Seq<char>) -> Result<TaskView, TaskErrorView> {
    match toml_table_of(s) {
        Err(msg) => Err(TaskErrorView::InvalidToml("Failed to parse TOML: "@ + msg)),
        Ok(doc) => spec_task_of_doc(doc),
    }
}

/// The view of a deserialization result.
pub open spec fn deserialize_result_view(r: Result<Task, TaskError>) -> Result<
    TaskView,
    TaskErrorView,
> {
    match r {
        Ok(t) => Ok(t@),
        Err(e) => Err(e@),
    }
}

/// Turns one file's text into a task, or the failure to record for it.
pub fn deserialize_task(content: &str) -> (r: Result<Task, TaskError>)
    ensures
        deserialize_result_view(r) == spec_deserialize(content@),
        r matches Ok(t) ==> task_well_formed(t@),
{
    let table = match parse_toml_table(content) {
        Err(msg) => {
            let mut m = "Failed to parse TOML: ".to_owned();
            m.append(msg.as_str());
            return Err(TaskError::InvalidToml(m));
        },
        Ok(table) => table,
    };
    let name = match table_get_str(&table, "name") {
        None => {
            return Err(TaskError::InvalidToml("missing required field `name`".to_owned()));
        },
        Some(None) => {
            return Err(TaskError::InvalidToml("field `name` must be a string".to_owned()));
        },
        Some(Some(s)) => s,
    };
    if name.as_str().is_empty() {
        return Err(TaskError::MissingField("name".to_owned()));
    }
    let command = match table_get_str(&table, "command") {
        None => {
            return Err(TaskError::InvalidToml("missing required field `command`".to_owned()));
        },
        Some(None) => {
            return Err(TaskError::InvalidToml("field `command` must be a string".to_owned()));
        },
        Some(Some(s)) => s,
    };
    if command.as_str().is_empty() {
        return Err(TaskError::InvalidCommand("command must not be empty".to_owned()));
    }
    let env = match table_get_str(&table, "env") {
        None => None,
        Some(None) => {
            return Err(TaskError::InvalidToml("field `env` must be a string".to_owned()));
        },
        Some(Some(s)) => Some(s),
    };
    let args = match table_get_str_list(&table, "args") {
        None => None,
        Some(None) => {
            return Err(
                TaskError::InvalidToml("field `args` must be an array of strings".to_owned()),
            );
        },
        Some(Some(items)) => Some(items),
    };
    let environment = match table_get_str_pairs(&table, "environment") {
        None => None,
        Some(None) => {
            return Err(
                TaskError::InvalidToml(
                    "field `environment` must be a table of string values".to_owned(),
                ),
            );
        },
        Some(Some(pairs)) => Some(pairs),
    };
    let schedule = match table_get_str(&table, "schedule") {
        None => None,
        Some(None) => {
            return Err(TaskError::InvalidToml("field `schedule` must be a string".to_owned()));
        },
        Some(Some(s)) => Some(s),
    };
    let description = match table_get_str(&table, "description") {
        None => None,
        Some(None) => {
            return Err(TaskError::InvalidToml("field `description` must be a string".to_owned()));
        },
        Some(Some(s)) => Some(s),
    };
    Ok(Task { name, env, command, args, environment, schedule, description })
}

// ---------------------------------------------------------------------------
// The result of the surrounding process's attempt to read a file, as handed
// to the parser: the text, or the classified failure.
// ---------------------------------------------------------------------------

pub enum ReadError {
    /// The file does not exist.
    NotFound,
    /// Any other failure to read, with the underlying message.
    Other(String),
}

/// The mathematical shape of a read failure.
pub enum ReadErrorView {
    NotFound,
    Other(Seq<char>),
}

impl View for ReadError {
    type V = ReadErrorView;

    open spec fn view(&self) -> ReadErrorView {
        match self {
            ReadError::NotFound => ReadErrorView::NotFound,
            ReadError::Other(m) => ReadErrorView::Other(m@),
        }
    }
}

/// The view of a read result.
pub open spec fn read_result_view(r: Result<String, ReadError>) -> Result<
    Seq<char>,
    ReadErrorView,
> {
    match r {
        Ok(s) => Ok(s@),
        Err(e) => Err(e@),
    }
}

/// The one load outcome produced for a file, as a function of its path and
/// of what reading it yielded.
pub open spec fn spec_parse_outcome(path: Seq<char>, read: Result<Seq<char>, ReadErrorView>) -> TaskDefinitionView {
    match read {
        Err(ReadErrorView::NotFound) => TaskDefinitionView {
            file_path: path,
            file_contents: None,
            task: None,
            errors: seq![TaskErrorView::FileNotFound(path)],
        },
        Err(ReadErrorView::Other(msg)) => TaskDefinitionView {
            file_path: path,
            file_contents: None,
            task: None,
            errors: seq![TaskErrorView::FileReadError(path + ": "@ + msg)],
        },
        Ok(contents) => match spec_deserialize(contents) {
            Ok(t) => TaskDefinitionView {
                file_path: path,
                file_contents: Some(contents),
                task: Some(t),
                errors: Seq::empty(),
            },
            Err(e) => TaskDefinitionView {
                file_path: path,
                file_contents: Some(contents),
                task: None,
                errors: seq![e],
            },
        },
    }
}

/// Produces exactly one load outcome for the given file path; every failure
/// mode is recorded inside the outcome.
pub fn parse_task_file(path: &str, read: &Result<String, ReadError>) -> (r: TaskDefinition)
    ensures
        r@ == spec_parse_outcome(path@, read_result_view(*read)),
        r@.task matches Some(t) ==> task_well_formed(t),
{
    match read {
        Err(ReadError::NotFound) => {
            let mut errors: Vec<TaskError> = Vec::new();
            errors.push(TaskError::FileNotFound(path.to_owned()));
            proof {
                assert(errors.deep_view() =~= seq![TaskErrorView::FileNotFound(path@)]);
            }
            TaskDefinition {
                file_path: path.to_owned(),
                file_contents: None,
                task: None,
                errors,
            }
        },
        Err(ReadError::Other(msg)) => {
            let mut m = path.to_owned();
            m.append(": ");
            m.append(msg.as_str());
            let mut errors: Vec<TaskError> = Vec::new();
            errors.push(TaskError::FileReadError(m));
            proof {
                assert(errors.deep_view() =~= seq![
                    TaskErrorView::FileReadError(path@ + ": "@ + msg@),
                ]);
            }
            TaskDefinition {
                file_path: path.to_owned(),
                file_contents: None,
                task: None,
                errors,
            }
        },
        Ok(contents) => match deserialize_task(contents.as_str()) {
            Ok(task) => {
                let errors: Vec<TaskError> = Vec::new();
                proof {
                    assert(errors.deep_view() =~= Seq::<TaskErrorView>::empty());
                }
                TaskDefinition {
                    file_path: path.to_owned(),
                    file_contents: Some(contents.clone()),
                    task: Some(task),
                    errors,
                }
            },
            Err(e) => {
                let ghost ev = e@;
                let mut errors: Vec<TaskError> = Vec::new();
                errors.push(e);
                proof {
                    assert(errors.deep_view() =~= seq![ev]);
                }
                TaskDefinition {
                    file_path: path.to_owned(),
                    file_contents: Some(contents.clone()),
                    task: None,
                    errors,
                }
            },
        },
    }
}

// ---------------------------------------------------------------------------
// Laws of the parser.
// ---------------------------------------------------------------------------

/// Parsing is deterministic: outcomes obtained for the same path from
/// byte-identical read results are structurally equal.
pub proof fn lemma_parse_deterministic(
    t1: TaskDefinition,
    t2: TaskDefinition,
    path: Seq<char>,
    read: Result<Seq<char>, ReadErrorView>,
)
    requires
        t1@ == spec_parse_outcome(path, read),
        t2@ == spec_parse_outcome(path, read),
    ensures
        t1@ == t2@,
{
}

/// A successfully parsed task always has a non-empty name and a non-empty
/// command: the schema rejects a file that leaves either out or binds either
/// to the empty string.
pub proof fn lemma_parsed_task_nonempty(s: Seq<char>)
    ensures
        spec_deserialize(s) matches Ok(t) ==> t.name.len() > 0 && t.command.len() > 0,
{
}

/// Every outcome the parser produces is consistent: it carries a task if and
/// only if its failure list is empty, which is exactly when it is valid.
pub proof fn lemma_parse_outcome_consistent(path: Seq<char>, read: Result<Seq<char>, ReadErrorView>)
    ensures
        spec_parse_outcome(path, read).task is Some <==> spec_parse_outcome(
            path,
            read,
        ).errors.len() == 0,
        is_valid_view(spec_parse_outcome(path, read)) <==> spec_parse_outcome(
            path,
            read,
        ).task is Some,
{
}

} // verus!
