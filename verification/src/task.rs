use vstd::prelude::*;

use crate::text::{
    dec_digits, spec_basename, spec_stem, basename_stem, path_basename, usize_to_decimal,
};

verus! {

// ---------------------------------------------------------------------------
// Task: the immutable payload parsed from one task definition file.
//
// `name` and `command` are required by the file schema and must be
// non-empty; every other field is optional, and absence is kept distinct
// from an empty value. The environment mapping is carried as a sequence of
// key/value pairs with pairwise distinct keys, in the document table's
// iteration order; the file format itself rules duplicate keys out.
// ---------------------------------------------------------------------------

#[derive(Clone, Debug)]
pub struct Task {
    pub name: String,
    pub env: Option<String>,
    pub command: String,
    pub args: Option<Vec<String>>,
    pub environment: Option<Vec<(String, String)>>,
    pub schedule: Option<String>,
    pub description: Option<String>,
}

/// The mathematical shape of a parsed task.
pub struct TaskView {
    pub name: Seq<char>,
    pub env: Option<Seq<char>>,
    pub command: Seq<char>,
    pub args: Option<Seq<Seq<char>>>,
    pub environment: Option<Seq<(Seq<char>, Seq<char>)>>,
    pub schedule: Option<Seq<char>>,
    pub description: Option<Seq<char>>,
}

impl View for Task {
    type V = TaskView;

    open spec fn view(&self) -> TaskView {
        TaskView {
            name: self.name@,
            env: self.env.deep_view(),
            command: self.command@,
            args: self.args.deep_view(),
            environment: self.environment.deep_view(),
            schedule: self.schedule.deep_view(),
            description: self.description.deep_view(),
        }
    }
}

impl DeepView for Task {
    type V = TaskView;

    open spec fn deep_view(&self) -> TaskView {
        self.view()
    }
}

/// No two pairs of an environment mapping share a key.
pub open spec fn distinct_env_keys(pairs: Seq<(Seq<char>, Seq<char>)>) -> bool {
    forall|p: int, q: int| 0 <= p < q < pairs.len() ==> pairs[p].0 != pairs[q].0
}

/// The invariant of every successfully parsed task: a non-empty name, a
/// non-empty command, and an environment mapping without duplicate keys.
pub open spec fn task_well_formed(t: TaskView) -> bool {
    &&& t.name.len() > 0
    &&& t.command.len() > 0
    &&& (t.environment matches Some(pairs) ==> distinct_env_keys(pairs))
}

// ---------------------------------------------------------------------------
// TaskError: the taxonomy of per-file failures. The last three variants are
// reserved extension points for stricter validation and are not produced by
// the current loading path.
// ---------------------------------------------------------------------------

#[derive(Clone, Debug)]
pub enum TaskError {
    FileNotFound(String),
    FileReadError(String),
    InvalidToml(String),
    InvalidCron(String),
    MissingField(String),
    InvalidCommand(String),
}

/// The mathematical shape of a failure.
pub enum TaskErrorView {
    FileNotFound(Seq<char>),
    FileReadError(Seq<char>),
    InvalidToml(Seq<char>),
    InvalidCron(Seq<char>),
    MissingField(Seq<char>),
    InvalidCommand(Seq<char>),
}

impl View for TaskError {
    type V = TaskErrorView;

    open spec fn view(&self) -> TaskErrorView {
        match self {
            TaskError::FileNotFound(p) => TaskErrorView::FileNotFound(p@),
            TaskError::FileReadError(m) => TaskErrorView::FileReadError(m@),
            TaskError::InvalidToml(m) => TaskErrorView::InvalidToml(m@),
            TaskError::InvalidCron(m) => TaskErrorView::InvalidCron(m@),
            TaskError::MissingField(f) => TaskErrorView::MissingField(f@),
            TaskError::InvalidCommand(m) => TaskErrorView::InvalidCommand(m@),
        }
    }
}

impl DeepView for TaskError {
    type V = TaskErrorView;

    open spec fn deep_view(&self) -> TaskErrorView {
        self.view()
    }
}

impl TaskError {
    /// A human-readable rendering of the failure.
    pub fn message(&self) -> (r: String)
        ensures
            r@ == spec_error_message(self@),
    {
        match self {
            TaskError::FileNotFound(p) => {
                let mut s = "File not found: ".to_owned();
                s.append(p.as_str());
                s
            },
            TaskError::FileReadError(m) => {
                let mut s = "Failed to read file: ".to_owned();
                s.append(m.as_str());
                s
            },
            TaskError::InvalidToml(m) => {
                let mut s = "Invalid TOML: ".to_owned();
                s.append(m.as_str());
                s
            },
            TaskError::InvalidCron(m) => {
                let mut s = "Invalid cron expression: ".to_owned();
                s.append(m.as_str());
                s
            },
            TaskError::MissingField(f) => {
                let mut s = "Missing required field: ".to_owned();
                s.append(f.as_str());
                s
            },
            TaskError::InvalidCommand(m) => {
                let mut s = "Invalid command: ".to_owned();
                s.append(m.as_str());
                s
            },
        }
    }
}

/// The rendering `TaskError::message` is held to.
pub open spec fn spec_error_message(e: TaskErrorView) -> Seq<char> {
    match e {
        TaskErrorView::FileNotFound(p) => "File not found: "@ + p,
        TaskErrorView::FileReadError(m) => "Failed to read file: "@ + m,
        TaskErrorView::InvalidToml(m) => "Invalid TOML: "@ + m,
        TaskErrorView::InvalidCron(m) => "Invalid cron expression: "@ + m,
        TaskErrorView::MissingField(f) => "Missing required field: "@ + f,
        TaskErrorView::InvalidCommand(m) => "Invalid command: "@ + m,
    }
}

// ---------------------------------------------------------------------------
// TaskDefinition: one load outcome per source file.
// ---------------------------------------------------------------------------

#[derive(Clone, Debug)]
pub struct TaskDefinition {
    pub file_path: String,
    pub file_contents: Option<String>,
    pub task: Option<Task>,
    pub errors: Vec<TaskError>,
}

/// The mathematical shape of one load outcome.
pub struct TaskDefinitionView {
    pub file_path: Seq<char>,
    pub file_contents: Option<Seq<char>>,
    pub task: Option<TaskView>,
    pub errors: Seq<TaskErrorView>,
}

impl View for TaskDefinition {
    type V = TaskDefinitionView;

    open spec fn view(&self) -> TaskDefinitionView {
        TaskDefinitionView {
            file_path: self.file_path@,
            file_contents: self.file_contents.deep_view(),
            task: self.task.deep_view(),
            errors: self.errors.deep_view(),
        }
    }
}

impl DeepView for TaskDefinition {
    type V = TaskDefinitionView;

    open spec fn deep_view(&self) -> TaskDefinitionView {
        self.view()
    }
}

/// An outcome is valid exactly when it carries a parsed task and no failures.
pub open spec fn is_valid_view(o: TaskDefinitionView) -> bool {
    o.task is Some && o.errors.len() == 0
}

/// The display name: the parsed task's name when one is present, else the
/// file's stem so that unparseable files stay identifiable, else a fixed
/// fallback when the path has no base name at all.
pub open spec fn spec_display_name(o: TaskDefinitionView) -> Seq<char> {
    match o.task {
        Some(t) => t.name,
        None => {
            let stem = spec_stem(spec_basename(o.file_path));
            if stem.len() == 0 {
                "unknown"@
            } else {
                stem
            }
        },
    }
}

/// The status label: `Valid`, or `Invalid (N errors)` with the failure count.
pub open spec fn spec_status_label(n: nat) -> Seq<char> {
    if n == 0 {
        "Valid"@
    } else {
        "Invalid ("@ + dec_digits(n) + " errors)"@
    }
}

impl TaskDefinition {
    /// Whether this outcome carries a parsed task and an empty failure list.
    pub fn is_valid(&self) -> (r: bool)
        ensures
            r == is_valid_view(self@),
    {
        self.task.is_some() && self.errors.len() == 0
    }

    /// The name to show for this outcome.
    pub fn get_name(&self) -> (r: String)
        ensures
            r@ == spec_display_name(self@),
    {
        match &self.task {
            Some(t) => t.name.clone(),
            None => {
                let b = path_basename(self.file_path.as_str());
                let stem = basename_stem(b.as_str());
                if stem.as_str().unicode_len() == 0 {
                    "unknown".to_owned()
                } else {
                    stem
                }
            },
        }
    }

    /// `Valid` when no failure was recorded, else `Invalid (N errors)`.
    pub fn status_label(&self) -> (r: String)
        ensures
            r@ == spec_status_label(self.errors@.len()),
    {
        if self.errors.len() == 0 {
            "Valid".to_owned()
        } else {
            let mut s = "Invalid (".to_owned();
            let count = usize_to_decimal(self.errors.len());
            s.append(count.as_str());
            s.append(" errors)");
            s
        }
    }

    /// The base name of the originating file, or a fixed fallback when the
    /// path has none.
    pub fn file_basename(&self) -> (r: String)
        ensures
            r@ == (if spec_basename(self@.file_path).len() == 0 {
                "unknown"@
            } else {
                spec_basename(self@.file_path)
            }),
    {
        let b = path_basename(self.file_path.as_str());
        if b.as_str().unicode_len() == 0 {
            "unknown".to_owned()
        } else {
            b
        }
    }

    /// The schedule expression of the parsed task, when one is configured.
    pub fn schedule(&self) -> (r: Option<String>)
        ensures
            r.deep_view() == (match self@.task {
                Some(t) => t.schedule,
                None => None::<Seq<char>>,
            }),
    {
        match &self.task {
            Some(t) => match &t.schedule {
                Some(s) => Some(s.clone()),
                None => None,
            },
            None => None,
        }
    }

    /// The environment label of the parsed task, when one is configured.
    pub fn environment_label(&self) -> (r: Option<String>)
        ensures
            r.deep_view() == (match self@.task {
                Some(t) => t.env,
                None => None::<Seq<char>>,
            }),
    {
        match &self.task {
            Some(t) => match &t.env {
                Some(s) => Some(s.clone()),
                None => None,
            },
            None => None,
        }
    }

    /// The description of the parsed task, when one is configured.
    pub fn description(&self) -> (r: Option<String>)
        ensures
            r.deep_view() == (match self@.task {
                Some(t) => t.description,
                None => None::<Seq<char>>,
            }),
    {
        match &self.task {
            Some(t) => match &t.description {
                Some(s) => Some(s.clone()),
                None => None,
            },
            None => None,
        }
    }
}

// ---------------------------------------------------------------------------
// TaskRuntimeStatus: placeholder for future runtime metadata.
// ---------------------------------------------------------------------------

#[derive(Clone, Debug)]
pub struct TaskRuntimeStatus {
    pub last_run: Option<String>,
    pub next_run: Option<String>,
    pub is_running: bool,
}

impl Default for TaskRuntimeStatus {
    fn default() -> (r: Self)
        ensures
            r.last_run is None,
            r.next_run is None,
            !r.is_running,
    {
        TaskRuntimeStatus { last_run: None, next_run: None, is_running: false }
    }
}

} // verus!
