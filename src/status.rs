use vstd::prelude::*;

verus! {

/// Lifecycle tag of a task.
#[derive(Debug, Clone, Copy, PartialEq, Eq, Structural)]
pub enum TaskStatus {
    InProgress,
    Done,
    Todo,
}

/// What `str::to_lowercase` makes of a text.
pub uninterp spec fn lower_of(s: Seq<char>) -> Seq<char>;

/// Relies on `str::to_lowercase`: the result depends on the characters alone.
#[verifier::external_body]
fn lowercase(s: &str) -> (r: String)
    ensures
        r@ == lower_of(s@),
{
    s.to_lowercase()
}

/// The status that an already lower-cased token names, if any.
pub open spec fn status_of_token(t: Seq<char>) -> Option<TaskStatus> {
    if t == "in-progress"@ {
        Some(TaskStatus::InProgress)
    } else if t == "todo"@ {
        Some(TaskStatus::Todo)
    } else if t == "done"@ {
        Some(TaskStatus::Done)
    } else {
        None
    }
}

/// The label under which a status is shown to the user.
pub open spec fn label_of(s: TaskStatus) -> Seq<char> {
    match s {
        TaskStatus::InProgress => "In Progress"@,
        TaskStatus::Done => "Done"@,
        TaskStatus::Todo => "To do"@,
    }
}

impl TaskStatus {
    /// Maps a lower-cased token to its status.
    pub fn from_token(t: &str) -> (r: Option<TaskStatus>)
        ensures
            r == status_of_token(t@),
    {
        let t = t.to_string();
        if t == "in-progress".to_string() {
            Some(TaskStatus::InProgress)
        } else if t == "todo".to_string() {
            Some(TaskStatus::Todo)
        } else if t == "done".to_string() {
            Some(TaskStatus::Done)
        } else {
            None
        }
    }

    /// Parses a status token, ignoring case.
    pub fn from_str(s: &str) -> (r: Option<TaskStatus>)
        ensures
            r == status_of_token(lower_of(s@)),
    {
        let lowered = lowercase(s);
        TaskStatus::from_token(lowered.as_str())
    }

    /// The label shown for this status.
    pub fn label(&self) -> (r: &'static str)
        ensures
            r@ == label_of(*self),
    {
        match self {
            TaskStatus::InProgress => "In Progress",
            TaskStatus::Done => "Done",
            TaskStatus::Todo => "To do",
        }
    }
}

} // verus!
