use vstd::prelude::*;
use vstd::string::StringExecFns;
use crate::decimal::{decimal, push_decimal};

verus! {

/// What one run of the command line does.
#[derive(Clone, Debug, PartialEq, Eq)]
#[allow(inconsistent_fields)]
pub enum Action {
    /// Create a task with this title, below this parent if one is given.
    New { title: String, parent: Option<i64> },
    /// Complete the task that has this id.
    Complete { id: i64 },
    /// List the tasks below this one, or the top-level tasks; completed ones
    /// too where `all` is set.
    List { id: Option<i64>, all: bool },
}

/// The action that the arguments ask for: a title asks for a new task, else a
/// task to complete asks for that, else the tasks are listed.
pub open spec fn action_for(
    new: Option<String>,
    parent: Option<i64>,
    complete: Option<i64>,
    id: Option<i64>,
    all: bool,
) -> Action {
    match new {
        Some(title) => Action::New { title, parent },
        None => match complete {
            Some(done) => Action::Complete { id: done },
            None => Action::List { id, all },
        },
    }
}

/// Decides what the run does from the arguments given.
pub fn choose_action(
    new: Option<String>,
    parent: Option<i64>,
    complete: Option<i64>,
    id: Option<i64>,
    all: bool,
) -> (action: Action)
    ensures
        action == action_for(new, parent, complete, id, all),
{
    match new {
        Some(title) => Action::New { title, parent },
        None => match complete {
            Some(done) => Action::Complete { id: done },
            None => Action::List { id, all },
        },
    }
}

/// The query that lists tasks: those below a parent where `scoped`, the
/// top-level ones otherwise; without the completed ones unless `all`.
pub open spec fn list_query_text(scoped: bool, all: bool) -> Seq<char> {
    if scoped {
        if all {
            "SELECT id, name, complete FROM task WHERE parent = ?;"@
        } else {
            "SELECT id, name, complete FROM task WHERE complete = 0 AND parent = ?;"@
        }
    } else {
        if all {
            "SELECT id, name, complete FROM task WHERE parent IS NULL;"@
        } else {
            "SELECT id, name, complete FROM task WHERE complete = 0 AND parent IS NULL;"@
        }
    }
}

/// Picks the query for a listing. With an `id` the query takes that id as its
/// one parameter.
pub fn list_query(id: Option<i64>, all: bool) -> (sql: &'static str)
    ensures
        sql@ == list_query_text(id is Some, all),
{
    match (id, all) {
        (Some(_), true) => "SELECT id, name, complete FROM task WHERE parent = ?;",
        (Some(_), false) => "SELECT id, name, complete FROM task WHERE complete = 0 AND parent = ?;",
        (None, true) => "SELECT id, name, complete FROM task WHERE parent IS NULL;",
        (None, false) => "SELECT id, name, complete FROM task WHERE complete = 0 AND parent IS NULL;",
    }
}

/// A task as one line: its id, a dot, its name. A completed task is struck
/// through.
pub open spec fn task_line_text(id: int, name: Seq<char>, complete: bool) -> Seq<char> {
    if complete {
        "\u{1B}[9m"@ + decimal(id) + ". "@ + name + "\u{1B}[0m"@
    } else {
        decimal(id) + ". "@ + name
    }
}

/// Writes a task as one line of the listing.
pub fn task_line(id: i64, name: &str, complete: bool) -> (line: String)
    ensures
        line@ == task_line_text(id as int, name@, complete),
{
    let mut line = String::new();
    if complete {
        line.append("\u{1B}[9m");
    }
    push_decimal(&mut line, id);
    line.append(". ");
    line.append(name);
    if complete {
        line.append("\u{1B}[0m");
    }
    line
}

/// The text that surrounds an id in a message.
pub open spec fn around_id(before: Seq<char>, id: int, after: Seq<char>) -> Seq<char> {
    before + decimal(id) + after
}

/// Writes a message that names a task by its id.
fn message(before: &str, id: i64, after: &str) -> (text: String)
    ensures
        text@ == around_id(before@, id as int, after@),
{
    let mut text = String::new();
    text.append(before);
    push_decimal(&mut text, id);
    text.append(after);
    text
}

/// What is said when a task to complete is looked up: nothing where it was
/// found, else that it does not exist.
pub open spec fn completion_notice_text(found: Option<bool>, id: int) -> Option<Seq<char>> {
    match found {
        Some(_) => None,
        None => Some(around_id("ERROR: Task `"@, id, "` doesn't exist!"@)),
    }
}

/// The notice for completing task `id`, where `found` is what the lookup
/// gave: whether the task is complete, or nothing where there is no such
/// task.
pub fn completion_notice(found: Option<bool>, id: i64) -> (notice: Option<String>)
    ensures
        match completion_notice_text(found, id as int) {
            Some(text) => notice matches Some(said) && said@ == text,
            None => notice is None,
        },
{
    match found {
        Some(_) => None,
        None => Some(message("ERROR: Task `", id, "` doesn't exist!")),
    }
}

/// What is said about the parent of a new task: that it is already
/// completed, that it does not exist, or nothing where it is open.
pub open spec fn parent_notice_text(found: Option<bool>, id: int) -> Option<Seq<char>> {
    match found {
        Some(true) => Some(around_id("ERROR: Parent task `"@, id, "` is already completed!"@)),
        Some(false) => None,
        None => Some(around_id("ERROR: Parent task `"@, id, "` doesn't exist!"@)),
    }
}

/// The notice for a new task below parent `id`, where `found` is what the
/// lookup of the parent gave.
pub fn parent_notice(found: Option<bool>, id: i64) -> (notice: Option<String>)
    ensures
        match parent_notice_text(found, id as int) {
            Some(text) => notice matches Some(said) && said@ == text,
            None => notice is None,
        },
{
    match found {
        Some(true) => Some(message("ERROR: Parent task `", id, "` is already completed!")),
        Some(false) => None,
        None => Some(message("ERROR: Parent task `", id, "` doesn't exist!")),
    }
}

} // verus!
