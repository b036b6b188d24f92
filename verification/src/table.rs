//! The table that lists the tasks: one row of four cells for each task, under
//! a header and a rule.

use crate::task::{Task, TaskView};
use crate::text::{decimal, decimal_string, pad_right, padded};
use vstd::prelude::*;
use vstd::string::*;

verus! {

/// Characters that the identifier's column takes.
pub const ID_WIDTH: usize = 5;

/// Characters that the description's column takes.
pub const DESCRIPTION_WIDTH: usize = 70;

/// Characters that the completion flag's column takes.
pub const COMPLETED_WIDTH: usize = 10;

/// Characters that the rule under the header takes.
pub const RULE_WIDTH: usize = 100;

/// A row of the table. Every cell but the last is filled up with spaces to
/// the width of its column; a text wider than its column is not cut.
#[derive(Clone, Debug, PartialEq, Eq)]
pub struct Row {
    pub id: String,
    pub description: String,
    pub completed: String,
    pub date_created: String,
}

/// The four cells of a row, as plain values.
pub struct RowView {
    pub id: Seq<char>,
    pub description: Seq<char>,
    pub completed: Seq<char>,
    pub date_created: Seq<char>,
}

impl View for Row {
    type V = RowView;

    open spec fn view(&self) -> RowView {
        RowView {
            id: self.id@,
            description: self.description@,
            completed: self.completed@,
            date_created: self.date_created@,
        }
    }
}

/// A flag as the table shows it.
pub open spec fn flag_text(flag: bool) -> Seq<char> {
    if flag {
        "true"@
    } else {
        "false"@
    }
}

/// The row with the given texts in its cells.
pub open spec fn row_with(
    id: Seq<char>,
    description: Seq<char>,
    completed: Seq<char>,
    date_created: Seq<char>,
) -> RowView {
    RowView {
        id: padded(id, ID_WIDTH as nat),
        description: padded(description, DESCRIPTION_WIDTH as nat),
        completed: padded(completed, COMPLETED_WIDTH as nat),
        date_created,
    }
}

/// The row that stands over the others.
pub open spec fn header_view() -> RowView {
    row_with("ID"@, "Description"@, "Completed"@, "Date Created"@)
}

/// The row that shows the task `t`.
pub open spec fn row_of(t: TaskView) -> RowView {
    row_with(decimal(t.id), t.description, flag_text(t.completed), t.date_created)
}

/// The rows that show the tasks of `list`, one for each, in the list's order.
pub open spec fn rows_of(list: Seq<TaskView>) -> Seq<RowView> {
    list.map_values(|t: TaskView| row_of(t))
}

/// The rows of a table as plain values.
pub open spec fn row_views(rows: Seq<Row>) -> Seq<RowView> {
    rows.map_values(|r: Row| r@)
}

fn make_row(id: &str, description: &str, completed: &str, date_created: &str) -> (row: Row)
    ensures
        row@ == row_with(id@, description@, completed@, date_created@),
{
    Row {
        id: pad_right(id, ID_WIDTH),
        description: pad_right(description, DESCRIPTION_WIDTH),
        completed: pad_right(completed, COMPLETED_WIDTH),
        date_created: date_created.to_owned(),
    }
}

/// The header of the table.
pub fn header() -> (row: Row)
    ensures
        row@ == header_view(),
{
    make_row("ID", "Description", "Completed", "Date Created")
}

/// The rule between the header and the rows: a line of hyphens.
pub fn rule() -> (line: String)
    ensures
        line@ == Seq::new(RULE_WIDTH as nat, |i: int| '-'),
{
    let mut line = String::new();
    let mut n: usize = 0;
    while n < RULE_WIDTH
        invariant
            n <= RULE_WIDTH,
            line@ == Seq::new(n as nat, |i: int| '-'),
        decreases RULE_WIDTH - n,
    {
        proof {
            reveal_strlit("-");
        }
        line.append("-");
        n = n + 1;
        assert(line@ =~= Seq::new(n as nat, |i: int| '-'));
    }
    line
}

/// The row that shows one task.
pub fn task_row(task: &Task) -> (row: Row)
    ensures
        row@ == row_of(task@),
{
    let id = decimal_string(task.id);
    let completed = if task.completed {
        "true"
    } else {
        "false"
    };
    make_row(id.as_str(), task.description.as_str(), completed, task.date_created.as_str())
}

/// The rows that show `tasks`, one for each task, in the order of the list.
pub fn table(tasks: &Vec<Task>) -> (rows: Vec<Row>)
    ensures
        row_views(rows@) == rows_of(crate::task::views(tasks@)),
{
    let mut rows: Vec<Row> = Vec::new();
    let mut i: usize = 0;
    while i < tasks.len()
        invariant
            i <= tasks@.len(),
            rows@.len() == i,
            forall|j: int| 0 <= j < i ==> (#[trigger] rows@[j])@ == row_of(tasks@[j]@),
        decreases tasks@.len() - i,
    {
        rows.push(task_row(&tasks[i]));
        i = i + 1;
    }
    assert(row_views(rows@) =~= rows_of(crate::task::views(tasks@)));
    rows
}

} // verus!
