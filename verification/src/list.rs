//! The three operations that change a task list.

use crate::date::{format_date, is_date_shaped, is_day_text, local_today};
use crate::task::{
    distinct_ids, first_match, flipped, has_id, lemma_first_match_at, lemma_first_match_none,
    lemma_max_id, max_id, max_task_id, position_of_id, views, Task, TaskView,
};
use crate::text::{decimal, decimal_string, parse_id, parse_id_spec, push_decimal, same_text};
use vstd::prelude::*;
use vstd::string::*;

verus! {

/// Why an operation did not take place.
#[derive(Clone, Copy, Debug, PartialEq, Eq, Structural)]
pub enum TodoError {
    /// The text given to delete by is not an identifier.
    InvalidId,
    /// The list holds the largest identifier there is, so no next one exists.
    IdsExhausted,
}

/// What became of a request to delete.
#[derive(Clone, Copy, Debug, PartialEq, Eq, Structural)]
pub enum Deletion {
    /// The task with this identifier has left the list.
    Removed(u64),
    /// The list holds no task with this identifier, and is as it was.
    NotFound(u64),
}

/// What the user is told when no task goes by `label`.
pub open spec fn not_found_text(label: Seq<char>) -> Seq<char> {
    "Task with ID "@ + label + " not found"@
}

/// What the user is told when the task with the identifier `id` has left.
pub open spec fn removed_text(id: nat) -> Seq<char> {
    "Task with ID "@ + decimal(id) + " removed successfully"@
}

impl Deletion {
    /// What the user is told of this outcome.
    pub open spec fn message_text(self) -> Seq<char> {
        match self {
            Deletion::Removed(id) => removed_text(id as nat),
            Deletion::NotFound(id) => not_found_text(decimal(id as nat)),
        }
    }

    /// The line that tells the user of this outcome.
    pub fn message(&self) -> (line: String)
        ensures
            line@ == self.message_text(),
    {
        let mut line = String::from_str("Task with ID ");
        match self {
            Deletion::Removed(id) => {
                push_decimal(&mut line, *id);
                line.append(" removed successfully");
            },
            Deletion::NotFound(id) => {
                push_decimal(&mut line, *id);
                line.append(" not found");
            },
        }
        line
    }
}

/// The line that tells the user that no task goes by `label`.
pub fn not_found_message(label: &str) -> (line: String)
    ensures
        line@ == not_found_text(label@),
{
    let mut line = String::from_str("Task with ID ");
    line.append(label);
    line.append(" not found");
    line
}

/// The tasks whose identifier, written in decimal, is exactly `text`.
pub open spec fn reads_as(text: Seq<char>) -> spec_fn(TaskView) -> bool {
    |t: TaskView| decimal(t.id) == text
}

/// The list after a task is added: the new task stands last, open, under the
/// identifier after the largest one in the list.
pub open spec fn appended(
    list: Seq<TaskView>,
    description: Seq<char>,
    date_created: Seq<char>,
) -> Seq<TaskView> {
    list.push(TaskView { id: max_id(list) + 1, description, completed: false, date_created })
}

/// The list after the first task with the identifier `id` has left it. A list
/// without such a task stays as it is.
pub open spec fn deleted(list: Seq<TaskView>, id: nat) -> Seq<TaskView> {
    match first_match(list, has_id(id)) {
        Some(i) => list.remove(i),
        None => list,
    }
}

/// The list after the first task whose identifier reads as `text` has had its
/// completion flag turned over. A list without such a task stays as it is.
pub open spec fn toggled(list: Seq<TaskView>, text: Seq<char>) -> Seq<TaskView> {
    match first_match(list, reads_as(text)) {
        Some(i) => list.update(i, flipped(list[i])),
        None => list,
    }
}

/// The place of the first of `tasks` whose identifier, written in decimal, is
/// exactly `text`.
pub fn position_of_text(tasks: &Vec<Task>, text: &str) -> (place: Option<usize>)
    ensures
        match place {
            Some(i) => first_match(views(tasks@), reads_as(text@)) == Some(i as int),
            None => first_match(views(tasks@), reads_as(text@)) is None,
        },
{
    let ghost list = views(tasks@);
    let ghost wanted = reads_as(text@);
    let mut i: usize = 0;
    while i < tasks.len()
        invariant
            i <= tasks@.len(),
            list == views(tasks@),
            wanted == reads_as(text@),
            forall|j: int| 0 <= j < i ==> !wanted(#[trigger] list[j]),
        decreases tasks@.len() - i,
    {
        let written = decimal_string(tasks[i].id);
        if same_text(written.as_str(), text) {
            proof {
                lemma_first_match_at(list, wanted, i as int);
            }
            return Some(i);
        }
        i = i + 1;
    }
    proof {
        lemma_first_match_none(list, wanted);
    }
    None
}

/// Adds a task with the given description and date at the end of the list,
/// and returns its identifier: one more than the largest in the list, 1 in an
/// empty list. Fails, and leaves the list alone, only where the largest
/// identifier is the last that 64 bits hold.
pub fn append_task(tasks: &mut Vec<Task>, description: &str, date_created: &str) -> (added: Result<
    u64,
    TodoError,
>)
    ensures
        match added {
            Ok(id) => {
                &&& id == max_id(views(old(tasks)@)) + 1
                &&& views(final(tasks)@) == appended(
                    views(old(tasks)@),
                    description@,
                    date_created@,
                )
            },
            Err(e) => {
                &&& e == TodoError::IdsExhausted
                &&& max_id(views(old(tasks)@)) == u64::MAX
                &&& final(tasks)@ == old(tasks)@
            },
        },
        distinct_ids(views(old(tasks)@)) ==> distinct_ids(views(final(tasks)@)),
{
    let max = max_task_id(tasks);
    if max == u64::MAX {
        return Err(TodoError::IdsExhausted);
    }
    let id: u64 = max + 1;
    proof {
        lemma_max_id(views(tasks@));
    }
    tasks.push(
        Task {
            id,
            description: description.to_owned(),
            completed: false,
            date_created: date_created.to_owned(),
        },
    );
    assert(views(tasks@) =~= appended(views(old(tasks)@), description@, date_created@));
    Ok(id)
}

/// Adds a task with the given description, dated with the local day of the
/// call, written as `MM/DD/YY`. Which day that is the arguments do not
/// settle; all else is as in `append_task`.
pub fn add_task(tasks: &mut Vec<Task>, description: &str) -> (added: Result<u64, TodoError>)
    ensures
        match added {
            Ok(id) => {
                &&& id == max_id(views(old(tasks)@)) + 1
                &&& exists|date_created: Seq<char>|
                    is_day_text(date_created) && views(final(tasks)@) == #[trigger] appended(
                        views(old(tasks)@),
                        description@,
                        date_created,
                    )
                &&& is_date_shaped(views(final(tasks)@).last().date_created)
            },
            Err(e) => {
                &&& e == TodoError::IdsExhausted
                &&& max_id(views(old(tasks)@)) == u64::MAX
                &&& final(tasks)@ == old(tasks)@
            },
        },
        distinct_ids(views(old(tasks)@)) ==> distinct_ids(views(final(tasks)@)),
{
    let today = local_today();
    let date_created = format_date(today);
    append_task(tasks, description, date_created.as_str())
}

/// Deletes the task whose identifier `data` reads as. Text that is no
/// identifier is an error; an identifier that no task has is none.
pub fn delete_task(tasks: &mut Vec<Task>, data: &str) -> (done: Result<Deletion, TodoError>)
    ensures
        match parse_id_spec(data@) {
            None => done == Err::<Deletion, TodoError>(TodoError::InvalidId) && final(tasks)@ == old(
                tasks,
            )@,
            Some(id) => {
                &&& views(final(tasks)@) == deleted(views(old(tasks)@), id as nat)
                &&& match first_match(views(old(tasks)@), has_id(id as nat)) {
                    Some(i) => done == Ok::<Deletion, TodoError>(Deletion::Removed(id))
                        && final(tasks)@ == old(tasks)@.remove(i),
                    None => done == Ok::<Deletion, TodoError>(Deletion::NotFound(id))
                        && final(tasks)@ == old(tasks)@,
                }
            },
        },
        distinct_ids(views(old(tasks)@)) ==> distinct_ids(views(final(tasks)@)),
{
    let id = match parse_id(data) {
        Some(id) => id,
        None => {
            return Err(TodoError::InvalidId);
        },
    };
    match position_of_id(tasks, id) {
        Some(i) => {
            tasks.remove(i);
            assert(views(tasks@) =~= views(old(tasks)@).remove(i as int));
            Ok(Deletion::Removed(id))
        },
        None => Ok(Deletion::NotFound(id)),
    }
}

/// Turns over the completion flag of the first task whose identifier,
/// written in decimal, is exactly `data`, and says whether there was one.
pub fn toggle_completed(tasks: &mut Vec<Task>, data: &str) -> (found: bool)
    ensures
        views(final(tasks)@) == toggled(views(old(tasks)@), data@),
        found == first_match(views(old(tasks)@), reads_as(data@)) is Some,
        !found ==> final(tasks)@ == old(tasks)@,
        distinct_ids(views(old(tasks)@)) ==> distinct_ids(views(final(tasks)@)),
{
    match position_of_text(tasks, data) {
        Some(i) => {
            let done: bool = tasks[i].completed;
            tasks[i].completed = !done;
            assert(views(tasks@) =~= views(old(tasks)@).update(
                i as int,
                flipped(views(old(tasks)@)[i as int]),
            ));
            true
        },
        None => false,
    }
}

} // verus!
