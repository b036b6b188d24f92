//! The task, and the task list as contracts see it.

use vstd::prelude::*;

verus! {

/// One entry of the list.
#[derive(Clone, Debug, PartialEq, Eq)]
pub struct Task {
    /// The number by which the task is found again.
    pub id: u64,
    /// What is to be done, as the user typed it.
    pub description: String,
    /// Whether it has been done.
    pub completed: bool,
    /// The day the task was added, as `MM/DD/YY`.
    pub date_created: String,
}

/// What a task holds, as plain values.
pub struct TaskView {
    pub id: nat,
    pub description: Seq<char>,
    pub completed: bool,
    pub date_created: Seq<char>,
}

impl View for Task {
    type V = TaskView;

    open spec fn view(&self) -> TaskView {
        TaskView {
            id: self.id as nat,
            description: self.description@,
            completed: self.completed,
            date_created: self.date_created@,
        }
    }
}

/// A list of tasks as plain values, in the order in which the list holds them.
pub open spec fn views(tasks: Seq<Task>) -> Seq<TaskView> {
    tasks.map_values(|t: Task| t@)
}

/// Whether no identifier occurs twice in the list.
pub open spec fn distinct_ids(list: Seq<TaskView>) -> bool {
    forall|i: int, j: int| 0 <= i < j < list.len() ==> list[i].id != list[j].id
}

/// The largest identifier in the list, and zero for the empty list.
pub open spec fn max_id(list: Seq<TaskView>) -> nat
    decreases list.len(),
{
    if list.len() == 0 {
        0
    } else {
        let before = max_id(list.drop_last());
        if list.last().id > before {
            list.last().id
        } else {
            before
        }
    }
}

/// Whether `i` is the place of the first task of the list that is `wanted`.
pub open spec fn is_first_match(
    list: Seq<TaskView>,
    wanted: spec_fn(TaskView) -> bool,
    i: int,
) -> bool {
    &&& 0 <= i < list.len()
    &&& wanted(list[i])
    &&& forall|j: int| 0 <= j < i ==> !wanted(#[trigger] list[j])
}

/// The place of the first task of the list that is `wanted`, if there is one.
pub open spec fn first_match(list: Seq<TaskView>, wanted: spec_fn(TaskView) -> bool) -> Option<
    int,
> {
    if exists|i: int| is_first_match(list, wanted, i) {
        Some(choose|i: int| is_first_match(list, wanted, i))
    } else {
        None
    }
}

/// The tasks whose identifier is `id`.
pub open spec fn has_id(id: nat) -> spec_fn(TaskView) -> bool {
    |t: TaskView| t.id == id
}

/// The task `t` with its completion flag turned over, and nothing else changed.
pub open spec fn flipped(t: TaskView) -> TaskView {
    TaskView { completed: !t.completed, ..t }
}

/// No identifier in the list is above `max_id`, and in a list that is not
/// empty some task has it.
pub proof fn lemma_max_id(list: Seq<TaskView>)
    ensures
        forall|i: int| 0 <= i < list.len() ==> (#[trigger] list[i]).id <= max_id(list),
        list.len() > 0 ==> exists|i: int| 0 <= i < list.len() && (#[trigger] list[i]).id == max_id(list),
    decreases list.len(),
{
    if list.len() > 0 {
        let front = list.drop_last();
        lemma_max_id(front);
        assert forall|i: int| 0 <= i < list.len() implies (#[trigger] list[i]).id <= max_id(
            list,
        ) by {
            if i < front.len() {
                assert(front[i] == list[i]);
            }
        }
        if list.last().id > max_id(front) || front.len() == 0 {
            assert(list[list.len() - 1].id == max_id(list));
        } else {
            let i = choose|i: int| 0 <= i < front.len() && (#[trigger] front[i]).id == max_id(front);
            assert(list[i].id == max_id(list));
        }
    }
}

/// The first match is where `is_first_match` says it is: there is at most one
/// such place.
pub proof fn lemma_first_match_at(list: Seq<TaskView>, wanted: spec_fn(TaskView) -> bool, i: int)
    requires
        is_first_match(list, wanted, i),
    ensures
        first_match(list, wanted) == Some(i),
{
    let k = choose|k: int| is_first_match(list, wanted, k);
    if k < i {
        assert(!wanted(list[k]));
    } else if i < k {
        assert(!wanted(list[i]));
    }
}

/// A list in which no task is wanted has no first match.
pub proof fn lemma_first_match_none(list: Seq<TaskView>, wanted: spec_fn(TaskView) -> bool)
    requires
        forall|j: int| 0 <= j < list.len() ==> !wanted(#[trigger] list[j]),
    ensures
        first_match(list, wanted) is None,
{
}

/// The largest identifier among `tasks`, and zero if there are none.
pub fn max_task_id(tasks: &Vec<Task>) -> (max: u64)
    ensures
        max == max_id(views(tasks@)),
{
    let ghost list = views(tasks@);
    let mut max: u64 = 0;
    let mut i: usize = 0;
    while i < tasks.len()
        invariant
            i <= tasks@.len(),
            list == views(tasks@),
            max == max_id(list.subrange(0, i as int)),
        decreases tasks@.len() - i,
    {
        assert(list.subrange(0, i + 1).drop_last() =~= list.subrange(0, i as int));
        if tasks[i].id > max {
            max = tasks[i].id;
        }
        i = i + 1;
    }
    assert(list.subrange(0, i as int) =~= list);
    max
}

/// The place of the first of `tasks` whose identifier is `id`.
pub fn position_of_id(tasks: &Vec<Task>, id: u64) -> (place: Option<usize>)
    ensures
        match place {
            Some(i) => first_match(views(tasks@), has_id(id as nat)) == Some(i as int),
            None => first_match(views(tasks@), has_id(id as nat)) is None,
        },
{
    let ghost list = views(tasks@);
    let ghost wanted = has_id(id as nat);
    let mut i: usize = 0;
    while i < tasks.len()
        invariant
            i <= tasks@.len(),
            list == views(tasks@),
            wanted == has_id(id as nat),
            forall|j: int| 0 <= j < i ==> !wanted(#[trigger] list[j]),
        decreases tasks@.len() - i,
    {
        if tasks[i].id == id {
            proof {
                lemma_first_match_at(list, wanted, i as int);
            }
            return Some(i);
        }
        i = i + 1;
    }
    proof {
        lemma_first_match_none(list, wanted);
    }
    None
}

} // verus!
