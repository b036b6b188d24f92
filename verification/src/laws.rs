//! What holds of the operations on a task list, whatever the list.

use crate::list::{appended, deleted, reads_as, toggled};
use crate::task::{
    distinct_ids, first_match, has_id, is_first_match, lemma_first_match_at,
    lemma_first_match_none, lemma_max_id, max_id, TaskView,
};
use crate::text::{decimal, lemma_decimal_injective};
use vstd::prelude::*;

verus! {

/// The list that comes of adding one task after another to the empty list.
/// Each entry is a description and a date.
pub open spec fn added_in_turn(entries: Seq<(Seq<char>, Seq<char>)>) -> Seq<TaskView>
    decreases entries.len(),
{
    if entries.len() == 0 {
        Seq::empty()
    } else {
        appended(added_in_turn(entries.drop_last()), entries.last().0, entries.last().1)
    }
}

/// Tasks added one after another to the empty list are numbered 1, 2, 3 and
/// so on in the order in which they were added: the list holds one task for
/// each entry, open, with the entry's description and date, and no
/// identifier twice.
pub proof fn lemma_adds_count_up(entries: Seq<(Seq<char>, Seq<char>)>)
    ensures
        added_in_turn(entries).len() == entries.len(),
        forall|i: int|
            0 <= i < entries.len() ==> (#[trigger] added_in_turn(entries)[i]) == (TaskView {
                id: (i + 1) as nat,
                description: entries[i].0,
                completed: false,
                date_created: entries[i].1,
            }),
        max_id(added_in_turn(entries)) == entries.len(),
        distinct_ids(added_in_turn(entries)),
    decreases entries.len(),
{
    if entries.len() > 0 {
        let front = added_in_turn(entries.drop_last());
        lemma_adds_count_up(entries.drop_last());
        assert(added_in_turn(entries).drop_last() =~= front);
    }
}

/// A task added to a list gets an identifier that no task of the list has.
pub proof fn lemma_added_id_is_new(
    list: Seq<TaskView>,
    description: Seq<char>,
    date_created: Seq<char>,
)
    ensures
        appended(list, description, date_created).last().id == max_id(list) + 1,
        forall|i: int| 0 <= i < list.len() ==> (#[trigger] list[i]).id < max_id(list) + 1,
        distinct_ids(list) ==> distinct_ids(appended(list, description, date_created)),
{
    lemma_max_id(list);
}

/// Deleting takes out at most one task, the first with the identifier, and
/// leaves every other task as it was and where it stood among the others.
pub proof fn lemma_delete_removes_one(list: Seq<TaskView>, id: nat)
    ensures
        match first_match(list, has_id(id)) {
            Some(i) => {
                &&& 0 <= i < list.len()
                &&& list[i].id == id
                &&& deleted(list, id).len() == list.len() - 1
                &&& forall|j: int| 0 <= j < i ==> #[trigger] deleted(list, id)[j] == list[j]
                &&& forall|j: int|
                    i <= j < list.len() - 1 ==> #[trigger] deleted(list, id)[j] == list[j + 1]
            },
            None => {
                &&& deleted(list, id) == list
                &&& forall|j: int| 0 <= j < list.len() ==> (#[trigger] list[j]).id != id
            },
        },
{
    match first_match(list, has_id(id)) {
        Some(i) => {
            assert(is_first_match(list, has_id(id), i));
        },
        None => {
            assert forall|j: int| 0 <= j < list.len() implies (#[trigger] list[j]).id != id by {
                if list[j].id == id {
                    lemma_some_match(list, has_id(id), j);
                }
            }
        },
    }
}

/// A list that holds a wanted task has a first one.
pub proof fn lemma_some_match(list: Seq<TaskView>, wanted: spec_fn(TaskView) -> bool, k: int)
    requires
        0 <= k < list.len(),
        wanted(list[k]),
    ensures
        first_match(list, wanted) is Some,
        first_match(list, wanted)->0 <= k,
    decreases k,
{
    if forall|j: int| 0 <= j < k ==> !wanted(#[trigger] list[j]) {
        lemma_first_match_at(list, wanted, k);
    } else {
        let j = choose|j: int| 0 <= j < k && wanted(#[trigger] list[j]);
        lemma_some_match(list, wanted, j);
    }
}

/// In a list without a repeated identifier, deleting by an identifier leaves
/// exactly the tasks with another identifier, in their order.
pub proof fn lemma_delete_keeps_the_others(list: Seq<TaskView>, id: nat)
    requires
        distinct_ids(list),
    ensures
        deleted(list, id) == list.filter(|t: TaskView| t.id != id),
        distinct_ids(deleted(list, id)),
        forall|j: int| 0 <= j < deleted(list, id).len() ==> (#[trigger] deleted(list, id)[j]).id != id,
    decreases list.len(),
{
    let others = |t: TaskView| t.id != id;
    let wanted = has_id(id);
    reveal(Seq::filter);
    lemma_delete_removes_one(list, id);
    if list.len() > 0 {
        let front = list.drop_last();
        let last = list.last();
        lemma_delete_keeps_the_others(front, id);
        lemma_delete_removes_one(front, id);
        if last.id == id {
            assert forall|j: int| 0 <= j < front.len() implies !wanted(#[trigger] front[j]) by {
                assert(front[j] == list[j]);
            }
            lemma_first_match_none(front, wanted);
            assert forall|j: int| 0 <= j < list.len() - 1 implies !wanted(#[trigger] list[j]) by {
                assert(front[j] == list[j]);
            }
            lemma_first_match_at(list, wanted, list.len() - 1);
            assert(list.remove(list.len() - 1) =~= front);
        } else {
            match first_match(front, wanted) {
                Some(i) => {
                    assert(is_first_match(front, wanted, i));
                    assert forall|j: int| 0 <= j < i implies !wanted(#[trigger] list[j]) by {
                        assert(front[j] == list[j]);
                    }
                    assert(list[i] == front[i]);
                    lemma_first_match_at(list, wanted, i);
                    assert(list.remove(i) =~= front.remove(i).push(last));
                },
                None => {
                    assert forall|j: int| 0 <= j < list.len() implies !wanted(
                        #[trigger] list[j],
                    ) by {
                        if j < front.len() {
                            assert(front[j] == list[j]);
                        }
                    }
                    lemma_first_match_none(list, wanted);
                    assert(list =~= front.push(last));
                },
            }
        }
    }
}

/// Toggling changes the completion flag of one task at most, the first whose
/// identifier reads as the text, and nothing else in the list.
pub proof fn lemma_toggle_flips_one_flag(list: Seq<TaskView>, text: Seq<char>)
    ensures
        toggled(list, text).len() == list.len(),
        match first_match(list, reads_as(text)) {
            Some(i) => {
                &&& 0 <= i < list.len()
                &&& decimal(list[i].id) == text
                &&& toggled(list, text)[i].completed == !list[i].completed
                &&& toggled(list, text)[i].id == list[i].id
                &&& toggled(list, text)[i].description == list[i].description
                &&& toggled(list, text)[i].date_created == list[i].date_created
                &&& forall|j: int|
                    0 <= j < list.len() && j != i ==> #[trigger] toggled(list, text)[j] == list[j]
            },
            None => toggled(list, text) == list,
        },
{
    match first_match(list, reads_as(text)) {
        Some(i) => {
            assert(is_first_match(list, reads_as(text), i));
        },
        None => {},
    }
}

/// Toggling twice by the same text gives the list back as it was.
pub proof fn lemma_toggle_twice(list: Seq<TaskView>, text: Seq<char>)
    ensures
        toggled(toggled(list, text), text) == list,
{
    let wanted = reads_as(text);
    match first_match(list, wanted) {
        Some(i) => {
            assert(is_first_match(list, wanted, i));
            let once = toggled(list, text);
            assert forall|j: int| 0 <= j < i implies !wanted(#[trigger] once[j]) by {
                assert(once[j] == list[j]);
            }
            lemma_first_match_at(once, wanted, i);
            assert(toggled(once, text) =~= list);
        },
        None => {},
    }
}

/// Toggling by the decimal text of an identifier finds the task that
/// deleting by that identifier finds.
pub proof fn lemma_decimal_text_finds_id(list: Seq<TaskView>, id: nat)
    ensures
        first_match(list, reads_as(decimal(id))) == first_match(list, has_id(id)),
{
    let by_text = reads_as(decimal(id));
    let by_id = has_id(id);
    assert forall|t: TaskView| #[trigger] by_text(t) == by_id(t) by {
        if decimal(t.id) == decimal(id) {
            lemma_decimal_injective(t.id, id);
        }
    }
    match first_match(list, by_id) {
        Some(i) => {
            assert(is_first_match(list, by_id, i));
            lemma_first_match_at(list, by_text, i);
        },
        None => {
            assert forall|j: int| 0 <= j < list.len() implies !by_text(#[trigger] list[j]) by {
                if by_id(list[j]) {
                    lemma_some_match(list, by_id, j);
                }
            }
            lemma_first_match_none(list, by_text);
        },
    }
}

} // verus!
