use chrono::Datelike;
use cli_todo::date::{format_date, CalendarDate};
use cli_todo::list::{
    add_task, append_task, delete_task, not_found_message, position_of_text, toggle_completed,
    Deletion, TodoError,
};
use cli_todo::task::{max_task_id, position_of_id, Task};

fn task(id: u64, description: &str, completed: bool) -> Task {
    Task {
        id,
        description: description.to_string(),
        completed,
        date_created: "03/04/24".to_string(),
    }
}

fn ids(tasks: &Vec<Task>) -> Vec<u64> {
    tasks.iter().map(|t| t.id).collect()
}

fn today_text() -> String {
    let now = chrono::Local::now();
    format_date(CalendarDate { year: now.year(), month: now.month(), day: now.day() })
}

#[test]
fn first_task_gets_id_one() {
    let mut tasks: Vec<Task> = Vec::new();
    assert_eq!(append_task(&mut tasks, "buy milk", "01/02/24"), Ok(1));
    assert_eq!(
        tasks,
        vec![Task {
            id: 1,
            description: "buy milk".to_string(),
            completed: false,
            date_created: "01/02/24".to_string(),
        }]
    );
}

#[test]
fn adds_count_up_from_one() {
    let mut tasks: Vec<Task> = Vec::new();
    for (i, description) in ["a", "b", "c", "d"].iter().enumerate() {
        assert_eq!(append_task(&mut tasks, description, "01/02/24"), Ok(i as u64 + 1));
    }
    assert_eq!(ids(&tasks), vec![1, 2, 3, 4]);
    let descriptions: Vec<&str> = tasks.iter().map(|t| t.description.as_str()).collect();
    assert_eq!(descriptions, vec!["a", "b", "c", "d"]);
    assert!(tasks.iter().all(|t| !t.completed));
}

#[test]
fn next_id_follows_the_largest() {
    let mut tasks = vec![task(7, "x", false), task(3, "y", true)];
    assert_eq!(max_task_id(&tasks), 7);
    assert_eq!(append_task(&mut tasks, "z", "01/02/24"), Ok(8));
    assert_eq!(ids(&tasks), vec![7, 3, 8]);
}

#[test]
fn id_of_a_deleted_last_task_is_given_again() {
    let mut tasks = vec![task(1, "x", false), task(2, "y", false)];
    assert_eq!(delete_task(&mut tasks, "2"), Ok(Deletion::Removed(2)));
    assert_eq!(append_task(&mut tasks, "z", "01/02/24"), Ok(2));
    assert_eq!(ids(&tasks), vec![1, 2]);
}

#[test]
fn empty_description_is_a_task() {
    let mut tasks: Vec<Task> = Vec::new();
    assert_eq!(append_task(&mut tasks, "", "01/02/24"), Ok(1));
    assert_eq!(tasks[0].description, "");
}

#[test]
fn description_is_kept_untrimmed() {
    let mut tasks: Vec<Task> = Vec::new();
    assert_eq!(append_task(&mut tasks, "  caf\u{e9} \n", "01/02/24"), Ok(1));
    assert_eq!(tasks[0].description, "  caf\u{e9} \n");
}

#[test]
fn no_id_after_the_largest_possible() {
    let mut tasks = vec![task(u64::MAX, "x", false), task(1, "y", false)];
    let before = tasks.clone();
    assert_eq!(append_task(&mut tasks, "z", "01/02/24"), Err(TodoError::IdsExhausted));
    assert_eq!(tasks, before);
    assert_eq!(add_task(&mut tasks, "z"), Err(TodoError::IdsExhausted));
    assert_eq!(tasks, before);
}

#[test]
fn add_task_dates_with_today() {
    let before = today_text();
    let mut tasks = vec![task(4, "x", true)];
    assert_eq!(add_task(&mut tasks, "walk dog"), Ok(5));
    let after = today_text();
    assert_eq!(tasks.len(), 2);
    assert_eq!(tasks[0], task(4, "x", true));
    assert_eq!(tasks[1].id, 5);
    assert_eq!(tasks[1].description, "walk dog");
    assert!(!tasks[1].completed);
    assert!(tasks[1].date_created == before || tasks[1].date_created == after);
    let date = tasks[1].date_created.as_bytes();
    assert_eq!(date.len(), 8);
    assert_eq!(date[2], b'/');
    assert_eq!(date[5], b'/');
}

#[test]
fn delete_takes_out_that_task_only() {
    let mut tasks = vec![task(1, "a", false), task(2, "b", true), task(3, "c", false)];
    assert_eq!(delete_task(&mut tasks, "2"), Ok(Deletion::Removed(2)));
    assert_eq!(tasks, vec![task(1, "a", false), task(3, "c", false)]);
}

#[test]
fn delete_of_an_absent_id_changes_nothing() {
    let mut tasks = vec![task(1, "a", false), task(3, "c", false)];
    let before = tasks.clone();
    assert_eq!(delete_task(&mut tasks, "2"), Ok(Deletion::NotFound(2)));
    assert_eq!(tasks, before);
    let mut none: Vec<Task> = Vec::new();
    assert_eq!(delete_task(&mut none, "1"), Ok(Deletion::NotFound(1)));
    assert!(none.is_empty());
}

#[test]
fn delete_with_text_that_is_no_number_fails() {
    let mut tasks = vec![task(1, "a", false), task(2, "b", true)];
    let before = tasks.clone();
    assert_eq!(delete_task(&mut tasks, "abc"), Err(TodoError::InvalidId));
    assert_eq!(tasks, before);
    for data in ["", "+", "-1", " 1", "1 ", "1.0", "0x1", "18446744073709551616", "\u{661}"] {
        assert_eq!(delete_task(&mut tasks, data), Err(TodoError::InvalidId), "{:?}", data);
        assert_eq!(tasks, before);
    }
}

#[test]
fn delete_reads_the_id_as_a_number() {
    let mut tasks = vec![task(1, "a", false), task(7, "b", true), task(9, "c", true)];
    assert_eq!(delete_task(&mut tasks, "007"), Ok(Deletion::Removed(7)));
    assert_eq!(delete_task(&mut tasks, "+9"), Ok(Deletion::Removed(9)));
    assert_eq!(tasks, vec![task(1, "a", false)]);
    let mut last = vec![task(u64::MAX, "z", false)];
    assert_eq!(
        delete_task(&mut last, "18446744073709551615"),
        Ok(Deletion::Removed(u64::MAX))
    );
    assert!(last.is_empty());
}

#[test]
fn delete_takes_the_first_of_two_with_one_id() {
    let mut tasks = vec![task(2, "first", false), task(1, "x", false), task(2, "second", true)];
    assert_eq!(position_of_id(&tasks, 2), Some(0));
    assert_eq!(delete_task(&mut tasks, "2"), Ok(Deletion::Removed(2)));
    assert_eq!(tasks, vec![task(1, "x", false), task(2, "second", true)]);
}

#[test]
fn toggle_flips_the_flag_and_nothing_else() {
    let mut tasks = vec![task(1, "a", false), task(2, "b", true), task(3, "c", false)];
    assert!(toggle_completed(&mut tasks, "2"));
    assert_eq!(tasks, vec![task(1, "a", false), task(2, "b", false), task(3, "c", false)]);
    assert!(toggle_completed(&mut tasks, "3"));
    assert_eq!(tasks, vec![task(1, "a", false), task(2, "b", false), task(3, "c", true)]);
}

#[test]
fn toggle_twice_gives_the_list_back() {
    let mut tasks = vec![task(10, "a", false), task(11, "b", true)];
    let before = tasks.clone();
    assert!(toggle_completed(&mut tasks, "11"));
    assert_ne!(tasks, before);
    assert!(toggle_completed(&mut tasks, "11"));
    assert_eq!(tasks, before);
}

#[test]
fn toggle_matches_the_decimal_text_only() {
    let mut tasks = vec![task(0, "zero", false), task(1, "a", false), task(12, "b", true)];
    let before = tasks.clone();
    for data in ["01", "+1", " 1", "1 ", "", "012", "00", "99", "abc", "1\u{0}"] {
        assert!(!toggle_completed(&mut tasks, data), "{:?}", data);
        assert_eq!(tasks, before);
        assert_eq!(position_of_text(&tasks, data), None);
    }
    assert_eq!(position_of_text(&tasks, "12"), Some(2));
    assert!(toggle_completed(&mut tasks, "0"));
    assert!(tasks[0].completed);
}

#[test]
fn toggle_takes_the_first_of_two_with_one_id() {
    let mut tasks = vec![task(5, "first", false), task(5, "second", false)];
    assert!(toggle_completed(&mut tasks, "5"));
    assert_eq!(tasks, vec![task(5, "first", true), task(5, "second", false)]);
}

#[test]
fn a_day_at_the_list() {
    let today = today_text();
    let mut tasks: Vec<Task> = Vec::new();
    assert_eq!(add_task(&mut tasks, "buy milk"), Ok(1));
    assert_eq!(tasks.len(), 1);
    assert_eq!(tasks[0].id, 1);
    assert_eq!(tasks[0].description, "buy milk");
    assert!(!tasks[0].completed);
    assert!(tasks[0].date_created == today || tasks[0].date_created == today_text());

    assert!(toggle_completed(&mut tasks, "1"));
    assert!(tasks[0].completed);

    assert_eq!(add_task(&mut tasks, "walk dog"), Ok(2));
    assert_eq!(ids(&tasks), vec![1, 2]);

    assert_eq!(delete_task(&mut tasks, "1"), Ok(Deletion::Removed(1)));
    assert_eq!(ids(&tasks), vec![2]);
    assert_eq!(tasks[0].description, "walk dog");

    let before = tasks.clone();
    assert!(!toggle_completed(&mut tasks, "99"));
    assert_eq!(tasks, before);
    assert_eq!(not_found_message("99"), "Task with ID 99 not found");
}

#[test]
fn outcomes_of_delete_in_words() {
    assert_eq!(Deletion::Removed(3).message(), "Task with ID 3 removed successfully");
    assert_eq!(Deletion::NotFound(40).message(), "Task with ID 40 not found");
    assert_eq!(not_found_message(""), "Task with ID  not found");
    assert_eq!(not_found_message("abc"), "Task with ID abc not found");
}
