use cli_todo::table::{
    header, rule, table, task_row, Row, COMPLETED_WIDTH, DESCRIPTION_WIDTH, ID_WIDTH, RULE_WIDTH,
};
use cli_todo::task::Task;

fn task(id: u64, description: &str, completed: bool, date_created: &str) -> Task {
    Task {
        id,
        description: description.to_string(),
        completed,
        date_created: date_created.to_string(),
    }
}

#[test]
fn widths_of_the_columns() {
    assert_eq!(ID_WIDTH, 5);
    assert_eq!(DESCRIPTION_WIDTH, 70);
    assert_eq!(COMPLETED_WIDTH, 10);
    assert_eq!(RULE_WIDTH, 100);
}

#[test]
fn header_names_the_columns() {
    let row = header();
    assert_eq!(row.id, format!("{:<5}", "ID"));
    assert_eq!(row.description, format!("{:<70}", "Description"));
    assert_eq!(row.completed, format!("{:<10}", "Completed"));
    assert_eq!(row.date_created, "Date Created");
}

#[test]
fn rule_is_a_hundred_hyphens() {
    assert_eq!(rule(), "-".repeat(100));
}

#[test]
fn row_of_a_task() {
    let row = task_row(&task(12, "buy milk", false, "01/02/24"));
    assert_eq!(
        row,
        Row {
            id: "12   ".to_string(),
            description: format!("buy milk{}", " ".repeat(62)),
            completed: "false     ".to_string(),
            date_created: "01/02/24".to_string(),
        }
    );
    let done = task_row(&task(3, "", true, ""));
    assert_eq!(done.id, "3    ");
    assert_eq!(done.description, " ".repeat(70));
    assert_eq!(done.completed, "true      ");
    assert_eq!(done.date_created, "");
}

#[test]
fn wide_cells_are_not_cut() {
    let long = "x".repeat(75);
    let row = task_row(&task(1234567, &long, true, "a date of another shape"));
    assert_eq!(row.id, "1234567");
    assert_eq!(row.description, long);
    assert_eq!(row.date_created, "a date of another shape");
}

#[test]
fn cells_are_measured_in_characters() {
    let row = task_row(&task(1, "caf\u{e9}", false, "01/02/24"));
    assert_eq!(row.description.chars().count(), 70);
    assert_eq!(row.description, format!("{:<70}", "caf\u{e9}"));
}

#[test]
fn table_keeps_the_order_of_the_list() {
    let tasks = vec![
        task(3, "c", false, "01/02/24"),
        task(1, "a", true, "01/03/24"),
        task(2, "b", false, "01/04/24"),
    ];
    let rows = table(&tasks);
    assert_eq!(rows.len(), 3);
    for (row, t) in rows.iter().zip(tasks.iter()) {
        assert_eq!(*row, task_row(t));
        assert_eq!(row.id, format!("{:<5}", t.id));
        assert_eq!(row.description, format!("{:<70}", t.description));
        assert_eq!(row.completed, format!("{:<10}", t.completed));
        assert_eq!(row.date_created, t.date_created);
    }
    assert!(table(&Vec::new()).is_empty());
}
