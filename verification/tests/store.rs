use chrono::DateTime;
use rust_todo::store::{
    complete_todo, complete_todo_at, create_todo, list_done_todos, list_todos, search_todos,
    Completion,
};
use rust_todo::{handle_io_err, Config, IoFailure};

fn owned(lines: &[&str]) -> Vec<String> {
    lines.iter().map(|line| line.to_string()).collect()
}

#[test]
fn config_keeps_both_paths() {
    let config = Config::new("todo.txt", "done.txt");
    assert_eq!(config.todo_path(), "todo.txt");
    assert_eq!(config.done_path(), "done.txt");
    let other = Config::new("/tmp/a b/tödo", "");
    assert_eq!(other.todo_path(), "/tmp/a b/tödo");
    assert_eq!(other.done_path(), "");
}

#[test]
fn a_missing_file_has_a_fixed_message() {
    assert_eq!(
        handle_io_err(IoFailure::NotFound),
        Err("todo.txt file not present. Try creating some todos!".to_string())
    );
}

#[test]
fn another_failure_keeps_its_text() {
    assert_eq!(
        handle_io_err(IoFailure::Other("Permission denied (os error 13)".to_string())),
        Err("Permission denied (os error 13)".to_string())
    );
    assert_eq!(handle_io_err(IoFailure::Other(String::new())), Err(String::new()));
}

#[test]
fn listing_numbers_the_todos_from_one() {
    assert_eq!(
        list_todos(Some("buy milk\nwalk dog\n")),
        owned(&["1 buy milk", "2 walk dog", "", "Showing 2 of 2 todos."])
    );
}

#[test]
fn listing_an_absent_file_prints_nothing() {
    assert_eq!(list_todos(None), Vec::<String>::new());
}

#[test]
fn listing_an_empty_file_prints_the_summary() {
    assert_eq!(list_todos(Some("")), owned(&["", "Showing 0 of 0 todos."]));
}

#[test]
fn listing_counts_past_nine() {
    let mut text = String::new();
    let mut i: usize = 0;
    while i < 12 {
        text.push_str("t\n");
        i += 1;
    }
    let output = list_todos(Some(&text));
    assert_eq!(output.len(), 14);
    assert_eq!(output[8], "9 t");
    assert_eq!(output[9], "10 t");
    assert_eq!(output[11], "12 t");
    assert_eq!(output[13], "Showing 12 of 12 todos.");
}

#[test]
fn listing_reads_lines_with_carriage_returns() {
    assert_eq!(
        list_todos(Some("a\r\nb")),
        owned(&["1 a", "2 b", "", "Showing 2 of 2 todos."])
    );
}

#[test]
fn searching_keeps_the_positions_in_the_file() {
    assert_eq!(
        search_todos("milk", Some("buy milk\nwalk dog\nmilk the cow\nsleep\n")),
        owned(&["1 buy milk", "3 milk the cow", "", "Showing 2 of 4 todos."])
    );
}

#[test]
fn searching_tells_upper_case_from_lower_case() {
    assert_eq!(
        search_todos("Milk", Some("buy milk\nMilk the cow\n")),
        owned(&["2 Milk the cow", "", "Showing 1 of 2 todos."])
    );
}

#[test]
fn searching_for_what_is_not_there_prints_the_summary() {
    assert_eq!(
        search_todos("tea", Some("buy milk\nwalk dog\n")),
        owned(&["", "Showing 0 of 2 todos."])
    );
}

#[test]
fn searching_for_the_empty_term_finds_every_todo() {
    assert_eq!(
        search_todos("", Some("a\n\nb\n")),
        owned(&["1 a", "2 ", "3 b", "", "Showing 3 of 3 todos."])
    );
}

#[test]
fn searching_an_absent_file_prints_nothing() {
    assert_eq!(search_todos("milk", None), Vec::<String>::new());
}

#[test]
fn done_entries_are_listed_behind_a_zero() {
    assert_eq!(
        list_done_todos(Some("x 2024-01-02T03:04:05Z buy milk\nx 2024-01-03T00:00:00.5Z nap\n")),
        owned(&["0 x 2024-01-02T03:04:05Z buy milk", "0 x 2024-01-03T00:00:00.5Z nap"])
    );
}

#[test]
fn an_absent_or_empty_done_file_lists_nothing() {
    assert_eq!(list_done_todos(None), Vec::<String>::new());
    assert_eq!(list_done_todos(Some("")), Vec::<String>::new());
}

#[test]
fn creating_gives_the_todo_and_a_line_feed() {
    assert_eq!(create_todo("buy milk"), "buy milk\n");
    assert_eq!(create_todo(""), "\n");
}

#[test]
fn completing_takes_the_line_out_and_makes_the_done_entry() {
    assert_eq!(
        complete_todo_at(2, Some("a\nb\nc\n"), "2024-01-02T03:04:05Z"),
        Some(Completion {
            todos: "a\nc\n".to_string(),
            done: "x 2024-01-02T03:04:05Z b\n".to_string(),
        })
    );
}

#[test]
fn completing_the_first_and_the_last_line() {
    assert_eq!(
        complete_todo_at(1, Some("a\nb\nc\n"), "T"),
        Some(Completion { todos: "b\nc\n".to_string(), done: "x T a\n".to_string() })
    );
    assert_eq!(
        complete_todo_at(3, Some("a\nb\nc\n"), "T"),
        Some(Completion { todos: "a\nb\n".to_string(), done: "x T c\n".to_string() })
    );
}

#[test]
fn completing_the_only_line_empties_the_file() {
    assert_eq!(
        complete_todo_at(1, Some("a\n"), "T"),
        Some(Completion { todos: String::new(), done: "x T a\n".to_string() })
    );
}

#[test]
fn completing_closes_every_line_that_stays() {
    assert_eq!(
        complete_todo_at(1, Some("a\r\nb\r\nc"), "T"),
        Some(Completion { todos: "b\nc\n".to_string(), done: "x T a\n".to_string() })
    );
}

#[test]
fn completing_a_position_out_of_range_changes_nothing() {
    assert_eq!(complete_todo_at(0, Some("a\nb\n"), "T"), None);
    assert_eq!(complete_todo_at(3, Some("a\nb\n"), "T"), None);
    assert_eq!(complete_todo_at(usize::MAX, Some("a\nb\n"), "T"), None);
    assert_eq!(complete_todo_at(1, Some(""), "T"), None);
    assert_eq!(complete_todo_at(1, None, "T"), None);
    assert_eq!(complete_todo(0, Some("a\nb\n")), None);
    assert_eq!(complete_todo(3, Some("a\nb\n")), None);
    assert_eq!(complete_todo(1, None), None);
}

#[test]
fn completing_now_stamps_the_entry_with_a_moment_in_utc() {
    let before = chrono::offset::Utc::now();
    let completion = complete_todo(2, Some("a\nbuy milk\n")).unwrap();
    let after = chrono::offset::Utc::now();
    assert_eq!(completion.todos, "a\n");
    let entry = completion.done.strip_suffix(" buy milk\n").unwrap();
    let stamp = entry.strip_prefix("x ").unwrap();
    assert!(stamp.chars().count() >= 20);
    assert!(!stamp.contains(char::is_whitespace));
    assert!(stamp.ends_with('Z'));
    let moment = DateTime::parse_from_rfc3339(stamp).unwrap();
    assert!(before <= moment && moment <= after);
}
