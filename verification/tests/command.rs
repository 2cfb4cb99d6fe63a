use rust_todo::command::parse_remaining_args;
use rust_todo::Command;

fn args(words: &[&str]) -> Vec<String> {
    let mut all = vec!["todo".to_string()];
    for word in words {
        all.push(word.to_string());
    }
    all
}

fn owned(words: &[&str]) -> Vec<String> {
    words.iter().map(|word| word.to_string()).collect()
}

#[test]
fn add_joins_the_words_with_single_spaces() {
    let expected = Ok(Command::CreateTodo("buy milk".to_string()));
    assert_eq!(Command::from_args(args(&["add", "buy", "milk"])), expected);
    assert_eq!(Command::from_args(args(&["a", "buy", "milk"])), expected);
    assert_eq!(Command::from_args(args(&["add", "buy milk"])), expected);
}

#[test]
fn add_trims_the_text() {
    assert_eq!(
        Command::from_args(args(&["add", "  buy", "milk \t"])),
        Ok(Command::CreateTodo("buy milk".to_string()))
    );
    assert_eq!(
        Command::from_args(args(&["add", "a ", " b"])),
        Ok(Command::CreateTodo("a   b".to_string()))
    );
}

#[test]
fn add_with_blank_words_is_an_error() {
    let expected = Err("Please specify text for a todo!".to_string());
    assert_eq!(Command::from_args(args(&["add", ""])), expected);
    assert_eq!(Command::from_args(args(&["add", " "])), expected);
    assert_eq!(Command::from_args(args(&["a", " ", "\t"])), expected);
    assert_eq!(Command::from_args(args(&["add", "", "", ""])), expected);
}

#[test]
fn add_without_words_is_an_error() {
    assert_eq!(
        Command::from_args(args(&["add"])),
        Err("Please specify text for a todo!".to_string())
    );
    assert_eq!(
        Command::from_args(args(&["a"])),
        Err("Please specify text for a todo!".to_string())
    );
}

#[test]
fn do_reads_a_position() {
    assert_eq!(Command::from_args(args(&["do", "3"])), Ok(Command::DoTodo(3)));
    assert_eq!(Command::from_args(args(&["do", "+12"])), Ok(Command::DoTodo(12)));
    assert_eq!(Command::from_args(args(&["do", "1"])), Ok(Command::DoTodo(1)));
    assert_eq!(Command::from_args(args(&["do", "007"])), Ok(Command::DoTodo(7)));
}

#[test]
fn do_refuses_zero_and_names_the_token() {
    assert_eq!(
        Command::from_args(args(&["do", "0"])),
        Err("Could not find todo number 0!".to_string())
    );
    assert_eq!(
        Command::from_args(args(&["do", "00"])),
        Err("Could not find todo number 00!".to_string())
    );
    assert_eq!(
        Command::from_args(args(&["do", "+0"])),
        Err("Could not find todo number +0!".to_string())
    );
}

#[test]
fn do_ignores_what_follows_the_position() {
    assert_eq!(Command::from_args(args(&["do", "3", "4", "x"])), Ok(Command::DoTodo(3)));
}

#[test]
fn do_without_a_position_is_an_error() {
    assert_eq!(
        Command::from_args(args(&["do"])),
        Err("Please specify a todo number!".to_string())
    );
}

#[test]
fn do_names_the_token_that_is_no_number() {
    assert_eq!(
        Command::from_args(args(&["do", "three"])),
        Err("Could not find todo number three!".to_string())
    );
    assert_eq!(
        Command::from_args(args(&["do", "-1"])),
        Err("Could not find todo number -1!".to_string())
    );
    assert_eq!(
        Command::from_args(args(&["do", ""])),
        Err("Could not find todo number !".to_string())
    );
    assert_eq!(
        Command::from_args(args(&["do", "99999999999999999999999999"])),
        Err("Could not find todo number 99999999999999999999999999!".to_string())
    );
}

#[test]
fn list_without_a_term_lists_all() {
    assert_eq!(Command::from_args(args(&["ls"])), Ok(Command::ListTodos(None)));
    assert_eq!(Command::from_args(args(&["list"])), Ok(Command::ListTodos(None)));
}

#[test]
fn list_joins_the_words_of_the_term() {
    assert_eq!(
        Command::from_args(args(&["ls", "buy", "milk"])),
        Ok(Command::ListTodos(Some("buy milk".to_string())))
    );
    assert_eq!(
        Command::from_args(args(&["list", " milk "])),
        Ok(Command::ListTodos(Some("milk".to_string())))
    );
    assert_eq!(
        Command::from_args(args(&["ls", ""])),
        Ok(Command::ListTodos(Some(String::new())))
    );
}

#[test]
fn listall_takes_no_arguments() {
    assert_eq!(Command::from_args(args(&["la"])), Ok(Command::ListAllTodos));
    assert_eq!(Command::from_args(args(&["listall"])), Ok(Command::ListAllTodos));
    assert_eq!(Command::from_args(args(&["la", "extra"])), Ok(Command::ListAllTodos));
}

#[test]
fn an_unknown_word_is_unsupported_whatever_follows() {
    assert_eq!(Command::from_args(args(&["xyz"])), Ok(Command::Unsupported));
    assert_eq!(Command::from_args(args(&["xyz", "1", "2"])), Ok(Command::Unsupported));
    assert_eq!(Command::from_args(args(&["ADD", "milk"])), Ok(Command::Unsupported));
    assert_eq!(Command::from_args(args(&["adds", "milk"])), Ok(Command::Unsupported));
    assert_eq!(Command::from_args(args(&["", "add"])), Ok(Command::Unsupported));
    assert_eq!(Command::from_args(args(&[" add"])), Ok(Command::Unsupported));
}

#[test]
fn no_command_is_unsupported() {
    assert_eq!(Command::from_args(args(&[])), Ok(Command::Unsupported));
    assert_eq!(Command::from_args(Vec::new()), Ok(Command::Unsupported));
}

#[test]
fn the_first_argument_is_the_name_of_the_program() {
    assert_eq!(
        Command::from_args(owned(&["add", "ls"])),
        Ok(Command::ListTodos(None))
    );
}

#[test]
fn remaining_args_of_nothing_is_nothing() {
    assert_eq!(parse_remaining_args(&[]), None);
}

#[test]
fn remaining_args_are_joined_and_trimmed() {
    assert_eq!(parse_remaining_args(&owned(&["milk"])), Some("milk".to_string()));
    assert_eq!(parse_remaining_args(&owned(&["buy", "milk"])), Some("buy milk".to_string()));
    assert_eq!(parse_remaining_args(&owned(&[" buy", "", "milk "])), Some("buy  milk".to_string()));
    assert_eq!(parse_remaining_args(&owned(&["", ""])), Some(String::new()));
}

#[test]
fn every_command_but_the_unsupported_one_reads_the_todo_file() {
    assert!(Command::CreateTodo("a".to_string()).reads_todos());
    assert!(Command::DoTodo(1).reads_todos());
    assert!(Command::ListTodos(None).reads_todos());
    assert!(Command::ListTodos(Some("a".to_string())).reads_todos());
    assert!(Command::ListAllTodos.reads_todos());
    assert!(!Command::Unsupported.reads_todos());
}

#[test]
fn only_listing_everything_reads_the_done_file() {
    assert!(Command::ListAllTodos.reads_done());
    assert!(!Command::CreateTodo("a".to_string()).reads_done());
    assert!(!Command::DoTodo(1).reads_done());
    assert!(!Command::ListTodos(None).reads_done());
    assert!(!Command::Unsupported.reads_done());
}
