//! Running a command: what it writes to the two files and what it prints.

use crate::command::{option_text, Command, CommandView};
use crate::clock::is_stamp;
use crate::store::{
    appended, complete_todo, complete_todo_at, completed, completion_texts, create_todo,
    done_output, failure_message, handle_io_err, list_done_todos, list_output, list_todos,
    search_output, search_todos, text_of, todo_line, Completion, Config, IoFailure,
};
use vstd::prelude::*;

verus! {

/// One thing that a run does to the world outside.
#[derive(Clone, Debug, PartialEq, Eq)]
pub enum Effect {
    /// Append `text` to the file at `path`; an absent file is created.
    Append { path: String, text: String },
    /// Replace what the file at `path` holds by `text`.
    Rewrite { path: String, text: String },
    /// Print `line` and a line break on standard output.
    Print { line: String },
}

/// An effect, with texts in place of strings.
pub enum EffectView {
    Append { path: Seq<char>, text: Seq<char> },
    Rewrite { path: Seq<char>, text: Seq<char> },
    Print { line: Seq<char> },
}

impl View for Effect {
    type V = EffectView;

    open spec fn view(&self) -> EffectView {
        match self {
            Effect::Append { path, text } => EffectView::Append { path: path@, text: text@ },
            Effect::Rewrite { path, text } => EffectView::Rewrite { path: path@, text: text@ },
            Effect::Print { line } => EffectView::Print { line: line@ },
        }
    }
}

impl DeepView for Effect {
    type V = EffectView;

    open spec fn deep_view(&self) -> EffectView {
        self@
    }
}

/// What a run comes to: its effects, in the order in which they happen, and
/// the result that it ends with.
#[derive(Debug, PartialEq, Eq)]
pub struct Outcome {
    pub effects: Vec<Effect>,
    pub result: Result<(), String>,
}

/// An outcome, with texts in place of strings.
pub struct OutcomeView {
    pub effects: Seq<EffectView>,
    pub result: Result<(), Seq<char>>,
}

impl View for Outcome {
    type V = OutcomeView;

    open spec fn view(&self) -> OutcomeView {
        OutcomeView {
            effects: self.effects.deep_view(),
            result: match self.result {
                Ok(_) => Ok(()),
                Err(message) => Err(message@),
            },
        }
    }
}

/// What reading a file gave: its text, `None` for a file that does not
/// exist, or the message of the failure.
pub open spec fn read_text(read: Result<String, IoFailure>) -> Result<
    Option<Seq<char>>,
    Seq<char>,
> {
    match read {
        Ok(text) => Ok(Some(text@)),
        Err(IoFailure::NotFound) => Ok(None),
        Err(err) => Err(failure_message(err)),
    }
}

/// The effects that print `lines`, one by one.
pub open spec fn prints(lines: Seq<Seq<char>>) -> Seq<EffectView> {
    Seq::new(lines.len(), |i: int| EffectView::Print { line: lines[i] })
}

/// A run that fails with `message` and does nothing.
pub open spec fn failed(message: Seq<char>) -> OutcomeView {
    OutcomeView { effects: Seq::empty(), result: Err(message) }
}

/// A run that prints `lines` and succeeds.
pub open spec fn printed(lines: Seq<Seq<char>>) -> OutcomeView {
    OutcomeView { effects: prints(lines), result: Ok(()) }
}

/// Listing the todo file after `read`.
pub open spec fn listed(read: Result<Option<Seq<char>>, Seq<char>>) -> OutcomeView {
    match read {
        Ok(file) => printed(list_output(file)),
        Err(message) => failed(message),
    }
}

/// Two steps in a row: both happen, and the first error is the result.
pub open spec fn both(first: OutcomeView, second: OutcomeView) -> OutcomeView {
    OutcomeView {
        effects: first.effects + second.effects,
        result: if first.result is Err {
            first.result
        } else {
            second.result
        },
    }
}

/// Creating the todo `todo`: its line is appended to the todo file, then the
/// file is listed as it stands after that.
pub open spec fn create_run(
    todo: Seq<char>,
    todo_path: Seq<char>,
    todos: Result<Option<Seq<char>>, Seq<char>>,
) -> OutcomeView {
    let line = todo_line(todo);
    let write = OutcomeView {
        effects: seq![EffectView::Append { path: todo_path, text: line }],
        result: Ok(()),
    };
    let after = match todos {
        Ok(file) => Ok(Some(appended(file, line))),
        Err(message) => Err(message),
    };
    both(write, listed(after))
}

/// What a completion comes to: the todo file is rewritten without the todo,
/// its done entry is appended to the done file, then the todo file is listed
/// as it stands after that. Where there is no completion, nothing is written
/// and the todo file `file` is listed as it is.
pub open spec fn completion_run(
    todo_path: Seq<char>,
    done_path: Seq<char>,
    file: Option<Seq<char>>,
    completion: Option<(Seq<char>, Seq<char>)>,
) -> OutcomeView {
    match completion {
        Some((rest, entry)) => both(
            OutcomeView {
                effects: seq![
                    EffectView::Rewrite { path: todo_path, text: rest },
                    EffectView::Append { path: done_path, text: entry },
                ],
                result: Ok(()),
            },
            listed(Ok(Some(rest))),
        ),
        None => listed(Ok(file)),
    }
}

/// Completing the todo at position `number` at the moment `stamp`. Where the
/// todo file has no such position, there is no completion.
pub open spec fn complete_run(
    number: int,
    todo_path: Seq<char>,
    done_path: Seq<char>,
    todos: Result<Option<Seq<char>>, Seq<char>>,
    stamp: Seq<char>,
) -> OutcomeView {
    match todos {
        Ok(file) => completion_run(todo_path, done_path, file, completed(number, file, stamp)),
        Err(message) => failed(message),
    }
}

/// Listing the todos in which `term` occurs.
pub open spec fn search_run(
    term: Seq<char>,
    todos: Result<Option<Seq<char>>, Seq<char>>,
) -> OutcomeView {
    match todos {
        Ok(file) => printed(search_output(term, file)),
        Err(message) => failed(message),
    }
}

/// Listing the todos, then the done entries. The done file is not listed
/// where the todo file could not be.
pub open spec fn list_all_run(
    todos: Result<Option<Seq<char>>, Seq<char>>,
    done: Result<Option<Seq<char>>, Seq<char>>,
) -> OutcomeView {
    match todos {
        Ok(file) => both(
            listed(Ok(file)),
            match done {
                Ok(entries) => printed(done_output(entries)),
                Err(message) => failed(message),
            },
        ),
        Err(message) => failed(message),
    }
}

/// What running `command` comes to. `todo_path` and `done_path` name the two
/// files; `todos` and `done` are what reading them gave before the run;
/// `stamp` is the moment of the run. A file that does not exist counts as
/// empty. Any other failure to read a file ends the step that needs the file
/// with the failure's message. An unknown command fails and does nothing.
pub open spec fn run_spec(
    command: CommandView,
    todo_path: Seq<char>,
    done_path: Seq<char>,
    todos: Result<Option<Seq<char>>, Seq<char>>,
    done: Result<Option<Seq<char>>, Seq<char>>,
    stamp: Seq<char>,
) -> OutcomeView {
    match command {
        CommandView::CreateTodo(todo) => create_run(todo, todo_path, todos),
        CommandView::DoTodo(number) => complete_run(
            number as int,
            todo_path,
            done_path,
            todos,
            stamp,
        ),
        CommandView::ListTodos(Some(term)) => search_run(term, todos),
        CommandView::ListTodos(None) => listed(todos),
        CommandView::ListAllTodos => list_all_run(todos, done),
        CommandView::Unsupported => failed("Unsupported command!"@),
    }
}

/// What reading a file gave, with texts in place of strings.
pub open spec fn file_view(file: Result<Option<String>, String>) -> Result<
    Option<Seq<char>>,
    Seq<char>,
> {
    match file {
        Ok(text) => Ok(option_text(text)),
        Err(message) => Err(message@),
    }
}

/// Settles what a read gave: a file that does not exist is no failure, it
/// counts as absent; any other failure becomes its message.
pub fn file_text(read: Result<String, IoFailure>) -> (file: Result<Option<String>, String>)
    ensures
        file_view(file) == read_text(read),
{
    match read {
        Ok(text) => Ok(Some(text)),
        Err(IoFailure::NotFound) => Ok(None),
        Err(err) => match handle_io_err(err) {
            Ok(_) => Ok(None),
            Err(message) => Err(message),
        },
    }
}

fn push_prints(effects: &mut Vec<Effect>, lines: &Vec<String>)
    ensures
        final(effects).deep_view() == old(effects).deep_view() + prints(lines.deep_view()),
{
    let ghost before = effects.deep_view();
    let ghost all = prints(lines.deep_view());
    let mut i: usize = 0;
    assert(before + all.take(0) =~= before);
    while i < lines.len()
        invariant
            i <= lines.len(),
            all == prints(lines.deep_view()),
            effects.deep_view() == before + all.take(i as int),
        decreases lines.len() - i,
    {
        let ghost so_far = effects.deep_view();
        effects.push(Effect::Print { line: lines[i].clone() });
        assert(effects.deep_view() =~= so_far.push(all[i as int]));
        assert(all.take(i + 1) =~= all.take(i as int).push(all[i as int]));
        i += 1;
    }
    assert(all.take(i as int) == all);
}

fn borrowed(file: &Option<String>) -> (text: Option<&str>)
    ensures
        text_of(text) == option_text(*file),
{
    match file {
        Some(text) => Some(text.as_str()),
        None => None,
    }
}

fn fail(message: String) -> (outcome: Outcome)
    ensures
        outcome@ == failed(message@),
{
    let outcome = Outcome { effects: Vec::new(), result: Err(message) };
    assert(outcome@.effects =~= failed(message@).effects);
    outcome
}

fn print(lines: &Vec<String>) -> (outcome: Outcome)
    ensures
        outcome@ == printed(lines.deep_view()),
{
    let mut effects: Vec<Effect> = Vec::new();
    push_prints(&mut effects, lines);
    let outcome = Outcome { effects, result: Ok(()) };
    assert(outcome@.effects =~= prints(lines.deep_view()));
    outcome
}

fn list(file: Result<Option<String>, String>) -> (outcome: Outcome)
    ensures
        outcome@ == listed(file_view(file)),
{
    match file {
        Ok(file) => print(&list_todos(borrowed(&file))),
        Err(message) => fail(message),
    }
}

fn followed_by(effects: Vec<Effect>, second: Outcome) -> (outcome: Outcome)
    ensures
        outcome@ == both(
            OutcomeView { effects: effects.deep_view(), result: Ok(()) },
            second@,
        ),
{
    let ghost first = effects.deep_view();
    let ghost rest = second.effects.deep_view();
    let mut effects = effects;
    let Outcome { effects: mut more, result } = second;
    effects.append(&mut more);
    let outcome = Outcome { effects, result };
    assert(outcome@.effects =~= first + rest);
    outcome
}

fn run_create(todo: &str, config: &Config, file: Result<Option<String>, String>) -> (outcome:
    Outcome)
    ensures
        outcome@ == create_run(todo@, config.spec_todo_path(), file_view(file)),
{
    let line = create_todo(todo);
    let after = match file {
        Ok(Some(text)) => Ok(Some(text.concat(line.as_str()))),
        Ok(None) => Ok(Some(line.clone())),
        Err(message) => Err(message),
    };
    let mut effects: Vec<Effect> = Vec::new();
    effects.push(Effect::Append { path: String::from_str(config.todo_path()), text: line });
    assert(effects.deep_view() =~= seq![
        EffectView::Append { path: config.spec_todo_path(), text: todo_line(todo@) },
    ]);
    followed_by(effects, list(after))
}

fn run_completion(
    config: &Config,
    file: Option<String>,
    completion: Option<Completion>,
) -> (outcome: Outcome)
    ensures
        outcome@ == completion_run(
            config.spec_todo_path(),
            config.spec_done_path(),
            option_text(file),
            completion_texts(completion),
        ),
{
    match completion {
        Some(completion) => {
            let listing = list(Ok(Some(completion.todos.clone())));
            let mut effects: Vec<Effect> = Vec::new();
            effects.push(
                Effect::Rewrite {
                    path: String::from_str(config.todo_path()),
                    text: completion.todos,
                },
            );
            effects.push(
                Effect::Append {
                    path: String::from_str(config.done_path()),
                    text: completion.done,
                },
            );
            assert(effects.deep_view() =~= seq![
                EffectView::Rewrite { path: config.spec_todo_path(), text: completion.todos@ },
                EffectView::Append { path: config.spec_done_path(), text: completion.done@ },
            ]);
            followed_by(effects, listing)
        },
        None => list(Ok(file)),
    }
}

fn run_complete(
    todo_number: usize,
    config: &Config,
    file: Result<Option<String>, String>,
    stamp: &str,
) -> (outcome: Outcome)
    ensures
        outcome@ == complete_run(
            todo_number as int,
            config.spec_todo_path(),
            config.spec_done_path(),
            file_view(file),
            stamp@,
        ),
{
    match file {
        Ok(file) => {
            let completion = complete_todo_at(todo_number, borrowed(&file), stamp);
            run_completion(config, file, completion)
        },
        Err(message) => fail(message),
    }
}

fn run_complete_now(
    todo_number: usize,
    config: &Config,
    file: Result<Option<String>, String>,
) -> (outcome: Outcome)
    ensures
        exists|stamp: Seq<char>|
            is_stamp(stamp) && outcome@ == #[trigger] complete_run(
                todo_number as int,
                config.spec_todo_path(),
                config.spec_done_path(),
                file_view(file),
                stamp,
            ),
{
    match file {
        Ok(file) => {
            let completion = complete_todo(todo_number, borrowed(&file));
            let ghost stamp = choose|stamp: Seq<char>|
                is_stamp(stamp) && completion_texts(completion) == #[trigger] completed(
                    todo_number as int,
                    option_text(file),
                    stamp,
                );
            let outcome = run_completion(config, file, completion);
            assert(outcome@ == complete_run(
                todo_number as int,
                config.spec_todo_path(),
                config.spec_done_path(),
                Ok(option_text(file)),
                stamp,
            ));
            outcome
        },
        Err(message) => {
            let outcome = fail(message);
            let ghost stamp = Seq::new(20, |i: int| 'Z');
            assert(is_stamp(stamp));
            assert(outcome@ == complete_run(
                todo_number as int,
                config.spec_todo_path(),
                config.spec_done_path(),
                Err(message@),
                stamp,
            ));
            outcome
        },
    }
}

fn run_search(term: &str, file: Result<Option<String>, String>) -> (outcome: Outcome)
    ensures
        outcome@ == search_run(term@, file_view(file)),
{
    match file {
        Ok(file) => print(&search_todos(term, borrowed(&file))),
        Err(message) => fail(message),
    }
}

fn run_list_all(
    file: Result<Option<String>, String>,
    entries: Result<Option<String>, String>,
) -> (outcome: Outcome)
    ensures
        outcome@ == list_all_run(file_view(file), file_view(entries)),
{
    let file = match file {
        Ok(file) => file,
        Err(message) => {
            return fail(message);
        },
    };
    let Outcome { effects, result: _ } = list(Ok(file));
    let second = match entries {
        Ok(entries) => print(&list_done_todos(borrowed(&entries))),
        Err(message) => fail(message),
    };
    followed_by(effects, second)
}

/// Runs `command` at the moment `stamp`. `todos` and `done` are what reading
/// the todo file and the done file of `config` gave.
pub fn run_at(
    command: Command,
    config: Config,
    todos: Result<String, IoFailure>,
    done: Result<String, IoFailure>,
    stamp: &str,
) -> (outcome: Outcome)
    ensures
        outcome@ == run_spec(
            command@,
            config.spec_todo_path(),
            config.spec_done_path(),
            read_text(todos),
            read_text(done),
            stamp@,
        ),
{
    match command {
        Command::CreateTodo(todo) => run_create(todo.as_str(), &config, file_text(todos)),
        Command::DoTodo(todo_number) => run_complete(
            todo_number,
            &config,
            file_text(todos),
            stamp,
        ),
        Command::ListTodos(Some(term)) => run_search(term.as_str(), file_text(todos)),
        Command::ListTodos(None) => list(file_text(todos)),
        Command::ListAllTodos => run_list_all(file_text(todos), file_text(done)),
        Command::Unsupported => fail(String::from_str("Unsupported command!")),
    }
}

/// What is left of a run after one of its writes has failed with `failure`:
/// the effects that follow the write are given up, the todo file is listed
/// as it now stands, `todos` being what reading it gave after the failure,
/// and the run ends with the message of the failure.
pub fn after_failed_write(failure: IoFailure, todos: Result<String, IoFailure>) -> (outcome:
    Outcome)
    ensures
        outcome@ == both(failed(failure_message(failure)), listed(read_text(todos))),
{
    let Outcome { effects, result: _ } = list(file_text(todos));
    let outcome = Outcome { effects, result: handle_io_err(failure) };
    assert(outcome@.effects =~= Seq::<EffectView>::empty() + listed(read_text(todos)).effects);
    outcome
}

/// Runs `command` now. `todos` and `done` are what reading the todo file and
/// the done file of `config` gave. The moment of the run is a stamp; only
/// completing a todo makes use of it, and only then is the clock read,
/// through `chrono`, which takes any moment within some 262,000 years of
/// 1970.
pub fn run(
    command: Command,
    config: Config,
    todos: Result<String, IoFailure>,
    done: Result<String, IoFailure>,
) -> (outcome: Outcome)
    ensures
        exists|stamp: Seq<char>|
            is_stamp(stamp) && outcome@ == #[trigger] run_spec(
                command@,
                config.spec_todo_path(),
                config.spec_done_path(),
                read_text(todos),
                read_text(done),
                stamp,
            ),
        command@ !is DoTodo ==> outcome@ == run_spec(
            command@,
            config.spec_todo_path(),
            config.spec_done_path(),
            read_text(todos),
            read_text(done),
            Seq::empty(),
        ),
{
    match command {
        Command::DoTodo(todo_number) => {
            let outcome = run_complete_now(todo_number, &config, file_text(todos));
            let ghost stamp = choose|stamp: Seq<char>|
                is_stamp(stamp) && outcome@ == #[trigger] complete_run(
                    todo_number as int,
                    config.spec_todo_path(),
                    config.spec_done_path(),
                    read_text(todos),
                    stamp,
                );
            assert(outcome@ == run_spec(
                command@,
                config.spec_todo_path(),
                config.spec_done_path(),
                read_text(todos),
                read_text(done),
                stamp,
            ));
            outcome
        },
        _ => {
            let ghost stamp = Seq::new(20, |i: int| 'Z');
            let ghost expected = run_spec(
                command@,
                config.spec_todo_path(),
                config.spec_done_path(),
                read_text(todos),
                read_text(done),
                stamp,
            );
            let outcome = run_at(command, config, todos, done, "");
            proof {
                reveal_strlit("");
                assert(""@ =~= Seq::<char>::empty());
                assert(is_stamp(stamp));
                assert(outcome@ == expected);
            }
            outcome
        },
    }
}

} // verus!
