//! The todo store: what each operation makes of the todo file and the done
//! file, as texts.

use crate::clock::{is_stamp, utc_stamp};
use crate::lines::{join_lines, lines_of, rendered, split_lines};
use crate::number::{decimal, decimal_string};
use crate::text::{chars_of, contains, contains_chars};
use vstd::prelude::*;

verus! {

/// Where the two files of a store are kept.
#[derive(Clone, Debug, PartialEq, Eq)]
pub struct Config {
    todo_path: String,
    done_path: String,
}

impl Config {
    /// The path of the todo file, as text.
    pub closed spec fn spec_todo_path(&self) -> Seq<char> {
        self.todo_path@
    }

    /// The path of the done file, as text.
    pub closed spec fn spec_done_path(&self) -> Seq<char> {
        self.done_path@
    }

    /// A store whose todo file is at `todo_path` and whose done file is at
    /// `done_path`.
    pub fn new(todo_path: &str, done_path: &str) -> (config: Config)
        ensures
            config.spec_todo_path() == todo_path@,
            config.spec_done_path() == done_path@,
    {
        Config { todo_path: String::from_str(todo_path), done_path: String::from_str(done_path) }
    }

    /// The path of the todo file.
    pub fn todo_path(&self) -> (path: &str)
        ensures
            path@ == self.spec_todo_path(),
    {
        self.todo_path.as_str()
    }

    /// The path of the done file.
    pub fn done_path(&self) -> (path: &str)
        ensures
            path@ == self.spec_done_path(),
    {
        self.done_path.as_str()
    }
}

/// Why a file could not be read or written.
#[derive(Clone, Debug, PartialEq, Eq)]
pub enum IoFailure {
    /// The file, or a directory on the way to it, does not exist.
    NotFound,
    /// Anything else, with the text of the error.
    Other(String),
}

/// The message that reports `err` to the user.
pub open spec fn failure_message(err: IoFailure) -> Seq<char> {
    match err {
        IoFailure::NotFound => "todo.txt file not present. Try creating some todos!"@,
        IoFailure::Other(text) => text@,
    }
}

/// Turns a failure into the error that the run ends with: a fixed message
/// for a missing file, the failure's own text for any other.
pub fn handle_io_err(err: IoFailure) -> (result: Result<(), String>)
    ensures
        result matches Err(message) && message@ == failure_message(err),
{
    match err {
        IoFailure::NotFound => Err(
            String::from_str("todo.txt file not present. Try creating some todos!"),
        ),
        IoFailure::Other(text) => Err(text),
    }
}

/// The text of a file that may be absent.
pub open spec fn text_of(file: Option<&str>) -> Option<Seq<char>> {
    match file {
        Some(text) => Some(text@),
        None => None,
    }
}

/// The line that shows `line` at `position`.
pub open spec fn numbered(position: nat, line: Seq<char>) -> Seq<char> {
    decimal(position) + " "@ + line
}

/// The line that closes a listing of `shown` out of `total` todos.
pub open spec fn summary(shown: nat, total: nat) -> Seq<char> {
    "Showing "@ + decimal(shown) + " of "@ + decimal(total) + " todos."@
}

/// Every line of `lines` with its position, counted from one.
pub open spec fn listing(lines: Seq<Seq<char>>) -> Seq<Seq<char>> {
    Seq::new(lines.len(), |i: int| numbered((i + 1) as nat, lines[i]))
}

/// What listing the todo file prints, line by line: nothing where the file
/// is absent; else every todo with its position, an empty line and the
/// summary.
pub open spec fn list_output(todos: Option<Seq<char>>) -> Seq<Seq<char>> {
    match todos {
        None => Seq::empty(),
        Some(text) => {
            let lines = lines_of(text);
            listing(lines) + seq![Seq::empty(), summary(lines.len(), lines.len())]
        },
    }
}

fn numbered_line(position: usize, line: &str) -> (shown: String)
    ensures
        shown@ == numbered(position as nat, line@),
{
    let mut shown = decimal_string(position);
    shown.append(" ");
    shown.append(line);
    shown
}

fn summary_line(shown: usize, total: usize) -> (line: String)
    ensures
        line@ == summary(shown as nat, total as nat),
{
    let mut line = String::from_str("Showing ");
    line.append(decimal_string(shown).as_str());
    line.append(" of ");
    line.append(decimal_string(total).as_str());
    line.append(" todos.");
    line
}

/// Lists the todos of the todo file, whose text is `todos`, or `None` where
/// the file is absent.
pub fn list_todos(todos: Option<&str>) -> (output: Vec<String>)
    ensures
        output.deep_view() == list_output(text_of(todos)),
        todos is None ==> output@.len() == 0,
{
    let mut output: Vec<String> = Vec::new();
    let text = match todos {
        Some(text) => text,
        None => {
            assert(output.deep_view() =~= Seq::<Seq<char>>::empty());
            return output;
        },
    };
    let lines = split_lines(text);
    let ghost all = listing(lines.deep_view());
    let mut i: usize = 0;
    while i < lines.len()
        invariant
            i <= lines.len(),
            all == listing(lines.deep_view()),
            output.deep_view() == all.take(i as int),
        decreases lines.len() - i,
    {
        let shown = numbered_line(i + 1, lines[i].as_str());
        let ghost before = output.deep_view();
        output.push(shown);
        assert(output.deep_view() =~= before.push(all[i as int]));
        assert(all.take(i + 1) =~= all.take(i as int).push(all[i as int]));
        i += 1;
    }
    assert(all.take(i as int) == all);
    let ghost before = output.deep_view();
    output.push(String::new());
    output.push(summary_line(lines.len(), lines.len()));
    assert(output.deep_view() =~= before + seq![
        Seq::empty(),
        summary(lines.len() as nat, lines.len() as nat),
    ]);
    output
}

/// The positions, counted from zero and in rising order, of the lines of
/// `lines` in which `term` occurs.
pub open spec fn hits(lines: Seq<Seq<char>>, term: Seq<char>) -> Seq<int>
    decreases lines.len(),
{
    if lines.len() == 0 {
        Seq::empty()
    } else {
        let before = hits(lines.drop_last(), term);
        if contains(lines.last(), term) {
            before.push(lines.len() - 1)
        } else {
            before
        }
    }
}

/// The lines of `lines` at the positions `found`, each with its position
/// counted from one.
pub open spec fn found_listing(lines: Seq<Seq<char>>, found: Seq<int>) -> Seq<Seq<char>> {
    Seq::new(found.len(), |k: int| numbered((found[k] + 1) as nat, lines[found[k]]))
}

/// What searching the todo file for `term` prints, line by line: nothing
/// where the file is absent; else every todo in which `term` occurs, with
/// its position in the file, an empty line and the summary.
pub open spec fn search_output(term: Seq<char>, todos: Option<Seq<char>>) -> Seq<Seq<char>> {
    match todos {
        None => Seq::empty(),
        Some(text) => {
            let lines = lines_of(text);
            let found = hits(lines, term);
            found_listing(lines, found) + seq![Seq::empty(), summary(found.len(), lines.len())]
        },
    }
}

/// Lists the todos in which `search` occurs. `todos` is the text of the todo
/// file, or `None` where the file is absent.
pub fn search_todos(search: &str, todos: Option<&str>) -> (output: Vec<String>)
    ensures
        output.deep_view() == search_output(search@, text_of(todos)),
        todos is None ==> output@.len() == 0,
{
    let mut output: Vec<String> = Vec::new();
    let text = match todos {
        Some(text) => text,
        None => {
            assert(output.deep_view() =~= Seq::<Seq<char>>::empty());
            return output;
        },
    };
    let lines = split_lines(text);
    let term = chars_of(search);
    let ghost all = lines.deep_view();
    let mut shown_todos: usize = 0;
    let mut i: usize = 0;
    assert(all.take(0) =~= Seq::<Seq<char>>::empty());
    while i < lines.len()
        invariant
            i <= lines.len(),
            all == lines.deep_view(),
            term@ == search@,
            shown_todos == hits(all.take(i as int), search@).len(),
            shown_todos <= i,
            output.deep_view() == found_listing(all, hits(all.take(i as int), search@)),
        decreases lines.len() - i,
    {
        let ghost found = hits(all.take(i as int), search@);
        let ghost before = output.deep_view();
        assert(all.take(i + 1).drop_last() == all.take(i as int));
        assert(all.take(i + 1).last() == lines[i as int]@);
        let todo = chars_of(lines[i].as_str());
        if contains_chars(&todo, &term) {
            output.push(numbered_line(i + 1, lines[i].as_str()));
            shown_todos = shown_todos + 1;
            assert(all[i as int] == lines[i as int]@);
            assert(output.deep_view() =~= before.push(numbered((i + 1) as nat, all[i as int])));
            assert(before.push(numbered((i + 1) as nat, all[i as int])) =~= found_listing(
                all,
                found.push(i as int),
            ));
        }
        i += 1;
    }
    assert(all.take(i as int) == all);
    let ghost before = output.deep_view();
    output.push(String::new());
    output.push(summary_line(shown_todos, lines.len()));
    assert(output.deep_view() =~= before + seq![
        Seq::empty(),
        summary(shown_todos as nat, lines.len() as nat),
    ]);
    output
}

/// The line that shows the done entry `line`.
pub open spec fn done_line(line: Seq<char>) -> Seq<char> {
    "0 "@ + line
}

/// What listing the done file prints, line by line: nothing where the file
/// is absent; else every entry behind the same placeholder position.
pub open spec fn done_output(done: Option<Seq<char>>) -> Seq<Seq<char>> {
    match done {
        None => Seq::empty(),
        Some(text) => {
            let lines = lines_of(text);
            Seq::new(lines.len(), |i: int| done_line(lines[i]))
        },
    }
}

/// Lists the entries of the done file, whose text is `done`, or `None` where
/// the file is absent.
pub fn list_done_todos(done: Option<&str>) -> (output: Vec<String>)
    ensures
        output.deep_view() == done_output(text_of(done)),
        done is None ==> output@.len() == 0,
{
    let mut output: Vec<String> = Vec::new();
    let text = match done {
        Some(text) => text,
        None => {
            assert(output.deep_view() =~= Seq::<Seq<char>>::empty());
            return output;
        },
    };
    let lines = split_lines(text);
    let ghost all = done_output(Some(text@));
    let mut i: usize = 0;
    while i < lines.len()
        invariant
            i <= lines.len(),
            lines.deep_view() == lines_of(text@),
            all == done_output(Some(text@)),
            output.deep_view() == all.take(i as int),
        decreases lines.len() - i,
    {
        let mut shown = String::from_str("0 ");
        shown.append(lines[i].as_str());
        let ghost before = output.deep_view();
        output.push(shown);
        assert(lines.deep_view()[i as int] == lines[i as int]@);
        assert(output.deep_view() =~= before.push(all[i as int]));
        assert(all.take(i + 1) =~= all.take(i as int).push(all[i as int]));
        i += 1;
    }
    assert(all.take(i as int) == all);
    output
}

/// What creating the todo `todo` appends to the todo file: the todo and a
/// line feed.
pub open spec fn todo_line(todo: Seq<char>) -> Seq<char> {
    todo + "\n"@
}

/// What a file holds; an absent file holds nothing.
pub open spec fn content(file: Option<Seq<char>>) -> Seq<char> {
    match file {
        None => Seq::empty(),
        Some(text) => text,
    }
}

/// The text that a file holds once `addition` is appended to it. An absent
/// file is created by the append.
pub open spec fn appended(file: Option<Seq<char>>, addition: Seq<char>) -> Seq<char> {
    content(file) + addition
}

/// Creates a todo: gives the text to append to the todo file.
pub fn create_todo(todo: &str) -> (addition: String)
    ensures
        addition@ == todo_line(todo@),
{
    let mut addition = String::from_str(todo);
    addition.append("\n");
    addition
}

/// What completing a todo changes.
#[derive(Clone, Debug, PartialEq, Eq)]
pub struct Completion {
    /// The text that the todo file holds from now on.
    pub todos: String,
    /// The text to append to the done file.
    pub done: String,
}

/// The done entry of the todo `line`, completed at `stamp`.
pub open spec fn done_entry(stamp: Seq<char>, line: Seq<char>) -> Seq<char> {
    "x "@ + stamp + " "@ + line
}

/// Whether the todo file `todos` has a todo at position `number`.
pub open spec fn has_position(todos: Option<Seq<char>>, number: int) -> bool {
    todos matches Some(text) && 1 <= number <= lines_of(text).len()
}

/// What completing the todo at position `number` at the moment `stamp`
/// changes: the new text of the todo file, which holds every line but that
/// one, and the text to append to the done file, which is the done entry of
/// that line and a line feed. Nothing changes where the todo file is absent
/// or has no such position.
pub open spec fn completed(number: int, todos: Option<Seq<char>>, stamp: Seq<char>) -> Option<
    (Seq<char>, Seq<char>),
> {
    if has_position(todos, number) {
        let lines = lines_of(todos->0);
        Some(
            (rendered(lines.remove(number - 1)), done_entry(stamp, lines[number - 1]) + "\n"@),
        )
    } else {
        None
    }
}

/// The two texts of a completion, if there is one.
pub open spec fn completion_texts(completion: Option<Completion>) -> Option<
    (Seq<char>, Seq<char>),
> {
    match completion {
        Some(c) => Some((c.todos@, c.done@)),
        None => None,
    }
}

fn lines_with_position(todo_number: usize, todos: Option<&str>) -> (lines: Option<Vec<String>>)
    ensures
        lines is Some <==> has_position(text_of(todos), todo_number as int),
        lines matches Some(all) ==> all.deep_view() == lines_of(text_of(todos)->0),
{
    let text = match todos {
        Some(text) => text,
        None => {
            return None;
        },
    };
    let lines = split_lines(text);
    if todo_number == 0 || todo_number > lines.len() {
        None
    } else {
        Some(lines)
    }
}

fn complete_line(lines: Vec<String>, todo_number: usize, stamp: &str) -> (completion: Completion)
    requires
        1 <= todo_number <= lines.len(),
    ensures
        completion.todos@ == rendered(lines.deep_view().remove(todo_number - 1)),
        completion.done@ == done_entry(stamp@, lines.deep_view()[todo_number - 1]) + "\n"@,
{
    let ghost all = lines.deep_view();
    let mut lines = lines;
    let mut done = String::from_str("x ");
    done.append(stamp);
    done.append(" ");
    done.append(lines[todo_number - 1].as_str());
    done.append("\n");
    assert(lines[todo_number - 1]@ == all[todo_number - 1]);
    lines.remove(todo_number - 1);
    assert(lines.deep_view() =~= all.remove(todo_number - 1));
    let todos = join_lines(&lines);
    Completion { todos, done }
}

/// Completes the todo at position `todo_number` at the moment `stamp`.
/// `todos` is the text of the todo file, or `None` where the file is absent.
pub fn complete_todo_at(todo_number: usize, todos: Option<&str>, stamp: &str) -> (completion:
    Option<Completion>)
    ensures
        completion is Some <==> has_position(text_of(todos), todo_number as int),
        completion_texts(completion) == completed(todo_number as int, text_of(todos), stamp@),
{
    match lines_with_position(todo_number, todos) {
        Some(lines) => Some(complete_line(lines, todo_number, stamp)),
        None => None,
    }
}

/// Completes the todo at position `todo_number` now. `todos` is the text of
/// the todo file, or `None` where the file is absent. The done entry holds
/// the present moment as a stamp. The clock is read only where the todo file
/// has that position, and through `chrono`, which takes any moment within
/// some 262,000 years of 1970.
pub fn complete_todo(todo_number: usize, todos: Option<&str>) -> (completion: Option<Completion>)
    ensures
        completion is Some <==> has_position(text_of(todos), todo_number as int),
        exists|stamp: Seq<char>|
            is_stamp(stamp) && completion_texts(completion) == #[trigger] completed(
                todo_number as int,
                text_of(todos),
                stamp,
            ),
{
    match lines_with_position(todo_number, todos) {
        Some(lines) => {
            let stamp = utc_stamp();
            let completion = Some(complete_line(lines, todo_number, stamp.as_str()));
            assert(completion_texts(completion) == completed(
                todo_number as int,
                text_of(todos),
                stamp@,
            ));
            completion
        },
        None => {
            let ghost stamp = Seq::new(20, |i: int| 'Z');
            assert(is_stamp(stamp));
            assert(completed(todo_number as int, text_of(todos), stamp) is None);
            None
        },
    }
}

} // verus!
