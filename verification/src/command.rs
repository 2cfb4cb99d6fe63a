//! The command line: which command the arguments ask for.

use crate::number::{number_of, parse_number};
use crate::text::{same_text, trim, trimmed};
use vstd::prelude::*;
use vstd::slice::slice_subrange;

verus! {

/// What the user asks for.
#[derive(Clone, Debug, PartialEq, Eq)]
pub enum Command {
    /// Add a todo with this text.
    CreateTodo(String),
    /// Complete the todo at this position, counted from one.
    DoTodo(usize),
    /// List the todos: those in which the term occurs, or all of them.
    ListTodos(Option<String>),
    /// List the todos, then the done entries.
    ListAllTodos,
    /// A command that the program does not know.
    Unsupported,
}

/// A command, with texts in place of strings.
pub enum CommandView {
    CreateTodo(Seq<char>),
    DoTodo(usize),
    ListTodos(Option<Seq<char>>),
    ListAllTodos,
    Unsupported,
}

impl View for Command {
    type V = CommandView;

    open spec fn view(&self) -> CommandView {
        match self {
            Command::CreateTodo(text) => CommandView::CreateTodo(text@),
            Command::DoTodo(number) => CommandView::DoTodo(*number),
            Command::ListTodos(Some(term)) => CommandView::ListTodos(Some(term@)),
            Command::ListTodos(None) => CommandView::ListTodos(None),
            Command::ListAllTodos => CommandView::ListAllTodos,
            Command::Unsupported => CommandView::Unsupported,
        }
    }
}

/// `words` in a row, with one space between neighbours.
pub open spec fn joined(words: Seq<Seq<char>>) -> Seq<char>
    decreases words.len(),
{
    if words.len() == 0 {
        Seq::empty()
    } else if words.len() == 1 {
        words[0]
    } else {
        joined(words.drop_last()) + " "@ + words.last()
    }
}

/// The text that the words after a command make: the words joined by single
/// spaces, without the white space at either end. No words make no text.
pub open spec fn remaining_text(words: Seq<Seq<char>>) -> Option<Seq<char>> {
    if words.len() == 0 {
        None
    } else {
        Some(trimmed(joined(words)))
    }
}

/// The error for a word behind `do` that gives no position.
pub open spec fn bad_number(token: Seq<char>) -> Seq<char> {
    "Could not find todo number "@ + token + "!"@
}

/// The command that `words` ask for, where `words` are the arguments behind
/// the program's name, or the error that reports what is missing or wrong.
///
/// - `a` or `add` creates a todo from the words that follow; it is an error
///   where they leave no text.
/// - `do` completes the todo at the position that the next word gives; it is
///   an error where that word is missing or stands for no number of one or
///   more.
/// - `ls` or `list` lists the todos, those in which the words that follow
///   occur where there are any.
/// - `la` or `listall` lists the todos and the done entries.
/// - Any other first word, and no word at all, is the unsupported command.
pub open spec fn parsed(words: Seq<Seq<char>>) -> Result<CommandView, Seq<char>> {
    if words.len() == 0 {
        Ok(CommandView::Unsupported)
    } else {
        let token = words[0];
        let rest = words.skip(1);
        if token == "a"@ || token == "add"@ {
            match remaining_text(rest) {
                Some(text) => if text.len() > 0 {
                    Ok(CommandView::CreateTodo(text))
                } else {
                    Err("Please specify text for a todo!"@)
                },
                None => Err("Please specify text for a todo!"@),
            }
        } else if token == "do"@ {
            if rest.len() == 0 {
                Err("Please specify a todo number!"@)
            } else {
                match number_of(rest[0]) {
                    Some(number) => if number > 0 {
                        Ok(CommandView::DoTodo(number))
                    } else {
                        Err(bad_number(rest[0]))
                    },
                    None => Err(bad_number(rest[0])),
                }
            }
        } else if token == "ls"@ || token == "list"@ {
            Ok(CommandView::ListTodos(remaining_text(rest)))
        } else if token == "la"@ || token == "listall"@ {
            Ok(CommandView::ListAllTodos)
        } else {
            Ok(CommandView::Unsupported)
        }
    }
}

/// The arguments behind the program's name, which comes first.
pub open spec fn behind_name(args: Seq<Seq<char>>) -> Seq<Seq<char>> {
    if args.len() == 0 {
        args
    } else {
        args.skip(1)
    }
}

/// A parse result, with texts in place of strings.
pub open spec fn parse_view(result: Result<Command, String>) -> Result<CommandView, Seq<char>> {
    match result {
        Ok(command) => Ok(command@),
        Err(message) => Err(message@),
    }
}

/// The text of a string that may be missing.
pub open spec fn option_text(text: Option<String>) -> Option<Seq<char>> {
    match text {
        Some(text) => Some(text@),
        None => None,
    }
}

/// Joins `words` by single spaces and trims the white space at both ends.
pub fn parse_remaining_args(words: &[String]) -> (text: Option<String>)
    ensures
        option_text(text) == remaining_text(words.deep_view()),
{
    if words.len() == 0 {
        return None;
    }
    let ghost all = words.deep_view();
    let mut accum = String::from_str(words[0].as_str());
    let mut i: usize = 1;
    assert(all.take(1) =~= seq![all[0]]);
    while i < words.len()
        invariant
            1 <= i <= words.len(),
            all == words.deep_view(),
            accum@ == joined(all.take(i as int)),
        decreases words.len() - i,
    {
        assert(all.take(i + 1).drop_last() == all.take(i as int));
        assert(all.take(i + 1).last() == words[i as int]@);
        accum.append(" ");
        accum.append(words[i].as_str());
        i += 1;
    }
    assert(all.take(i as int) == all);
    Some(trim(accum.as_str()))
}

impl Command {
    /// Whether running the command asks for what the todo file holds: every
    /// command does, but the unsupported one.
    pub fn reads_todos(&self) -> (reads: bool)
        ensures
            reads == !(self@ is Unsupported),
    {
        match self {
            Command::Unsupported => false,
            _ => true,
        }
    }

    /// Whether running the command asks for what the done file holds: only
    /// listing everything does.
    pub fn reads_done(&self) -> (reads: bool)
        ensures
            reads == (self@ is ListAllTodos),
    {
        match self {
            Command::ListAllTodos => true,
            _ => false,
        }
    }

    /// Reads the command from the arguments of the process, the program's
    /// name first.
    pub fn from_args(args: Vec<String>) -> (result: Result<Command, String>)
        ensures
            parse_view(result) == parsed(behind_name(args.deep_view())),
    {
        let ghost words = behind_name(args.deep_view());
        if args.len() < 2 {
            assert(words.len() == 0);
            return Ok(Command::Unsupported);
        }
        let command = args[1].as_str();
        assert(words[0] == command@);
        let rest = slice_subrange(args.as_slice(), 2, args.len());
        assert(rest.deep_view() =~= words.skip(1));
        if same_text(command, "a") || same_text(command, "add") {
            match parse_remaining_args(rest) {
                Some(todo) => if todo.as_str().is_empty() {
                    Err(String::from_str("Please specify text for a todo!"))
                } else {
                    Ok(Command::CreateTodo(todo))
                },
                None => Err(String::from_str("Please specify text for a todo!")),
            }
        } else if same_text(command, "do") {
            if rest.len() == 0 {
                return Err(String::from_str("Please specify a todo number!"));
            }
            let target = rest[0].as_str();
            assert(target@ == words.skip(1)[0]);
            match parse_number(target) {
                Some(todo_number) if todo_number > 0 => Ok(Command::DoTodo(todo_number)),
                _ => {
                    let mut message = String::from_str("Could not find todo number ");
                    message.append(target);
                    message.append("!");
                    Err(message)
                },
            }
        } else if same_text(command, "ls") || same_text(command, "list") {
            Ok(Command::ListTodos(parse_remaining_args(rest)))
        } else if same_text(command, "la") || same_text(command, "listall") {
            Ok(Command::ListAllTodos)
        } else {
            Ok(Command::Unsupported)
        }
    }
}

} // verus!
