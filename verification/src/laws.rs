//! What holds of the store and of the command line as a whole.

use crate::command::{joined, parsed, remaining_text, CommandView};
use crate::dispatch::{complete_run, printed, run_spec, OutcomeView};
use crate::lines::{
    ends_with_return, is_closed, is_entry, lemma_lines_concat, lemma_lines_first,
    lemma_lines_of_rendered, lemma_lines_single, lemma_rendered_closed, lines_of, single_line,
    without_return,
};
use crate::number::{decimal, lemma_number_of_decimal, number_of};
use crate::store::{
    appended, completed, content, done_entry, done_line, done_output, has_position, hits,
    list_output, numbered, search_output, summary, todo_line,
};
use crate::text::{contains, lemma_trimmed_is_bare, trimmed};
use vstd::prelude::*;

verus! {

/// Whether a file that may be absent is closed: each of its lines ends with
/// a line feed. Every file that only this store has written is.
pub open spec fn file_closed(file: Option<Seq<char>>) -> bool {
    is_closed(content(file))
}

/// Whether no line of `text` ends with a carriage return.
pub open spec fn no_line_ends_with_return(text: Seq<char>) -> bool {
    forall|i: int|
        0 <= i < lines_of(text).len() ==> !ends_with_return(#[trigger] lines_of(text)[i])
}

/// A line appended to a closed file is the file's new last line.
pub proof fn lemma_appended_line(file: Option<Seq<char>>, line: Seq<char>)
    requires
        file_closed(file),
        single_line(line),
    ensures
        lines_of(appended(file, todo_line(line))) == lines_of(content(file)).push(
            without_return(line),
        ),
{
    reveal_strlit("\n");
    assert("\n"@ =~= seq!['\n']);
    let closed_line = line + seq!['\n'];
    assert(closed_line + Seq::<char>::empty() =~= closed_line);
    assert(lines_of(Seq::<char>::empty()) =~= Seq::<Seq<char>>::empty());
    lemma_lines_first(line, Seq::empty());
    lemma_lines_concat(content(file), closed_line);
    assert(lines_of(closed_line) =~= seq![without_return(line)]);
    assert(lines_of(content(file)) + seq![without_return(line)] =~= lines_of(content(file)).push(
        without_return(line),
    ));
}

/// The files that the store writes are closed: the todo file after a todo is
/// created, the todo file after a todo is completed, and the done file after
/// it has gained the done entry.
pub proof fn lemma_written_files_are_closed(
    number: int,
    todos: Option<Seq<char>>,
    done: Option<Seq<char>>,
    todo: Seq<char>,
    stamp: Seq<char>,
)
    ensures
        is_closed(appended(todos, todo_line(todo))),
        completed(number, todos, stamp) matches Some((rest, entry)) ==> is_closed(rest)
            && is_closed(appended(done, entry)),
{
    reveal_strlit("\n");
    if has_position(todos, number) {
        lemma_rendered_closed(lines_of(todos->0).remove(number - 1));
    }
}

/// The text of a todo that comes from the command line does not end with a
/// carriage return.
pub proof fn lemma_remaining_text_has_no_return(words: Seq<Seq<char>>)
    ensures
        remaining_text(words) matches Some(text) ==> !ends_with_return(text),
{
    if words.len() > 0 {
        lemma_trimmed_is_bare(joined(words));
    }
}

/// A todo that is created is listed behind all the todos that were there: at
/// the position that is the earlier count and one. The list shows it as it
/// is read back, without a carriage return at its end.
pub proof fn lemma_created_is_listed_last(todos: Option<Seq<char>>, todo: Seq<char>)
    requires
        file_closed(todos),
        single_line(todo),
    ensures
        ({
            let count = lines_of(content(todos)).len();
            let after = appended(todos, todo_line(todo));
            &&& lines_of(after) == lines_of(content(todos)).push(without_return(todo))
            &&& list_output(Some(after)).len() == count + 3
            &&& list_output(Some(after))[count as int] == numbered(
                count + 1,
                without_return(todo),
            )
            &&& forall|i: int|
                0 <= i < count ==> #[trigger] list_output(Some(after))[i] == list_output(
                    Some(content(todos)),
                )[i]
        }),
{
    lemma_appended_line(todos, todo);
}

/// Listing a todo file that does not exist prints nothing and succeeds, and
/// so does searching it.
pub proof fn lemma_absent_file_lists_nothing(
    term: Option<Seq<char>>,
    todo_path: Seq<char>,
    done_path: Seq<char>,
    done: Result<Option<Seq<char>>, Seq<char>>,
    stamp: Seq<char>,
)
    ensures
        list_output(None) == Seq::<Seq<char>>::empty(),
        run_spec(CommandView::ListTodos(term), todo_path, done_path, Ok(None), done, stamp)
            == (OutcomeView { effects: Seq::empty(), result: Ok(()) }),
{
    let outcome = run_spec(
        CommandView::ListTodos(term),
        todo_path,
        done_path,
        Ok(None),
        done,
        stamp,
    );
    assert(outcome.effects =~= Seq::empty());
}

/// Completing the todo at a position that the todo file has takes that line
/// out of the file and leaves the other lines as they were and in their
/// order, and the done file gains one line, the done entry of the line that
/// left.
pub proof fn lemma_completed_moves_one_line(
    number: int,
    todos: Seq<char>,
    done: Option<Seq<char>>,
    stamp: Seq<char>,
)
    requires
        has_position(Some(todos), number),
        no_line_ends_with_return(todos),
        file_closed(done),
        single_line(stamp),
    ensures
        completed(number, Some(todos), stamp) matches Some((rest, entry)) && {
            let lines = lines_of(todos);
            &&& lines_of(rest) == lines.remove(number - 1)
            &&& lines_of(rest).len() == lines.len() - 1
            &&& lines_of(appended(done, entry)) == lines_of(content(done)).push(
                done_entry(stamp, lines[number - 1]),
            )
        },
{
    let lines = lines_of(todos);
    let kept = lines.remove(number - 1);
    let removed = lines[number - 1];
    lemma_lines_single(todos);
    assert forall|i: int| 0 <= i < kept.len() implies is_entry(#[trigger] kept[i]) by {
        if i < number - 1 {
            assert(kept[i] == lines[i]);
        } else {
            assert(kept[i] == lines[i + 1]);
        }
    }
    lemma_lines_of_rendered(kept);
    let entry = done_entry(stamp, removed);
    reveal_strlit("x ");
    reveal_strlit(" ");
    assert(single_line(removed));
    assert(!ends_with_return(removed));
    assert forall|i: int| 0 <= i < entry.len() implies #[trigger] entry[i] != '\n' by {
        if i < 2 {
        } else if i < 2 + stamp.len() {
            assert(entry[i] == stamp[i - 2]);
        } else if i < 3 + stamp.len() {
        } else {
            assert(entry[i] == removed[i - 3 - stamp.len()]);
        }
    }
    if removed.len() > 0 {
        assert(entry.last() == removed.last());
    }
    assert(!ends_with_return(entry));
    lemma_appended_line(done, entry);
}

/// Completing a todo at a position that the todo file does not have writes
/// nothing, lists the todos as they are and succeeds.
pub proof fn lemma_unknown_position_changes_nothing(
    number: int,
    todo_path: Seq<char>,
    done_path: Seq<char>,
    todos: Option<Seq<char>>,
    stamp: Seq<char>,
)
    requires
        !has_position(todos, number),
    ensures
        completed(number, todos, stamp) is None,
        complete_run(number, todo_path, done_path, Ok(todos), stamp) == printed(
            list_output(todos),
        ),
        forall|i: int|
            0 <= i < complete_run(number, todo_path, done_path, Ok(todos), stamp).effects.len()
                ==> #[trigger] complete_run(
                number,
                todo_path,
                done_path,
                Ok(todos),
                stamp,
            ).effects[i] is Print,
{
}

/// The positions that a search finds are exactly those of the lines in which
/// the term occurs, each once and in rising order.
pub proof fn lemma_hits_are_exact(lines: Seq<Seq<char>>, term: Seq<char>)
    ensures
        forall|k: int|
            0 <= k < hits(lines, term).len() ==> 0 <= #[trigger] hits(lines, term)[k] < lines.len()
                && contains(lines[hits(lines, term)[k]], term),
        forall|j: int, k: int|
            0 <= j < k < hits(lines, term).len() ==> hits(lines, term)[j] < hits(lines, term)[k],
        forall|i: int|
            0 <= i < lines.len() && contains(#[trigger] lines[i], term) ==> hits(
                lines,
                term,
            ).contains(i),
        hits(lines, term).len() <= lines.len(),
    decreases lines.len(),
{
    if lines.len() > 0 {
        let shorter = lines.drop_last();
        let before = hits(shorter, term);
        let found = hits(lines, term);
        lemma_hits_are_exact(shorter, term);
        assert forall|k: int| 0 <= k < found.len() implies 0 <= #[trigger] found[k] < lines.len()
            && contains(lines[found[k]], term) by {
            if k < before.len() {
                assert(found[k] == before[k]);
                assert(shorter[before[k]] == lines[before[k]]);
            }
        }
        assert forall|j: int, k: int| 0 <= j < k < found.len() implies found[j] < found[k] by {
            assert(found[j] == before[j]);
            if k < before.len() {
                assert(found[k] == before[k]);
            }
        }
        assert forall|i: int|
            0 <= i < lines.len() && contains(#[trigger] lines[i], term) implies found.contains(
            i,
        ) by {
            if i < shorter.len() {
                assert(shorter[i] == lines[i]);
                assert(before.contains(i));
                let k = choose|k: int| 0 <= k < before.len() && before[k] == i;
                assert(found[k] == i);
            } else {
                assert(found[found.len() - 1] == i);
            }
        }
    }
}

/// A search of a todo file of N lines for a term that occurs in M of them
/// prints those M lines, each with its position in the file, then an empty
/// line and the summary of M out of N.
pub proof fn lemma_search_prints_the_hits(term: Seq<char>, todos: Seq<char>)
    ensures
        ({
            let lines = lines_of(todos);
            let found = hits(lines, term);
            let output = search_output(term, Some(todos));
            &&& output.len() == found.len() + 2
            &&& forall|k: int|
                0 <= k < found.len() ==> #[trigger] output[k] == numbered(
                    (found[k] + 1) as nat,
                    lines[found[k]],
                )
            &&& output[found.len() as int] == Seq::<char>::empty()
            &&& output[found.len() as int + 1] == summary(found.len(), lines.len())
        }),
{
}

/// A todo that is created and then completed at the position where it was
/// listed leaves the todo file with the lines that it had before, and stands
/// in the done file as the last entry.
pub proof fn lemma_created_then_completed(
    todos: Option<Seq<char>>,
    done: Option<Seq<char>>,
    todo: Seq<char>,
    stamp: Seq<char>,
)
    requires
        file_closed(todos),
        file_closed(done),
        no_line_ends_with_return(content(todos)),
        is_entry(todo),
        single_line(stamp),
    ensures
        ({
            let before = lines_of(content(todos));
            let after = appended(todos, todo_line(todo));
            let position = before.len() + 1;
            &&& list_output(Some(after))[position - 1] == numbered(position, todo)
            &&& completed(position as int, Some(after), stamp) matches Some((rest, entry)) && {
                &&& lines_of(rest) == before
                &&& list_output(Some(rest)) == list_output(Some(content(todos)))
                &&& done_output(Some(appended(done, entry))) == done_output(
                    Some(content(done)),
                ).push(done_line(done_entry(stamp, todo)))
            }
        }),
{
    let before = lines_of(content(todos));
    let after = appended(todos, todo_line(todo));
    let position = before.len() + 1;
    lemma_created_is_listed_last(todos, todo);
    assert(lines_of(after) == before.push(todo));
    assert forall|i: int| 0 <= i < lines_of(after).len() implies !ends_with_return(
        #[trigger] lines_of(after)[i],
    ) by {
        if i < before.len() {
            assert(lines_of(after)[i] == before[i]);
        }
    }
    lemma_completed_moves_one_line(position as int, after, done, stamp);
    assert(before.push(todo).remove(position - 1) =~= before);
    let entry = done_entry(stamp, todo) + "\n"@;
    assert(done_output(Some(appended(done, entry))) =~= done_output(Some(content(done))).push(
        done_line(done_entry(stamp, todo)),
    ));
}

/// The position that a listing shows in front of a todo, which is one or
/// more, is the one that the command line reads back behind `do`, whatever
/// follows it.
pub proof fn lemma_listed_position_is_read_back(position: usize, words: Seq<Seq<char>>)
    requires
        position >= 1,
        words.len() >= 2,
        words[0] == "do"@,
        words[1] == decimal(position as nat),
    ensures
        parsed(words) == Ok::<CommandView, Seq<char>>(CommandView::DoTodo(position)),
{
    reveal_strlit("do");
    reveal_strlit("a");
    reveal_strlit("add");
    assert("do"@.len() == 2 && "a"@.len() == 1 && "add"@.len() == 3);
    lemma_number_of_decimal(position);
}

/// What a file holds does not matter to a command that does not read it: the
/// todo file to the unsupported command, the done file to every command but
/// listing everything.
pub proof fn lemma_unread_file_is_ignored(
    command: CommandView,
    todo_path: Seq<char>,
    done_path: Seq<char>,
    todos: Result<Option<Seq<char>>, Seq<char>>,
    done: Result<Option<Seq<char>>, Seq<char>>,
    other: Result<Option<Seq<char>>, Seq<char>>,
    stamp: Seq<char>,
)
    ensures
        command is Unsupported ==> run_spec(command, todo_path, done_path, other, done, stamp)
            == run_spec(command, todo_path, done_path, todos, done, stamp),
        !(command is ListAllTodos) ==> run_spec(command, todo_path, done_path, todos, other, stamp)
            == run_spec(command, todo_path, done_path, todos, done, stamp),
{
}

/// The command line is refused in two cases and in no other: behind `a` or
/// `add` the words leave no text once they are joined and trimmed, or behind
/// `do` the next word is missing or stands for no number of one or more.
pub proof fn lemma_refused_command_lines(words: Seq<Seq<char>>)
    ensures
        parsed(words) is Err <==> words.len() > 0 && {
            let rest = words.skip(1);
            ||| (words[0] == "a"@ || words[0] == "add"@) && trimmed(joined(rest)).len() == 0
            ||| words[0] == "do"@ && (rest.len() == 0 || !(number_of(rest[0]) matches Some(number)
                && number >= 1))
        },
{
    reveal_strlit("do");
    reveal_strlit("a");
    reveal_strlit("add");
    assert("do"@.len() == 2 && "a"@.len() == 1 && "add"@.len() == 3);
    assert(trimmed(joined(Seq::<Seq<char>>::empty())).len() == 0);
}

/// Whether `token` is one of the words that name a command.
pub open spec fn is_command_word(token: Seq<char>) -> bool {
    ||| token == "a"@
    ||| token == "add"@
    ||| token == "do"@
    ||| token == "ls"@
    ||| token == "list"@
    ||| token == "la"@
    ||| token == "listall"@
}

/// A first argument that names no command makes the unsupported command,
/// whatever follows it, and so does a command line without arguments.
/// Running that command fails with one fixed message and does nothing,
/// whatever the files hold.
pub proof fn lemma_unknown_word_is_unsupported(
    words: Seq<Seq<char>>,
    todo_path: Seq<char>,
    done_path: Seq<char>,
    todos: Result<Option<Seq<char>>, Seq<char>>,
    done: Result<Option<Seq<char>>, Seq<char>>,
    stamp: Seq<char>,
)
    requires
        words.len() == 0 || !is_command_word(words[0]),
    ensures
        parsed(words) == Ok::<CommandView, Seq<char>>(CommandView::Unsupported),
        run_spec(CommandView::Unsupported, todo_path, done_path, todos, done, stamp) == (
        OutcomeView { effects: Seq::empty(), result: Err("Unsupported command!"@) }),
{
}

} // verus!
