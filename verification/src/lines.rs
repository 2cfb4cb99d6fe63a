//! The file format: a text is a run of lines, each closed by a line feed.

use crate::text::chars_of;
use vstd::prelude::*;

verus! {

/// Whether the line feed occurs nowhere in `s`.
pub open spec fn single_line(s: Seq<char>) -> bool {
    forall|i: int| 0 <= i < s.len() ==> #[trigger] s[i] != '\n'
}

/// Whether `s` ends with a carriage return.
pub open spec fn ends_with_return(s: Seq<char>) -> bool {
    s.len() > 0 && s.last() == '\r'
}

/// What can be stored as one line and read back unchanged: a text without a
/// line feed that does not end with a carriage return.
pub open spec fn is_entry(s: Seq<char>) -> bool {
    single_line(s) && !ends_with_return(s)
}

/// Whether every text of `lines` is an entry.
pub open spec fn all_entries(lines: Seq<Seq<char>>) -> bool {
    forall|i: int| 0 <= i < lines.len() ==> is_entry(#[trigger] lines[i])
}

/// Whether `text` is empty or ends with a line feed, so that what is
/// appended to it starts a new line.
pub open spec fn is_closed(text: Seq<char>) -> bool {
    text.len() == 0 || text.last() == '\n'
}

/// The position of the first line feed of `s`, or the length of `s` where it
/// has none.
pub open spec fn line_end(s: Seq<char>) -> int
    decreases s.len(),
{
    if s.len() == 0 || s[0] == '\n' {
        0
    } else {
        1 + line_end(s.skip(1))
    }
}

/// `line` without the carriage return that may stand at its end.
pub open spec fn without_return(line: Seq<char>) -> Seq<char> {
    if ends_with_return(line) {
        line.drop_last()
    } else {
        line
    }
}

/// The lines of `text`. A line ends at a line feed, or at a carriage return
/// directly followed by a line feed; neither belongs to the line. What
/// follows the last line feed is a line too, unless it is empty.
pub open spec fn lines_of(text: Seq<char>) -> Seq<Seq<char>>
    decreases text.len(),
{
    let end = line_end(text);
    if text.len() == 0 {
        Seq::empty()
    } else if 0 <= end < text.len() {
        seq![without_return(text.take(end))] + lines_of(text.skip(end + 1))
    } else {
        seq![text]
    }
}

/// The text that holds `lines`, each closed by a line feed.
pub open spec fn rendered(lines: Seq<Seq<char>>) -> Seq<char>
    decreases lines.len(),
{
    if lines.len() == 0 {
        Seq::empty()
    } else {
        lines[0] + seq!['\n'] + rendered(lines.skip(1))
    }
}

/// `line_end` finds the first line feed.
pub proof fn lemma_line_end(s: Seq<char>)
    ensures
        0 <= line_end(s) <= s.len(),
        single_line(s.take(line_end(s))),
        line_end(s) < s.len() ==> s[line_end(s)] == '\n',
    decreases s.len(),
{
    if s.len() == 0 || s[0] == '\n' {
    } else {
        let rest = s.skip(1);
        lemma_line_end(rest);
        let e = line_end(s);
        assert forall|i: int| 0 <= i < e implies #[trigger] s.take(e)[i] != '\n' by {
            if i > 0 {
                assert(rest.take(e - 1)[i - 1] == s[i]);
            }
        }
    }
}

/// A position before which no line feed stands, and at which the text ends
/// or a line feed stands, is the one that `line_end` gives.
pub proof fn lemma_line_end_at(s: Seq<char>, e: int)
    requires
        0 <= e <= s.len(),
        forall|i: int| 0 <= i < e ==> s[i] != '\n',
        e < s.len() ==> s[e] == '\n',
    ensures
        line_end(s) == e,
    decreases e,
{
    if e > 0 {
        lemma_line_end_at(s.skip(1), e - 1);
    }
}

/// No line of a text holds a line feed.
pub proof fn lemma_lines_single(text: Seq<char>)
    ensures
        forall|i: int| 0 <= i < lines_of(text).len() ==> single_line(#[trigger] lines_of(text)[i]),
    decreases text.len(),
{
    let end = line_end(text);
    lemma_line_end(text);
    if text.len() == 0 {
    } else if end < text.len() {
        lemma_lines_single(text.skip(end + 1));
        let rest = lines_of(text.skip(end + 1));
        assert forall|i: int| 0 <= i < lines_of(text).len() implies single_line(
            #[trigger] lines_of(text)[i],
        ) by {
            if i == 0 {
                let line = text.take(end);
                let kept = without_return(line);
                assert forall|j: int| 0 <= j < kept.len() implies #[trigger] kept[j] != '\n' by {
                    assert(kept[j] == line[j]);
                }
            } else {
                assert(lines_of(text)[i] == rest[i - 1]);
            }
        }
    } else {
        assert(text.take(end) == text);
    }
}

/// A text that starts with a line closed by a line feed holds that line,
/// then the lines of what follows.
pub proof fn lemma_lines_first(line: Seq<char>, rest: Seq<char>)
    requires
        single_line(line),
    ensures
        lines_of(line + seq!['\n'] + rest) == seq![without_return(line)] + lines_of(rest),
{
    let text = line + seq!['\n'] + rest;
    lemma_line_end_at(text, line.len() as int);
    assert(text.take(line.len() as int) == line);
    assert(text.skip(line.len() as int + 1) == rest);
}

/// The lines of two texts in a row are the lines of the first, then the
/// lines of the second, where the first one is closed.
pub proof fn lemma_lines_concat(a: Seq<char>, b: Seq<char>)
    requires
        is_closed(a),
    ensures
        lines_of(a + b) == lines_of(a) + lines_of(b),
    decreases a.len(),
{
    if a.len() == 0 {
        assert(a + b == b);
        assert(lines_of(a) + lines_of(b) == lines_of(b));
    } else {
        lemma_line_end(a);
        let e = line_end(a);
        if e == a.len() {
            assert(a.take(e)[e - 1] == '\n');
        }
        let line = a.take(e);
        let tail = a.skip(e + 1);
        assert(a == line + seq!['\n'] + tail);
        assert(a + b == line + seq!['\n'] + (tail + b));
        if tail.len() > 0 {
            assert(tail.last() == a.last());
        }
        lemma_lines_concat(tail, b);
        lemma_lines_first(line, tail);
        lemma_lines_first(line, tail + b);
        assert(seq![without_return(line)] + (lines_of(tail) + lines_of(b)) == (seq![
            without_return(line),
        ] + lines_of(tail)) + lines_of(b));
    }
}

/// Rendering goes through concatenation.
pub proof fn lemma_rendered_concat(x: Seq<Seq<char>>, y: Seq<Seq<char>>)
    ensures
        rendered(x + y) == rendered(x) + rendered(y),
    decreases x.len(),
{
    if x.len() == 0 {
        assert(x + y == y);
        assert(rendered(x) + rendered(y) == rendered(y));
    } else {
        assert((x + y).skip(1) == x.skip(1) + y);
        lemma_rendered_concat(x.skip(1), y);
        assert(rendered(x + y) == x[0] + seq!['\n'] + (rendered(x.skip(1)) + rendered(y)));
        assert(rendered(x + y) == rendered(x) + rendered(y));
    }
}

/// A rendered text is closed.
pub proof fn lemma_rendered_closed(lines: Seq<Seq<char>>)
    ensures
        is_closed(rendered(lines)),
    decreases lines.len(),
{
    if lines.len() > 0 {
        lemma_rendered_closed(lines.skip(1));
    }
}

/// Entries that are rendered and read again come back unchanged.
pub proof fn lemma_lines_of_rendered(lines: Seq<Seq<char>>)
    requires
        all_entries(lines),
    ensures
        lines_of(rendered(lines)) == lines,
    decreases lines.len(),
{
    if lines.len() == 0 {
    } else {
        let rest = lines.skip(1);
        assert forall|i: int| 0 <= i < rest.len() implies is_entry(#[trigger] rest[i]) by {
            assert(rest[i] == lines[i + 1]);
        }
        lemma_lines_of_rendered(rest);
        lemma_lines_first(lines[0], rendered(rest));
        assert(seq![lines[0]] + rest == lines);
    }
}

/// Splits `text` into its lines.
pub fn split_lines(text: &str) -> (lines: Vec<String>)
    ensures
        lines.deep_view() == lines_of(text@),
{
    let chars = chars_of(text);
    let n = chars.len();
    let mut lines: Vec<String> = Vec::new();
    let mut start: usize = 0;
    assert(text@.skip(0) == text@);
    assert(lines.deep_view() + lines_of(text@) == lines_of(text@));
    while start < n
        invariant
            start <= n,
            n == chars.len(),
            chars@ == text@,
            lines_of(text@) == lines.deep_view() + lines_of(text@.skip(start as int)),
        decreases n - start,
    {
        let ghost rest = text@.skip(start as int);
        let mut end: usize = start;
        while end < n && chars[end] != '\n'
            invariant
                start <= end <= n,
                n == chars.len(),
                forall|i: int| start <= i < end ==> chars[i] != '\n',
            decreases n - end,
        {
            end += 1;
        }
        proof {
            lemma_line_end_at(rest, end - start);
        }
        let ghost before = lines.deep_view();
        if end == n {
            lines.push(String::from_str(text.substring_char(start, n)));
            proof {
                assert(text@.subrange(start as int, n as int) == rest);
                assert(lines.deep_view() == before + seq![rest]);
                assert(text@.skip(n as int).len() == 0);
                assert(lines.deep_view() + lines_of(text@.skip(n as int)) == lines.deep_view());
            }
            start = n;
        } else {
            let stop = if end > start && chars[end - 1] == '\r' {
                end - 1
            } else {
                end
            };
            lines.push(String::from_str(text.substring_char(start, stop)));
            proof {
                let line = rest.take(end - start);
                assert(line == text@.subrange(start as int, end as int));
                assert(without_return(line) == text@.subrange(start as int, stop as int));
                assert(rest.skip(end - start + 1) == text@.skip(end + 1));
                assert(lines.deep_view() == before + seq![without_return(line)]);
                assert(before + (seq![without_return(line)] + lines_of(text@.skip(end + 1)))
                    == lines.deep_view() + lines_of(text@.skip(end + 1)));
            }
            start = end + 1;
        }
    }
    assert(lines.deep_view() + lines_of(text@.skip(start as int)) == lines.deep_view());
    lines
}

/// Renders `lines` as one text, each line closed by a line feed.
pub fn join_lines(lines: &Vec<String>) -> (text: String)
    ensures
        text@ == rendered(lines.deep_view()),
{
    let mut text = String::new();
    let mut i: usize = 0;
    assert(lines.deep_view().take(0) == Seq::<Seq<char>>::empty());
    while i < lines.len()
        invariant
            i <= lines.len(),
            text@ == rendered(lines.deep_view().take(i as int)),
        decreases lines.len() - i,
    {
        proof {
            let all = lines.deep_view();
            let one = seq![all[i as int]];
            reveal_strlit("\n");
            lemma_rendered_concat(all.take(i as int), one);
            assert(all.take(i + 1) == all.take(i as int) + one);
            assert(rendered(one.skip(1)) == Seq::<char>::empty());
            assert(rendered(one) == all[i as int] + seq!['\n']);
            assert("\n"@ == seq!['\n']);
        }
        text.append(lines[i].as_str());
        text.append("\n");
        i += 1;
    }
    assert(lines.deep_view().take(i as int) == lines.deep_view());
    text
}

} // verus!
