//! A note's display title: its first level-one heading.

use vstd::prelude::*;
use vstd::string::*;
use crate::text::{chars_of, leading_bound, occurs_at, string_of, without_leading};

verus! {

/// A line that begins with `# ` starts at position `i`.
pub open spec fn is_heading_at(text: Seq<char>, i: int) -> bool {
    (i == 0 || (0 < i && text[i - 1] == '\n')) && occurs_at(text, "# "@, i)
}

/// The first heading line of `text` starts at position `i`.
pub open spec fn is_first_heading(text: Seq<char>, i: int) -> bool {
    is_heading_at(text, i) && forall|j: int| 0 <= j < i ==> !is_heading_at(text, j)
}

/// Where the first heading line of `text` starts.
pub open spec fn first_heading(text: Seq<char>) -> Option<int> {
    if exists|i: int| is_first_heading(text, i) {
        Some(choose|i: int| is_first_heading(text, i))
    } else {
        None
    }
}

/// The first position at or after `from` that holds a line feed; the length of
/// `text` if there is none.
pub open spec fn line_break(text: Seq<char>, from: int) -> int
    decreases text.len() - from,
{
    if 0 <= from < text.len() && text[from] != '\n' {
        line_break(text, from + 1)
    } else {
        from
    }
}

/// Where the line that starts at `from` ends: before its line feed, and before
/// the carriage return that may precede the line feed.
pub open spec fn line_end(text: Seq<char>, from: int) -> int {
    let stop = line_break(text, from);
    if from < stop < text.len() && text[stop - 1] == '\r' {
        stop - 1
    } else {
        stop
    }
}

/// The title of a note with this text: its first line that begins with `# `,
/// without the heading marks; `fallback` where no line begins so.
pub open spec fn title_of(text: Seq<char>, fallback: Seq<char>) -> Seq<char> {
    match first_heading(text) {
        Some(i) => without_leading(text.subrange(i, line_end(text, i)), "# "@),
        None => fallback,
    }
}

proof fn lemma_first_heading_is(text: Seq<char>, i: int)
    requires
        is_first_heading(text, i),
    ensures
        first_heading(text) == Some(i),
{
    let chosen = choose|i: int| is_first_heading(text, i);
    if chosen < i {
        assert(!is_heading_at(text, chosen));
    } else if i < chosen {
        assert(!is_heading_at(text, i));
    }
}

fn find_line_end(text: &Vec<char>, from: usize) -> (end: usize)
    requires
        from <= text.len(),
    ensures
        from <= end <= text.len(),
        end == line_end(text@, from as int),
{
    let mut stop: usize = from;
    while stop < text.len() && text[stop] != '\n'
        invariant
            from <= stop <= text.len(),
            line_break(text@, stop as int) == line_break(text@, from as int),
        decreases text.len() - stop,
    {
        stop += 1;
    }
    if from < stop && stop < text.len() && text[stop - 1] == '\r' {
        stop - 1
    } else {
        stop
    }
}

/// The title of a note, from its text.
pub fn note_title(text: &Vec<char>, fallback: &String) -> (title: String)
    ensures
        title@ == title_of(text@, fallback@),
{
    let mark = chars_of("# ");
    proof {
        reveal_strlit("# ");
    }
    let mut i: usize = 0;
    while i < text.len()
        invariant
            i <= text.len(),
            mark@ == "# "@,
            mark@.len() == 2,
            mark@[0] == '#',
            mark@[1] == ' ',
            forall|j: int| 0 <= j < i ==> !is_heading_at(text@, j),
        decreases text.len() - i,
    {
        if (i == 0 || text[i - 1] == '\n') && text.len() - i >= 2 && text[i] == '#' && text[i + 1]
            == ' ' {
            assert(text@.subrange(i as int, i + 2) == mark@);
            proof {
                lemma_first_heading_is(text@, i as int);
            }
            let end = find_line_end(text, i);
            let start = leading_bound(text, &mark, i, end);
            return string_of(text, start, end);
        }
        assert(!is_heading_at(text@, i as int)) by {
            if occurs_at(text@, mark@, i as int) {
                assert(text@.subrange(i as int, i + 2)[0] == mark@[0]);
                assert(text@.subrange(i as int, i + 2)[1] == mark@[1]);
            }
        }
        i += 1;
    }
    assert(forall|j: int| !is_heading_at(text@, j));
    fallback.clone()
}

/// The display title of a note: the text of its first line that begins with
/// `# `, or `fallback` if it has no such line.
pub fn title_from_text(content: &str, fallback: &str) -> (title: String)
    ensures
        title@ == title_of(content@, fallback@),
{
    let text = chars_of(content);
    let name = String::from_str(fallback);
    note_title(&text, &name)
}

} // verus!
