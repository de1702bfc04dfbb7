//! The excerpt of a note's text that is shown around a link.

use vstd::prelude::*;
use vstd::string::*;
use crate::text::{
    append_chars, chars_of, find_from, first_occurrence, first_occurrence_from,
    is_first_occurrence, lemma_first_occurrence_is, lemma_first_occurrence_none, occurs_at,
};

verus! {

/// How many characters of the text are shown on either side of a link.
pub const CONTEXT_RADIUS: usize = 50;

/// The reference written as a whole link, `[[reference]]`.
pub open spec fn closed_form(reference: Seq<char>) -> Seq<char> {
    "[["@ + reference + "]]"@
}

/// The reference written as the display part of a link, `[[reference|`.
pub open spec fn piped_form(reference: Seq<char>) -> Seq<char> {
    "[["@ + reference + "|"@
}

/// Where the excerpt around `text[at..end]` begins.
pub open spec fn excerpt_start(at: int) -> int {
    if at > CONTEXT_RADIUS {
        at - CONTEXT_RADIUS
    } else {
        0
    }
}

/// Where the excerpt around `text[at..end]` ends.
pub open spec fn excerpt_end(text: Seq<char>, end: int) -> int {
    if end + CONTEXT_RADIUS < text.len() {
        end + CONTEXT_RADIUS
    } else {
        text.len() as int
    }
}

/// The excerpt around `text[at..end]`: the radius of text on either side,
/// as far as the text goes, with `...` on each side where text was cut off.
pub open spec fn excerpt(text: Seq<char>, at: int, end: int) -> Seq<char> {
    let from = excerpt_start(at);
    let to = excerpt_end(text, end);
    (if from > 0 {
        "..."@
    } else {
        Seq::empty()
    }) + text.subrange(from, to) + (if to < text.len() {
        "..."@
    } else {
        Seq::empty()
    })
}

/// Where a link that opens at `at` in the piped form is taken to end: after the
/// first `]]` from `at` on, or after `opened` characters if none follows.
pub open spec fn piped_link_end(text: Seq<char>, at: int, opened: int) -> int {
    match first_occurrence_from(text, "]]"@, at) {
        Some(close) => close + 2,
        None => at + opened,
    }
}

/// The context shown for `reference` in `text`: the excerpt around the first
/// `[[reference]]`; where there is none, around the link that the first
/// `[[reference|` opens; where there is none either, nothing.
pub open spec fn context_of(text: Seq<char>, reference: Seq<char>) -> Seq<char> {
    match first_occurrence(text, closed_form(reference)) {
        Some(at) => excerpt(text, at, at + closed_form(reference).len()),
        None => match first_occurrence(text, piped_form(reference)) {
            Some(at) => excerpt(
                text,
                at,
                piped_link_end(text, at, piped_form(reference).len() as int),
            ),
            None => Seq::empty(),
        },
    }
}

/// An excerpt is at most two radii and two ellipses longer than what it
/// surrounds.  Where more than a radius of text stands before and after, it is
/// exactly that long, and begins and ends with `...`.
pub proof fn lemma_excerpt_len(text: Seq<char>, at: int, end: int)
    requires
        0 <= at <= end <= text.len(),
    ensures
        excerpt(text, at, end).len() <= (end - at) + 2 * CONTEXT_RADIUS + 6,
        at > CONTEXT_RADIUS && end + CONTEXT_RADIUS < text.len() ==> excerpt(text, at, end)
            == "..."@ + text.subrange(at - CONTEXT_RADIUS, end + CONTEXT_RADIUS) + "..."@
            && excerpt(text, at, end).len() == (end - at) + 2 * CONTEXT_RADIUS + 6,
{
    reveal_strlit("...");
}

/// Where the reference stands as a whole link, the context is the excerpt
/// around its first such link, and is at most two radii and two ellipses
/// longer than the link.
pub proof fn lemma_context_of_closed_link(text: Seq<char>, reference: Seq<char>, at: int)
    requires
        is_first_occurrence(text, closed_form(reference), 0, at),
    ensures
        context_of(text, reference) == excerpt(text, at, at + closed_form(reference).len()),
        closed_form(reference).len() == reference.len() + 4,
        context_of(text, reference).len() <= reference.len() + 4 + 2 * CONTEXT_RADIUS + 6,
{
    reveal_strlit("[[");
    reveal_strlit("]]");
    lemma_first_occurrence_is(text, closed_form(reference), 0, at);
    lemma_excerpt_len(text, at, at + closed_form(reference).len());
}

/// Where the reference stands in neither form, there is no context.
pub proof fn lemma_context_of_absent_link(text: Seq<char>, reference: Seq<char>)
    requires
        forall|at: int| !occurs_at(text, closed_form(reference), at),
        forall|at: int| !occurs_at(text, piped_form(reference), at),
    ensures
        context_of(text, reference).len() == 0,
{
    lemma_first_occurrence_none(text, closed_form(reference), 0);
    lemma_first_occurrence_none(text, piped_form(reference), 0);
}

fn build_excerpt(text: &Vec<char>, at: usize, end: usize) -> (context: String)
    requires
        at <= end <= text.len(),
    ensures
        context@ == excerpt(text@, at as int, end as int),
{
    let from = if at > CONTEXT_RADIUS {
        at - CONTEXT_RADIUS
    } else {
        0
    };
    let to = if text.len() - end > CONTEXT_RADIUS {
        end + CONTEXT_RADIUS
    } else {
        text.len()
    };
    let mut context = String::new();
    if from > 0 {
        context.append("...");
    }
    append_chars(&mut context, text, from, to);
    if to < text.len() {
        context.append("...");
    }
    assert(context@ =~= excerpt(text@, at as int, end as int));
    context
}

fn bracketed(open: &str, reference: &Vec<char>, close: &str) -> (pattern: Vec<char>)
    ensures
        pattern@ == open@ + reference@ + close@,
{
    let mut pattern = chars_of(open);
    let mut i: usize = 0;
    while i < reference.len()
        invariant
            i <= reference.len(),
            pattern@ == open@ + reference@.take(i as int),
        decreases reference.len() - i,
    {
        pattern.push(reference[i]);
        i += 1;
    }
    let mut tail = chars_of(close);
    pattern.append(&mut tail);
    assert(reference@.take(reference.len() as int) == reference@);
    pattern
}

/// The text around the first link to `link_text` in `content`, for display:
/// up to fifty characters before the link and up to fifty after it, with
/// `...` where text was left out.  Empty if `content` holds no such link.
pub fn get_link_context(content: &str, link_text: &str) -> (context: String)
    ensures
        context@ == context_of(content@, link_text@),
{
    let text = chars_of(content);
    let reference = chars_of(link_text);
    context_in(&text, &reference)
}

/// The same on character sequences.
pub fn context_in(text: &Vec<char>, reference: &Vec<char>) -> (context: String)
    ensures
        context@ == context_of(text@, reference@),
{
    let closed = bracketed("[[", reference, "]]");
    match find_from(text, &closed, 0) {
        Some(at) => build_excerpt(text, at, at + closed.len()),
        None => {
            let piped = bracketed("[[", reference, "|");
            match find_from(text, &piped, 0) {
                Some(at) => {
                    let closing = chars_of("]]");
                    let end = match find_from(text, &closing, at) {
                        Some(close) => {
                            proof {
                                reveal_strlit("]]");
                            }
                            close + 2
                        },
                        None => at + piped.len(),
                    };
                    build_excerpt(text, at, end)
                },
                None => String::new(),
            }
        },
    }
}

} // verus!
